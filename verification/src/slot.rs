//! The home of a driver between operations.
//!
//! An operation takes the driver out for its duration; another operation that arrives
//! meanwhile finds the home busy instead of a half-used driver.
use vstd::prelude::*;

verus! {

/// A home that remembers whether its driver is out.
#[derive(Debug)]
pub enum Slot<T> {
    /// Not brought up yet.
    Empty,
    /// An operation has the driver.
    Busy,
    /// Brought up and idle.
    Ready(T),
}

/// What was found in a [`Slot`].
#[derive(Debug)]
pub enum Taken<T> {
    /// The driver; it must be put back.
    Driver(T),
    /// Nothing; the driver must be brought up, then put in or the slot cleared.
    Nothing,
    /// Another operation has the driver.
    Busy,
}

impl<T> Slot<T> {
    /// Take the driver out; the slot is busy from now on.
    pub fn take(&mut self) -> (taken: Taken<T>)
        ensures
            *final(self) == Slot::<T>::Busy,
            taken == match *old(self) {
                Slot::Ready(driver) => Taken::Driver(driver),
                Slot::Empty => Taken::Nothing,
                Slot::Busy => Taken::Busy,
            },
    {
        let mut held: Slot<T> = Slot::Busy;
        std::mem::swap(self, &mut held);
        match held {
            Slot::Ready(driver) => Taken::Driver(driver),
            Slot::Empty => Taken::Nothing,
            Slot::Busy => Taken::Busy,
        }
    }

    /// Put the driver in.
    pub fn put(&mut self, driver: T)
        ensures
            *final(self) == Slot::Ready(driver),
    {
        *self = Slot::Ready(driver);
    }

    /// The driver could not be brought up: the next use tries again.
    pub fn clear(&mut self)
        ensures
            *final(self) == Slot::<T>::Empty,
    {
        *self = Slot::Empty;
    }
}

/// A home whose bring-up is claimed before it starts.
#[derive(Debug)]
pub struct DriverSlot<T> {
    pub driver: Option<T>,
    /// Whether the bring-up has been claimed.
    pub brought_up: bool,
}

/// What was found in a [`DriverSlot`].
#[derive(Debug)]
pub enum SlotView<T> {
    /// The driver; it must be put back.
    Ready(T),
    /// Another operation has the driver or brings it up.
    Busy,
    /// The caller holds the claim to bring the driver up.
    NeedBringUp(BringUpClaim),
}

/// The claim to bring a driver up. While it is armed, giving it up releases the slot.
#[derive(Debug)]
pub struct BringUpClaim {
    pub armed: bool,
}

impl BringUpClaim {
    /// The driver is up: giving the claim up no longer releases the slot.
    pub fn defuse(self) -> (claim: BringUpClaim)
        ensures
            !claim.armed,
    {
        BringUpClaim { armed: false }
    }
}

/// A home after an operation asked for its driver, and what the operation found.
pub open spec fn acquired<T>(slot: DriverSlot<T>) -> (DriverSlot<T>, SlotView<T>) {
    match slot.driver {
        Some(driver) => (DriverSlot { driver: None, ..slot }, SlotView::Ready(driver)),
        None => if slot.brought_up {
            (slot, SlotView::Busy)
        } else {
            (
                DriverSlot { brought_up: true, ..slot },
                SlotView::NeedBringUp(BringUpClaim { armed: true }),
            )
        },
    }
}

/// A home after a claim was given up.
pub open spec fn given_up<T>(slot: DriverSlot<T>, claim: BringUpClaim) -> DriverSlot<T> {
    if claim.armed {
        DriverSlot { brought_up: false, ..slot }
    } else {
        slot
    }
}

impl<T> DriverSlot<T> {
    /// A home that nobody has used.
    pub fn new() -> (slot: DriverSlot<T>)
        ensures
            slot == (DriverSlot::<T> { driver: None, brought_up: false }),
    {
        DriverSlot { driver: None, brought_up: false }
    }

    /// Take the driver out, or claim its bring-up.
    pub fn acquire(&mut self) -> (view: SlotView<T>)
        ensures
            (*final(self), view) == acquired(*old(self)),
    {
        match self.driver.take() {
            Some(driver) => SlotView::Ready(driver),
            None => if self.brought_up {
                SlotView::Busy
            } else {
                self.brought_up = true;
                SlotView::NeedBringUp(BringUpClaim { armed: true })
            },
        }
    }

    /// Put the driver back when an operation ends, however it ends.
    pub fn put_back(&mut self, driver: T)
        ensures
            *final(self) == (DriverSlot { driver: Some(driver), brought_up: old(self).brought_up }),
    {
        self.driver = Some(driver);
    }

    /// Give a claim up.
    pub fn give_up(&mut self, claim: BringUpClaim)
        ensures
            *final(self) == given_up(*old(self), claim),
    {
        if claim.armed {
            self.brought_up = false;
        }
    }

    /// The resting driver.
    pub fn resting(&self) -> (driver: Option<&T>)
        ensures
            match driver {
                Some(there) => self.driver == Some(*there),
                None => self.driver is None,
            },
    {
        self.driver.as_ref()
    }
}

/// One operation at a time has the driver or brings it up: until it puts the driver back or
/// gives its claim up, every other one finds the home busy and changes nothing. A driver
/// that rests has been brought up.
pub proof fn law_lent_once<T>(slot: DriverSlot<T>)
    requires
        slot.driver is Some ==> slot.brought_up,
    ensures
        acquired(acquired(slot).0) == (acquired(slot).0, SlotView::<T>::Busy),
{
}

/// A bring-up that was not finished is tried again: after its claim was given up the next
/// operation gets a claim. A finished one is not: its claim no longer releases the home.
pub proof fn law_claims_come_back<T>(slot: DriverSlot<T>, claim: BringUpClaim)
    requires
        slot.driver is None,
        slot.brought_up,
    ensures
        claim.armed ==> acquired(given_up(slot, claim)).1 == SlotView::<T>::NeedBringUp(
            BringUpClaim { armed: true },
        ),
        !claim.armed ==> given_up(slot, claim) == slot,
{
}

/// What is put back is what the next operation gets, and only a home that was never brought
/// up hands out the claim to do so.
pub proof fn law_driver_comes_back<T>(slot: DriverSlot<T>, driver: T)
    ensures
        ({
            let (after, view) = acquired(
                DriverSlot { driver: Some(driver), brought_up: slot.brought_up },
            );
            &&& view == SlotView::Ready(driver)
            &&& after.driver is None && after.brought_up == slot.brought_up
        }),
        slot.driver is None ==> {
            let (after, view) = acquired(slot);
            &&& view is NeedBringUp <==> !slot.brought_up
            &&& view is Busy <==> slot.brought_up
            &&& view matches SlotView::NeedBringUp(claim) ==> claim.armed
            &&& after.driver is None && after.brought_up
        },
{
}

} // verus!
