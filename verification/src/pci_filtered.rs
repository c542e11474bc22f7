//! `pci.filtered`: a bus of which only the devices are visible that a policy admits, and
//! the policies `pci.admit-address` and `pci.admit-vendor`.
use vstd::prelude::*;

verus! {

/// Where a device sits.
#[derive(Clone, Copy, PartialEq, Eq, Structural, Debug)]
pub struct DeviceAddress {
    pub segment: u16,
    pub bus: u8,
    pub device: u8,
    pub function: u8,
}

/// The kind of a device's header.
#[derive(Clone, Copy, PartialEq, Eq, Structural, Debug)]
pub enum HeaderType {
    Endpoint,
    PciBridge,
    CardbusBridge,
}

/// What a device is.
#[derive(Clone, Copy, PartialEq, Eq, Structural, Debug)]
pub struct DeviceInfo {
    pub address: DeviceAddress,
    pub vendor_id: u16,
    pub device_id: u16,
    pub class_code: u8,
    pub subclass: u8,
    pub prog_if: u8,
    pub revision: u8,
    pub header: HeaderType,
}

/// Why a device is not opened.
#[derive(Clone, Copy, PartialEq, Eq, Structural, Debug)]
pub enum OpenRefusal {
    NotFound,
    Denied,
}

/// The place of the first device at an address.
pub open spec fn found_at(devices: Seq<DeviceInfo>, address: DeviceAddress, place: int) -> bool {
    &&& 0 <= place < devices.len()
    &&& devices[place].address == address
    &&& forall|i: int| 0 <= i < place ==> (#[trigger] devices[i]).address != address
}

/// The device at an address: the first of those that were enumerated.
pub fn lookup(devices: &Vec<DeviceInfo>, address: DeviceAddress) -> (found: Result<
    DeviceInfo,
    OpenRefusal,
>)
    ensures
        match found {
            Ok(info) => exists|place: int|
                found_at(devices@, address, place) && devices@[place] == info,
            Err(refusal) => refusal == OpenRefusal::NotFound && forall|i: int|
                0 <= i < devices@.len() ==> (#[trigger] devices@[i]).address != address,
        },
{
    let mut at: usize = 0;
    while at < devices.len()
        invariant
            at <= devices.len(),
            forall|i: int| 0 <= i < at ==> (#[trigger] devices@[i]).address != address,
        decreases devices.len() - at,
    {
        if devices[at].address == address {
            assert(found_at(devices@, address, at as int));
            return Ok(devices[at]);
        }
        at += 1;
    }
    Err(OpenRefusal::NotFound)
}

/// Decide about opening a device that is there: it is opened if the policy admits it.
pub fn gate(found: DeviceInfo, admitted: bool) -> (address: Result<DeviceAddress, OpenRefusal>)
    ensures
        address == if admitted {
            Ok::<DeviceAddress, OpenRefusal>(found.address)
        } else {
            Err(OpenRefusal::Denied)
        },
{
    if !admitted {
        return Err(OpenRefusal::Denied);
    }
    Ok(found.address)
}

/// The devices that a policy admits, in their order.
pub open spec fn visible(devices: Seq<DeviceInfo>, admitted: Seq<bool>) -> Seq<DeviceInfo>
    decreases devices.len(),
{
    if devices.len() == 0 {
        Seq::empty()
    } else {
        let before = visible(devices.drop_last(), admitted.drop_last());
        if admitted.last() {
            before.push(devices.last())
        } else {
            before
        }
    }
}

/// The devices that a policy admits. `admitted` holds its answer for each of them.
pub fn enumerate(devices: &Vec<DeviceInfo>, admitted: &Vec<bool>) -> (shown: Vec<DeviceInfo>)
    requires
        devices@.len() == admitted@.len(),
    ensures
        shown@ == visible(devices@, admitted@),
{
    let mut shown: Vec<DeviceInfo> = Vec::new();
    let mut at: usize = 0;
    assert(shown@ =~= visible(devices@.take(0), admitted@.take(0)));
    while at < devices.len()
        invariant
            at <= devices.len(),
            devices@.len() == admitted@.len(),
            shown@ == visible(devices@.take(at as int), admitted@.take(at as int)),
        decreases devices.len() - at,
    {
        assert(devices@.take(at + 1).drop_last() =~= devices@.take(at as int));
        assert(admitted@.take(at + 1).drop_last() =~= admitted@.take(at as int));
        if admitted[at] {
            shown.push(devices[at]);
        }
        at += 1;
    }
    assert(devices@.take(at as int) =~= devices@);
    assert(admitted@.take(at as int) =~= admitted@);
    shown
}

/// `pci.admit-address`: the addresses that are admitted; none before it is configured.
#[derive(Debug)]
pub struct AddressPolicy {
    pub allow: Option<Vec<DeviceAddress>>,
}

/// `pci.admit-vendor`: the identities that are admitted; none before it is configured.
#[derive(Debug)]
pub struct VendorPolicy {
    pub allow: Option<Vec<VendorDevice>>,
}

/// What a device is, whoever's bus it sits on.
#[derive(Clone, Copy, PartialEq, Eq, Structural, Debug)]
pub struct VendorDevice {
    pub vendor_id: u16,
    pub device_id: u16,
}

impl View for AddressPolicy {
    type V = Option<Seq<DeviceAddress>>;

    open spec fn view(&self) -> Option<Seq<DeviceAddress>> {
        match self.allow {
            Some(allow) => Some(allow@),
            None => None,
        }
    }
}

impl View for VendorPolicy {
    type V = Option<Seq<VendorDevice>>;

    open spec fn view(&self) -> Option<Seq<VendorDevice>> {
        match self.allow {
            Some(allow) => Some(allow@),
            None => None,
        }
    }
}

/// Whether an address is admitted.
pub open spec fn admits_address(allow: Option<Seq<DeviceAddress>>, info: DeviceInfo) -> bool {
    allow matches Some(list) && list.contains(info.address)
}

/// The identity of a device.
pub open spec fn identity(info: DeviceInfo) -> VendorDevice {
    VendorDevice { vendor_id: info.vendor_id, device_id: info.device_id }
}

/// Whether an identity is admitted.
pub open spec fn admits_vendor(allow: Option<Seq<VendorDevice>>, info: DeviceInfo) -> bool {
    allow matches Some(list) && list.contains(identity(info))
}

impl AddressPolicy {
    /// Admit the given addresses from now on, and no others.
    pub fn configure(&mut self, allow: Vec<DeviceAddress>)
        ensures
            final(self)@ == Some(allow@),
    {
        self.allow = Some(allow);
    }

    /// Whether a device is admitted.
    pub fn decide(&self, info: &DeviceInfo) -> (yes: bool)
        ensures
            yes == admits_address(self@, *info),
    {
        let list = match &self.allow {
            Some(list) => list,
            None => {
                return false;
            },
        };
        let mut at: usize = 0;
        while at < list.len()
            invariant
                at <= list.len(),
                self@ == Some(list@),
                forall|i: int| 0 <= i < at ==> list@[i] != info.address,
            decreases list.len() - at,
        {
            if list[at] == info.address {
                return true;
            }
            at += 1;
        }
        false
    }
}

impl VendorPolicy {
    /// Admit the given identities from now on, and no others.
    pub fn configure(&mut self, allow: Vec<VendorDevice>)
        ensures
            final(self)@ == Some(allow@),
    {
        self.allow = Some(allow);
    }

    /// Whether a device is admitted.
    pub fn decide(&self, info: &DeviceInfo) -> (yes: bool)
        ensures
            yes == admits_vendor(self@, *info),
    {
        let list = match &self.allow {
            Some(list) => list,
            None => {
                return false;
            },
        };
        let wanted = VendorDevice { vendor_id: info.vendor_id, device_id: info.device_id };
        let mut at: usize = 0;
        while at < list.len()
            invariant
                at <= list.len(),
                self@ == Some(list@),
                wanted == identity(*info),
                forall|i: int| 0 <= i < at ==> list@[i] != wanted,
            decreases list.len() - at,
        {
            if list[at] == wanted {
                return true;
            }
            at += 1;
        }
        false
    }
}

/// A device is visible exactly if it was enumerated and the policy admits it; nothing
/// else is.
pub proof fn law_shows_only_admitted(devices: Seq<DeviceInfo>, admitted: Seq<bool>, info: DeviceInfo)
    requires
        devices.len() == admitted.len(),
    ensures
        visible(devices, admitted).contains(info) <==> exists|i: int|
            0 <= i < devices.len() && #[trigger] devices[i] == info && admitted[i],
    decreases devices.len(),
{
    if devices.len() > 0 {
        let fewer = devices.drop_last();
        let answers = admitted.drop_last();
        law_shows_only_admitted(fewer, answers, info);
        let before = visible(fewer, answers);
        let after = visible(devices, admitted);
        let last = devices.len() - 1;
        if after.contains(info) {
            let place = choose|i: int| 0 <= i < after.len() && after[i] == info;
            if place < before.len() {
                assert(before[place] == info);
                let i = choose|i: int|
                    0 <= i < fewer.len() && #[trigger] fewer[i] == info && answers[i];
                assert(devices[i] == info && admitted[i]);
            } else {
                assert(devices[last] == info && admitted[last]);
            }
        }
        if exists|i: int| 0 <= i < devices.len() && #[trigger] devices[i] == info && admitted[i] {
            let i = choose|i: int|
                0 <= i < devices.len() && #[trigger] devices[i] == info && admitted[i];
            if i < last {
                assert(fewer[i] == info && answers[i]);
                let place = choose|p: int| 0 <= p < before.len() && before[p] == info;
                assert(after[place] == info);
            } else {
                assert(after[before.len() as int] == info);
            }
        }
    }
}

/// Policies that are not configured admit nothing.
pub proof fn law_unconfigured_admits_nothing(info: DeviceInfo)
    ensures
        !admits_address(None, info),
        !admits_vendor(None, info),
{
}

/// An identity is admitted wherever its device sits: moving a device changes nothing.
pub proof fn law_identity_is_stable(
    allow: Option<Seq<VendorDevice>>,
    one: DeviceInfo,
    other: DeviceInfo,
)
    requires
        identity(one) == identity(other),
    ensures
        admits_vendor(allow, one) == admits_vendor(allow, other),
{
}

/// Devices are shown one by one and in their order: what is shown of a list is what is shown
/// of its first part, then what is shown of its second; one device is shown or is not.
pub proof fn law_devices_keep_their_order(
    first: Seq<DeviceInfo>,
    admitted: Seq<bool>,
    second: Seq<DeviceInfo>,
    also: Seq<bool>,
)
    requires
        first.len() == admitted.len(),
        second.len() == also.len(),
    ensures
        visible(first + second, admitted + also) == visible(first, admitted) + visible(second, also),
        second.len() == 1 && also[0] ==> visible(second, also) == second,
        second.len() == 1 && !also[0] ==> visible(second, also).len() == 0,
        visible(Seq::empty(), Seq::empty()).len() == 0,
    decreases second.len(),
{
    if second.len() == 0 {
        assert(first + second =~= first);
        assert(admitted + also =~= admitted);
        assert(visible(first, admitted) + visible(second, also) =~= visible(first, admitted));
    } else {
        assert((first + second).drop_last() =~= first + second.drop_last());
        assert((admitted + also).drop_last() =~= admitted + also.drop_last());
        law_devices_keep_their_order(first, admitted, second.drop_last(), also.drop_last());
        assert(visible(first + second, admitted + also) =~= visible(first, admitted) + visible(
            second,
            also,
        ));
        if second.len() == 1 {
            assert(visible(second.drop_last(), also.drop_last()) =~= Seq::empty());
            if also[0] {
                assert(visible(second, also) =~= second);
            }
        }
    }
}

/// A policy admits a device exactly where it lists the very place, or the very identity: the
/// vendor and the device both.
pub proof fn law_policies_admit_what_they_list(
    places: Seq<DeviceAddress>,
    identities: Seq<VendorDevice>,
    info: DeviceInfo,
)
    ensures
        admits_address(Some(places), info) <==> exists|i: int|
            0 <= i < places.len() && (#[trigger] places[i]).segment == info.address.segment
                && places[i].bus == info.address.bus && places[i].device == info.address.device
                && places[i].function == info.address.function,
        admits_vendor(Some(identities), info) <==> exists|i: int|
            0 <= i < identities.len() && (#[trigger] identities[i]).vendor_id == info.vendor_id
                && identities[i].device_id == info.device_id,
{
    if admits_address(Some(places), info) {
        let i = choose|i: int| 0 <= i < places.len() && places[i] == info.address;
        assert(places[i].segment == info.address.segment);
    }
    if exists|i: int|
        0 <= i < places.len() && (#[trigger] places[i]).segment == info.address.segment
            && places[i].bus == info.address.bus && places[i].device == info.address.device
            && places[i].function == info.address.function {
        let i = choose|i: int|
            0 <= i < places.len() && (#[trigger] places[i]).segment == info.address.segment
                && places[i].bus == info.address.bus && places[i].device == info.address.device
                && places[i].function == info.address.function;
        assert(places[i] == info.address);
    }
    if admits_vendor(Some(identities), info) {
        let i = choose|i: int| 0 <= i < identities.len() && identities[i] == identity(info);
        assert(identities[i].vendor_id == info.vendor_id);
    }
    if exists|i: int|
        0 <= i < identities.len() && (#[trigger] identities[i]).vendor_id == info.vendor_id
            && identities[i].device_id == info.device_id {
        let i = choose|i: int|
            0 <= i < identities.len() && (#[trigger] identities[i]).vendor_id == info.vendor_id
                && identities[i].device_id == info.device_id;
        assert(identities[i] == identity(info));
    }
}

/// The device at an address is found wherever there is one, and it is the first of those at
/// the address: no other place counts as found.
pub proof fn law_device_is_found_where_it_is(
    devices: Seq<DeviceInfo>,
    address: DeviceAddress,
    there: int,
    other: int,
) -> (place: int)
    requires
        0 <= there < devices.len(),
        devices[there].address == address,
    ensures
        0 <= place <= there,
        found_at(devices, address, place),
        found_at(devices, address, other) ==> other == place,
        forall|i: int| 0 <= i < place ==> (#[trigger] devices[i]).address != address,
    decreases there,
{
    if exists|i: int| 0 <= i < there && (#[trigger] devices[i]).address == address {
        let earlier = choose|i: int| 0 <= i < there && (#[trigger] devices[i]).address == address;
        law_device_is_found_where_it_is(devices, address, earlier, other)
    } else {
        there
    }
}

} // verus!
