//! What the two-port link providers share: the ports, their addresses, the addresses of
//! frames, and the errors of the link above.
use vstd::prelude::*;
use vstd::string::*;

use crate::l2::{L2Error, L2Failure, Mac};
use crate::text::{
    byte_of, contents, debug_text, decimal, hex, law_bytes_are_read_back,
    law_text_is_cut_at_separators, mac_text, parse_byte, pieces, push_debug, push_decimal, split,
};

verus! {

/// The largest frame that is queued or forwarded.
pub const MAX_FRAME_BYTES: u64 = 2048;

/// Frames that a port holds before the oldest is dropped.
pub const RX_QUEUE_CAP: usize = 32;

/// Receive attempts of one drain of the uplink.
pub const DRAIN_BATCH: u32 = 16;

/// One of the two ports.
#[derive(Clone, Copy, PartialEq, Eq, Structural, Debug)]
pub enum Slot {
    A,
    B,
}

impl Slot {
    /// The number of the port.
    pub open spec fn number(self) -> int {
        match self {
            Slot::A => 0,
            Slot::B => 1,
        }
    }

    /// The other port.
    pub open spec fn other(self) -> Slot {
        match self {
            Slot::A => Slot::B,
            Slot::B => Slot::A,
        }
    }

    /// The other port.
    pub fn sibling(self) -> (other: Slot)
        ensures
            other == self.other(),
    {
        match self {
            Slot::A => Slot::B,
            Slot::B => Slot::A,
        }
    }
}

/// The address of a port: the base with its last byte advanced by the port's number and
/// one, counting round.
pub open spec fn port_address(base: Mac, slot: Slot) -> Mac {
    (base.0, base.1, base.2, base.3, base.4, ((base.5 + slot.number() + 1) % 256) as u8)
}

/// The address of a port.
pub fn port_mac(base: Mac, slot: Slot) -> (mac: Mac)
    ensures
        mac == port_address(base, slot),
{
    let step: u16 = match slot {
        Slot::A => 1,
        Slot::B => 2,
    };
    (base.0, base.1, base.2, base.3, base.4, ((base.5 as u16 + step) % 256) as u8)
}

/// The two ports never share an address.
pub proof fn law_port_addresses_differ(base: Mac)
    ensures
        port_address(base, Slot::A) != port_address(base, Slot::B),
{
}

/// Whether an address stands for a group of stations.
pub open spec fn is_group(mac: Mac) -> bool {
    mac.0 % 2 == 1
}

/// Whether an address stands for a group of stations.
pub fn group_address(mac: Mac) -> (group: bool)
    ensures
        group == is_group(mac),
{
    mac.0 % 2 == 1
}

/// Whether two addresses are equal.
pub fn same_mac(one: Mac, other: Mac) -> (same: bool)
    ensures
        same == (one == other),
{
    one.0 == other.0 && one.1 == other.1 && one.2 == other.2 && one.3 == other.3 && one.4
        == other.4 && one.5 == other.5
}

/// The address at an offset of a frame.
pub open spec fn mac_at(frame: Seq<u8>, at: int) -> Mac {
    (frame[at], frame[at + 1], frame[at + 2], frame[at + 3], frame[at + 4], frame[at + 5])
}

/// The address at an offset of a frame.
pub fn read_mac(frame: &[u8], at: usize) -> (mac: Mac)
    requires
        at + 6 <= frame@.len(),
    ensures
        mac == mac_at(frame@, at as int),
{
    (frame[at], frame[at + 1], frame[at + 2], frame[at + 3], frame[at + 4], frame[at + 5])
}

/// Why a frame is not accepted, if it is not.
pub open spec fn frame_refusal(frame: Seq<u8>) -> Option<L2Failure> {
    if frame.len() < 14 {
        Some(
            L2Failure::Io(
                "frame too short to be Ethernet ("@ + decimal(frame.len()) + " bytes)"@,
            ),
        )
    } else if frame.len() > MAX_FRAME_BYTES {
        Some(L2Failure::FrameTooLarge)
    } else {
        None
    }
}

/// Check that a frame is accepted.
pub fn check_frame(frame: &[u8]) -> (result: Result<(), L2Error>)
    ensures
        match result {
            Ok(_) => frame_refusal(frame@) is None,
            Err(error) => frame_refusal(frame@) == Some(error@),
        },
{
    if frame.len() < 14 {
        let mut text = String::from_str("frame too short to be Ethernet (");
        push_decimal(&mut text, frame.len() as u64);
        text.append(" bytes)");
        Err(L2Error::Io(text))
    } else if frame.len() as u64 > MAX_FRAME_BYTES {
        Err(L2Error::FrameTooLarge)
    } else {
        Ok(())
    }
}

/// A failure of the link above; one without a counterpart here is shown.
#[derive(Debug)]
pub enum UplinkError {
    Denied,
    LinkDown,
    FrameTooLarge,
    /// Any other failure, in its shown form.
    Other(String),
}

/// A failure of the link above, in the terms of a port.
pub open spec fn uplink_failed(error: UplinkError) -> L2Failure {
    match error {
        UplinkError::Denied => L2Failure::Denied,
        UplinkError::LinkDown => L2Failure::LinkDown,
        UplinkError::FrameTooLarge => L2Failure::FrameTooLarge,
        UplinkError::Other(shown) => L2Failure::Io("uplink: "@ + shown@),
    }
}

/// A failure of the link above, in the terms of a port.
pub fn uplink_failure(error: UplinkError) -> (failure: L2Error)
    ensures
        failure@ == uplink_failed(error),
{
    match error {
        UplinkError::Denied => L2Error::Denied,
        UplinkError::LinkDown => L2Error::LinkDown,
        UplinkError::FrameTooLarge => L2Error::FrameTooLarge,
        UplinkError::Other(shown) => {
            let mut text = String::from_str("uplink: ");
            text.append(shown.as_str());
            L2Error::Io(text)
        },
    }
}

/// What is known of an interface of the link above.
#[derive(Clone, Copy, PartialEq, Eq, Structural, Debug)]
pub struct LinkInfo {
    pub mtu: u32,
    pub up: bool,
}

/// Choose the interface of the link above: its first one.
pub fn choose_uplink(interfaces: &[LinkInfo]) -> (chosen: Result<LinkInfo, L2Error>)
    ensures
        match chosen {
            Ok(first) => interfaces@.len() > 0 && first == interfaces@[0],
            Err(error) => interfaces@.len() == 0 && error@ == L2Failure::Io(
                "the upstream l2 exposes no interfaces"@,
            ),
        },
{
    if interfaces.len() == 0 {
        Err(L2Error::Io(String::from_str("the upstream l2 exposes no interfaces")))
    } else {
        Ok(interfaces[0])
    }
}

/// The hardware address that a text denotes: six bytes in hexadecimal between colons.
pub open spec fn mac_of(text: Seq<char>) -> Option<Mac> {
    let parts = pieces(text, ':');
    if parts.len() == 6 && byte_of(parts[0], 16) is Some && byte_of(parts[1], 16) is Some
        && byte_of(parts[2], 16) is Some && byte_of(parts[3], 16) is Some && byte_of(
        parts[4],
        16,
    ) is Some && byte_of(parts[5], 16) is Some {
        Some(
            (
                byte_of(parts[0], 16)->0,
                byte_of(parts[1], 16)->0,
                byte_of(parts[2], 16)->0,
                byte_of(parts[3], 16)->0,
                byte_of(parts[4], 16)->0,
                byte_of(parts[5], 16)->0,
            ),
        )
    } else {
        None
    }
}

/// What is said of a text that is no hardware address.
pub open spec fn not_a_mac(text: Seq<char>) -> Seq<char> {
    "not a colon-separated MAC address: "@ + debug_text(text)
}

fn complain(what: &str, text: &str) -> (complaint: String)
    ensures
        complaint@ == what@ + debug_text(text@),
{
    let mut complaint = String::from_str(what);
    push_debug(&mut complaint, text);
    complaint
}

/// Parse a hardware address such as `02:e0:09:00:01:00`.
pub fn parse_mac(text: &str) -> (result: Result<Mac, String>)
    ensures
        match result {
            Ok(mac) => mac_of(text@) == Some(mac),
            Err(complaint) => mac_of(text@) is None && complaint@ == not_a_mac(text@),
        },
{
    let parts = split(text, ':');
    if parts.len() == 6 {
        proof {
            let there = contents(parts@);
            assert(there[0] == parts@[0]@ && there[1] == parts@[1]@ && there[2] == parts@[2]@);
            assert(there[3] == parts@[3]@ && there[4] == parts@[4]@ && there[5] == parts@[5]@);
        }
        match (
            parse_byte(&parts[0], 16),
            parse_byte(&parts[1], 16),
            parse_byte(&parts[2], 16),
            parse_byte(&parts[3], 16),
            parse_byte(&parts[4], 16),
            parse_byte(&parts[5], 16),
        ) {
            (Some(a), Some(b), Some(c), Some(d), Some(e), Some(f)) => {
                return Ok((a, b, c, d, e, f));
            },
            _ => {},
        }
    } else {
        assert(contents(parts@).len() == parts@.len());
    }
    Err(complain("not a colon-separated MAC address: ", text))
}

/// Why a text is refused as the base of the port addresses, if it is.
pub open spec fn base_refusal(text: Seq<char>) -> Option<Seq<char>> {
    match mac_of(text) {
        None => Some(not_a_mac(text)),
        Some(mac) => if (mac.0 / 2) % 2 == 0 {
            Some(
                "the MAC base must be locally administered (bit 0x02 of the first octet): "@
                    + debug_text(text),
            )
        } else if is_group(mac) {
            Some(
                "the MAC base must not be a multicast address (bit 0x01 of the first octet): "@
                    + debug_text(text),
            )
        } else {
            None
        },
    }
}

/// Set the base of the port addresses: a locally administered station address.
pub fn configure(base: &mut Option<Mac>, text: &str) -> (result: Result<(), String>)
    ensures
        match result {
            Ok(_) => base_refusal(text@) is None && *final(base) == mac_of(text@),
            Err(complaint) => base_refusal(text@) == Some(complaint@) && *final(base) == *old(
                base,
            ),
        },
{
    let mac = match parse_mac(text) {
        Ok(mac) => mac,
        Err(complaint) => return Err(complaint),
    };
    if (mac.0 / 2) % 2 == 0 {
        return Err(
            complain(
                "the MAC base must be locally administered (bit 0x02 of the first octet): ",
                text,
            ),
        );
    }
    if group_address(mac) {
        return Err(
            complain(
                "the MAC base must not be a multicast address (bit 0x01 of the first octet): ",
                text,
            ),
        );
    }
    *base = Some(mac);
    Ok(())
}

/// The addresses of the ports are the two that follow the base: they differ from it in the
/// last byte alone, which is one more for the first port and two more for the second.
pub proof fn law_port_addresses_follow_the_base(base: Mac)
    ensures
        ({
            let (a, b) = (port_address(base, Slot::A), port_address(base, Slot::B));
            &&& a.0 == base.0 && a.1 == base.1 && a.2 == base.2 && a.3 == base.3 && a.4 == base.4
            &&& b.0 == base.0 && b.1 == base.1 && b.2 == base.2 && b.3 == base.3 && b.4 == base.4
            &&& base.5 < 254 ==> a.5 == base.5 + 1 && b.5 == base.5 + 2
            &&& is_group(a) == is_group(base) && is_group(b) == is_group(base)
        }),
{
}

/// A frame is accepted exactly from a whole header up to 2048 bytes, and its addresses are
/// its first twelve bytes.
pub proof fn law_frames_of_sound_length_pass(frame: Seq<u8>)
    ensures
        frame_refusal(frame) is None <==> 14 <= frame.len() <= 2048,
        frame.len() > 2048 ==> frame_refusal(frame) == Some(L2Failure::FrameTooLarge),
        frame.len() >= 14 ==> {
            let (dst, src) = (mac_at(frame, 0), mac_at(frame, 6));
            &&& seq![dst.0, dst.1, dst.2, dst.3, dst.4, dst.5] == frame.take(6)
            &&& seq![src.0, src.1, src.2, src.3, src.4, src.5] == frame.subrange(6, 12)
            &&& is_group(dst) == (frame[0] % 2 == 1)
        },
{
    if frame.len() >= 14 {
        let (dst, src) = (mac_at(frame, 0), mac_at(frame, 6));
        assert(seq![dst.0, dst.1, dst.2, dst.3, dst.4, dst.5] =~= frame.take(6));
        assert(seq![src.0, src.1, src.2, src.3, src.4, src.5] =~= frame.subrange(6, 12));
    }
}

/// A base is accepted exactly where it is a hardware address of a single station that is
/// administered locally.
pub proof fn law_base_is_a_local_station(text: Seq<char>)
    ensures
        base_refusal(text) is None <==> (mac_of(text) matches Some(mac) && mac.0 % 4 == 2),
        mac_of(text) matches Some(mac) ==> pieces(text, ':').len() == 6 && Some(mac.0) == byte_of(
            pieces(text, ':')[0],
            16,
        ) && Some(mac.5) == byte_of(pieces(text, ':')[5], 16),
{
}

/// A hardware address that is written down is the address that is read.
pub proof fn law_hardware_addresses_are_read_back(mac: Seq<u8>)
    requires
        mac.len() == 6,
    ensures
        mac_of(mac_text(mac)) == Some((mac[0], mac[1], mac[2], mac[3], mac[4], mac[5])),
{
    let colon = seq![':'];
    let (a, b, c) = (hex(mac[0] as nat, 2), hex(mac[1] as nat, 2), hex(mac[2] as nat, 2));
    let (d, e, f) = (hex(mac[3] as nat, 2), hex(mac[4] as nat, 2), hex(mac[5] as nat, 2));
    law_bytes_are_read_back(mac[0] as nat, a, 16);
    law_bytes_are_read_back(mac[1] as nat, b, 16);
    law_bytes_are_read_back(mac[2] as nat, c, 16);
    law_bytes_are_read_back(mac[3] as nat, d, 16);
    law_bytes_are_read_back(mac[4] as nat, e, 16);
    law_bytes_are_read_back(mac[5] as nat, f, 16);
    lemma_six_pieces(a, b, c, d, e, f);
    assert(mac_text(mac) =~= a + colon + b + colon + c + colon + d + colon + e + colon + f);
}

proof fn lemma_six_pieces(
    a: Seq<char>,
    b: Seq<char>,
    c: Seq<char>,
    d: Seq<char>,
    e: Seq<char>,
    f: Seq<char>,
)
    requires
        !a.contains(':'),
        !b.contains(':'),
        !c.contains(':'),
        !d.contains(':'),
        !e.contains(':'),
        !f.contains(':'),
    ensures
        pieces(
            a + seq![':'] + b + seq![':'] + c + seq![':'] + d + seq![':'] + e + seq![':'] + f,
            ':',
        ) == seq![a, b, c, d, e, f],
{
    let colon = seq![':'];
    law_text_is_cut_at_separators(a, b, ':');
    law_text_is_cut_at_separators(a + colon + b, c, ':');
    law_text_is_cut_at_separators(a + colon + b + colon + c, d, ':');
    law_text_is_cut_at_separators(a + colon + b + colon + c + colon + d, e, ':');
    law_text_is_cut_at_separators(
        a + colon + b + colon + c + colon + d + colon + e,
        f,
        ':',
    );
    law_text_is_cut_at_separators(b, a, ':');
    law_text_is_cut_at_separators(c, a, ':');
    law_text_is_cut_at_separators(d, a, ':');
    law_text_is_cut_at_separators(e, a, ':');
    law_text_is_cut_at_separators(f, a, ':');
    let all = a + colon + b + colon + c + colon + d + colon + e + colon + f;
    assert(pieces(all, ':') =~= seq![a, b, c, d, e, f]);
}

/// A text denotes a hardware address exactly where it has six parts between colons and each of
/// them is a hexadecimal number that fits a byte; each byte is then the number of its own part.
pub proof fn law_hardware_address_needs_six_numbers(text: Seq<char>)
    ensures
        mac_of(text) is Some <==> pieces(text, ':').len() == 6 && forall|i: int|
            0 <= i < 6 ==> byte_of(#[trigger] pieces(text, ':')[i], 16) is Some,
        mac_of(text) matches Some(mac) ==> {
            let parts = pieces(text, ':');
            &&& byte_of(parts[0], 16) == Some(mac.0) && byte_of(parts[1], 16) == Some(mac.1)
            &&& byte_of(parts[2], 16) == Some(mac.2) && byte_of(parts[3], 16) == Some(mac.3)
            &&& byte_of(parts[4], 16) == Some(mac.4) && byte_of(parts[5], 16) == Some(mac.5)
        },
{
    let parts = pieces(text, ':');
    if parts.len() == 6 && forall|i: int|
        0 <= i < 6 ==> byte_of(#[trigger] pieces(text, ':')[i], 16) is Some {
        assert(byte_of(parts[0], 16) is Some && byte_of(parts[1], 16) is Some);
        assert(byte_of(parts[2], 16) is Some && byte_of(parts[3], 16) is Some);
        assert(byte_of(parts[4], 16) is Some && byte_of(parts[5], 16) is Some);
    }
}

/// A failure of the link above keeps its kind, and one that has none keeps its text at the end
/// of what is said.
pub proof fn law_uplink_failures_keep_their_kind(error: UplinkError)
    ensures
        error is Denied <==> uplink_failed(error) is Denied,
        error is LinkDown <==> uplink_failed(error) is LinkDown,
        error is FrameTooLarge <==> uplink_failed(error) is FrameTooLarge,
        error matches UplinkError::Other(shown) ==> {
            &&& uplink_failed(error) matches L2Failure::Io(said) && said.len() >= shown@.len()
                && said.subrange(said.len() - shown@.len(), said.len() as int) == shown@
        },
{
    if let UplinkError::Other(shown) = error {
        let said = "uplink: "@ + shown@;
        assert(said.subrange(said.len() - shown@.len(), said.len() as int) =~= shown@);
    }
}

/// There are two ports, and each is the other's other.
pub proof fn law_ports_come_in_a_pair(slot: Slot)
    ensures
        slot.other() != slot,
        slot.other().other() == slot,
        Slot::A.other() == Slot::B,
        slot.number() != slot.other().number(),
{
}

} // verus!
