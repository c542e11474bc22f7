//! `net.l2.echo`: a link with one interface that answers every frame by a fixed rule.
use vstd::prelude::*;
use vstd::string::*;

use crate::bytes::{be16, push_all, push_be16, read_be16, slice_of, word_be};
use crate::frames::{cut, enqueued, FrameQueue};
use crate::l2::{Described, InterfaceInfo, L2Error};
use crate::text::same;

verus! {

/// Replies that are held before the oldest is dropped.
pub const QUEUE_CAP: usize = 64;

/// The ethertypes that are answered in their own way.
pub const ETHERTYPE_ARP: u16 = 0x0806;

pub const ETHERTYPE_IPV4: u16 = 0x0800;

pub const PROBE_BROADCAST: u16 = 0xb0b0;

pub const PROBE_UNKNOWN: u16 = 0xb0b1;

/// The fixture's own address.
pub open spec fn echo_mac() -> Seq<u8> {
    seq![0x02u8, 0xe0u8, 0x09u8, 0xecu8, 0x00u8, 0x01u8]
}

/// The unicast address that no port owns.
pub open spec fn unknown_mac() -> Seq<u8> {
    seq![0x02u8, 0xe0u8, 0x09u8, 0xeeu8, 0xeeu8, 0xeeu8]
}

/// The broadcast address.
pub open spec fn broadcast_mac() -> Seq<u8> {
    seq![0xffu8, 0xffu8, 0xffu8, 0xffu8, 0xffu8, 0xffu8]
}

/// The replies that wait to be received.
#[derive(Debug)]
pub struct EchoState {
    pub pending: FrameQueue,
}

/// The state of a provider, which starts without replies.
pub fn with_state(state: &mut Option<EchoState>) -> (there: &mut EchoState)
    ensures
        *old(state) matches Some(before) ==> *there == before,
        *old(state) is None ==> there.pending@ == Seq::<Seq<u8>>::empty(),
        *final(state) == Some(*final(there)),
{
    if state.is_none() {
        *state = Some(EchoState { pending: FrameQueue::new() });
    }
    state.as_mut().unwrap()
}

/// Queue a reply.
pub fn enqueue(state: &mut EchoState, frame: Vec<u8>)
    ensures
        final(state).pending@ == enqueued(old(state).pending@, QUEUE_CAP as nat, frame@),
{
    state.pending.push(QUEUE_CAP, frame);
}

/// An Ethernet frame whose payload starts with the source address that was seen.
pub open spec fn framed(
    dst: Seq<u8>,
    src: Seq<u8>,
    ethertype: u16,
    seen: Seq<u8>,
    payload: Seq<u8>,
) -> Seq<u8> {
    dst + src + be16(ethertype) + seen + payload
}

/// Build an Ethernet frame whose payload starts with the source address that was seen.
pub fn frame(dst: &[u8], src: &[u8], ethertype: u16, seen_src: &[u8], payload: &[u8]) -> (out: Vec<
    u8,
>)
    ensures
        out@ == framed(dst@, src@, ethertype, seen_src@, payload@),
{
    let mut out: Vec<u8> = Vec::new();
    push_all(&mut out, dst);
    push_all(&mut out, src);
    push_be16(&mut out, ethertype);
    push_all(&mut out, seen_src);
    push_all(&mut out, payload);
    assert(out@ =~= framed(dst@, src@, ethertype, seen_src@, payload@));
    out
}

/// The sum of the 16-bit words of a header from `at` on, the checksum field not counted.
pub open spec fn header_sum(header: Seq<u8>, at: int) -> int
    decreases header.len() - at,
{
    if at + 1 >= header.len() {
        0
    } else {
        (if at == 10 {
            0
        } else {
            word_be(header, at) as int
        }) + header_sum(header, at + 2)
    }
}

/// A sum with its carries added in until it fits a word.
pub open spec fn folded(sum: int) -> int
    decreases sum,
{
    if sum <= 0xffff {
        sum
    } else {
        folded(sum % 0x1_0000 + sum / 0x1_0000)
    }
}

/// The checksum of an IPv4 header: the complement of the folded sum of its words.
pub open spec fn checksum(header: Seq<u8>) -> u16 {
    (0xffff - folded(header_sum(header, 0))) as u16
}

proof fn lemma_folded_range(sum: int)
    requires
        0 <= sum,
    ensures
        0 <= folded(sum) <= 0xffff,
        folded(sum) % 0xffff == sum % 0xffff,
        folded(sum) == 0 ==> sum == 0,
    decreases sum,
{
    if sum > 0xffff {
        let (low, high) = (sum % 0x1_0000, sum / 0x1_0000);
        lemma_folded_range(low + high);
        assert(sum == low + high + 0xffff * high);
        vstd::arithmetic::div_mod::lemma_mod_multiples_vanish(high, low + high, 0xffff);
    }
}

proof fn lemma_header_sum(header: Seq<u8>, at: int)
    requires
        0 <= at,
    ensures
        0 <= header_sum(header, at),
        at <= header.len() ==> header_sum(header, at) <= 0x8000 * (header.len() - at),
    decreases header.len() - at,
{
    if at + 1 < header.len() {
        lemma_header_sum(header, at + 2);
    }
}

/// The checksum of an IPv4 header, its checksum field counting as zero.
pub fn ipv4_checksum(header: &[u8]) -> (result: u16)
    requires
        header_sum(header@, 0) <= u32::MAX,
    ensures
        result == checksum(header@),
{
    let mut sum: u32 = 0;
    let mut at: usize = 0;
    while header.len() - at > 1
        invariant
            at <= header@.len(),
            sum + header_sum(header@, at as int) == header_sum(header@, 0),
            header_sum(header@, 0) <= u32::MAX,
        decreases header@.len() - at,
    {
        proof {
            lemma_header_sum(header@, at + 2);
        }
        let word: u32 = if at == 10 {
            0
        } else {
            read_be16(header, at) as u32
        };
        sum = sum + word;
        at = at + 2;
    }
    let ghost total = sum as int;
    while sum > 0xffff
        invariant
            folded(sum as int) == folded(total),
        decreases sum,
    {
        assert(sum % 0x1_0000 + sum / 0x1_0000 < sum);
        sum = sum % 0x1_0000 + sum / 0x1_0000;
    }
    0xffff - sum as u16
}

/// Two bytes exchanged.
pub open spec fn swapped(bytes: Seq<u8>, one: int, other: int) -> Seq<u8> {
    bytes.update(one, bytes[other]).update(other, bytes[one])
}

/// A run of bytes exchanged with another.
pub open spec fn swapped_run(bytes: Seq<u8>, one: int, other: int, count: nat) -> Seq<u8>
    decreases count,
{
    if count == 0 {
        bytes
    } else {
        swapped(
            swapped_run(bytes, one, other, (count - 1) as nat),
            one + count - 1,
            other + count - 1,
        )
    }
}

fn swap_run(bytes: &mut Vec<u8>, one: usize, other: usize, count: usize)
    requires
        one + count <= old(bytes)@.len(),
        other + count <= old(bytes)@.len(),
    ensures
        final(bytes)@ == swapped_run(old(bytes)@, one as int, other as int, count as nat),
        final(bytes)@.len() == old(bytes)@.len(),
{
    let total: usize = bytes.len();
    let mut done: usize = 0;
    while done < count
        invariant
            done <= count,
            one + count <= total,
            other + count <= total,
            bytes@.len() == old(bytes)@.len() == total,
            bytes@ == swapped_run(old(bytes)@, one as int, other as int, done as nat),
        decreases count - done,
    {
        let (a, b): (u8, u8) = (bytes[one + done], bytes[other + done]);
        bytes.set(one + done, b);
        bytes.set(other + done, a);
        done = done + 1;
    }
}

/// The length of an IPv4 header.
pub open spec fn header_len(payload: Seq<u8>) -> int {
    (payload[0] % 16) * 4
}

/// A datagram on its way back: addresses and ports exchanged, no UDP checksum, a new
/// header checksum.
pub open spec fn echoed_datagram(payload: Seq<u8>) -> Seq<u8> {
    let ihl = header_len(payload);
    let turned = swapped_run(swapped_run(payload, 12, 16, 4), ihl, ihl + 2, 2);
    let bare = turned.update(ihl + 6, 0u8).update(ihl + 7, 0u8);
    let sum = checksum(bare.subrange(0, ihl));
    bare.update(10, be16(sum)[0]).update(11, be16(sum)[1])
}

/// The reply to an ARP request: the fixture owns every address that is asked about.
pub open spec fn arp_reply(payload: Seq<u8>) -> Seq<u8> {
    payload.subrange(0, 6) + be16(2) + echo_mac() + payload.subrange(24, 28) + payload.subrange(
        8,
        14,
    ) + payload.subrange(14, 18)
}

/// Whether a frame asks who has an address.
pub open spec fn is_arp_request(ethertype: u16, payload: Seq<u8>) -> bool {
    ethertype == ETHERTYPE_ARP && payload.len() >= 28 && word_be(payload, 6) == 1
}

/// Whether a frame carries a whole UDP header over IPv4.
pub open spec fn is_datagram(ethertype: u16, payload: Seq<u8>) -> bool {
    ethertype == ETHERTYPE_IPV4 && payload.len() >= 20 && payload.len() >= header_len(payload) + 8
        && payload[9] == 17
}

/// What a sent frame is answered with. Only one that is too short for its header gets no
/// answer; one that no other rule is for is reflected.
pub open spec fn answer_to(bytes: Seq<u8>) -> Option<Seq<u8>> {
    if bytes.len() < 14 {
        None
    } else {
        let src = bytes.subrange(6, 12);
        let dst = bytes.subrange(0, 6);
        let ethertype = word_be(bytes, 12);
        let payload = bytes.subrange(14, bytes.len() as int);
        if is_arp_request(ethertype, payload) {
            Some(src + echo_mac() + be16(ETHERTYPE_ARP) + arp_reply(payload))
        } else if is_datagram(ethertype, payload) {
            Some(src + echo_mac() + be16(ETHERTYPE_IPV4) + echoed_datagram(payload))
        } else if ethertype == PROBE_BROADCAST {
            Some(framed(broadcast_mac(), echo_mac(), PROBE_BROADCAST, src, payload))
        } else if ethertype == PROBE_UNKNOWN {
            Some(framed(unknown_mac(), echo_mac(), PROBE_UNKNOWN, src, payload))
        } else {
            Some(framed(src, dst, ethertype, src, payload))
        }
    }
}

fn own_mac() -> (mac: [u8; 6])
    ensures
        mac@ == echo_mac(),
{
    let mac: [u8; 6] = [0x02, 0xe0, 0x09, 0xec, 0x00, 0x01];
    assert(mac@ =~= echo_mac());
    mac
}

fn echo_datagram(payload: &[u8]) -> (ip: Vec<u8>)
    requires
        payload@.len() >= 20,
        payload@.len() >= header_len(payload@) + 8,
    ensures
        ip@ == echoed_datagram(payload@),
{
    let ihl: usize = (payload[0] % 16) as usize * 4;
    let mut ip = slice_of(payload, 0, payload.len());
    assert(ip@ =~= payload@);
    swap_run(&mut ip, 12, 16, 4);
    swap_run(&mut ip, ihl, ihl + 2, 2);
    ip.set(ihl + 6, 0);
    ip.set(ihl + 7, 0);
    let head = slice_of(&ip, 0, ihl);
    proof {
        lemma_header_sum(head@, 0);
    }
    let sum = ipv4_checksum(&head);
    ip.set(10, (sum / 256) as u8);
    ip.set(11, (sum % 256) as u8);
    ip
}

fn ethernet(dst: &[u8], ethertype: u16, payload: &[u8]) -> (out: Vec<u8>)
    ensures
        out@ == dst@ + echo_mac() + be16(ethertype) + payload@,
{
    let mut out: Vec<u8> = Vec::new();
    push_all(&mut out, dst);
    push_all(&mut out, &own_mac());
    push_be16(&mut out, ethertype);
    push_all(&mut out, payload);
    assert(out@ =~= dst@ + echo_mac() + be16(ethertype) + payload@);
    out
}

fn asks(ethertype: u16, payload: &[u8]) -> (yes: bool)
    ensures
        yes == is_arp_request(ethertype, payload@),
{
    ethertype == ETHERTYPE_ARP && payload.len() >= 28 && read_be16(payload, 6) == 1
}

fn carries_datagram(ethertype: u16, payload: &[u8]) -> (yes: bool)
    ensures
        yes == is_datagram(ethertype, payload@),
{
    ethertype == ETHERTYPE_IPV4 && payload.len() >= 20 && payload.len() >= (payload[0] % 16)
        as usize * 4 + 8 && payload[9] == 17
}

/// The answer to one sent frame.
pub fn reply_to(bytes: &[u8]) -> (reply: Option<Vec<u8>>)
    ensures
        match reply {
            Some(frame) => answer_to(bytes@) == Some(frame@),
            None => answer_to(bytes@) is None,
        },
{
    if bytes.len() < 14 {
        return None;
    }
    let src = slice_of(bytes, 6, 12);
    let ethertype: u16 = read_be16(bytes, 12);
    let payload = slice_of(bytes, 14, bytes.len());
    if asks(ethertype, &payload) {
        let mut arp = slice_of(&payload, 0, 6);
        push_be16(&mut arp, 2);
        push_all(&mut arp, &own_mac());
        push_all(&mut arp, &slice_of(&payload, 24, 28));
        push_all(&mut arp, &slice_of(&payload, 8, 14));
        push_all(&mut arp, &slice_of(&payload, 14, 18));
        assert(arp@ =~= arp_reply(payload@));
        Some(ethernet(&src, ETHERTYPE_ARP, &arp))
    } else if carries_datagram(ethertype, &payload) {
        Some(ethernet(&src, ETHERTYPE_IPV4, &echo_datagram(&payload)))
    } else if ethertype == PROBE_BROADCAST {
        let everyone: [u8; 6] = [0xff, 0xff, 0xff, 0xff, 0xff, 0xff];
        assert(everyone@ =~= broadcast_mac());
        Some(frame(&everyone, &own_mac(), PROBE_BROADCAST, &src, &payload))
    } else if ethertype == PROBE_UNKNOWN {
        let nobody: [u8; 6] = [0x02, 0xe0, 0x09, 0xee, 0xee, 0xee];
        assert(nobody@ =~= unknown_mac());
        Some(frame(&nobody, &own_mac(), PROBE_UNKNOWN, &src, &payload))
    } else {
        let dst = slice_of(bytes, 0, 6);
        Some(frame(&src, &dst, ethertype, &src, &payload))
    }
}

/// Answer one sent frame: the answer, if any, is queued.
pub fn answer(state: &mut EchoState, bytes: &[u8])
    ensures
        final(state).pending@ == match answer_to(bytes@) {
            Some(frame) => enqueued(old(state).pending@, QUEUE_CAP as nat, frame),
            None => old(state).pending@,
        },
{
    match reply_to(bytes) {
        Some(frame) => enqueue(state, frame),
        None => {},
    }
}

/// Receive the oldest reply, as far as a buffer of `room` bytes takes it.
pub fn recv_frame(state: &mut EchoState, room: u64) -> (received: Option<Vec<u8>>)
    ensures
        match received {
            Some(part) => {
                &&& old(state).pending@.len() > 0
                &&& final(state).pending@ == old(state).pending@.subrange(
                    1,
                    old(state).pending@.len() as int,
                )
                &&& part@ == if old(state).pending@[0].len() <= room {
                    old(state).pending@[0]
                } else {
                    old(state).pending@[0].subrange(0, room as int)
                }
            },
            None => old(state).pending@.len() == 0 && final(state).pending@
                == old(state).pending@,
        },
{
    match state.pending.pop() {
        Some(frame) => Some(cut(frame, room)),
        None => None,
    }
}

/// What the one interface reports.
pub fn info() -> (info: InterfaceInfo)
    ensures
        info@ == (Described {
            name: "echo0"@,
            mac: (0x02, 0xe0, 0x09, 0xec, 0x00, 0x01),
            mtu: 1500,
            up: true,
        }),
{
    InterfaceInfo {
        name: String::from_str("echo0"),
        mac: (0x02, 0xe0, 0x09, 0xec, 0x00, 0x01),
        mtu: 1500,
        up: true,
    }
}

/// Open the one interface by its name.
pub fn open_interface(name: &str) -> (result: Result<(), L2Error>)
    ensures
        match result {
            Ok(_) => name@ == "echo0"@,
            Err(error) => error is NoSuchInterface && name@ != "echo0"@,
        },
{
    if same(name, "echo0") {
        Ok(())
    } else {
        Err(L2Error::NoSuchInterface)
    }
}

/// The sum of all 16-bit words of a header, the checksum field counted.
pub open spec fn whole_sum(header: Seq<u8>) -> int {
    header_sum(header, 0) + word_be(header, 10)
}

proof fn lemma_sum_ignores_checksum(one: Seq<u8>, other: Seq<u8>, at: int)
    requires
        one.len() == other.len(),
        0 <= at,
        at % 2 == 0,
        forall|i: int| 0 <= i < one.len() && i != 10 && i != 11 ==> one[i] == other[i],
    ensures
        header_sum(one, at) == header_sum(other, at),
    decreases one.len() - at,
{
    if at + 1 < one.len() {
        lemma_sum_ignores_checksum(one, other, at + 2);
    }
}

/// The header of an echoed datagram is valid: all of its words, the checksum counted,
/// fold to all ones.
pub proof fn law_echoed_header_is_valid(payload: Seq<u8>)
    requires
        payload.len() >= 20,
        payload.len() >= header_len(payload) + 8,
        header_len(payload) >= 20,
    ensures
        folded(whole_sum(echoed_datagram(payload).subrange(0, header_len(payload)))) == 0xffff,
{
    let ihl = header_len(payload);
    let turned = swapped_run(swapped_run(payload, 12, 16, 4), ihl, ihl + 2, 2);
    lemma_swapped_len(payload, 12, 16, 4);
    lemma_swapped_len(swapped_run(payload, 12, 16, 4), ihl, ihl + 2, 2);
    let bare = turned.update(ihl + 6, 0u8).update(ihl + 7, 0u8);
    let sum = checksum(bare.subrange(0, ihl));
    let header = echoed_datagram(payload).subrange(0, ihl);
    let before = bare.subrange(0, ihl);
    lemma_sum_ignores_checksum(header, before, 0);
    lemma_header_sum(before, 0);
    let s = header_sum(before, 0);
    lemma_folded_range(s);
    assert(word_be(header, 10) == sum);
    let total = whole_sum(header);
    assert(total == s + (0xffff - folded(s)));
    lemma_folded_range(total);
    assert(total % 0xffff == 0) by {
        vstd::arithmetic::div_mod::lemma_fundamental_div_mod(s, 0xffff);
        vstd::arithmetic::div_mod::lemma_fundamental_div_mod(folded(s), 0xffff);
        let multiple = s / 0xffff - folded(s) / 0xffff + 1;
        assert(total == 0xffff * multiple);
        vstd::arithmetic::div_mod::lemma_mod_multiples_vanish(multiple, 0, 0xffff);
    }
    assert(total > 0);
}

proof fn lemma_swapped_len(bytes: Seq<u8>, one: int, other: int, count: nat)
    requires
        0 <= one,
        one + count <= bytes.len(),
        0 <= other,
        other + count <= bytes.len(),
    ensures
        swapped_run(bytes, one, other, count).len() == bytes.len(),
    decreases count,
{
    if count > 0 {
        lemma_swapped_len(bytes, one, other, (count - 1) as nat);
    }
}

proof fn lemma_swapped_runs(bytes: Seq<u8>, one: int, other: int, count: nat)
    requires
        0 <= one,
        one + count <= other,
        other + count <= bytes.len(),
    ensures
        ({
            let after = swapped_run(bytes, one, other, count);
            &&& after.len() == bytes.len()
            &&& forall|i: int| one <= i < one + count ==> after[i] == bytes[i - one + other]
            &&& forall|i: int| other <= i < other + count ==> after[i] == bytes[i - other + one]
            &&& forall|i: int|
                0 <= i < bytes.len() && !(one <= i < one + count) && !(other <= i < other + count)
                    ==> after[i] == bytes[i]
        }),
    decreases count,
{
    if count > 0 {
        lemma_swapped_runs(bytes, one, other, (count - 1) as nat);
    }
}

/// What each byte of a datagram on its way back is.
proof fn lemma_echoed(payload: Seq<u8>)
    requires
        header_len(payload) >= 20,
        payload.len() >= header_len(payload) + 8,
    ensures
        ({
            let ihl = header_len(payload);
            let after = echoed_datagram(payload);
            &&& after.len() == payload.len()
            &&& forall|i: int| 12 <= i < 16 ==> after[i] == payload[i + 4]
            &&& forall|i: int| 16 <= i < 20 ==> after[i] == payload[i - 4]
            &&& forall|i: int| ihl <= i < ihl + 2 ==> after[i] == payload[i + 2]
            &&& forall|i: int| ihl + 2 <= i < ihl + 4 ==> after[i] == payload[i - 2]
            &&& after[ihl + 6] == 0
            &&& after[ihl + 7] == 0
            &&& forall|i: int|
                0 <= i < payload.len() && !(10 <= i < 20) && !(ihl <= i < ihl + 4) && i != ihl + 6
                    && i != ihl + 7 ==> after[i] == payload[i]
            &&& word_be(after, 10) == checksum(after.subrange(0, ihl))
        }),
{
    let ihl = header_len(payload);
    let first = swapped_run(payload, 12, 16, 4);
    lemma_swapped_runs(payload, 12, 16, 4);
    lemma_swapped_runs(first, ihl, ihl + 2, 2);
    let turned = swapped_run(first, ihl, ihl + 2, 2);
    let bare = turned.update(ihl + 6, 0u8).update(ihl + 7, 0u8);
    let after = echoed_datagram(payload);
    lemma_sum_ignores_checksum(after.subrange(0, ihl), bare.subrange(0, ihl), 0);
}

/// A datagram that is echoed twice is the datagram, but for its checksums.
proof fn lemma_echoed_twice(payload: Seq<u8>)
    requires
        header_len(payload) >= 20,
        payload.len() >= header_len(payload) + 8,
    ensures
        ({
            let ihl = header_len(payload);
            let sent = echoed_datagram(payload);
            let back = echoed_datagram(sent);
            &&& sent.len() == payload.len() && back.len() == payload.len()
            &&& header_len(sent) == ihl && sent[9] == payload[9]
            &&& forall|i: int|
                0 <= i < payload.len() && i != 10 && i != 11 && i != ihl + 6 && i != ihl + 7
                    ==> #[trigger] back[i] == payload[i]
            &&& back[ihl + 6] == 0 && back[ihl + 7] == 0
            &&& word_be(back, 10) == checksum(payload.subrange(0, ihl))
        }),
{
    let ihl = header_len(payload);
    let sent = echoed_datagram(payload);
    lemma_echoed(payload);
    lemma_echoed(sent);
    let back = echoed_datagram(sent);
    lemma_sum_ignores_checksum(back.subrange(0, ihl), payload.subrange(0, ihl), 0);
}

/// What a frame with a datagram is answered with.
proof fn lemma_datagram_answered(bytes: Seq<u8>)
    requires
        bytes.len() >= 14,
        is_datagram(word_be(bytes, 12), bytes.subrange(14, bytes.len() as int)),
    ensures
        ({
            let payload = bytes.subrange(14, bytes.len() as int);
            let once = answer_to(bytes)->0;
            &&& answer_to(bytes) is Some
            &&& once.len() == 14 + echoed_datagram(payload).len()
            &&& once.subrange(0, 6) == bytes.subrange(6, 12)
            &&& word_be(once, 12) == ETHERTYPE_IPV4
            &&& once.subrange(14, once.len() as int) == echoed_datagram(payload)
        }),
{
    let payload = bytes.subrange(14, bytes.len() as int);
    let once = answer_to(bytes)->0;
    assert(once.subrange(0, 6) =~= bytes.subrange(6, 12));
    assert(once.subrange(14, once.len() as int) =~= echoed_datagram(payload));
}

/// An echoed datagram that is sent again comes back as it was first, but for its checksums:
/// the one over the header is right and there is none over the data. Every answer is as long
/// as what it answers and goes to its sender, and its header is valid.
#[verifier::spinoff_prover]
pub proof fn law_echo_of_echo_is_the_datagram(bytes: Seq<u8>)
    requires
        bytes.len() >= 14,
        is_datagram(word_be(bytes, 12), bytes.subrange(14, bytes.len() as int)),
        header_len(bytes.subrange(14, bytes.len() as int)) >= 20,
    ensures
        ({
            let payload = bytes.subrange(14, bytes.len() as int);
            let ihl = header_len(payload);
            let once = answer_to(bytes)->0;
            let twice = answer_to(once)->0;
            let back = twice.subrange(14, twice.len() as int);
            &&& answer_to(bytes) is Some && answer_to(once) is Some
            &&& once.len() == bytes.len() && twice.len() == bytes.len()
            &&& once.subrange(0, 6) == bytes.subrange(6, 12)
            &&& folded(whole_sum(once.subrange(14, 14 + ihl))) == 0xffff
            &&& forall|i: int|
                0 <= i < payload.len() && i != 10 && i != 11 && i != ihl + 6 && i != ihl + 7
                    ==> #[trigger] back[i] == payload[i]
            &&& back[ihl + 6] == 0 && back[ihl + 7] == 0
            &&& word_be(back, 10) == checksum(payload.subrange(0, ihl))
        }),
{
    let payload = bytes.subrange(14, bytes.len() as int);
    let ihl = header_len(payload);
    let once = answer_to(bytes)->0;
    let sent = echoed_datagram(payload);
    lemma_echoed_twice(payload);
    lemma_datagram_answered(bytes);
    lemma_datagram_answered(once);
    law_echoed_header_is_valid(payload);
    assert(once.subrange(14, 14 + ihl) =~= sent.subrange(0, ihl));
}

/// Every frame with a whole header is answered.
pub proof fn law_every_frame_is_answered(bytes: Seq<u8>)
    ensures
        answer_to(bytes) is Some <==> bytes.len() >= 14,
{
}

/// Every answer but the two that stacks parse carries, right behind its header, the source
/// address that reached the link, and then the payload; and one that no rule is for goes
/// back with its addresses exchanged.
pub proof fn law_answer_shows_source(bytes: Seq<u8>)
    requires
        bytes.len() >= 14,
        !is_arp_request(word_be(bytes, 12), bytes.subrange(14, bytes.len() as int)),
        !is_datagram(word_be(bytes, 12), bytes.subrange(14, bytes.len() as int)),
    ensures
        ({
            &&& answer_to(bytes) matches Some(reply)
            &&& reply.len() == bytes.len() + 6
            &&& reply.subrange(12, 14) == bytes.subrange(12, 14)
            &&& reply.subrange(14, 20) == bytes.subrange(6, 12)
            &&& reply.subrange(20, reply.len() as int) == bytes.subrange(14, bytes.len() as int)
            &&& word_be(bytes, 12) != PROBE_BROADCAST && word_be(bytes, 12) != PROBE_UNKNOWN ==> {
                &&& reply.subrange(0, 6) == bytes.subrange(6, 12)
                &&& reply.subrange(6, 12) == bytes.subrange(0, 6)
            }
        }),
{
    let reply = answer_to(bytes)->0;
    assert(be16(word_be(bytes, 12)) =~= bytes.subrange(12, 14));
    assert(reply.subrange(12, 14) =~= bytes.subrange(12, 14));
    assert(reply.subrange(14, 20) =~= bytes.subrange(6, 12));
    assert(reply.subrange(20, reply.len() as int) =~= bytes.subrange(14, bytes.len() as int));
    if word_be(bytes, 12) != PROBE_BROADCAST && word_be(bytes, 12) != PROBE_UNKNOWN {
        assert(reply.subrange(0, 6) =~= bytes.subrange(6, 12));
        assert(reply.subrange(6, 12) =~= bytes.subrange(0, 6));
    }
}

/// Who asks for an address gets an answer that says the link has it: the question goes back
/// to its sender with both ends exchanged, whatever address it asks about, and the link's own
/// hardware address filled in.
pub proof fn law_every_address_is_owned(bytes: Seq<u8>)
    requires
        bytes.len() >= 42,
        bytes[12] == 0x08 && bytes[13] == 0x06,
        bytes[20] == 0 && bytes[21] == 1,
    ensures
        answer_to(bytes) matches Some(reply) && {
            &&& reply.len() == 42
            &&& reply.subrange(0, 6) == bytes.subrange(6, 12)
            &&& reply.subrange(6, 12) == seq![0x02u8, 0xe0u8, 0x09u8, 0xecu8, 0x00u8, 0x01u8]
            &&& reply.subrange(12, 20) == bytes.subrange(12, 20)
            &&& reply[20] == 0 && reply[21] == 2
            &&& reply.subrange(22, 28) == reply.subrange(6, 12)
            &&& reply.subrange(28, 32) == bytes.subrange(38, 42)
            &&& reply.subrange(32, 42) == bytes.subrange(22, 32)
        },
{
    let payload = bytes.subrange(14, bytes.len() as int);
    assert(payload[6] == bytes[20] && payload[7] == bytes[21]);
    let reply = answer_to(bytes)->0;
    assert(reply.subrange(0, 6) =~= bytes.subrange(6, 12));
    assert(reply.subrange(6, 12) =~= echo_mac());
    assert(reply.subrange(12, 20) =~= bytes.subrange(12, 20));
    assert(reply.subrange(22, 28) =~= echo_mac());
    assert(reply.subrange(28, 32) =~= bytes.subrange(38, 42));
    assert(reply.subrange(32, 42) =~= bytes.subrange(22, 32));
}

/// A datagram comes back from where it was sent to: its addresses and its ports are
/// exchanged, and its data is as it was.
pub proof fn law_datagram_comes_back(bytes: Seq<u8>, data: int)
    requires
        bytes.len() >= 42,
        bytes[12] == 0x08 && bytes[13] == 0x00,
        bytes[14] == 0x45,
        bytes[23] == 17,
        42 <= data < bytes.len(),
    ensures
        answer_to(bytes) matches Some(reply) && {
            &&& reply.len() == bytes.len()
            &&& reply.subrange(0, 6) == bytes.subrange(6, 12)
            &&& reply.subrange(6, 12) == seq![0x02u8, 0xe0u8, 0x09u8, 0xecu8, 0x00u8, 0x01u8]
            &&& reply.subrange(12, 24) == bytes.subrange(12, 24)
            &&& reply.subrange(26, 30) == bytes.subrange(30, 34)
            &&& reply.subrange(30, 34) == bytes.subrange(26, 30)
            &&& reply.subrange(34, 36) == bytes.subrange(36, 38)
            &&& reply.subrange(36, 38) == bytes.subrange(34, 36)
            &&& reply.subrange(38, 40) == bytes.subrange(38, 40)
            &&& reply[40] == 0 && reply[41] == 0
            &&& reply[data] == bytes[data]
        },
{
    let payload = bytes.subrange(14, bytes.len() as int);
    assert(payload[0] == 0x45 && payload[9] == 17);
    assert(header_len(payload) == 20);
    lemma_echoed(payload);
    let after = echoed_datagram(payload);
    let reply = answer_to(bytes)->0;
    assert(reply == bytes.subrange(6, 12) + echo_mac() + be16(ETHERTYPE_IPV4) + after);
    assert forall|i: int| 0 <= i < after.len() implies reply[14 + i] == #[trigger] after[i] by {}
    assert(reply.subrange(0, 6) =~= bytes.subrange(6, 12));
    assert(reply.subrange(6, 12) =~= echo_mac());
    assert forall|i: int| 12 <= i < 24 implies reply[i] == bytes[i] by {
        if i >= 14 {
            assert(reply[i] == after[i - 14] && after[i - 14] == payload[i - 14]);
        }
    }
    assert(reply.subrange(12, 24) =~= bytes.subrange(12, 24));
    assert forall|i: int| 26 <= i < 30 implies #[trigger] reply[i] == bytes[i + 4] by {
        assert(after[i - 14] == payload[i - 10]);
    }
    assert forall|i: int| 30 <= i < 34 implies #[trigger] reply[i] == bytes[i - 4] by {
        assert(after[i - 14] == payload[i - 18]);
    }
    assert(reply.subrange(26, 30) =~= bytes.subrange(30, 34));
    assert(reply.subrange(30, 34) =~= bytes.subrange(26, 30));
    assert forall|i: int| 34 <= i < 36 implies #[trigger] reply[i] == bytes[i + 2] by {
        assert(after[i - 14] == payload[i - 12]);
    }
    assert forall|i: int| 36 <= i < 38 implies #[trigger] reply[i] == bytes[i - 2] by {
        assert(after[i - 14] == payload[i - 16]);
    }
    assert forall|i: int| 38 <= i < 40 implies #[trigger] reply[i] == bytes[i] by {
        assert(after[i - 14] == payload[i - 14]);
    }
    assert(reply.subrange(34, 36) =~= bytes.subrange(36, 38));
    assert(reply.subrange(36, 38) =~= bytes.subrange(34, 36));
    assert(reply.subrange(38, 40) =~= bytes.subrange(38, 40));
    assert(after[26] == 0 && after[27] == 0);
    assert(reply[data] == after[data - 14] && after[data - 14] == payload[data - 14]);
}

/// Both probes are answered from the link's own address: the one to everyone, the other to a
/// station that nobody is.
pub proof fn law_probes_go_out(bytes: Seq<u8>)
    requires
        bytes.len() >= 14,
        bytes[12] == 0xb0 && (bytes[13] == 0xb0 || bytes[13] == 0xb1),
    ensures
        answer_to(bytes) matches Some(reply) && {
            &&& forall|i: int| 0 <= i < 6 && bytes[13] == 0xb0 ==> #[trigger] reply[i] == 0xff
            &&& bytes[13] == 0xb1 ==> reply[0] % 2 == 0 && reply.subrange(0, 6) != reply.subrange(
                6,
                12,
            )
            &&& reply.subrange(6, 12) == seq![0x02u8, 0xe0u8, 0x09u8, 0xecu8, 0x00u8, 0x01u8]
        },
{
    let reply = answer_to(bytes)->0;
    assert(reply.subrange(6, 12) =~= echo_mac());
    if bytes[13] == 0xb1 {
        assert(reply.subrange(0, 6)[3] == 0xee);
        assert(reply.subrange(6, 12)[3] == 0xec);
    }
}

/// Which rule a frame is answered by shows in the length of the answer: a question for an
/// address gets 42 bytes, a datagram as many as it has, and everything else its own six more.
/// A question is whole from 42 bytes on, a datagram once its header and eight bytes behind it
/// are there.
pub proof fn law_rules_are_told_apart(bytes: Seq<u8>)
    requires
        bytes.len() >= 14,
    ensures
        ({
            let asks = bytes.len() >= 42 && bytes[12] == 0x08 && bytes[13] == 0x06 && bytes[20] == 0
                && bytes[21] == 1;
            let datagram = bytes.len() >= 34 && bytes[12] == 0x08 && bytes[13] == 0x00 && bytes[23]
                == 17 && bytes.len() >= 14 + (bytes[14] % 16) * 4 + 8;
            answer_to(bytes) matches Some(reply) && reply.len() == if asks {
                42
            } else if datagram {
                bytes.len()
            } else {
                bytes.len() + 6
            }
        }),
{
    let payload = bytes.subrange(14, bytes.len() as int);
    if payload.len() >= 8 {
        assert(payload[6] == bytes[20] && payload[7] == bytes[21]);
    }
    if payload.len() >= 20 {
        assert(payload[0] == bytes[14] && payload[9] == bytes[23]);
        let ihl = header_len(payload);
        lemma_swapped_len(payload, 12, 16, 4);
        if payload.len() >= ihl + 8 {
            lemma_swapped_len(swapped_run(payload, 12, 16, 4), ihl, ihl + 2, 2);
        }
    }
}

} // verus!
