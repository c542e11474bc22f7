//! Fixed-width integers as bytes, in both orders.
use vstd::prelude::*;

verus! {

/// The two bytes of a word, least significant first.
pub open spec fn le16(value: u16) -> Seq<u8> {
    seq![(value % 256) as u8, (value / 256) as u8]
}

/// The four bytes of a double word, least significant first.
pub open spec fn le32(value: u32) -> Seq<u8> {
    le16((value % 0x1_0000) as u16) + le16((value / 0x1_0000) as u16)
}

/// The eight bytes of a quad word, least significant first.
pub open spec fn le64(value: u64) -> Seq<u8> {
    le32((value % 0x1_0000_0000) as u32) + le32((value / 0x1_0000_0000) as u32)
}

/// The two bytes of a word, most significant first.
pub open spec fn be16(value: u16) -> Seq<u8> {
    seq![(value / 256) as u8, (value % 256) as u8]
}

/// The word whose bytes, least significant first, start at `at`.
pub open spec fn word_le(bytes: Seq<u8>, at: int) -> u16 {
    (bytes[at] + 256 * bytes[at + 1]) as u16
}

/// The double word whose bytes, least significant first, start at `at`.
pub open spec fn dword_le(bytes: Seq<u8>, at: int) -> u32 {
    (word_le(bytes, at) + 0x1_0000 * word_le(bytes, at + 2)) as u32
}

/// The word whose bytes, most significant first, start at `at`.
pub open spec fn word_be(bytes: Seq<u8>, at: int) -> u16 {
    (256 * bytes[at] + bytes[at + 1]) as u16
}

/// The content of bytes that may be there.
pub open spec fn content_of(bytes: Option<Vec<u8>>) -> Option<Seq<u8>> {
    match bytes {
        Some(bytes) => Some(bytes@),
        None => None,
    }
}

/// Append a word, least significant byte first.
pub fn push_le16(out: &mut Vec<u8>, value: u16)
    ensures
        final(out)@ == old(out)@ + le16(value),
{
    out.push((value % 256) as u8);
    out.push((value / 256) as u8);
    assert(out@ =~= old(out)@ + le16(value));
}

/// Append a double word, least significant byte first.
pub fn push_le32(out: &mut Vec<u8>, value: u32)
    ensures
        final(out)@ == old(out)@ + le32(value),
{
    push_le16(out, (value % 0x1_0000) as u16);
    push_le16(out, (value / 0x1_0000) as u16);
    assert(out@ =~= old(out)@ + le32(value));
}

/// Append a quad word, least significant byte first.
pub fn push_le64(out: &mut Vec<u8>, value: u64)
    ensures
        final(out)@ == old(out)@ + le64(value),
{
    push_le32(out, (value % 0x1_0000_0000) as u32);
    push_le32(out, (value / 0x1_0000_0000) as u32);
    assert(out@ =~= old(out)@ + le64(value));
}

/// Append a word, most significant byte first.
pub fn push_be16(out: &mut Vec<u8>, value: u16)
    ensures
        final(out)@ == old(out)@ + be16(value),
{
    out.push((value / 256) as u8);
    out.push((value % 256) as u8);
    assert(out@ =~= old(out)@ + be16(value));
}

/// Append `count` zero bytes.
pub fn push_zeros(out: &mut Vec<u8>, count: usize)
    ensures
        final(out)@ == old(out)@ + zero_bytes(count as nat),
{
    let mut done: usize = 0;
    while done < count
        invariant
            done <= count,
            out@ == old(out)@ + zero_bytes(done as nat),
        decreases count - done,
    {
        out.push(0);
        done = done + 1;
        assert(out@ =~= old(out)@ + zero_bytes(done as nat));
    }
}

/// `count` zero bytes.
pub open spec fn zero_bytes(count: nat) -> Seq<u8> {
    Seq::new(count, |i: int| 0u8)
}

/// A vector of `count` zero bytes.
pub fn zero_vec(count: usize) -> (out: Vec<u8>)
    ensures
        out@ == zero_bytes(count as nat),
{
    let mut out: Vec<u8> = Vec::new();
    push_zeros(&mut out, count);
    assert(out@ =~= zero_bytes(count as nat));
    out
}

/// Append every byte of `more`.
pub fn push_all(out: &mut Vec<u8>, more: &[u8])
    ensures
        final(out)@ == old(out)@ + more@,
{
    let mut at: usize = 0;
    while at < more.len()
        invariant
            at <= more.len(),
            out@ == old(out)@ + more@.take(at as int),
        decreases more.len() - at,
    {
        out.push(more[at]);
        at = at + 1;
        assert(out@ =~= old(out)@ + more@.take(at as int));
    }
    assert(more@.take(at as int) =~= more@);
}

/// The bytes of `all` from `from` up to `to`.
pub fn slice_of(all: &[u8], from: usize, to: usize) -> (part: Vec<u8>)
    requires
        from <= to <= all.len(),
    ensures
        part@ == all@.subrange(from as int, to as int),
{
    let mut part: Vec<u8> = Vec::new();
    let mut at: usize = from;
    while at < to
        invariant
            from <= at <= to <= all.len(),
            part@ == all@.subrange(from as int, at as int),
        decreases to - at,
    {
        part.push(all[at]);
        at = at + 1;
        assert(part@ =~= all@.subrange(from as int, at as int));
    }
    part
}

/// The word at `at`, least significant byte first.
pub fn read_le16(bytes: &[u8], at: usize) -> (value: u16)
    requires
        at + 2 <= bytes.len(),
    ensures
        value == word_le(bytes@, at as int),
{
    bytes[at] as u16 + 256 * (bytes[at + 1] as u16)
}

/// The double word at `at`, least significant byte first.
pub fn read_le32(bytes: &[u8], at: usize) -> (value: u32)
    requires
        at + 4 <= bytes.len(),
    ensures
        value == dword_le(bytes@, at as int),
{
    read_le16(bytes, at) as u32 + 0x1_0000 * (read_le16(bytes, at + 2) as u32)
}

/// The word at `at`, most significant byte first.
pub fn read_be16(bytes: &[u8], at: usize) -> (value: u16)
    requires
        at + 2 <= bytes.len(),
    ensures
        value == word_be(bytes@, at as int),
{
    256 * (bytes[at] as u16) + bytes[at + 1] as u16
}

/// Reading a word back gives the word that was written.
pub proof fn law_le16_round_trip(value: u16)
    ensures
        word_le(le16(value), 0) == value,
{
}

/// Reading a double word back gives the double word that was written.
pub proof fn law_le32_round_trip(value: u32)
    ensures
        dword_le(le32(value), 0) == value,
{
    law_le16_round_trip((value % 0x1_0000) as u16);
    law_le16_round_trip((value / 0x1_0000) as u16);
    let low = le16((value % 0x1_0000) as u16);
    let high = le16((value / 0x1_0000) as u16);
    assert(le32(value)[0] == low[0] && le32(value)[1] == low[1]);
    assert(le32(value)[2] == high[0] && le32(value)[3] == high[1]);
}

/// Reading a word back in network order gives the word that was written.
pub proof fn law_be16_round_trip(value: u16)
    ensures
        word_be(be16(value), 0) == value,
{
}

/// The value of some bytes, the least significant first.
pub open spec fn little(bytes: Seq<u8>) -> int
    decreases bytes.len(),
{
    if bytes.len() == 0 {
        0
    } else {
        bytes[0] + 256 * little(bytes.skip(1))
    }
}

proof fn lemma_little(bytes: Seq<u8>)
    ensures
        bytes.len() == 2 ==> little(bytes) == bytes[0] + 0x100 * bytes[1],
        bytes.len() == 4 ==> little(bytes) == bytes[0] + 0x100 * bytes[1] + 0x1_0000 * bytes[2]
            + 0x100_0000 * bytes[3],
{
    reveal_with_fuel(little, 5);
}

/// The bytes of an integer make it up with the least significant one first, and in network
/// order with the most significant one first.
pub proof fn law_bytes_make_up_the_value(word: u16, dword: u32, qword: u64)
    ensures
        le16(word).len() == 2 && le16(word)[0] + 0x100 * le16(word)[1] == word,
        be16(word).len() == 2 && 0x100 * be16(word)[0] + be16(word)[1] == word,
        le32(dword).len() == 4 && le32(dword)[0] + 0x100 * le32(dword)[1] + 0x1_0000 * le32(
            dword,
        )[2] + 0x100_0000 * le32(dword)[3] == dword,
        le64(qword).len() == 8 && little(le64(qword).take(4)) + 0x1_0000_0000 * little(
            le64(qword).skip(4),
        ) == qword,
{
    let low = (qword % 0x1_0000_0000) as u32;
    let high = (qword / 0x1_0000_0000) as u32;
    assert(le64(qword).take(4) =~= le32(low));
    assert(le64(qword).skip(4) =~= le32(high));
    lemma_little(le32(low));
    lemma_little(le32(high));
}

/// What is read at a place is what its bytes make up, least significant first; in network
/// order, most significant first.
pub proof fn law_reads_add_up(bytes: Seq<u8>, at: int)
    requires
        0 <= at,
        at + 4 <= bytes.len(),
    ensures
        word_le(bytes, at) == bytes[at] + 0x100 * bytes[at + 1],
        word_be(bytes, at) == 0x100 * bytes[at] + bytes[at + 1],
        dword_le(bytes, at) == bytes[at] + 0x100 * bytes[at + 1] + 0x1_0000 * bytes[at + 2]
            + 0x100_0000 * bytes[at + 3],
{
}

/// The quad word whose bytes, least significant first, start at `at`.
pub open spec fn qword_le(bytes: Seq<u8>, at: int) -> int {
    dword_le(bytes, at) + 0x1_0000_0000 * dword_le(bytes, at + 4)
}

/// A word that was written somewhere among bytes is read there.
pub proof fn law_le16_is_found(bytes: Seq<u8>, at: int, value: u16)
    requires
        0 <= at,
        at + 2 <= bytes.len(),
        bytes.subrange(at, at + 2) == le16(value),
    ensures
        word_le(bytes, at) == value,
{
    let part = bytes.subrange(at, at + 2);
    assert(part[0] == bytes[at] && part[1] == bytes[at + 1]);
}

/// A double word that was written somewhere among bytes is read there.
pub proof fn law_le32_is_found(bytes: Seq<u8>, at: int, value: u32)
    requires
        0 <= at,
        at + 4 <= bytes.len(),
        bytes.subrange(at, at + 4) == le32(value),
    ensures
        dword_le(bytes, at) == value,
{
    let part = bytes.subrange(at, at + 4);
    assert(part[0] == bytes[at] && part[1] == bytes[at + 1] && part[2] == bytes[at + 2] && part[3]
        == bytes[at + 3]);
    law_le32_round_trip(value);
}

/// A quad word that was written somewhere among bytes is read there.
pub proof fn law_le64_is_found(bytes: Seq<u8>, at: int, value: u64)
    requires
        0 <= at,
        at + 8 <= bytes.len(),
        bytes.subrange(at, at + 8) == le64(value),
    ensures
        qword_le(bytes, at) == value,
{
    let part = bytes.subrange(at, at + 8);
    let low = (value % 0x1_0000_0000) as u32;
    let high = (value / 0x1_0000_0000) as u32;
    assert(bytes.subrange(at, at + 4) =~= part.take(4));
    assert(bytes.subrange(at + 4, at + 8) =~= part.skip(4));
    assert(part.take(4) =~= le32(low));
    assert(part.skip(4) =~= le32(high));
    law_le32_is_found(bytes, at, low);
    law_le32_is_found(bytes, at + 4, high);
}

} // verus!
