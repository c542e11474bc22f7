//! `entropy.seeded`: random numbers that a seed determines, by the SplitMix64 generator.
use vstd::prelude::*;

use crate::bytes::{le64, push_le64, slice_of};

verus! {

/// The seed of a provider that was not configured.
pub const DEFAULT_SEED: u64 = 0xE09;

/// How far the counter goes at each step.
pub const GAMMA: u64 = 0x9e37_79b9_7f4a_7c15;

/// The counter of a provider.
pub fn with_state(state: &mut Option<u64>) -> (counter: &mut u64)
    ensures
        *old(state) matches Some(before) ==> *counter == before,
        *old(state) is None ==> *counter == DEFAULT_SEED,
        *final(state) == Some(*final(counter)),
{
    if state.is_none() {
        *state = Some(DEFAULT_SEED);
    }
    state.as_mut().unwrap()
}

/// The counter after a step.
pub open spec fn stepped(counter: u64) -> u64 {
    counter.wrapping_add(GAMMA)
}

/// The number that a counter stands for.
pub open spec fn mixed(counter: u64) -> u64 {
    let first = (counter ^ (counter >> 30)).wrapping_mul(0xbf58_476d_1ce4_e5b9);
    let second = (first ^ (first >> 27)).wrapping_mul(0x94d0_49bb_1331_11eb);
    second ^ (second >> 31)
}

/// Advance the counter and give the number that it stands for.
pub fn next_u64(counter: &mut u64) -> (number: u64)
    ensures
        *final(counter) == stepped(*old(counter)),
        number == mixed(stepped(*old(counter))),
{
    *counter = counter.wrapping_add(GAMMA);
    let mut z: u64 = *counter;
    z = (z ^ (z >> 30)).wrapping_mul(0xbf58_476d_1ce4_e5b9);
    z = (z ^ (z >> 27)).wrapping_mul(0x94d0_49bb_1331_11eb);
    z ^ (z >> 31)
}

/// The bytes that are drawn from a counter: numbers, least byte first, the last of them
/// cut to what is wanted.
pub open spec fn drawn(counter: u64, len: nat) -> Seq<u8>
    decreases len,
{
    if len == 0 {
        Seq::empty()
    } else if len <= 8 {
        le64(mixed(stepped(counter))).take(len as int)
    } else {
        le64(mixed(stepped(counter))) + drawn(stepped(counter), (len - 8) as nat)
    }
}

/// The counter after so many bytes were drawn.
pub open spec fn spent(counter: u64, len: nat) -> u64
    decreases len,
{
    if len == 0 {
        counter
    } else if len <= 8 {
        stepped(counter)
    } else {
        spent(stepped(counter), (len - 8) as nat)
    }
}

/// Draw bytes. A length beyond what memory can hold is left out.
pub fn get_bytes(counter: &mut u64, len: u64) -> (bytes: Vec<u8>)
    requires
        len <= isize::MAX,
    ensures
        bytes@ == drawn(*old(counter), len as nat),
        *final(counter) == spent(*old(counter), len as nat),
{
    let len: usize = len as usize;
    let mut bytes: Vec<u8> = Vec::new();
    let ghost whole = drawn(*old(counter), len as nat);
    assert(bytes@ + whole =~= whole);
    while bytes.len() < len
        invariant
            bytes@.len() <= len,
            bytes@ + drawn(*counter, (len - bytes@.len()) as nat) == whole,
            spent(*counter, (len - bytes@.len()) as nat) == spent(*old(counter), len as nat),
        decreases len - bytes.len(),
    {
        let ghost before = bytes@;
        let ghost rest = drawn(*counter, (len - before.len()) as nat);
        let number: u64 = next_u64(counter);
        let left: usize = len - bytes.len();
        if left >= 8 {
            push_le64(&mut bytes, number);
            proof {
                if left == 8 {
                    assert(le64(number).take(8) =~= le64(number));
                }
                assert(bytes@ + drawn(*counter, (len - bytes@.len()) as nat) =~= before + rest);
            }
        } else {
            let mut word: Vec<u8> = Vec::new();
            push_le64(&mut word, number);
            assert(word@ =~= le64(number));
            let mut part = slice_of(word.as_slice(), 0, left);
            bytes.append(&mut part);
            assert(bytes@ + drawn(*counter, (len - bytes@.len()) as nat) =~= before + rest);
        }
    }
    assert(bytes@ =~= whole);
    bytes
}

/// Bytes that are drawn from one seed begin alike, however many are drawn.
pub proof fn law_draws_are_prefixes(counter: u64, fewer: nat, more: nat)
    requires
        fewer <= more,
    ensures
        drawn(counter, more).len() == more,
        drawn(counter, more).take(fewer as int) == drawn(counter, fewer),
    decreases more,
{
    let word = le64(mixed(stepped(counter)));
    if more > 8 {
        if fewer > 8 {
            law_draws_are_prefixes(stepped(counter), (fewer - 8) as nat, (more - 8) as nat);
            assert(drawn(counter, more).take(fewer as int) =~= drawn(counter, fewer));
        } else {
            law_draws_are_prefixes(stepped(counter), 0, (more - 8) as nat);
            assert(drawn(counter, more).take(fewer as int) =~= drawn(counter, fewer));
        }
    } else {
        assert(drawn(counter, more).take(fewer as int) =~= drawn(counter, fewer));
    }
}

/// Drawing whole numbers and then more gives the same bytes as drawing all at once.
pub proof fn law_draws_add_up(counter: u64, numbers: nat, more: nat)
    ensures
        drawn(counter, 8 * numbers) + drawn(spent(counter, 8 * numbers), more) == drawn(
            counter,
            8 * numbers + more,
        ),
    decreases numbers,
{
    let word = le64(mixed(stepped(counter)));
    if numbers == 0 {
        assert(drawn(counter, 0) + drawn(counter, more) =~= drawn(counter, more));
    } else {
        let next = stepped(counter);
        let left = (numbers - 1) as nat;
        law_draws_add_up(next, left, more);
        assert(word.take(8) =~= word);
        assert(drawn(next, 0) =~= Seq::empty());
        assert(drawn(counter, 8 * numbers) =~= word + drawn(next, 8 * left));
        assert(spent(counter, 8 * numbers) == spent(next, 8 * left));
        assert(drawn(counter, 8 * numbers + more) =~= word + drawn(next, 8 * left + more));
        assert(word + drawn(next, 8 * left) + drawn(spent(next, 8 * left), more) =~= word + (drawn(
            next,
            8 * left,
        ) + drawn(spent(next, 8 * left), more)));
    }
}

/// The bytes of a draw are those of the numbers in turn, the least byte first: the first
/// eight are the first number, and the rest is a draw from the counter behind it. A draw
/// that is cut short still uses its last number up.
pub proof fn law_draws_are_numbers(counter: u64, more: nat)
    ensures
        drawn(counter, 8 + more).take(8) == le64(mixed(stepped(counter))),
        drawn(counter, 8 + more).skip(8) == drawn(stepped(counter), more),
        spent(counter, 8 + more) == spent(stepped(counter), more),
        0 < more <= 8 ==> spent(counter, more) == stepped(counter),
        spent(counter, 0) == counter,
        stepped(counter) == (counter + 0x9e37_79b9_7f4a_7c15) % 0x1_0000_0000_0000_0000,
{
    let all = drawn(counter, 8 + more);
    let first = le64(mixed(stepped(counter)));
    if more == 0 {
        assert(all =~= first);
        assert(all.skip(8) =~= drawn(stepped(counter), more));
    } else {
        assert(all.skip(8) =~= drawn(stepped(counter), more));
    }
    assert(all.take(8) =~= first);
}

/// The counter never repeats before it has been everywhere it goes: different counters step
/// to different ones.
pub proof fn law_steps_never_meet(one: u64, other: u64)
    requires
        stepped(one) == stepped(other),
    ensures
        one == other,
{
}

} // verus!
