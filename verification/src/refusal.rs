//! The providers that refuse, do nothing or are not there: `*.deny`, `*.null` and
//! `*.none`.
use vstd::prelude::*;

verus! {

/// The one failure of a provider that refuses: the `denied` of its interface.
#[derive(Clone, Copy, PartialEq, Eq, Structural, Debug)]
pub struct Denied;

/// What a provider that refuses answers to every operation that does not need something
/// it gave out before.
pub fn refuse<T>() -> (answer: Result<T, Denied>)
    ensures
        answer == Err::<T, Denied>(Denied),
{
    Err(Denied)
}

/// What a provider that is not there gives out.
pub fn absent<T>() -> (root: Option<T>)
    ensures
        root is None,
{
    None
}

/// `perf.null`: a counter that does not count.
pub fn cycle_counter() -> (cycles: u64)
    ensures
        cycles == 0,
{
    0
}

/// `text.null`: whatever is written is swallowed.
pub fn swallow<E>(_text: &str) -> (answer: Result<(), E>)
    ensures
        answer == Ok::<(), E>(()),
{
    Ok(())
}

/// `text.null`: there is never a line to read.
pub fn read_line<E>() -> (answer: Result<Option<String>, E>)
    ensures
        answer matches Ok(line) && line is None,
{
    Ok(None)
}

} // verus!
