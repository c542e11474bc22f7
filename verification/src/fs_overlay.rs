//! `fs.overlay`: two filesystems as one, with the upper one read first and the lower one
//! written.
use vstd::prelude::*;

use crate::fs::{is_write, mutates, FsError, FsFailure};
use crate::fs_filtered::{operation_of, FsOperation, PathCall};
use crate::text::same;

verus! {

/// One of the two filesystems.
#[derive(Clone, Copy, PartialEq, Eq, Structural, Debug)]
pub enum Layer {
    Upper,
    Lower,
}

/// The filesystem that an operation asks first; listing asks both.
pub open spec fn first_asked(call: PathCall) -> Layer {
    match call {
        PathCall::Open(flags) => if mutates(flags) {
            Layer::Lower
        } else {
            Layer::Upper
        },
        PathCall::OpenExec | PathCall::Stat | PathCall::ListDirectory => Layer::Upper,
        PathCall::CreateDirectory | PathCall::Remove => Layer::Lower,
    }
}

/// The filesystem that an operation asks first.
pub fn route(call: PathCall) -> (layer: Layer)
    ensures
        layer == first_asked(call),
{
    match call {
        PathCall::Open(flags) => if is_write(flags) {
            Layer::Lower
        } else {
            Layer::Upper
        },
        PathCall::OpenExec | PathCall::Stat | PathCall::ListDirectory => Layer::Upper,
        PathCall::CreateDirectory | PathCall::Remove => Layer::Lower,
    }
}

/// What becomes of an operation when the filesystem that it asked fails: another one is
/// asked, or the operation fails.
pub open spec fn falls(asked: Layer, failure: FsFailure) -> Result<Layer, FsFailure> {
    if asked == Layer::Upper && failure is NotFound {
        Ok(Layer::Lower)
    } else {
        Err(failure)
    }
}

/// What becomes of an operation when the filesystem that it asked fails.
pub fn fall_through(asked: Layer, error: FsError) -> (next: Result<Layer, FsError>)
    ensures
        (match next {
            Ok(layer) => Ok(layer),
            Err(error) => Err(error@),
        }) == falls(asked, error@),
{
    match asked {
        Layer::Upper => match error {
            FsError::NotFound => Ok(Layer::Lower),
            other => Err(other),
        },
        Layer::Lower => Err(error),
    }
}

/// The filesystem that a write on an open file goes to: the lower one, where it was opened
/// there. A file of the upper one is not written.
pub open spec fn written(served: Layer) -> Result<Layer, FsFailure> {
    match served {
        Layer::Upper => Err(FsFailure::ReadOnly),
        Layer::Lower => Ok(Layer::Lower),
    }
}

/// The filesystem that a write on an open file goes to, given the one that served the open.
pub fn write_layer(served: Layer) -> (target: Result<Layer, FsError>)
    ensures
        match target {
            Ok(layer) => served == Layer::Lower && layer == Layer::Lower,
            Err(error) => served == Layer::Upper && error@ == FsFailure::ReadOnly,
        },
        (match target {
            Ok(layer) => Ok(layer),
            Err(error) => Err(error@),
        }) == written(served),
{
    match served {
        Layer::Upper => Err(FsError::ReadOnly),
        Layer::Lower => Ok(Layer::Lower),
    }
}

/// The contents of a list of names.
pub open spec fn names_of(list: Seq<String>) -> Seq<Seq<char>> {
    list.map_values(|name: String| name@)
}

/// One list after another, without what is there already.
pub open spec fn union(upper: Seq<Seq<char>>, lower: Seq<Seq<char>>) -> Seq<Seq<char>>
    decreases lower.len(),
{
    if lower.len() == 0 {
        upper
    } else {
        let before = union(upper, lower.drop_last());
        if before.contains(lower.last()) {
            before
        } else {
            before.push(lower.last())
        }
    }
}

/// A list of names or a failure, over contents.
pub open spec fn listed(result: Result<Vec<String>, FsError>) -> Result<
    Seq<Seq<char>>,
    FsFailure,
> {
    match result {
        Ok(list) => Ok(names_of(list@)),
        Err(error) => Err(error@),
    }
}

/// What the two listings come to: their union, or the one that is there, or the failure
/// of the upper one.
pub open spec fn merged(
    upper: Result<Seq<Seq<char>>, FsFailure>,
    lower: Result<Seq<Seq<char>>, FsFailure>,
) -> Result<Seq<Seq<char>>, FsFailure> {
    match (upper, lower) {
        (Ok(upper), Ok(lower)) => Ok(union(upper, lower)),
        (Ok(upper), Err(_)) => Ok(upper),
        (Err(_), Ok(lower)) => Ok(lower),
        (Err(failure), Err(_)) => Err(failure),
    }
}

fn holds(list: &Vec<String>, name: &String) -> (yes: bool)
    ensures
        yes == names_of(list@).contains(name@),
{
    let mut at: usize = 0;
    while at < list.len()
        invariant
            at <= list.len(),
            forall|i: int| 0 <= i < at ==> (#[trigger] list@[i])@ != name@,
        decreases list.len() - at,
    {
        if same(list[at].as_str(), name.as_str()) {
            assert(names_of(list@)[at as int] == name@);
            return true;
        }
        at += 1;
    }
    assert forall|i: int| 0 <= i < names_of(list@).len() implies names_of(list@)[i] != name@ by {
        assert(names_of(list@)[i] == list@[i]@);
    }
    false
}

/// What the two listings come to.
pub fn merge(upper: Result<Vec<String>, FsError>, lower: Result<Vec<String>, FsError>) -> (result:
    Result<Vec<String>, FsError>)
    ensures
        listed(result) == merged(listed(upper), listed(lower)),
{
    match upper {
        Ok(up) => match lower {
            Ok(low) => {
                let mut all: Vec<String> = up;
                let ghost first = names_of(all@);
                assert(names_of(low@).take(0) =~= Seq::empty());
                for name in iter: low
                    invariant
                        iter.seq() == low@,
                        names_of(all@) == union(
                            first,
                            names_of(low@).take(iter.index() as int),
                        ),
                {
                    let ghost at = iter.index() as int;
                    proof {
                        assert(names_of(low@).take(at + 1).drop_last() =~= names_of(low@).take(at));
                        assert(names_of(low@)[at] == name@);
                    }
                    if !holds(&all, &name) {
                        let ghost before = all@;
                        all.push(name);
                        assert(names_of(all@) =~= names_of(before).push(name@));
                    }
                }
                assert(names_of(low@).take(low@.len() as int) =~= names_of(low@));
                Ok(all)
            },
            Err(_) => Ok(up),
        },
        Err(error) => match lower {
            Ok(low) => Ok(low),
            Err(_) => Err(error),
        },
    }
}

/// No operation that changes anything is asked of the upper filesystem: not one on a path,
/// not one that falls through, and not a write on an open file, whichever filesystem served
/// the open.
pub proof fn law_upper_is_never_changed(
    call: PathCall,
    asked: Layer,
    failure: FsFailure,
    served: Layer,
)
    ensures
        operation_of(call) == FsOperation::Write ==> first_asked(call) == Layer::Lower,
        falls(asked, failure) != Ok::<Layer, FsFailure>(Layer::Upper),
        written(served) != Ok::<Layer, FsFailure>(Layer::Upper),
{
}

/// A name is listed exactly if one of the two filesystems has it; the names of the upper
/// one come first, as they were, and none is listed twice unless the upper one does so.
pub proof fn law_union_of_both(upper: Seq<Seq<char>>, lower: Seq<Seq<char>>)
    ensures
        forall|name: Seq<char>| #[trigger]
            union(upper, lower).contains(name) == (upper.contains(name) || lower.contains(name)),
        upper.len() <= union(upper, lower).len(),
        union(upper, lower).take(upper.len() as int) == upper,
        upper.no_duplicates() ==> union(upper, lower).no_duplicates(),
    decreases lower.len(),
{
    if lower.len() == 0 {
        assert(upper.take(upper.len() as int) =~= upper);
    } else {
        let shorter = lower.drop_last();
        let last = lower.last();
        law_union_of_both(upper, shorter);
        let before = union(upper, shorter);
        let after = union(upper, lower);
        assert forall|name: Seq<char>| lower.contains(name) == (shorter.contains(name) || name
            == last) by {
            if lower.contains(name) && name != last {
                let i = choose|i: int| 0 <= i < lower.len() && lower[i] == name;
                assert(shorter[i] == name);
            }
            if shorter.contains(name) {
                let i = choose|i: int| 0 <= i < shorter.len() && shorter[i] == name;
                assert(lower[i] == name);
            }
            assert(lower[lower.len() - 1] == last);
        }
        assert forall|name: Seq<char>| #[trigger]
            after.contains(name) == (upper.contains(name) || lower.contains(name)) by {
            assert(before.contains(name) == (upper.contains(name) || shorter.contains(name)));
            if !before.contains(last) {
                if before.contains(name) {
                    let i = choose|i: int| 0 <= i < before.len() && before[i] == name;
                    assert(after[i] == name);
                }
                assert(after[before.len() as int] == last);
                if after.contains(name) && name != last {
                    let i = choose|i: int| 0 <= i < after.len() && after[i] == name;
                    assert(before[i] == name);
                }
            }
        }
        assert(after.take(upper.len() as int) =~= before.take(upper.len() as int));
    }
}

/// The filesystem that serves an operation in the end, or its failure, given what each of
/// the two would answer.
pub open spec fn served(
    call: PathCall,
    upper: Option<FsFailure>,
    lower: Option<FsFailure>,
) -> Result<Layer, FsFailure> {
    let first = first_asked(call);
    match answer_of(first, upper, lower) {
        None => Ok(first),
        Some(failure) => match falls(first, failure) {
            Err(failure) => Err(failure),
            Ok(next) => match answer_of(next, upper, lower) {
                None => Ok(next),
                Some(failure) => Err(failure),
            },
        },
    }
}

/// What one of the two answers.
pub open spec fn answer_of(
    layer: Layer,
    upper: Option<FsFailure>,
    lower: Option<FsFailure>,
) -> Option<FsFailure> {
    if layer == Layer::Upper {
        upper
    } else {
        lower
    }
}

/// Whether an operation makes, removes or opens anything for a change.
pub open spec fn is_change(call: PathCall) -> bool {
    match call {
        PathCall::Open(flags) => flags.write || flags.create || flags.truncate,
        PathCall::CreateDirectory | PathCall::Remove => true,
        _ => false,
    }
}

/// What is read comes from the upper filesystem where it has it, and from the lower one
/// where the upper one does not; any other failure of the upper one stands. What changes
/// anything goes to the lower one, and what that answers stands.
pub proof fn law_upper_shadows_lower(
    call: PathCall,
    upper: Option<FsFailure>,
    lower: Option<FsFailure>,
)
    ensures
        is_change(call) ==> served(call, upper, lower) == match lower {
            None => Ok::<Layer, FsFailure>(Layer::Lower),
            Some(failure) => Err::<Layer, FsFailure>(failure),
        },
        !is_change(call) && upper is None ==> served(call, upper, lower) == Ok::<Layer, FsFailure>(
            Layer::Upper,
        ),
        !is_change(call) && upper == Some(FsFailure::NotFound) ==> served(call, upper, lower)
            == match lower {
            None => Ok::<Layer, FsFailure>(Layer::Lower),
            Some(failure) => Err::<Layer, FsFailure>(failure),
        },
        !is_change(call) && (upper matches Some(failure) && !(failure is NotFound)) ==> served(
            call,
            upper,
            lower,
        ) == Err::<Layer, FsFailure>(upper->0),
{
}

/// A file that the lower filesystem opened is written there, and one of the upper one is
/// for reading.
pub proof fn law_writes_go_where_the_file_is(served: Layer)
    ensures
        served == Layer::Lower <==> written(served) is Ok,
        written(served) matches Ok(layer) ==> layer == served,
        written(served) matches Err(failure) ==> failure is ReadOnly,
{
}

/// What a listing comes to: a name is in it exactly if one of the two that could be listed
/// has it, those that only the lower one has come last in its order, and it fails only
/// where both fail, as the upper one does.
pub proof fn law_listing_is_both(
    upper: Result<Seq<Seq<char>>, FsFailure>,
    lower: Result<Seq<Seq<char>>, FsFailure>,
)
    ensures
        ({
            let both = merged(upper, lower);
            &&& both is Err <==> upper is Err && lower is Err
            &&& both matches Err(failure) ==> failure == upper->Err_0
            &&& both matches Ok(names) ==> {
                &&& forall|name: Seq<char>| #[trigger]
                    names.contains(name) <==> (upper matches Ok(list) && list.contains(name)) || (
                    lower matches Ok(list) && list.contains(name))
                &&& upper matches Ok(list) ==> list.len() <= names.len() && names.take(
                    list.len() as int,
                ) == list
                &&& lower matches Ok(list) ==> list.no_duplicates() ==> names.skip(
                    if upper is Ok {
                        upper->Ok_0.len() as int
                    } else {
                        0
                    },
                ) == list.filter(
                    |name: Seq<char>| !(upper matches Ok(list) && list.contains(name)),
                )
            }
        }),
{
    match (upper, lower) {
        (Ok(one), Ok(other)) => {
            law_union_of_both(one, other);
            let known = |name: Seq<char>| !(upper matches Ok(list) && list.contains(name));
            if other.no_duplicates() {
                lemma_union_tail(one, other, known);
            }
        },
        (Ok(one), Err(_)) => {
            assert(one.take(one.len() as int) =~= one);
        },
        (Err(_), Ok(other)) => {
            let known = |name: Seq<char>| !(upper matches Ok(list) && list.contains(name));
            lemma_filter_keeps_all(other, known);
            assert(other.skip(0) =~= other);
        },
        _ => {},
    }
}

proof fn lemma_filter_keeps_all(names: Seq<Seq<char>>, keep: spec_fn(Seq<char>) -> bool)
    requires
        forall|name: Seq<char>| #[trigger] keep(name),
    ensures
        names.filter(keep) == names,
    decreases names.len(),
{
    reveal(Seq::filter);
    if names.len() > 0 {
        lemma_filter_keeps_all(names.drop_last(), keep);
        assert(keep(names.last()));
        assert(names =~= names.drop_last().push(names.last()));
    }
}

proof fn lemma_union_tail(
    upper: Seq<Seq<char>>,
    lower: Seq<Seq<char>>,
    new: spec_fn(Seq<char>) -> bool,
)
    requires
        lower.no_duplicates(),
        forall|name: Seq<char>| #[trigger] new(name) == !upper.contains(name),
    ensures
        union(upper, lower).skip(upper.len() as int) == lower.filter(new),
    decreases lower.len(),
{
    reveal(Seq::filter);
    let from = upper.len() as int;
    if lower.len() == 0 {
        assert(upper.skip(from) =~= Seq::empty());
        assert(lower.filter(new) =~= Seq::empty());
    } else {
        let fewer = lower.drop_last();
        assert forall|i: int, j: int| 0 <= i < fewer.len() && 0 <= j < fewer.len() && i != j implies
            fewer[i] != fewer[j] by {
            assert(lower[i] != lower[j]);
        }
        lemma_union_tail(upper, fewer, new);
        law_union_of_both(upper, fewer);
        let last = lower.last();
        assert(!fewer.contains(last)) by {
            if fewer.contains(last) {
                let i = choose|i: int| 0 <= i < fewer.len() && fewer[i] == last;
                assert(lower[i] != lower[lower.len() - 1]);
            }
        }
        let before = union(upper, fewer);
        assert(new(last) == !upper.contains(last));
        assert(before.contains(last) == upper.contains(last));
        if new(last) {
            assert(before.push(last).skip(from) =~= before.skip(from).push(last));
        }
    }
}

} // verus!
