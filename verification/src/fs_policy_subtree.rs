//! `fs.policy-subtree`: a policy that permits what lies under a prefix.
use vstd::prelude::*;
use vstd::string::*;

use crate::fs::{
    absolute, all_plain, law_normal_form_is_unique, law_paths_are_plain, leaves_root,
    lemma_pieces_concat, lemma_pieces_slashed, normalize, normalized, path_of, plain, slashed,
    Path,
};
use crate::fs_filtered::{forwarded, FsOperation, Verdict};
use crate::text::{letters, pieces};

verus! {

/// What is permitted under the prefix.
#[derive(Clone, Copy, PartialEq, Eq, Structural, Debug)]
pub enum SubtreeAccess {
    ReadOnly,
    ReadWrite,
}

/// A prefix in its normal form and what is permitted under it.
#[derive(Debug)]
pub struct Rule {
    pub prefix: String,
    pub access: SubtreeAccess,
}

/// A rule, over contents.
pub struct RuleView {
    pub prefix: Seq<char>,
    pub access: SubtreeAccess,
}

impl View for Rule {
    type V = RuleView;

    open spec fn view(&self) -> RuleView {
        RuleView { prefix: self.prefix@, access: self.access }
    }
}

/// A rule that may not be there yet, over contents.
pub open spec fn rule_of(rule: Option<Rule>) -> Option<RuleView> {
    match rule {
        Some(rule) => Some(rule@),
        None => None,
    }
}

/// Whether a text is another or lies under it: the other, then a slash.
pub open spec fn lies_under(path: Seq<char>, prefix: Seq<char>) -> bool {
    ||| prefix == seq!['/']
    ||| path == prefix
    ||| path.len() > prefix.len() && path.take(prefix.len() as int) == prefix
        && path[prefix.len() as int] == '/'
}

/// Whether a path is a prefix or lies under it.
pub fn under(path: &str, prefix: &str) -> (yes: bool)
    ensures
        yes == lies_under(path@, prefix@),
{
    let long = letters(path);
    let short = letters(prefix);
    if short.len() == 1 && short[0] == '/' {
        assert(short@ =~= seq!['/']);
        return true;
    }
    assert(short@ != seq!['/']) by {
        if short@ == seq!['/'] {
            assert(short@[0] == '/');
        }
    }
    if long.len() < short.len() {
        return false;
    }
    let mut at: usize = 0;
    while at < short.len()
        invariant
            at <= short.len() <= long.len(),
            long@ == path@,
            short@ == prefix@,
            short@ != seq!['/'],
            forall|i: int| 0 <= i < at ==> long@[i] == short@[i],
        decreases short.len() - at,
    {
        if long[at] != short[at] {
            assert(long@.take(short@.len() as int)[at as int] != short@[at as int]);
            return false;
        }
        at += 1;
    }
    assert(long@.take(short@.len() as int) =~= short@);
    if long.len() == short.len() {
        assert(long@ =~= short@);
        return true;
    }
    long[short.len()] == '/'
}

/// What is said of a prefix that leads above the root.
pub open spec fn escape_text() -> Seq<char> {
    "the subtree prefix escapes the root (too many `..` segments)"@
}

/// Take a prefix and what is permitted under it.
pub fn configure(prefix: &str, access: SubtreeAccess) -> (result: Result<Rule, String>)
    ensures
        match result {
            Ok(rule) => normalized(prefix@) == Some(rule.prefix@) && rule.access == access,
            Err(said) => leaves_root(prefix@) && said@ == escape_text(),
        },
{
    match normalize(prefix) {
        Some(prefix) => Ok(Rule { prefix, access }),
        None => Err(
            String::from_str("the subtree prefix escapes the root (too many `..` segments)"),
        ),
    }
}

/// What is permitted under the prefix.
pub open spec fn granted(access: SubtreeAccess, operation: FsOperation) -> Verdict {
    match (access, operation) {
        (SubtreeAccess::ReadOnly, FsOperation::Write) => Verdict::ReadOnly,
        _ => Verdict::Allow,
    }
}

/// What the policy says of an operation at a path.
pub open spec fn ruled(rule: Option<RuleView>, path: Seq<char>, operation: FsOperation) -> Verdict {
    match rule {
        None => Verdict::Deny,
        Some(rule) => match normalized(path) {
            None => Verdict::Deny,
            Some(text) => if lies_under(text, rule.prefix) {
                granted(rule.access, operation)
            } else {
                Verdict::Deny
            },
        },
    }
}

/// What the policy says of an operation at a path.
pub fn check(rule: &Option<Rule>, path: &str, operation: FsOperation) -> (verdict: Verdict)
    ensures
        verdict == ruled(rule_of(*rule), path@, operation),
{
    let rule = match rule {
        Some(rule) => rule,
        None => {
            return Verdict::Deny;
        },
    };
    let path = match normalize(path) {
        Some(path) => path,
        None => {
            return Verdict::Deny;
        },
    };
    if !under(path.as_str(), rule.prefix.as_str()) {
        return Verdict::Deny;
    }
    match rule.access {
        SubtreeAccess::ReadWrite => Verdict::Allow,
        SubtreeAccess::ReadOnly => match operation {
            FsOperation::Read => Verdict::Allow,
            FsOperation::Write => Verdict::ReadOnly,
        },
    }
}

/// Whether a path is another or lies under it.
pub open spec fn within(path: Path, prefix: Path) -> bool {
    prefix.len() <= path.len() && path.take(prefix.len() as int) == prefix
}

proof fn lemma_slashed_concat(one: Path, other: Path)
    ensures
        slashed(one + other) == slashed(one) + slashed(other),
    decreases other.len(),
{
    if other.len() == 0 {
        assert(one + other =~= one);
        assert(slashed(one + other) =~= slashed(one) + slashed(other));
    } else {
        assert((one + other).drop_last() =~= one + other.drop_last());
        lemma_slashed_concat(one, other.drop_last());
        assert(slashed(one + other) =~= slashed(one) + slashed(other));
    }
}

proof fn lemma_slashed_starts(path: Path)
    requires
        path.len() > 0,
    ensures
        slashed(path).len() > 0,
        slashed(path)[0] == '/',
        all_plain(path) ==> slashed(path).len() >= 2,
    decreases path.len(),
{
    if path.len() > 1 {
        lemma_slashed_starts(path.drop_last());
    } else {
        assert(slashed(path.drop_last()) =~= Seq::empty());
    }
    if all_plain(path) {
        assert(plain(path[path.len() - 1]));
    }
}

proof fn lemma_under_is_within(path: Path, prefix: Path)
    requires
        all_plain(path),
        all_plain(prefix),
    ensures
        lies_under(absolute(path), absolute(prefix)) == within(path, prefix),
{
    let long = absolute(path);
    let short = absolute(prefix);
    if prefix.len() == 0 {
        assert(path.take(0) =~= prefix);
    } else {
        lemma_slashed_starts(prefix);
        if within(path, prefix) {
            let rest = path.skip(prefix.len() as int);
            assert(path =~= prefix + rest);
            lemma_slashed_concat(prefix, rest);
            if rest.len() == 0 {
                assert(path =~= prefix);
            } else {
                lemma_slashed_starts(rest);
                assert(long.take(short.len() as int) =~= short);
            }
        }
        if lies_under(long, short) {
            if long == short {
                law_normal_form_is_unique(path, prefix);
                assert(path.take(prefix.len() as int) =~= prefix);
            } else {
                let rest = long.skip((short.len() + 1) as int);
                assert(long =~= short + seq!['/'] + rest);
                lemma_pieces_concat(short, rest);
                lemma_pieces_slashed(path);
                lemma_pieces_slashed(prefix);
                let first = seq![Seq::<char>::empty()];
                assert(first + path == first + prefix + pieces(rest, '/'));
                assert((first + path).len() == 1 + path.len());
                assert forall|i: int| 0 <= i < prefix.len() implies path[i] == prefix[i] by {
                    assert((first + path)[i + 1] == path[i]);
                    assert((first + prefix + pieces(rest, '/'))[i + 1] == prefix[i]);
                }
                assert(path.take(prefix.len() as int) =~= prefix);
            }
        }
    }
}

/// The policy permits exactly what lies under its prefix, name by name: a name that only
/// begins like the prefix is outside, and so is every path that leads above the root.
pub proof fn law_only_the_subtree(
    prefix: Seq<char>,
    access: SubtreeAccess,
    path: Seq<char>,
    operation: FsOperation,
)
    requires
        !leaves_root(prefix),
    ensures
        ({
            let rule = RuleView { prefix: normalized(prefix)->0, access };
            ruled(Some(rule), path, operation) == if !leaves_root(path) && within(
                path_of(path),
                path_of(prefix),
            ) {
                granted(access, operation)
            } else {
                Verdict::Deny
            }
        }),
{
    law_paths_are_plain(path);
    law_paths_are_plain(prefix);
    lemma_under_is_within(path_of(path), path_of(prefix));
}

/// Behind the filter the policy keeps every access inside its subtree: what is forwarded
/// lies under the prefix, and a change is forwarded only where changes are permitted.
pub proof fn law_filter_stays_inside(
    prefix: Seq<char>,
    access: SubtreeAccess,
    path: Seq<char>,
    operation: FsOperation,
)
    requires
        !leaves_root(prefix),
    ensures
        ({
            let rule = RuleView { prefix: normalized(prefix)->0, access };
            let policy = |text: Seq<char>, operation: FsOperation| ruled(
                Some(rule),
                text,
                operation,
            );
            forwarded(path, operation, policy) matches Ok(text) ==> {
                &&& within(path_of(text), path_of(prefix))
                &&& operation == FsOperation::Write ==> access == SubtreeAccess::ReadWrite
            }
        }),
{
    if !leaves_root(path) {
        law_only_the_subtree(prefix, access, normalized(path)->0, operation);
    }
}

/// A policy that is not configured denies everything.
pub proof fn law_unconfigured_denies(path: Seq<char>, operation: FsOperation)
    ensures
        ruled(None, path, operation) == Verdict::Deny,
{
}

/// Under the prefix everything may be read, and changed exactly where changes are granted;
/// outside nothing may be done.
pub proof fn law_grants_are_as_configured(
    prefix: Seq<char>,
    access: SubtreeAccess,
    path: Seq<char>,
)
    requires
        !leaves_root(prefix),
    ensures
        ({
            let rule = Some(RuleView { prefix: normalized(prefix)->0, access });
            let inside = !leaves_root(path) && path_of(prefix).is_prefix_of(path_of(path));
            &&& inside ==> ruled(rule, path, FsOperation::Read) == Verdict::Allow
            &&& inside && access == SubtreeAccess::ReadWrite ==> ruled(
                rule,
                path,
                FsOperation::Write,
            ) == Verdict::Allow
            &&& inside && access == SubtreeAccess::ReadOnly ==> ruled(
                rule,
                path,
                FsOperation::Write,
            ) == Verdict::ReadOnly
            &&& !inside ==> ruled(rule, path, FsOperation::Read) == Verdict::Deny && ruled(
                rule,
                path,
                FsOperation::Write,
            ) == Verdict::Deny
        }),
{
    law_only_the_subtree(prefix, access, path, FsOperation::Read);
    law_only_the_subtree(prefix, access, path, FsOperation::Write);
    let (whole, part) = (path_of(path), path_of(prefix));
    if part.len() <= whole.len() {
        assert(whole.take(part.len() as int) =~= whole.subrange(0, part.len() as int));
    }
}

} // verus!
