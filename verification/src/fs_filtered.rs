//! `fs.filtered`: a filesystem whose paths a policy has to permit.
use vstd::prelude::*;

use crate::fs::{
    is_write, law_normalize_is_idempotent, leaves_root, mutates, normalize, normalized, path_of,
    FsError, FsFailure, OpenFlags,
};

verus! {

/// What an operation does at a path.
#[derive(Clone, Copy, PartialEq, Eq, Structural, Debug)]
pub enum FsOperation {
    Read,
    Write,
}

/// What a policy says.
#[derive(Clone, Copy, PartialEq, Eq, Structural, Debug)]
pub enum Verdict {
    Allow,
    Deny,
    ReadOnly,
}

/// An operation at a path.
#[derive(Clone, Copy, PartialEq, Eq, Structural, Debug)]
pub enum PathCall {
    Open(OpenFlags),
    OpenExec,
    ListDirectory,
    Stat,
    CreateDirectory,
    Remove,
}

/// What an operation does at its path.
pub open spec fn operation_of(call: PathCall) -> FsOperation {
    match call {
        PathCall::Open(flags) => if mutates(flags) {
            FsOperation::Write
        } else {
            FsOperation::Read
        },
        PathCall::OpenExec | PathCall::ListDirectory | PathCall::Stat => FsOperation::Read,
        PathCall::CreateDirectory | PathCall::Remove => FsOperation::Write,
    }
}

/// What opening a file does at its path.
pub fn open_operation(flags: OpenFlags) -> (operation: FsOperation)
    ensures
        operation == operation_of(PathCall::Open(flags)),
{
    if is_write(flags) {
        FsOperation::Write
    } else {
        FsOperation::Read
    }
}

/// What an operation does at its path.
pub fn operation(call: PathCall) -> (operation: FsOperation)
    ensures
        operation == operation_of(call),
{
    match call {
        PathCall::Open(flags) => open_operation(flags),
        PathCall::OpenExec | PathCall::ListDirectory | PathCall::Stat => FsOperation::Read,
        PathCall::CreateDirectory | PathCall::Remove => FsOperation::Write,
    }
}

/// The path that the policy rules on; one that leads above the root is refused before.
pub fn prepare(path: &str) -> (prepared: Result<String, FsError>)
    ensures
        match prepared {
            Ok(text) => normalized(path@) == Some(text@),
            Err(error) => normalized(path@) is None && error@ == FsFailure::Denied,
        },
{
    match normalize(path) {
        Some(text) => Ok(text),
        None => Err(FsError::Denied),
    }
}

/// What a verdict makes of an operation: nothing, or its failure.
pub open spec fn refusal(operation: FsOperation, verdict: Verdict) -> Option<FsFailure> {
    match verdict {
        Verdict::Allow => None,
        Verdict::Deny => Some(FsFailure::Denied),
        Verdict::ReadOnly => match operation {
            FsOperation::Read => None,
            FsOperation::Write => Some(FsFailure::ReadOnly),
        },
    }
}

/// Decide about an operation: the path that the policy ruled on goes on, or the operation
/// fails.
pub fn gate(prepared: String, operation: FsOperation, verdict: Verdict) -> (forwarded: Result<
    String,
    FsError,
>)
    ensures
        match forwarded {
            Ok(path) => path@ == prepared@ && refusal(operation, verdict) is None,
            Err(error) => refusal(operation, verdict) == Some(error@),
        },
{
    match verdict {
        Verdict::Allow => Ok(prepared),
        Verdict::Deny => Err(FsError::Denied),
        Verdict::ReadOnly => match operation {
            FsOperation::Read => Ok(prepared),
            FsOperation::Write => Err(FsError::ReadOnly),
        },
    }
}

/// What is forwarded for a path: its normal form, where the policy's verdict on that very
/// form permits it.
pub open spec fn forwarded(
    path: Seq<char>,
    operation: FsOperation,
    policy: spec_fn(Seq<char>, FsOperation) -> Verdict,
) -> Result<Seq<char>, FsFailure> {
    match normalized(path) {
        None => Err(FsFailure::Denied),
        Some(text) => match refusal(operation, policy(text, operation)) {
            Some(failure) => Err(failure),
            None => Ok(text),
        },
    }
}

/// The path that a policy approved is the path that is accessed: what is forwarded names
/// the path of the request, the policy ruled on that text, and a filesystem that resolves
/// it once more finds the same path.
pub proof fn law_approved_is_accessed(
    path: Seq<char>,
    operation: FsOperation,
    policy: spec_fn(Seq<char>, FsOperation) -> Verdict,
)
    requires
        forwarded(path, operation, policy) is Ok,
    ensures
        ({
            let text = forwarded(path, operation, policy)->Ok_0;
            &&& refusal(operation, policy(text, operation)) is None
            &&& path_of(text) == path_of(path)
            &&& normalized(text) == Some(text)
        }),
{
    law_normalize_is_idempotent(path);
}

/// A path that leads above the root is denied, whatever the policy says, and a policy that
/// denies lets nothing through.
pub proof fn law_denied_stays_denied(
    path: Seq<char>,
    operation: FsOperation,
    policy: spec_fn(Seq<char>, FsOperation) -> Verdict,
)
    ensures
        leaves_root(path) ==> forwarded(path, operation, policy) == Err::<Seq<char>, FsFailure>(
            FsFailure::Denied,
        ),
        !leaves_root(path) && policy(normalized(path)->0, operation) == Verdict::Deny ==> forwarded(
            path,
            operation,
            policy,
        ) == Err::<Seq<char>, FsFailure>(FsFailure::Denied),
{
}

/// Where a policy says that a path is for reading, no change goes on and every read does.
pub proof fn law_read_only_blocks_changes(
    path: Seq<char>,
    policy: spec_fn(Seq<char>, FsOperation) -> Verdict,
)
    requires
        !leaves_root(path),
        policy(normalized(path)->0, FsOperation::Write) == Verdict::ReadOnly,
        policy(normalized(path)->0, FsOperation::Read) == Verdict::ReadOnly,
    ensures
        forwarded(path, FsOperation::Write, policy) == Err::<Seq<char>, FsFailure>(
            FsFailure::ReadOnly,
        ),
        forwarded(path, FsOperation::Read, policy) == Ok::<Seq<char>, FsFailure>(
            normalized(path)->0,
        ),
{
}

/// An operation is a change exactly where it makes or removes something, or opens a file
/// for writing, to be made or to be cut.
pub proof fn law_changes_are_told_apart(call: PathCall)
    ensures
        operation_of(call) == FsOperation::Write <==> match call {
            PathCall::Open(flags) => flags.write || flags.create || flags.truncate,
            PathCall::CreateDirectory | PathCall::Remove => true,
            PathCall::OpenExec | PathCall::ListDirectory | PathCall::Stat => false,
        },
{
}

/// A request goes on exactly where it stays below the root and the policy allows it, or
/// permits reading and it reads; then it goes on for the path that it named. Otherwise the
/// failure says which.
pub proof fn law_policy_decides(
    path: Seq<char>,
    operation: FsOperation,
    policy: spec_fn(Seq<char>, FsOperation) -> Verdict,
)
    ensures
        ({
            let verdict = policy(normalized(path)->0, operation);
            let reads = operation == FsOperation::Read;
            match forwarded(path, operation, policy) {
                Ok(text) => {
                    &&& !leaves_root(path)
                    &&& verdict == Verdict::Allow || verdict == Verdict::ReadOnly && reads
                    &&& path_of(text) == path_of(path)
                },
                Err(failure) => {
                    &&& failure is Denied <==> leaves_root(path) || verdict == Verdict::Deny
                    &&& failure is ReadOnly <==> !leaves_root(path) && verdict == Verdict::ReadOnly
                        && !reads
                    &&& failure is Denied || failure is ReadOnly
                },
            }
        }),
{
    if !leaves_root(path) {
        law_normalize_is_idempotent(path);
    }
}

} // verus!
