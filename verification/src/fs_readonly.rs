//! `fs.readonly`: a filesystem that can only be read.
use vstd::prelude::*;

use crate::fs::{FsError, FsFailure};
use crate::fs_filtered::{operation, operation_of, FsOperation, PathCall};

verus! {

/// A call of the filesystem.
#[derive(Clone, Copy, PartialEq, Eq, Structural, Debug)]
pub enum FsCall {
    /// An operation at a path.
    At(PathCall),
    Read,
    Write,
    ExecSize,
    ExecRead,
}

/// Whether a call changes anything, or opens a way to.
pub open spec fn changes(call: FsCall) -> bool {
    match call {
        FsCall::At(call) => operation_of(call) == FsOperation::Write,
        FsCall::Write => true,
        _ => false,
    }
}

/// Decide about a call: it goes on as it is, unless it changes anything.
pub fn gate(call: FsCall) -> (forwarded: Result<FsCall, FsError>)
    ensures
        match forwarded {
            Ok(same) => same == call && !changes(call),
            Err(error) => changes(call) && error@ == FsFailure::ReadOnly,
        },
{
    let refused: bool = match call {
        FsCall::At(call) => operation(call) == FsOperation::Write,
        FsCall::Write => true,
        _ => false,
    };
    if refused {
        Err(FsError::ReadOnly)
    } else {
        Ok(call)
    }
}

/// What is refused is what changes something or opens a way to: writing, making, removing,
/// and opening a file to be written, made or cut. Everything else goes on.
pub proof fn law_only_reading_goes_on(call: FsCall)
    ensures
        changes(call) <==> match call {
            FsCall::Write => true,
            FsCall::At(PathCall::Open(flags)) => flags.write || flags.create || flags.truncate,
            FsCall::At(PathCall::CreateDirectory) | FsCall::At(PathCall::Remove) => true,
            _ => false,
        },
{
}

} // verus!
