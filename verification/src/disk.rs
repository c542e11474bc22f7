//! What the disk providers share: errors and ranges.
use vstd::prelude::*;

verus! {

/// Failures of reading a disk.
#[derive(Debug)]
pub enum ReadError {
    NotFound,
    Io(String),
    OutOfRange,
}

/// Failures of reading a disk, over contents.
pub enum ReadFailure {
    NotFound,
    Io(Seq<char>),
    OutOfRange,
}

impl View for ReadError {
    type V = ReadFailure;

    open spec fn view(&self) -> ReadFailure {
        match self {
            ReadError::NotFound => ReadFailure::NotFound,
            ReadError::Io(text) => ReadFailure::Io(text@),
            ReadError::OutOfRange => ReadFailure::OutOfRange,
        }
    }
}

/// Failures of writing a disk.
#[derive(Debug)]
pub enum WriteError {
    Io(String),
    OutOfRange,
    ReadOnly,
}

/// Failures of writing a disk, over contents.
pub enum WriteFailure {
    Io(Seq<char>),
    OutOfRange,
    ReadOnly,
}

impl View for WriteError {
    type V = WriteFailure;

    open spec fn view(&self) -> WriteFailure {
        match self {
            WriteError::Io(text) => WriteFailure::Io(text@),
            WriteError::OutOfRange => WriteFailure::OutOfRange,
            WriteError::ReadOnly => WriteFailure::ReadOnly,
        }
    }
}

/// What a value is over contents is of the same kind as the value itself: no two kinds are
/// taken for one another.
pub proof fn law_contents_keep_their_kind(read_error: ReadError, write_error: WriteError)
    ensures
        read_error is NotFound <==> read_error@ is NotFound,
        read_error is Io <==> read_error@ is Io,
        read_error is OutOfRange <==> read_error@ is OutOfRange,
        write_error is Io <==> write_error@ is Io,
        write_error is OutOfRange <==> write_error@ is OutOfRange,
        write_error is ReadOnly <==> write_error@ is ReadOnly,
{
}

} // verus!
