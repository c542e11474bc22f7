//! `disk.mem`: a disk in memory.
use vstd::prelude::*;
use vstd::string::*;

use crate::bytes::{slice_of, zero_bytes, zero_vec};
use crate::disk::{ReadError, ReadFailure, WriteError, WriteFailure};

verus! {

/// The size of a disk that was not configured.
pub const DEFAULT_SIZE: usize = 16777216;

/// The disk of a provider, which is all zeros at first.
pub fn with_device(state: &mut Option<Vec<u8>>) -> (device: &mut Vec<u8>)
    ensures
        *old(state) matches Some(before) ==> *device == before,
        *old(state) is None ==> device@ == zero_bytes(DEFAULT_SIZE as nat),
        *final(state) == Some(*final(device)),
{
    if state.is_none() {
        *state = Some(zero_vec(DEFAULT_SIZE));
    }
    state.as_mut().unwrap()
}

/// Whether a range lies in a disk of a size.
pub open spec fn inside(size: nat, offset: u64, len: u64) -> bool {
    offset + len <= size
}

/// The ends of a range that lies in a disk.
pub fn range(device_size: usize, offset: u64, len: u64) -> (ends: Option<(usize, usize)>)
    ensures
        match ends {
            Some((start, end)) => inside(device_size as nat, offset, len) && start == offset && end
                == offset + len,
            None => !inside(device_size as nat, offset, len),
        },
{
    let size: u64 = device_size as u64;
    if offset > size || len > size - offset {
        return None;
    }
    Some((offset as usize, (offset + len) as usize))
}

/// A disk of the given size, all zeros.
pub fn configure(size: u64) -> (device: Result<Vec<u8>, String>)
    ensures
        match device {
            Ok(bytes) => size <= usize::MAX && bytes@ == zero_bytes(size as nat),
            Err(said) => size > usize::MAX && said@
                == "size does not fit in the guest address space"@,
        },
{
    if size > usize::MAX as u64 {
        return Err(String::from_str("size does not fit in the guest address space"));
    }
    Ok(zero_vec(size as usize))
}

/// What a read comes to.
pub open spec fn read_of(device: Seq<u8>, offset: u64, len: u64) -> Result<Seq<u8>, ReadFailure> {
    if inside(device.len(), offset, len) {
        Ok(device.subrange(offset as int, offset + len))
    } else {
        Err(ReadFailure::OutOfRange)
    }
}

/// Read a range.
pub fn read(device: &Vec<u8>, offset: u64, len: u64) -> (result: Result<Vec<u8>, ReadError>)
    ensures
        (match result {
            Ok(bytes) => Ok(bytes@),
            Err(error) => Err(error@),
        }) == read_of(device@, offset, len),
{
    match range(device.len(), offset, len) {
        None => Err(ReadError::OutOfRange),
        Some((start, end)) => Ok(slice_of(device.as_slice(), start, end)),
    }
}

/// The bytes of a disk with others from an offset on.
pub open spec fn replaced(device: Seq<u8>, offset: nat, bytes: Seq<u8>) -> Seq<u8> {
    device.take(offset as int) + bytes + device.skip((offset + bytes.len()) as int)
}

/// What a write comes to.
pub open spec fn write_of(device: Seq<u8>, offset: u64, bytes: Seq<u8>) -> (
    Seq<u8>,
    Result<u64, WriteFailure>,
) {
    if offset + bytes.len() <= device.len() {
        (replaced(device, offset as nat, bytes), Ok(bytes.len() as u64))
    } else {
        (device, Err(WriteFailure::OutOfRange))
    }
}

/// Write a range.
pub fn write(device: &mut Vec<u8>, offset: u64, bytes: &Vec<u8>) -> (result: Result<u64, WriteError>)
    ensures
        (
            final(device)@,
            match result {
                Ok(count) => Ok(count),
                Err(error) => Err(error@),
            },
        ) == write_of(old(device)@, offset, bytes@),
{
    let count: usize = bytes.len();
    let (start, _) = match range(device.len(), offset, count as u64) {
        None => {
            return Err(WriteError::OutOfRange);
        },
        Some(ends) => ends,
    };
    let mut done: usize = 0;
    while done < count
        invariant
            done <= count,
            count == bytes@.len(),
            start == offset,
            start + count <= device@.len(),
            start + count <= usize::MAX,
            device@.len() == old(device)@.len(),
            forall|i: int|
                0 <= i < device@.len() ==> device@[i] == if start <= i < start + done {
                    bytes@[i - start]
                } else {
                    old(device)@[i]
                },
        decreases count - done,
    {
        device.set(start + done, bytes[done]);
        done += 1;
    }
    assert(device@ =~= replaced(old(device)@, offset as nat, bytes@));
    Ok(count as u64)
}

/// Reading a range gives back what was written to it; any range beside it reads as before.
pub proof fn law_read_after_write(
    device: Seq<u8>,
    offset: u64,
    bytes: Seq<u8>,
    other: u64,
    len: u64,
)
    requires
        offset + bytes.len() <= device.len(),
        device.len() <= u64::MAX,
    ensures
        read_of(write_of(device, offset, bytes).0, offset, bytes.len() as u64) == Ok::<
            Seq<u8>,
            ReadFailure,
        >(bytes),
        inside(device.len(), other, len) && (other + len <= offset || offset + bytes.len()
            <= other) ==> read_of(write_of(device, offset, bytes).0, other, len) == read_of(
            device,
            other,
            len,
        ),
{
    let after = write_of(device, offset, bytes).0;
    assert(after.len() == device.len());
    assert(after.subrange(offset as int, offset + bytes.len()) =~= bytes);
    if inside(device.len(), other, len) && (other + len <= offset || offset + bytes.len()
        <= other) {
        assert(after.subrange(other as int, other + len) =~= device.subrange(
            other as int,
            other + len,
        ));
    }
}

/// No access is done in part: one that does not lie in the disk changes nothing, and the
/// size of the disk stays.
pub proof fn law_no_partial_access(device: Seq<u8>, offset: u64, bytes: Seq<u8>)
    ensures
        offset + bytes.len() > device.len() ==> write_of(device, offset, bytes) == (
            device,
            Err::<u64, WriteFailure>(WriteFailure::OutOfRange),
        ),
        write_of(device, offset, bytes).0.len() == device.len(),
{
}

/// A read gives the bytes of its range, and a write puts its bytes into its range and leaves
/// every other byte; each is done exactly where the range lies in the disk.
pub proof fn law_accesses_are_byte_by_byte(device: Seq<u8>, offset: u64, len: u64, bytes: Seq<u8>)
    requires
        bytes.len() <= u64::MAX,
    ensures
        match read_of(device, offset, len) {
            Ok(read) => {
                &&& offset + len <= device.len() && read.len() == len
                &&& forall|i: int| 0 <= i < len ==> #[trigger] read[i] == device[offset + i]
            },
            Err(failure) => offset + len > device.len() && failure is OutOfRange,
        },
        ({
            let (after, result) = write_of(device, offset, bytes);
            match result {
                Ok(count) => {
                    &&& offset + bytes.len() <= device.len() && count == bytes.len()
                    &&& after.len() == device.len()
                    &&& forall|i: int|
                        0 <= i < device.len() ==> #[trigger] after[i] == if offset <= i < offset
                            + bytes.len() {
                            bytes[i - offset]
                        } else {
                            device[i]
                        }
                },
                Err(failure) => offset + bytes.len() > device.len() && failure is OutOfRange
                    && after == device,
            }
        }),
{
}

} // verus!
