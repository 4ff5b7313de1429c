//! What a read from a client's socket means.
use vstd::prelude::*;

verus! {

/// A read that came back with fewer bytes than asked for.
#[derive(Clone, Copy, PartialEq, Eq, Structural, Debug)]
pub enum ConnectionError {
    Short { expected: usize, got: usize },
}

/// How a read of `expected` bytes ended.
#[derive(Clone, Copy, PartialEq, Eq, Structural, Debug)]
pub enum ReadStatus {
    /// The client hung up: nothing was read.
    Closed,
    /// All bytes were read.
    Complete,
}

/// The meaning of a read of `expected` bytes that returned `len` bytes: no
/// bytes means the client is gone, and anything but the full amount is an
/// error.
pub fn read_status(len: usize, expected: usize) -> (r: Result<ReadStatus, ConnectionError>)
    ensures
        len == 0 ==> r == Ok::<ReadStatus, ConnectionError>(ReadStatus::Closed),
        len != 0 && len != expected ==> r == Err::<ReadStatus, ConnectionError>(
            ConnectionError::Short { expected, got: len },
        ),
        len != 0 && len == expected ==> r == Ok::<ReadStatus, ConnectionError>(ReadStatus::Complete),
{
    if len == 0 {
        return Ok(ReadStatus::Closed);
    }
    if len != expected {
        return Err(ConnectionError::Short { expected, got: len });
    }
    Ok(ReadStatus::Complete)
}

} // verus!
