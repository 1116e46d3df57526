use vstd::prelude::*;

use crate::error::CodecError;

verus! {

/// Outcome of one read from the host's byte source. A failure status (a
/// negative code) becomes an I/O error carrying that code; any other status
/// passes the count of bytes read through unchanged, a short read or an
/// empty one included. No read is retried.
pub fn read_outcome(status: i32, bytes_read: u32) -> (r: Result<usize, CodecError>)
    ensures
        status < 0 ==> r == Err::<usize, CodecError>(CodecError::IoError(status)),
        status >= 0 ==> r == Ok::<usize, CodecError>(bytes_read as usize),
{
    if status < 0 {
        Err(CodecError::IoError(status))
    } else {
        Ok(bytes_read as usize)
    }
}

} // verus!
