//! Errors returned by the library.

use vstd::prelude::*;

verus! {

/// The error type of all fallible operations in the library.
#[derive(Debug)]
pub enum Error {
    /// An I/O error occured while reading or writing a stream.
    IoError(crate::io::Error),
    /// The stream contained malformed data and could not be decoded or demuxed.
    DecodeError(&'static str),
    /// An unsupported container or codec feature was encounted.
    Unsupported(&'static str),
}

/// Convenience alias for the library's results.
pub type Result<T> = core::result::Result<T, Error>;

/// How reading a structure from a stream fails: the stream ends first, or it holds malformed
/// data, with the message of the decode error.
pub enum ReadFailure {
    /// The stream ends before the structure does.
    Eof,
    /// The structure is malformed.
    Decode(&'static str),
}

/// Whether `e` is the error of the failure `f`.
pub open spec fn fails_as(e: Error, f: ReadFailure) -> bool {
    match f {
        ReadFailure::Eof => crate::io::is_eof_error(e),
        ReadFailure::Decode(msg) => e == Error::DecodeError(msg),
    }
}

/// Returns a decode error with the given message.
pub fn decode_error<T>(desc: &'static str) -> (r: Result<T>)
    ensures
        r == Err::<T, Error>(Error::DecodeError(desc)),
{
    Err(Error::DecodeError(desc))
}

/// Returns an unsupported error with the given message.
pub fn unsupported_error<T>(desc: &'static str) -> (r: Result<T>)
    ensures
        r == Err::<T, Error>(Error::Unsupported(desc)),
{
    Err(Error::Unsupported(desc))
}

} // verus!
