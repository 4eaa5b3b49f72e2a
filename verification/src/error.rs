use vstd::prelude::*;

verus! {

/// Why a value could not be decoded from a buffer.
#[derive(Debug, Clone, PartialEq, Eq)]
pub enum DecodeError {
    /// The buffer ends before the value does. `needed` is the length the
    /// buffer must have, counted from its start, before decoding can go on.
    Incomplete { needed: u64 },
    /// A GUID column announced a length other than 0 or 16.
    InvalidGuidLength(u8),
    /// A text column's collation has no encoding this library can decode
    /// with; the message says why.
    Encoding(String),
}

/// What a decoder's result says, with the value taken by its view: the
/// number of bytes the value took and the value, or the error.
pub open spec fn result_view<T: View>(res: Result<(usize, T), DecodeError>) -> Result<
    (int, T::V),
    DecodeError,
> {
    match res {
        Ok((n, v)) => Ok((n as int, v@)),
        Err(e) => Err(e),
    }
}

} // verus!
