//! The `ORDER` token: a little-endian `u16` byte count followed by the
//! indexes of the columns a result is ordered by, as little-endian `u16`s.

use crate::error::{result_view, DecodeError};
use crate::wire::{copy_range, read_u16_le, spec_u16_le, spec_u16_units, u16_units};
use vstd::prelude::*;

verus! {

/// The columns a result set is ordered by.
#[derive(Debug)]
pub struct TokenOrder {
    pub(crate) column_indexes: Vec<u16>,
}

impl View for TokenOrder {
    type V = Seq<u16>;

    closed spec fn view(&self) -> Seq<u16> {
        self.column_indexes@
    }
}

/// What decoding an `ORDER` token from the front of `buf` gives: its length
/// and its column indexes. An odd trailing byte in the token is ignored.
pub open spec fn spec_decode(buf: Seq<u8>) -> Result<(int, Seq<u16>), DecodeError> {
    if buf.len() < 2 {
        Err(DecodeError::Incomplete { needed: 2 })
    } else if buf.len() < 2 + spec_u16_le(buf, 0) {
        Err(DecodeError::Incomplete { needed: (2 + spec_u16_le(buf, 0)) as u64 })
    } else {
        Ok((2 + spec_u16_le(buf, 0), spec_u16_units(buf.subrange(2, 2 + spec_u16_le(buf, 0)))))
    }
}

impl TokenOrder {
    /// Decodes an `ORDER` token from the front of `buf`.
    pub fn decode(buf: &[u8]) -> (res: Result<(usize, TokenOrder), DecodeError>)
        ensures
            result_view(res) == spec_decode(buf@),
    {
        if buf.len() < 2 {
            return Err(DecodeError::Incomplete { needed: 2 });
        }
        let byte_len: u16 = read_u16_le(buf, 0);
        let end: usize = 2 + byte_len as usize;
        if buf.len() < end {
            return Err(DecodeError::Incomplete { needed: end as u64 });
        }
        let bytes = copy_range(buf, 2, end);
        let column_indexes = u16_units(bytes.as_slice());
        Ok((end, TokenOrder { column_indexes }))
    }

    /// The indexes of the columns the result set is ordered by.
    pub fn column_indexes(&self) -> (indexes: &[u16])
        ensures
            indexes@ == self@,
    {
        self.column_indexes.as_slice()
    }
}

/// A token that decodes from `buf` decodes the same way, with the same
/// length, whatever bytes follow it.
pub proof fn lemma_decode_prefix(buf: Seq<u8>, rest: Seq<u8>)
    requires
        spec_decode(buf) is Ok,
    ensures
        spec_decode(buf + rest) == spec_decode(buf),
{
    let whole = buf + rest;
    assert(whole[0] == buf[0]);
    assert(whole[1] == buf[1]);
    let end = 2 + spec_u16_le(buf, 0);
    assert(whole.subrange(2, end) =~= buf.subrange(2, end));
}

/// A buffer that holds only part of a token, cut anywhere before the
/// token's end, is reported as incomplete, and the length it asks for lies
/// past the cut and no further than the token's end.
pub proof fn lemma_decode_truncated(buf: Seq<u8>, k: int)
    requires
        spec_decode(buf) is Ok,
        0 <= k < spec_decode(buf)->Ok_0.0,
    ensures
        spec_decode(buf.take(k)) matches Err(DecodeError::Incomplete { needed }) && k < needed
            <= spec_decode(buf)->Ok_0.0,
{
    let part = buf.take(k);
    if k >= 2 {
        assert(part[0] == buf[0]);
        assert(part[1] == buf[1]);
    }
}

/// A decoded token takes at least two bytes and no more than the buffer
/// holds, and yields one column index per two bytes of its body; an
/// incomplete one asks for more bytes than the buffer has.
pub proof fn lemma_decode_bounds(buf: Seq<u8>)
    ensures
        spec_decode(buf) matches Ok((n, indexes)) ==> 2 <= n <= buf.len() && indexes.len() == (n
            - 2) / 2,
        spec_decode(buf) matches Err(DecodeError::Incomplete { needed }) ==> buf.len() < needed,
{
}

/// A decoded `ORDER` token takes its 2 length bytes and the body they
/// announce, and its `k`-th column index is the little-endian `u16` at body
/// offset `2k`, in the order they come on the wire.
pub proof fn lemma_decode_indexes(buf: Seq<u8>)
    ensures
        spec_decode(buf) matches Ok((n, indexes)) ==> n == 2 + buf[0] + 256 * buf[1]
            && indexes.len() == (n - 2) / 2 && (forall|k: int|
            0 <= k < indexes.len() ==> indexes[k] == buf[2 + 2 * k] + 256 * buf[3 + 2 * k]),
{
}

} // verus!
