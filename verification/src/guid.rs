//! `UNIQUEIDENTIFIER` columns: a length byte (0 for `NULL`, 16 otherwise)
//! followed by the GUID in its mixed-endian wire layout.

use crate::column_data::{ColumnData, ColumnDataView};
use crate::error::{result_view, DecodeError};
use crate::foreign::make_uuid;
use vstd::prelude::*;

verus! {

/// Turns the wire layout of a GUID into RFC 4122 byte order and back: the
/// first three fields (4, 2 and 2 bytes) are little-endian on the wire.
pub open spec fn spec_reorder(b: Seq<u8>) -> Seq<u8> {
    seq![b[3], b[2], b[1], b[0], b[5], b[4], b[7], b[6]] + b.subrange(8, 16)
}

/// What decoding a GUID column from the front of `buf` gives; a GUID is
/// given by the bytes of its UUID, in RFC 4122 order.
pub open spec fn spec_decode(buf: Seq<u8>) -> Result<(int, ColumnDataView), DecodeError> {
    if buf.len() < 1 {
        Err(DecodeError::Incomplete { needed: 1 })
    } else if buf[0] == 0 {
        Ok((1, ColumnDataView::Guid(None)))
    } else if buf[0] == 16 {
        if buf.len() < 17 {
            Err(DecodeError::Incomplete { needed: 17 })
        } else {
            Ok((17, ColumnDataView::Guid(Some(spec_reorder(buf.subrange(1, 17))))))
        }
    } else {
        Err(DecodeError::InvalidGuidLength(buf[0]))
    }
}

/// Swaps the bytes of the first three GUID fields, converting between the
/// wire layout and RFC 4122 byte order.
pub fn reorder_bytes(bytes: &mut [u8; 16])
    ensures
        final(bytes)@ == spec_reorder(old(bytes)@),
{
    let b0 = bytes[0];
    let b1 = bytes[1];
    let b2 = bytes[2];
    let b3 = bytes[3];
    let b4 = bytes[4];
    let b5 = bytes[5];
    let b6 = bytes[6];
    let b7 = bytes[7];
    bytes[0] = b3;
    bytes[1] = b2;
    bytes[2] = b1;
    bytes[3] = b0;
    bytes[4] = b5;
    bytes[5] = b4;
    bytes[6] = b7;
    bytes[7] = b6;
    assert(bytes@ =~= spec_reorder(old(bytes)@));
}

/// Decodes a GUID column from the front of `buf`.
pub fn decode(buf: &[u8]) -> (res: Result<(usize, ColumnData), DecodeError>)
    ensures
        result_view(res) == spec_decode(buf@),
{
    if buf.len() < 1 {
        return Err(DecodeError::Incomplete { needed: 1 });
    }
    let len = buf[0];
    if len == 0 {
        Ok((1, ColumnData::Guid(None)))
    } else if len == 16 {
        if buf.len() < 17 {
            return Err(DecodeError::Incomplete { needed: 17 });
        }
        let mut data = [0u8; 16];
        let mut i: usize = 0;
        while i < 16
            invariant
                i <= 16,
                buf@.len() >= 17,
                forall|j: int| 0 <= j < i ==> data@[j] == buf@[1 + j],
            decreases 16 - i,
        {
            data[i] = buf[1 + i];
            i = i + 1;
        }
        assert(data@ =~= buf@.subrange(1, 17));
        reorder_bytes(&mut data);
        let uuid = make_uuid(data);
        Ok((17, ColumnData::Guid(Some(uuid))))
    } else {
        Err(DecodeError::InvalidGuidLength(len))
    }
}

/// Reordering a GUID twice gives back the bytes one started with: the same
/// swap turns the wire layout into RFC 4122 order and back.
pub proof fn lemma_reorder_involution(b: Seq<u8>)
    requires
        b.len() == 16,
    ensures
        spec_reorder(spec_reorder(b)) == b,
{
    assert(spec_reorder(spec_reorder(b)) =~= b);
}

/// A GUID column that decodes from `buf` decodes the same way, with the same
/// length, whatever bytes follow it.
pub proof fn lemma_decode_prefix(buf: Seq<u8>, rest: Seq<u8>)
    requires
        spec_decode(buf) is Ok,
    ensures
        spec_decode(buf + rest) == spec_decode(buf),
{
    let whole = buf + rest;
    assert(whole[0] == buf[0]);
    if buf[0] == 16 {
        assert(whole.subrange(1, 17) =~= buf.subrange(1, 17));
    }
}

/// A buffer that holds only part of a GUID column, cut anywhere before the
/// column's end, is reported as incomplete, and the length it asks for lies
/// past the cut and no further than the column's end.
pub proof fn lemma_decode_truncated(buf: Seq<u8>, k: int)
    requires
        spec_decode(buf) is Ok,
        0 <= k < spec_decode(buf)->Ok_0.0,
    ensures
        spec_decode(buf.take(k)) matches Err(DecodeError::Incomplete { needed }) && k < needed
            <= spec_decode(buf)->Ok_0.0,
{
    let part = buf.take(k);
    if k > 0 {
        assert(part[0] == buf[0]);
    }
}

/// A decoded GUID column takes at least one byte and no more than the
/// buffer holds; an incomplete one asks for more bytes than the buffer has.
pub proof fn lemma_decode_bounds(buf: Seq<u8>)
    ensures
        spec_decode(buf) matches Ok((n, _)) ==> 1 <= n <= buf.len(),
        spec_decode(buf) matches Err(DecodeError::Incomplete { needed }) ==> buf.len() < needed,
{
}

/// Whatever its byte values, a complete 16-byte GUID column decodes to the
/// UUID whose bytes are the wire bytes with each of the first three fields
/// (4, 2 and 2 bytes) reversed and the last 8 bytes as they are; it takes
/// 17 bytes.
pub proof fn lemma_decode_guid_bytes(buf: Seq<u8>)
    requires
        buf.len() >= 17,
        buf[0] == 16,
    ensures
        spec_decode(buf) matches Ok((n, ColumnDataView::Guid(Some(u)))) && n == 17 && u.len() == 16
            && u[0] == buf[4] && u[1] == buf[3] && u[2] == buf[2] && u[3] == buf[1] && u[4]
            == buf[6] && u[5] == buf[5] && u[6] == buf[8] && u[7] == buf[7] && (forall|i: int|
            8 <= i < 16 ==> u[i] == buf[i + 1]),
{
}

} // verus!
