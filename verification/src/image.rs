//! `IMAGE` columns: text-pointer framed binary data.

use crate::column_data::{ColumnData, ColumnDataView};
use crate::error::{result_view, DecodeError};
use crate::text_ptr::{
    decode_frame, framed_column, lemma_frame_prefix, lemma_frame_round_trip, lemma_frame_truncated,
    spec_frame,
};
use vstd::prelude::*;

verus! {

/// What decoding an `IMAGE` column from the front of `buf` gives.
pub open spec fn spec_decode(buf: Seq<u8>) -> Result<(int, ColumnDataView), DecodeError> {
    match spec_frame(buf) {
        Ok((n, data)) => Ok((n, ColumnDataView::Binary(data))),
        Err(e) => Err(e),
    }
}

/// Decodes an `IMAGE` column from the front of `buf`.
pub fn decode(buf: &[u8]) -> (res: Result<(usize, ColumnData), DecodeError>)
    ensures
        result_view(res) == spec_decode(buf@),
{
    match decode_frame(buf) {
        Ok((n, data)) => Ok((n, ColumnData::Binary(data))),
        Err(e) => Err(e),
    }
}

/// An `IMAGE` column that decodes from `buf` decodes the same way, with the
/// same length, whatever bytes follow it.
pub proof fn lemma_decode_prefix(buf: Seq<u8>, rest: Seq<u8>)
    requires
        spec_decode(buf) is Ok,
    ensures
        spec_decode(buf + rest) == spec_decode(buf),
{
    lemma_frame_prefix(buf, rest);
}

/// A buffer that holds only part of an `IMAGE` column, cut anywhere before
/// the column's end, is reported as incomplete, and the length it asks for
/// lies past the cut and no further than the column's end.
pub proof fn lemma_decode_truncated(buf: Seq<u8>, k: int)
    requires
        spec_decode(buf) is Ok,
        0 <= k < spec_decode(buf)->Ok_0.0,
    ensures
        spec_decode(buf.take(k)) matches Err(DecodeError::Incomplete { needed }) && k < needed
            <= spec_decode(buf)->Ok_0.0,
{
    lemma_frame_truncated(buf, k);
}

/// Whatever the pointer (1 to 255 bytes), the timestamp and the data, an
/// `IMAGE` column in wire form decodes to all of its data, unchanged and
/// uncut, and takes exactly its own bytes.
pub proof fn lemma_decode_round_trip(pointer: Seq<u8>, timestamp: Seq<u8>, data: Seq<u8>, rest: Seq<u8>)
    requires
        1 <= pointer.len() <= 255,
        timestamp.len() == 8,
        data.len() <= u32::MAX,
    ensures
        spec_decode(framed_column(pointer, timestamp, data) + rest) == Ok::<
            (int, ColumnDataView),
            DecodeError,
        >(((1 + pointer.len() + 12 + data.len()) as int, ColumnDataView::Binary(Some(data)))),
{
    lemma_frame_round_trip(pointer, timestamp, data, rest);
}

} // verus!
