//! `TEXT` and `NTEXT` columns: text-pointer framed text. With a collation
//! the bytes are decoded with the collation's encoding; without one they
//! are UTF-16LE.

use crate::column_data::{ColumnData, ColumnDataView};
use crate::error::{result_view, DecodeError};
use crate::foreign::{decode_without_bom, decoded_without_bom, spec_utf16_lossy, string_from_utf16_lossy};
use crate::text_ptr::{
    decode_frame, framed_column, lemma_frame_prefix, lemma_frame_round_trip, lemma_frame_truncated,
    spec_data_start, spec_frame,
};
use crate::wire::{spec_u16_units, u16_units};
use encoding_rs::Encoding;
use vstd::prelude::*;

verus! {

/// The text of a column's data: decoded with the encoding if there is one,
/// else read as UTF-16LE with unpaired surrogates replaced.
pub open spec fn spec_text(encoding: Option<&'static Encoding>, data: Seq<u8>) -> Seq<char> {
    match encoding {
        Some(enc) => decoded_without_bom(*enc, data),
        None => spec_utf16_lossy(spec_u16_units(data)),
    }
}

/// What decoding a text column with a known encoding (or none) from the
/// front of `buf` gives.
pub open spec fn spec_decode_framed(buf: Seq<u8>, encoding: Option<&'static Encoding>) -> Result<
    (int, ColumnDataView),
    DecodeError,
> {
    match spec_frame(buf) {
        Ok((n, Some(data))) => Ok((n, ColumnDataView::String(Some(spec_text(encoding, data))))),
        Ok((n, None)) => Ok((n, ColumnDataView::String(None))),
        Err(e) => Err(e),
    }
}

/// Where the collation's encoding is looked up in a non-`NULL` column: after
/// the pointer length byte, the pointer and the timestamp.
pub open spec fn spec_lookup_at(buf: Seq<u8>) -> int {
    spec_data_start(buf) - 4
}

/// What decoding a text column from the front of `buf` gives. `collation`
/// is the result of looking up the encoding of the column's collation, if
/// the column has one. A failed lookup is the column's error once its
/// pointer and timestamp are in the buffer, unless the column is `NULL`.
pub open spec fn spec_decode(
    buf: Seq<u8>,
    collation: Option<Result<&'static Encoding, String>>,
) -> Result<(int, ColumnDataView), DecodeError> {
    match collation {
        None => spec_decode_framed(buf, None),
        Some(Ok(enc)) => spec_decode_framed(buf, Some(enc)),
        Some(Err(msg)) => if buf.len() >= 1 && buf[0] != 0 {
            if buf.len() < spec_lookup_at(buf) {
                Err(DecodeError::Incomplete { needed: spec_lookup_at(buf) as u64 })
            } else {
                Err(DecodeError::Encoding(msg))
            }
        } else {
            spec_decode_framed(buf, None)
        },
    }
}

/// Whether the data of the column at the front of `buf`, if it is complete
/// and not `NULL`, is short enough for an encoding to decode: at most a
/// quarter of `isize::MAX` bytes.
pub open spec fn spec_data_fits(buf: Seq<u8>) -> bool {
    spec_frame(buf) matches Ok((_, Some(data))) ==> data.len() <= isize::MAX / 4
}

/// Decodes a `TEXT` or `NTEXT` column from the front of `buf`. `collation`
/// is the result of looking up the encoding of the column's collation, if
/// the column has one.
pub fn decode(buf: &[u8], collation: Option<Result<&'static Encoding, String>>) -> (res: Result<
    (usize, ColumnData),
    DecodeError,
>)
    requires
        collation matches Some(Ok(_)) ==> spec_data_fits(buf@),
    ensures
        result_view(res) == spec_decode(buf@, collation),
{
    let encoding: Option<&'static Encoding> = match collation {
        None => None,
        Some(Ok(enc)) => Some(enc),
        Some(Err(msg)) => {
            if buf.len() >= 1 && buf[0] != 0 {
                let lookup_at: usize = 1 + buf[0] as usize + 8;
                if buf.len() < lookup_at {
                    return Err(DecodeError::Incomplete { needed: lookup_at as u64 });
                }
                return Err(DecodeError::Encoding(msg));
            }
            None
        },
    };
    match decode_frame(buf) {
        Err(e) => Err(e),
        Ok((n, None)) => Ok((n, ColumnData::String(None))),
        Ok((n, Some(data))) => {
            let text = match encoding {
                Some(enc) => decode_without_bom(enc, data.as_slice()),
                None => {
                    let units = u16_units(data.as_slice());
                    string_from_utf16_lossy(units.as_slice())
                },
            };
            Ok((n, ColumnData::String(Some(text))))
        },
    }
}

/// A text column that decodes from `buf` decodes the same way, with the same
/// length, whatever bytes follow it.
pub proof fn lemma_decode_prefix(
    buf: Seq<u8>,
    rest: Seq<u8>,
    collation: Option<Result<&'static Encoding, String>>,
)
    requires
        spec_decode(buf, collation) is Ok,
    ensures
        spec_decode(buf + rest, collation) == spec_decode(buf, collation),
{
    let whole = buf + rest;
    assert(whole[0] == buf[0]);
    lemma_frame_prefix(buf, rest);
}

/// A buffer that holds only part of a text column, cut anywhere before the
/// column's end, is reported as incomplete, and the length it asks for lies
/// past the cut and no further than the column's end.
pub proof fn lemma_decode_truncated(
    buf: Seq<u8>,
    k: int,
    collation: Option<Result<&'static Encoding, String>>,
)
    requires
        spec_decode(buf, collation) is Ok,
        0 <= k < spec_decode(buf, collation)->Ok_0.0,
    ensures
        spec_decode(buf.take(k), collation) matches Err(DecodeError::Incomplete { needed }) && k
            < needed <= spec_decode(buf, collation)->Ok_0.0,
{
    lemma_frame_truncated(buf, k);
}

/// A non-`NULL` column whose collation has no usable encoding fails with
/// the lookup's error as soon as its length byte, pointer and 8 timestamp
/// bytes are in the buffer, whatever follows; cut shorter, it asks for
/// exactly those bytes.
pub proof fn lemma_lookup_error(
    pointer: Seq<u8>,
    timestamp: Seq<u8>,
    rest: Seq<u8>,
    msg: String,
    k: int,
)
    requires
        1 <= pointer.len() <= 255,
        timestamp.len() == 8,
        1 <= k < 1 + pointer.len() + 8,
    ensures
        spec_decode(seq![pointer.len() as u8] + pointer + timestamp + rest, Some(Err(msg))) == Err::<
            (int, ColumnDataView),
            DecodeError,
        >(DecodeError::Encoding(msg)),
        spec_decode(
            (seq![pointer.len() as u8] + pointer + timestamp + rest).take(k),
            Some(Err(msg)),
        ) == Err::<(int, ColumnDataView), DecodeError>(
            DecodeError::Incomplete { needed: (1 + pointer.len() + 8) as u64 },
        ),
{
    let buf = seq![pointer.len() as u8] + pointer + timestamp + rest;
    assert(buf[0] == pointer.len());
    assert(buf.take(k)[0] == pointer.len());
}

/// Whatever the pointer (1 to 255 bytes), the timestamp and the data, a
/// text column in wire form decodes to the text of all of its data, uncut:
/// with an encoding, the encoding's decoding of the data; without one, the
/// data read as little-endian UTF-16 units (byte `2k` low, byte `2k + 1`
/// high), unpaired surrogates replaced. It takes exactly its own bytes.
pub proof fn lemma_decode_round_trip(
    pointer: Seq<u8>,
    timestamp: Seq<u8>,
    data: Seq<u8>,
    rest: Seq<u8>,
    encoding: &'static Encoding,
)
    requires
        1 <= pointer.len() <= 255,
        timestamp.len() == 8,
        data.len() <= u32::MAX,
    ensures
        ({
            let buf = framed_column(pointer, timestamp, data) + rest;
            let n = (1 + pointer.len() + 12 + data.len()) as int;
            let units = Seq::new(data.len() / 2, |k: int| (data[2 * k] + 256 * data[2 * k + 1]) as u16);
            &&& spec_decode(buf, Some(Ok(encoding))) == Ok::<(int, ColumnDataView), DecodeError>(
                (n, ColumnDataView::String(Some(decoded_without_bom(*encoding, data)))),
            )
            &&& spec_decode(buf, None) == Ok::<(int, ColumnDataView), DecodeError>(
                (n, ColumnDataView::String(Some(spec_utf16_lossy(units)))),
            )
        }),
{
    lemma_frame_round_trip(pointer, timestamp, data, rest);
    let units = Seq::new(data.len() / 2, |k: int| (data[2 * k] + 256 * data[2 * k + 1]) as u16);
    assert(spec_u16_units(data) =~= units);
}

} // verus!
