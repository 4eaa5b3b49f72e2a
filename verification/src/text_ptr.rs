//! The text-pointer framing shared by `IMAGE`, `TEXT` and `NTEXT` columns:
//! a pointer length byte (0 for `NULL`), the text pointer, an 8-byte
//! timestamp, a little-endian `u32` data length, then the data.

use crate::error::DecodeError;
use crate::wire::{copy_range, read_u32_le, spec_u32_le};
use vstd::prelude::*;

verus! {

/// Where the data of a non-`NULL` column starts: after the pointer length
/// byte, the pointer, the timestamp and the data length.
pub open spec fn spec_data_start(buf: Seq<u8>) -> int {
    1 + buf[0] + 8 + 4
}

/// Where the data of a non-`NULL` column ends.
pub open spec fn spec_data_end(buf: Seq<u8>) -> int {
    spec_data_start(buf) + spec_u32_le(buf, spec_data_start(buf) - 4)
}

/// What reading a text-pointer framed column from the front of `buf` gives:
/// the bytes it takes and its data (`None` for `NULL`).
pub open spec fn spec_frame(buf: Seq<u8>) -> Result<(int, Option<Seq<u8>>), DecodeError> {
    if buf.len() < 1 {
        Err(DecodeError::Incomplete { needed: 1 })
    } else if buf[0] == 0 {
        Ok((1, None))
    } else if buf.len() < spec_data_start(buf) {
        Err(DecodeError::Incomplete { needed: spec_data_start(buf) as u64 })
    } else if buf.len() < spec_data_end(buf) {
        Err(DecodeError::Incomplete { needed: spec_data_end(buf) as u64 })
    } else {
        Ok((spec_data_end(buf), Some(buf.subrange(spec_data_start(buf), spec_data_end(buf)))))
    }
}

/// What a call of `decode_frame` says, with the data taken by its view.
pub open spec fn frame_view(res: Result<(usize, Option<Vec<u8>>), DecodeError>) -> Result<
    (int, Option<Seq<u8>>),
    DecodeError,
> {
    match res {
        Ok((n, Some(data))) => Ok((n as int, Some(data@))),
        Ok((n, None)) => Ok((n as int, None)),
        Err(e) => Err(e),
    }
}

/// Reads a text-pointer framed column from the front of `buf`, skipping the
/// pointer and the timestamp.
pub fn decode_frame(buf: &[u8]) -> (res: Result<(usize, Option<Vec<u8>>), DecodeError>)
    ensures
        frame_view(res) == spec_frame(buf@),
{
    let n: usize = buf.len();
    if n < 1 {
        return Err(DecodeError::Incomplete { needed: 1 });
    }
    let ptr_len: usize = buf[0] as usize;
    if ptr_len == 0 {
        return Ok((1, None));
    }
    let start: usize = 1 + ptr_len + 8 + 4;
    if n < start {
        return Err(DecodeError::Incomplete { needed: start as u64 });
    }
    let data_len: u32 = read_u32_le(buf, start - 4);
    if ((n - start) as u64) < (data_len as u64) {
        return Err(DecodeError::Incomplete { needed: start as u64 + data_len as u64 });
    }
    let end: usize = start + data_len as usize;
    let data = copy_range(buf, start, end);
    Ok((end, Some(data)))
}

/// A column that reads from `buf` reads the same way, with the same length,
/// whatever bytes follow it.
pub proof fn lemma_frame_prefix(buf: Seq<u8>, rest: Seq<u8>)
    requires
        spec_frame(buf) is Ok,
    ensures
        spec_frame(buf + rest) == spec_frame(buf),
{
    let whole = buf + rest;
    assert(whole[0] == buf[0]);
    if buf[0] != 0 {
        let s = spec_data_start(buf);
        assert(whole[s - 4] == buf[s - 4]);
        assert(whole[s - 3] == buf[s - 3]);
        assert(whole[s - 2] == buf[s - 2]);
        assert(whole[s - 1] == buf[s - 1]);
        assert(whole.subrange(s, spec_data_end(buf)) =~= buf.subrange(s, spec_data_end(buf)));
    }
}

/// A buffer that holds only part of a column, cut anywhere before the
/// column's end, is reported as incomplete, and the length it asks for lies
/// past the cut and no further than the column's end.
pub proof fn lemma_frame_truncated(buf: Seq<u8>, k: int)
    requires
        spec_frame(buf) is Ok,
        0 <= k < spec_frame(buf)->Ok_0.0,
    ensures
        spec_frame(buf.take(k)) matches Err(DecodeError::Incomplete { needed }) && k < needed
            <= spec_frame(buf)->Ok_0.0,
{
    let part = buf.take(k);
    if k > 0 {
        assert(part[0] == buf[0]);
        let s = spec_data_start(buf);
        if k >= s {
            assert(part[s - 4] == buf[s - 4]);
            assert(part[s - 3] == buf[s - 3]);
            assert(part[s - 2] == buf[s - 2]);
            assert(part[s - 1] == buf[s - 1]);
        }
    }
}

/// A column read from a buffer takes at least one byte and no more than the
/// buffer holds; an incomplete one asks for more bytes than the buffer has.
pub proof fn lemma_frame_bounds(buf: Seq<u8>)
    ensures
        spec_frame(buf) matches Ok((n, _)) ==> 1 <= n <= buf.len(),
        spec_frame(buf) matches Err(DecodeError::Incomplete { needed }) ==> buf.len() < needed,
{
}

/// The four little-endian bytes of `x`.
pub open spec fn le32_bytes(x: u32) -> Seq<u8> {
    seq![(x % 256) as u8, ((x / 256) % 256) as u8, ((x / 65536) % 256) as u8, (x / 16777216) as u8]
}

/// The wire form of a non-`NULL` text-pointer framed column: the pointer's
/// length, the pointer, the timestamp, the data's length and the data.
pub open spec fn framed_column(pointer: Seq<u8>, timestamp: Seq<u8>, data: Seq<u8>) -> Seq<u8> {
    seq![pointer.len() as u8] + pointer + timestamp + le32_bytes(data.len() as u32) + data
}

/// The little-endian bytes of a `u32`, read back in the order they are
/// written, give the value.
pub proof fn lemma_le32_bytes(x: u32)
    ensures
        le32_bytes(x).len() == 4,
        le32_bytes(x)[0] + 256 * le32_bytes(x)[1] + 65536 * le32_bytes(x)[2] + 16777216
            * le32_bytes(x)[3] == x,
{
    assert(x % 256 + 256 * ((x / 256) % 256) + 65536 * ((x / 65536) % 256) + 16777216 * (x
        / 16777216) == x) by (bit_vector);
    assert(x / 16777216 < 256) by (bit_vector);
}

/// Whatever the pointer (1 to 255 bytes), the timestamp and the data, the
/// wire form of a column reads back as exactly that data, all of it, and
/// takes the length byte, the pointer, 12 bytes of timestamp and length,
/// and the data; nothing after it is read.
pub proof fn lemma_frame_round_trip(pointer: Seq<u8>, timestamp: Seq<u8>, data: Seq<u8>, rest: Seq<u8>)
    requires
        1 <= pointer.len() <= 255,
        timestamp.len() == 8,
        data.len() <= u32::MAX,
    ensures
        spec_frame(framed_column(pointer, timestamp, data) + rest) == Ok::<
            (int, Option<Seq<u8>>),
            DecodeError,
        >(((1 + pointer.len() + 12 + data.len()) as int, Some(data))),
{
    let len = data.len() as u32;
    let le = le32_bytes(len);
    lemma_le32_bytes(len);
    let col = framed_column(pointer, timestamp, data);
    let buf = col + rest;
    let p = pointer.len() as int;
    let s = 1 + p + 12;
    assert(buf[0] == p);
    assert(spec_data_start(buf) == s);
    assert(buf[s - 4] == le[0]);
    assert(buf[s - 3] == le[1]);
    assert(buf[s - 2] == le[2]);
    assert(buf[s - 1] == le[3]);
    assert(spec_data_end(buf) == s + data.len());
    assert(buf.subrange(s, s + data.len()) =~= data);
}

/// For any buffer whose first byte (the pointer's length) is not zero, the
/// data starts after that many pointer bytes, 8 timestamp bytes and the 4
/// length bytes, and runs for the little-endian length found just before
/// it; the column takes exactly the bytes up to the data's end.
pub proof fn lemma_frame_layout(buf: Seq<u8>)
    requires
        buf.len() >= 1,
        buf[0] != 0,
        buf.len() >= 1 + buf[0] + 12,
        buf.len() >= 1 + buf[0] + 12 + (buf[buf[0] + 9] + 256 * buf[buf[0] + 10] + 65536 * buf[buf[0]
            + 11] + 16777216 * buf[buf[0] + 12]),
    ensures
        ({
            let start = 1 + buf[0] + 12;
            let end = start + (buf[buf[0] + 9] + 256 * buf[buf[0] + 10] + 65536 * buf[buf[0] + 11]
                + 16777216 * buf[buf[0] + 12]);
            spec_frame(buf) == Ok::<(int, Option<Seq<u8>>), DecodeError>(
                (end, Some(buf.subrange(start, end))),
            )
        }),
{
}

} // verus!
