use tds_codec::guid;
use tds_codec::image;
use tds_codec::text;
use tds_codec::text_ptr;
use tds_codec::{ColumnData, DecodeError, TokenOrder};
use uuid::Uuid;

/// A text-pointer framed column: pointer, timestamp, length, data.
fn framed(pointer: &[u8], data: &[u8]) -> Vec<u8> {
    let mut buf = vec![pointer.len() as u8];
    buf.extend_from_slice(pointer);
    buf.extend_from_slice(&[0x11, 0x22, 0x33, 0x44, 0x55, 0x66, 0x77, 0x88]);
    buf.extend_from_slice(&(data.len() as u32).to_le_bytes());
    buf.extend_from_slice(data);
    buf
}

const WIRE_GUID: [u8; 16] = [
    0x33, 0x22, 0x11, 0x00, 0x55, 0x44, 0x77, 0x66, 0x88, 0x99, 0xaa, 0xbb, 0xcc, 0xdd, 0xee,
    0xff,
];

#[test]
fn guid_null() {
    assert_eq!(guid::decode(&[0]), Ok((1, ColumnData::Guid(None))));
}

#[test]
fn guid_value_is_reordered() {
    let mut buf = vec![16u8];
    buf.extend_from_slice(&WIRE_GUID);
    let (n, value) = guid::decode(&buf).unwrap();
    assert_eq!(n, 17);
    let expected = Uuid::parse_str("00112233-4455-6677-8899-aabbccddeeff").unwrap();
    assert_eq!(value, ColumnData::Guid(Some(expected)));
}

#[test]
fn guid_ignores_following_bytes() {
    let mut buf = vec![16u8];
    buf.extend_from_slice(&WIRE_GUID);
    let alone = guid::decode(&buf).unwrap();
    buf.extend_from_slice(&[1, 2, 3]);
    assert_eq!(guid::decode(&buf).unwrap(), alone);
    assert_eq!(guid::decode(&[0, 7, 7]), Ok((1, ColumnData::Guid(None))));
}

#[test]
fn guid_incomplete() {
    assert_eq!(guid::decode(&[]), Err(DecodeError::Incomplete { needed: 1 }));
    assert_eq!(guid::decode(&[16, 1, 2]), Err(DecodeError::Incomplete { needed: 17 }));
    let mut buf = vec![16u8];
    buf.extend_from_slice(&WIRE_GUID);
    for k in 0..17 {
        match guid::decode(&buf[..k]) {
            Err(DecodeError::Incomplete { needed }) => assert!(k < needed as usize && needed <= 17),
            other => panic!("cut at {} gave {:?}", k, other),
        }
    }
}

#[test]
fn guid_invalid_length() {
    assert_eq!(guid::decode(&[5]), Err(DecodeError::InvalidGuidLength(5)));
    assert_eq!(guid::decode(&[17, 0, 0]), Err(DecodeError::InvalidGuidLength(17)));
}

#[test]
fn guid_reorder_twice_is_identity() {
    let mut bytes = WIRE_GUID;
    guid::reorder_bytes(&mut bytes);
    assert_eq!(
        bytes,
        [0x00, 0x11, 0x22, 0x33, 0x44, 0x55, 0x66, 0x77, 0x88, 0x99, 0xaa, 0xbb, 0xcc, 0xdd, 0xee, 0xff]
    );
    guid::reorder_bytes(&mut bytes);
    assert_eq!(bytes, WIRE_GUID);
}

#[test]
fn image_null() {
    assert_eq!(image::decode(&[0, 9, 9]), Ok((1, ColumnData::Binary(None))));
}

#[test]
fn image_value() {
    let buf = framed(&[0xaa, 0xbb], &[1, 2, 3]);
    assert_eq!(buf.len(), 18);
    assert_eq!(image::decode(&buf), Ok((18, ColumnData::Binary(Some(vec![1, 2, 3])))));
}

#[test]
fn image_empty_data() {
    let buf = framed(&[0xaa], &[]);
    assert_eq!(image::decode(&buf), Ok((14, ColumnData::Binary(Some(vec![])))));
}

#[test]
fn image_incomplete() {
    let buf = framed(&[0xaa, 0xbb], &[1, 2, 3]);
    assert_eq!(image::decode(&buf[..0]), Err(DecodeError::Incomplete { needed: 1 }));
    assert_eq!(image::decode(&buf[..5]), Err(DecodeError::Incomplete { needed: 15 }));
    assert_eq!(image::decode(&buf[..15]), Err(DecodeError::Incomplete { needed: 18 }));
    assert_eq!(image::decode(&buf[..17]), Err(DecodeError::Incomplete { needed: 18 }));
}

#[test]
fn image_large_length_asks_for_all_of_it() {
    let mut buf = vec![1u8, 0xaa, 0, 0, 0, 0, 0, 0, 0, 0];
    buf.extend_from_slice(&u32::MAX.to_le_bytes());
    assert_eq!(
        image::decode(&buf),
        Err(DecodeError::Incomplete { needed: 14 + u32::MAX as u64 })
    );
}

#[test]
fn frame_ignores_following_bytes() {
    let mut buf = framed(&[0xaa, 0xbb], &[4, 5]);
    let alone = text_ptr::decode_frame(&buf).unwrap();
    assert_eq!(alone, (17, Some(vec![4, 5])));
    buf.extend_from_slice(&[6, 7, 8]);
    assert_eq!(text_ptr::decode_frame(&buf).unwrap(), alone);
}

#[test]
fn text_utf16() {
    let buf = framed(&[1, 2, 3], &[0x68, 0x00, 0x69, 0x00]);
    assert_eq!(
        text::decode(&buf, None),
        Ok((buf.len(), ColumnData::String(Some("hi".to_string()))))
    );
}

#[test]
fn text_utf16_odd_byte_and_lone_surrogate() {
    let buf = framed(&[1], &[0x41, 0x00, 0x00, 0xd8, 0x42, 0x00, 0x43]);
    assert_eq!(
        text::decode(&buf, None),
        Ok((buf.len(), ColumnData::String(Some("A\u{fffd}B".to_string()))))
    );
}

#[test]
fn text_with_encoding() {
    let buf = framed(&[1], &[0x63, 0x61, 0x66, 0xe9]);
    assert_eq!(
        text::decode(&buf, Some(Ok(encoding_rs::WINDOWS_1252))),
        Ok((buf.len(), ColumnData::String(Some("café".to_string()))))
    );
}

#[test]
fn text_null_and_incomplete() {
    assert_eq!(text::decode(&[0], None), Ok((1, ColumnData::String(None))));
    assert_eq!(
        text::decode(&[0], Some(Ok(encoding_rs::UTF_8))),
        Ok((1, ColumnData::String(None)))
    );
    assert_eq!(text::decode(&[2, 1], None), Err(DecodeError::Incomplete { needed: 15 }));
}

#[test]
fn token_order_indexes() {
    let (n, order) = TokenOrder::decode(&[4, 0, 1, 0, 0x02, 0x01, 99]).unwrap();
    assert_eq!(n, 6);
    assert_eq!(order.column_indexes(), &[1, 0x0102]);
}

#[test]
fn token_order_odd_length_and_empty() {
    let (n, order) = TokenOrder::decode(&[3, 0, 7, 0, 9]).unwrap();
    assert_eq!(n, 5);
    assert_eq!(order.column_indexes(), &[7]);
    let (n, order) = TokenOrder::decode(&[0, 0]).unwrap();
    assert_eq!(n, 2);
    assert!(order.column_indexes().is_empty());
}

#[test]
fn token_order_incomplete() {
    assert_eq!(TokenOrder::decode(&[4]).unwrap_err(), DecodeError::Incomplete { needed: 2 });
    assert_eq!(
        TokenOrder::decode(&[0, 1, 0]).unwrap_err(),
        DecodeError::Incomplete { needed: 258 }
    );
}

#[test]
fn text_lookup_error() {
    let err = || Some(Err("encoding: unsupported collation".to_string()));
    let buf = framed(&[1, 2], &[0x41, 0x00]);
    assert_eq!(
        text::decode(&buf, err()),
        Err(DecodeError::Encoding("encoding: unsupported collation".to_string()))
    );
    // Only the length byte, the pointer and the timestamp are needed.
    assert_eq!(
        text::decode(&buf[..11], err()),
        Err(DecodeError::Encoding("encoding: unsupported collation".to_string()))
    );
    assert_eq!(text::decode(&buf[..10], err()), Err(DecodeError::Incomplete { needed: 11 }));
    assert_eq!(text::decode(&[0], err()), Ok((1, ColumnData::String(None))));
    assert_eq!(text::decode(&[], err()), Err(DecodeError::Incomplete { needed: 1 }));
}

#[test]
fn text_utf16_surrogate_pair() {
    let buf = framed(&[1], &[0x3d, 0xd8, 0x00, 0xde]);
    assert_eq!(
        text::decode(&buf, None),
        Ok((buf.len(), ColumnData::String(Some("\u{1F600}".to_string()))))
    );
}
