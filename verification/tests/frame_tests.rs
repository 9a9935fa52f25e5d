//! Tests of the TLV frame codec: format codes, the byte-at-a-time builder,
//! data items and the decoded frame view.

use icom_sim::data_frame::DataFrame;
use icom_sim::data_item::DataItem;
use icom_sim::raw_frame::{FrameError, FrameState, RawFrame, ACK, ETX, NACK, STX};
use icom_sim::t_format::TFormat;
use icom_sim::t_value::TValue;

#[test]
fn t_format_test_encode_decode() {
    for t_format in vec![
        TFormat::Unknown,
        TFormat::U8,
        TFormat::Bool,
        TFormat::U16,
        TFormat::U32,
        TFormat::U64,
        TFormat::I8,
        TFormat::I16,
        TFormat::I32,
        TFormat::I64,
        TFormat::F32,
        TFormat::F64,
        TFormat::VecU8(1),
        TFormat::VecU8(10),
    ] {
        let format_u8 = u8::from(t_format);
        assert_eq!(t_format, TFormat::from(format_u8));
    }
}

#[test]
fn t_format_test_nb_bytes_or_words() {
    for w_format in vec![
        TFormat::Unknown,
        TFormat::U8,
        TFormat::Bool,
        TFormat::U16,
        TFormat::U32,
        TFormat::U64,
        TFormat::I8,
        TFormat::I16,
        TFormat::I32,
        TFormat::I64,
        TFormat::F32,
        TFormat::F64,
        TFormat::VecU8(1),
        TFormat::VecU8(10),
    ] {
        let nb_bytes = w_format.nb_bytes();
        let nb_words = w_format.nb_words();
        // Every byte fits in the words...
        assert!(nb_bytes <= 2 * nb_words);
        // ... and at worst one byte of the last word stays free.
        assert!(2 * nb_words - nb_bytes <= 1);
    }
}

#[test]
fn test_constructor_ack() {
    let raw_frame = RawFrame::new_ack();
    assert_eq!(raw_frame, RawFrame::Ack);
    assert_eq!(raw_frame.encode(), vec![ACK]);
}

#[test]
fn test_constructor_nack() {
    let raw_frame = RawFrame::new_nack();
    assert_eq!(raw_frame, RawFrame::Nack);
    assert_eq!(raw_frame.encode(), vec![NACK]);
}

#[test]
fn test_constructor_message() {
    let raw_frame = RawFrame::new_message(1);
    assert_eq!(raw_frame, RawFrame::Complete(1, 0, vec![], 1));
    assert_eq!(raw_frame.encode(), vec![STX, 1, 0, 1, ETX]);
}

#[test]
fn test_construction() {
    let tests: Vec<(&[u8], RawFrame, FrameState)> = vec![
        (&[ACK], RawFrame::Ack, FrameState::Complete),
        (&[ACK, 0], RawFrame::AckAndJunk(vec![0]), FrameState::Junk),
        (
            &[ACK, 0, 1],
            RawFrame::AckAndJunk(vec![0, 1]),
            FrameState::Junk,
        ),
        (&[NACK], RawFrame::Nack, FrameState::Complete),
        (&[NACK, 1], RawFrame::NackAndJunk(vec![1]), FrameState::Junk),
        (
            &[NACK, 1, 0],
            RawFrame::NackAndJunk(vec![1, 0]),
            FrameState::Junk,
        ),
        (&[STX], RawFrame::Stx, FrameState::Building),
        (&[STX, 1], RawFrame::Tag(1), FrameState::Building),
        (&[STX, 1, 2], RawFrame::TagLen(1, 2), FrameState::Building),
        (
            &[STX, 1, 2, 0],
            RawFrame::TagLenValue(1, 2, vec![0]),
            FrameState::Building,
        ),
        (
            &[STX, 1, 2, 0, 1],
            RawFrame::TagLenValue(1, 2, vec![0, 1]),
            FrameState::Building,
        ),
        (
            &[STX, 1, 2, 0, 1, 0],
            RawFrame::Junk(vec![STX, 1, 2, 0, 1, 0]),
            FrameState::Junk,
        ),
        (
            &[STX, 1, 2, 0, 1, 2],
            RawFrame::Xor(1, 2, vec![0, 1], 2),
            FrameState::Building,
        ),
        (
            &[STX, 1, 2, 0, 1, 2, ETX],
            RawFrame::Complete(1, 2, vec![0, 1], 2),
            FrameState::Complete,
        ),
        (
            &[STX, 1, 2, 0, 1, 2, ETX, 0],
            RawFrame::CompleteAndJunk(1, 2, vec![0, 1], 2, vec![0]),
            FrameState::Junk,
        ),
        (&[STX, 1, 0], RawFrame::TagLen(1, 0), FrameState::Building),
        (
            &[STX, 1, 0, 1],
            RawFrame::Xor(1, 0, vec![], 1),
            FrameState::Building,
        ),
        (
            &[STX, 1, 0, 1, ETX],
            RawFrame::Complete(1, 0, vec![], 1),
            FrameState::Complete,
        ),
        (&[1, 2, 3], RawFrame::Junk(vec![1, 2, 3]), FrameState::Junk),
    ];

    for (octets, frame, state) in tests {
        assert_eq!(RawFrame::new(octets), frame);
        assert_eq!(frame.get_state(), state);
        assert_eq!(frame.encode(), octets.to_vec());
    }
}

#[test]
fn test_remove_junk() {
    let tests: Vec<(&[u8], RawFrame)> = vec![
        (&[ACK], RawFrame::Ack),
        (&[ACK, 0, 1], RawFrame::Ack),
        (&[NACK], RawFrame::Nack),
        (&[NACK, 0, 1], RawFrame::Nack),
        (&[STX], RawFrame::Stx),
        (&[STX, 1], RawFrame::Tag(1)),
        (&[STX, 1, 2], RawFrame::TagLen(1, 2)),
        (&[STX, 1, 2, 0, 1, 2], RawFrame::Xor(1, 2, vec![0, 1], 2)),
        (
            &[STX, 1, 2, 0, 1, 2, ETX],
            RawFrame::Complete(1, 2, vec![0, 1], 2),
        ),
        (
            &[STX, 1, 2, 0, 1, 2, ETX, 0],
            RawFrame::Complete(1, 2, vec![0, 1], 2),
        ),
        (&[1, 2, 3], RawFrame::Empty),
    ];

    for (octets, frame) in tests {
        let mut f = RawFrame::new(octets);
        f.remove_junk();
        assert_eq!(f, frame);
    }
}

// Frame round trip on concrete values: a built message fed back byte by byte
// reaches the complete state exactly on the last byte and decodes to the same
// items.
#[test]
fn test_frame_round_trip_concrete() {
    let mut message = RawFrame::new_message(0x03);
    let item = DataItem::new(0x31, TFormat::U16, TValue::U16(123));
    message.try_extend_data_item(&item).unwrap();
    let bytes = message.encode();

    let mut builder = RawFrame::new(&[]);
    for (i, b) in bytes.iter().enumerate() {
        if i > 0 {
            assert_eq!(builder.get_state(), FrameState::Building);
        }
        builder.push(*b);
    }
    assert_eq!(builder.get_state(), FrameState::Complete);
    assert_eq!(builder, message);

    let decoded = DataFrame::try_from_raw_frame(builder).unwrap();
    assert!(decoded.is_message());
    assert_eq!(decoded.get_tag(), 0x03);
    let items = decoded.get_data_items();
    assert_eq!(items.len(), 1);
    assert_eq!(items[0].tag, 0x31);
    assert_eq!(items[0].t_format, TFormat::U16);
    assert!(matches!(items[0].t_value, TValue::U16(123)));
}

// The checksum byte of a complete frame is the XOR of tag, length and every
// payload byte.
#[test]
fn test_xor_byte_concrete() {
    let mut message = RawFrame::new_message(0x84);
    let item = DataItem::new(0x31, TFormat::U8, TValue::U8(7));
    message.try_extend_data_item(&item).unwrap();
    match &message {
        RawFrame::Complete(tag, len, payload, xor) => {
            let mut expected = tag ^ len;
            for b in payload {
                expected ^= *b;
            }
            assert_eq!(*xor, expected);
        }
        _ => panic!("message frame expected"),
    }
}

// From a building state, one byte only leads to building, complete or junk;
// from a complete frame any byte leads to junk; junk removal is idempotent.
#[test]
fn test_state_monotonicity_concrete() {
    for b in [0u8, STX, ETX, ACK, NACK, 0xFF] {
        let mut f = RawFrame::new(&[STX, 1, 2, 9]);
        assert_eq!(f.get_state(), FrameState::Building);
        f.push(b);
        assert_ne!(f.get_state(), FrameState::Empty);

        let mut done = RawFrame::new_message(1);
        assert_eq!(done.get_state(), FrameState::Complete);
        done.push(b);
        assert_eq!(done.get_state(), FrameState::Junk);
        done.remove_junk();
        let once = done.clone();
        done.remove_junk();
        assert_eq!(done, once);
    }
}

#[test]
fn test_data_item_decode_all() {
    let items = vec![
        DataItem::new(1, TFormat::Bool, TValue::Bool(true)),
        DataItem::new(2, TFormat::U16, TValue::U16(123)),
        DataItem::new(3, TFormat::VecU8(3), TValue::VecU8(3, vec![0x41, 0x42, 0x43])),
        DataItem::new(6, TFormat::I16, TValue::I16(-123)),
        DataItem::new(8, TFormat::I64, TValue::I64(-1_000_000_000)),
    ];
    let mut bytes: Vec<u8> = Vec::new();
    for item in &items {
        bytes.extend(item.encode());
    }
    let decoded = DataItem::decode_all(&bytes).unwrap();
    assert_eq!(decoded.len(), items.len());
    for (a, b) in items.iter().zip(decoded.iter()) {
        assert_eq!(a.tag, b.tag);
        assert_eq!(a.t_format, b.t_format);
        assert_eq!(a.encode(), b.encode());
    }
}

#[test]
fn test_data_item_decode_too_short() {
    assert!(matches!(DataItem::decode(&[1]), Err(FrameError::BadDataLength)));
    // A four-byte format announced with two value bytes only.
    assert!(matches!(
        DataItem::decode(&[1, 0x04, 0, 0]),
        Err(FrameError::BadDataLength)
    ));
}

#[test]
fn test_frame_overflow() {
    let mut raw_frame = RawFrame::new_message(1);
    let data_item = DataItem::new(2, TFormat::U16, TValue::U16(123));
    let mut overflowed = false;
    for _ in 0..256 {
        if raw_frame.try_extend_data_item(&data_item).is_err() {
            overflowed = true;
            break;
        }
    }
    assert!(overflowed);
    assert!(matches!(
        RawFrame::new_ack().try_extend_data_item(&data_item),
        Err(FrameError::IsNotOk)
    ));
}

#[test]
fn test_data_frame_errors() {
    assert!(matches!(
        DataFrame::try_from_raw_frame(RawFrame::Empty),
        Err(FrameError::IsEmpty)
    ));
    assert!(matches!(
        DataFrame::try_from_raw_frame(RawFrame::new(&[7, 8])),
        Err(FrameError::IsJunk)
    ));
    assert!(matches!(
        DataFrame::try_from_raw_frame(RawFrame::new(&[STX, 1])),
        Err(FrameError::IsBuilding)
    ));
    // A payload that does not split into data items.
    assert!(matches!(
        DataFrame::try_from_raw_frame(RawFrame::new(&[STX, 1, 1, 9, 1 ^ 1 ^ 9, ETX])),
        Err(FrameError::BadDataItem)
    ));
    assert!(DataFrame::try_from_raw_frame(RawFrame::new_ack())
        .unwrap()
        .is_simple_ack());
    assert!(DataFrame::try_from_raw_frame(RawFrame::new_nack())
        .unwrap()
        .is_simple_nack());
}

// Numeric conversions are the identity on the value's own width, and the
// textual rendering parses back (a digit-for-digit round trip).
#[test]
fn test_t_value_conversions() {
    assert_eq!(TValue::U8(200).extract_u8(), 200);
    assert_eq!(TValue::U16(50_000).extract_u16(), 50_000);
    assert_eq!(TValue::U32(1_000_000).extract_u32(), 1_000_000);
    assert_eq!(TValue::U64(1 << 40).extract_u64(), 1 << 40);
    assert_eq!(TValue::I8(-100).extract_i8(), -100);
    assert_eq!(TValue::I16(-10_000).extract_i16(), -10_000);
    assert_eq!(TValue::I32(-1_000_000).extract_i32(), -1_000_000);
    assert_eq!(TValue::I64(-(1 << 40)).extract_i64(), -(1 << 40));
    assert!(TValue::Bool(true).extract_bool());
    assert!(!TValue::Bool(false).extract_bool());
    // Out-of-range conversions read as 0.
    assert_eq!(TValue::U16(300).extract_u8(), 0);
    assert_eq!(TValue::I16(-1).extract_u16(), 0);

    // Text round trip through the byte-string value.
    let text = TValue::U64(987_654_321).to_text();
    assert_eq!(text, "987654321");
    let back = TValue::VecU8(text.len(), text.as_bytes().to_vec());
    assert_eq!(back.extract_u64(), 987_654_321);

    let text = TValue::I32(-12_345).to_text();
    assert_eq!(text, "-12345");
    let back = TValue::VecU8(text.len(), text.as_bytes().to_vec());
    assert_eq!(back.extract_i32(), -12_345);

    assert_eq!(TValue::Bool(true).to_text(), "true");
    assert_eq!(TValue::Bool(false).to_text(), "false");
}

// The five-byte tag-name conversion pads, truncates and trims.
#[test]
fn test_to_t_value_vec_u8() {
    let v = TValue::U16(123).to_t_value_vec_u8(5);
    match v {
        TValue::VecU8(len, bytes) => {
            assert_eq!(len, 5);
            assert_eq!(bytes, vec![0x31, 0x32, 0x33, 0, 0]);
        }
        _ => panic!("byte-string value expected"),
    }
}
