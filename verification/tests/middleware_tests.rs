//! Tests of the middlewares and their dispatcher: helpers, the record index
//! table, and end-to-end conversations over the serial protocol.

use icom_sim::context::Records;
use icom_sim::data_frame::DataFrame;
use icom_sim::data_item::DataItem;
use icom_sim::database::Database;
use icom_sim::id_message::{
    AF_ALIVE, AF_DATA_OUT, AF_DATA_OUT_TABLE_INDEX, AF_INIT, AF_MENU, AF_PACK_OUT,
    D_DATA_FIRST_TABLE_INDEX, D_DATA_TAG, D_DATA_VALUE, D_DATA_ZONE, D_PACK_PAYLOAD,
    D_RESIDENT_VERSION, IC_DATA_IN, IC_DATA_OUT_TABLE_INDEX, IC_INIT, IC_PACK_IN, TAG_DATA_PACK,
};
use icom_sim::id_tag::IdTag;
use icom_sim::id_users::ID_ANONYMOUS_USER;
use icom_sim::middlewares::{check_notification_changes, Middlewares};
use icom_sim::raw_frame::{FrameState, RawFrame};
use icom_sim::t_format::TFormat;
use icom_sim::t_value::TValue;
use icom_sim::tag::Tag;
use icom_sim::utils;

#[test]
fn test_context_records() {
    let mut records = Records::default();
    assert_eq!(records.get_index_min(2), 0);
    assert_eq!(records.get_index_max(2), 0);

    records.set_index(2, 1234);
    assert_eq!(records.get_index_min(2), 1234);
    assert_eq!(records.get_index_max(2), 1234);

    records.set_index(2, 6789);
    assert_eq!(records.get_index_min(2), 1234);
    assert_eq!(records.get_index_max(2), 6789);
}

#[test]
fn test_u32_to_version_revision_edition() {
    let version = 1_u16;
    let revision = 2_u16;
    let edition = 3_u16;

    let version_revision_edition =
        version as u32 * 10_000 + revision as u32 * 100 + edition as u32;

    assert_eq!(
        utils::u32_to_version_revision_edition(version_revision_edition),
        (version, revision, edition)
    );
}

#[test]
fn test_zone_vec_u8_tag_to_id_tag() {
    let zone = 1_u8;
    let vec_u8_tag = vec![0x12, 0x23, 0x34, 0x45, 0x56];

    let id_tag = utils::zone_vec_u8_tag_to_id_tag(zone, &vec_u8_tag);

    assert_eq!(id_tag, IdTag::new(zone, 0x1223, [0x34, 0x45, 0x56]));
}

#[test]
fn test_tag_num_indices_to_vec_u8() {
    assert_eq!(
        utils::tag_num_indices_to_vec_u8(0x0123, 0x45, 0x67, 0x89),
        vec![0x01, 0x23, 0x45, 0x67, 0x89]
    );
}

// Base word address of the supervision-zone PACK blocks.
const ADDRESS_WORD_PACK_OUT: u16 = 0x4000;

// Base word address of the command-zone PACK blocks.
const ADDRESS_WORD_PACK_IN: u16 = 0x5000;

// A database with the internal INIT slots, a test tag and the PACK blocks of
// both zones, plus a subscribed user for the serial task.
fn database_setup() -> (Database, usize) {
    let mut db = Database::default();
    let id_user = db.get_id_user("TEST", true);

    // Internal slots the INIT conversation writes.
    for (zone, num, wa) in [
        (0u8, 0x0001u16, 0x0001u16),
        (0, 0x0002, 0x0002),
        (0, 0x0003, 0x0003),
        (0, 0x0010, 0x0004),
        (0, 0x0011, 0x0005),
        (0, 0x0012, 0x0006),
        (0, 0x0013, 0x0007),
    ] {
        let tag = Tag {
            word_address: wa,
            id_tag: IdTag::new(zone, num, [0, 0, 0]),
            t_format: TFormat::U16,
            ..Default::default()
        };
        db.add_tag(&tag);
    }

    // A writable data tag.
    let tag = Tag {
        word_address: 0x0800,
        id_tag: IdTag::new(0, 0x0102, [0, 0, 0]),
        t_format: TFormat::U16,
        ..Default::default()
    };
    db.add_tag(&tag);

    // The PACK blocks of the supervision and command zones.
    for (zone, base_address) in [(4_u8, ADDRESS_WORD_PACK_OUT), (5_u8, ADDRESS_WORD_PACK_IN)] {
        for n in 0..8u16 {
            let id_tag = IdTag::new(zone, TAG_DATA_PACK, [0, 0, n as u8]);
            let tag = Tag {
                word_address: base_address + 32 * n,
                id_tag,
                t_format: TFormat::VecU8(64),
                ..Default::default()
            };
            db.add_tag(&tag);
        }
    }

    (db, id_user)
}

fn decode_reply(reply: &RawFrame) -> DataFrame {
    assert_eq!(reply.get_state(), FrameState::Complete);
    DataFrame::try_from_raw_frame(reply.clone()).unwrap()
}

// An ALIVE handshake with nothing to say: the canonical bytes and an
// acknowledged reply.
#[test]
fn test_alive_handshake() {
    let request = RawFrame::new_message(AF_ALIVE);
    assert_eq!(request.encode(), vec![0x02, 0x00, 0x00, 0x00, 0x03]);

    let (mut db, id_user) = database_setup();
    let mut middlewares = Middlewares::new(id_user);
    let reply = middlewares.handle_request_raw_frame(&mut db, request);
    let decoded = decode_reply(&reply);
    assert!(decoded.is_simple_ack() || decoded.get_tag() == icom_sim::id_message::IC_ALIVE);
}

// An INIT request is answered with the board's versions, and the resident
// version splits into the internal slots.
#[test]
fn test_init_conversation() {
    let (mut db, id_user) = database_setup();
    let mut middlewares = Middlewares::new(id_user);

    let mut request = RawFrame::new_message(AF_INIT);
    request
        .try_extend_data_item(&DataItem::new(
            D_RESIDENT_VERSION,
            TFormat::U32,
            TValue::U32(50200),
        ))
        .unwrap();
    let reply = middlewares.handle_request_raw_frame(&mut db, request);
    let decoded = decode_reply(&reply);
    assert_eq!(decoded.get_tag(), IC_INIT);
    let items = decoded.get_data_items();
    assert_eq!(items.len(), 2);
    assert_eq!(items[0].tag, icom_sim::id_message::D_PROTOCOLE_VERSION);
    assert!(matches!(items[0].t_value, TValue::U16(0)));
    assert_eq!(items[1].tag, icom_sim::id_message::D_ICOM_VERSION);
    assert!(matches!(items[1].t_value, TValue::U16(0)));

    // 50200 splits into version 5, revision 2, edition 0.
    assert_eq!(db.get_u16_from_id_tag(id_user, IdTag::new(0, 1, [0, 0, 0])), 5);
    assert_eq!(db.get_u16_from_id_tag(id_user, IdTag::new(0, 2, [0, 0, 0])), 2);
    assert_eq!(db.get_u16_from_id_tag(id_user, IdTag::new(0, 3, [0, 0, 0])), 0);
}

// A DATA_OUT write lands in the database and is acknowledged.
#[test]
fn test_data_out_conversation() {
    let (mut db, id_user) = database_setup();
    let mut middlewares = Middlewares::new(id_user);

    let mut request = RawFrame::new_message(AF_DATA_OUT);
    request
        .try_extend_data_item(&DataItem::new(D_DATA_ZONE, TFormat::U8, TValue::U8(0)))
        .unwrap();
    request
        .try_extend_data_item(&DataItem::new(
            D_DATA_TAG,
            TFormat::VecU8(5),
            TValue::VecU8(5, vec![0x01, 0x02, 0, 0, 0]),
        ))
        .unwrap();
    request
        .try_extend_data_item(&DataItem::new(D_DATA_VALUE, TFormat::U16, TValue::U16(123)))
        .unwrap();

    let reply = middlewares.handle_request_raw_frame(&mut db, request);
    let decoded = decode_reply(&reply);
    assert!(decoded.is_simple_ack());

    assert_eq!(
        db.get_u16_from_id_tag(ID_ANONYMOUS_USER, IdTag::new(0, 0x0102, [0, 0, 0])),
        123
    );
}

// A change by another user reaches the co-processor through a DATA_IN reply.
#[test]
fn test_data_in_conversation() {
    let (mut db, id_user) = database_setup();
    let mut middlewares = Middlewares::new(id_user);

    let id_tag = IdTag::new(0, 0x0102, [0, 0, 0]);
    db.set_u16_to_id_tag(ID_ANONYMOUS_USER, id_tag, 123);
    check_notification_changes(&mut db, &mut middlewares);

    let reply = middlewares.handle_request_raw_frame(&mut db, RawFrame::new_message(AF_ALIVE));
    let decoded = decode_reply(&reply);
    assert_eq!(decoded.get_tag(), IC_DATA_IN);

    let mut zone_ok = false;
    let mut tag_ok = false;
    let mut value_ok = false;
    for data_item in decoded.get_data_items() {
        if data_item.tag == D_DATA_ZONE {
            assert_eq!(data_item.t_value.extract_u8(), 0);
            zone_ok = true;
        } else if data_item.tag == D_DATA_TAG {
            assert_eq!(data_item.t_value.to_vec_u8()[0..5], vec![0x01, 0x02, 0, 0, 0]);
            tag_ok = true;
        } else if data_item.tag == D_DATA_VALUE {
            assert_eq!(data_item.t_value.extract_u16(), 123);
            value_ok = true;
        }
    }
    assert!(zone_ok);
    assert!(tag_ok);
    assert!(value_ok);
}

// One PACK_OUT packet whose header closes the transaction lands in the
// supervision zone; the database is untouched until that packet arrives.
#[test]
fn test_pack_out_conversation() {
    let (mut db, id_user) = database_setup();
    let mut middlewares = Middlewares::new(id_user);

    // Packet 1 of 2: no commit yet.
    let mut request = RawFrame::new_message(AF_PACK_OUT);
    request
        .try_extend_data_item(&DataItem::new(
            D_PACK_PAYLOAD,
            TFormat::VecU8(6),
            TValue::VecU8(6, vec![0x12, 10, 1, 2, 3, 4]),
        ))
        .unwrap();
    let reply = middlewares.handle_request_raw_frame(&mut db, request);
    assert!(decode_reply(&reply).is_simple_ack());
    assert_eq!(
        db.get_vec_u8_from_word_address(ID_ANONYMOUS_USER, ADDRESS_WORD_PACK_OUT + 10, 4),
        vec![0, 0, 0, 0]
    );

    // Packet 2 of 2: both staged packets land.
    let mut request = RawFrame::new_message(AF_PACK_OUT);
    request
        .try_extend_data_item(&DataItem::new(
            D_PACK_PAYLOAD,
            TFormat::VecU8(6),
            TValue::VecU8(6, vec![0x22, 20, 5, 6, 7, 8]),
        ))
        .unwrap();
    let reply = middlewares.handle_request_raw_frame(&mut db, request);
    assert!(decode_reply(&reply).is_simple_ack());

    assert_eq!(
        db.get_vec_u8_from_word_address(ID_ANONYMOUS_USER, ADDRESS_WORD_PACK_OUT + 10, 4),
        vec![1, 2, 3, 4]
    );
    assert_eq!(
        db.get_vec_u8_from_word_address(ID_ANONYMOUS_USER, ADDRESS_WORD_PACK_OUT + 20, 4),
        vec![5, 6, 7, 8]
    );
}

// A single PACK_OUT packet (1 of 1) commits at once.
#[test]
fn test_pack_out_single_packet() {
    let (mut db, id_user) = database_setup();
    let mut middlewares = Middlewares::new(id_user);

    let mut request = RawFrame::new_message(AF_PACK_OUT);
    request
        .try_extend_data_item(&DataItem::new(
            D_PACK_PAYLOAD,
            TFormat::VecU8(6),
            TValue::VecU8(6, vec![0x11, 10, 1, 2, 3, 4]),
        ))
        .unwrap();
    let reply = middlewares.handle_request_raw_frame(&mut db, request);
    assert!(decode_reply(&reply).is_simple_ack());
    assert_eq!(
        db.get_vec_u8_from_word_address(ID_ANONYMOUS_USER, ADDRESS_WORD_PACK_OUT + 10, 4),
        vec![1, 2, 3, 4]
    );
}

// An anonymous write into a command-zone PACK block reaches the co-processor
// as one PACK_IN payload carrying the block's snapshot.
#[test]
fn test_pack_in_conversation() {
    let (mut db, id_user) = database_setup();
    let mut middlewares = Middlewares::new(id_user);

    db.set_vec_u8_to_word_address(ID_ANONYMOUS_USER, ADDRESS_WORD_PACK_IN + 10, &[1, 2, 3, 4]);
    check_notification_changes(&mut db, &mut middlewares);

    let reply = middlewares.handle_request_raw_frame(&mut db, RawFrame::new_message(AF_ALIVE));
    let decoded = decode_reply(&reply);
    assert_eq!(decoded.get_tag(), IC_PACK_IN);
    let items = decoded.get_data_items();
    assert_eq!(items.len(), 1);
    assert_eq!(items[0].tag, D_PACK_PAYLOAD);
    let payload = items[0].t_value.to_vec_u8();
    // Block 1 of 1, word offset 0 of block 0.
    assert_eq!(payload[0], 0x11);
    assert_eq!(payload[1], 0);
    // The written bytes sit at word 10 of the block: byte offset 2 + 20.
    assert_eq!(payload[2 + 20..2 + 24], vec![1, 2, 3, 4]);
}

// Blocks notified before a transaction are all emitted, one payload each, in
// block order; a block notified during the transaction waits for the next
// one.
#[test]
fn test_pack_in_complete_transaction() {
    let (mut db, id_user) = database_setup();
    let mut middlewares = Middlewares::new(id_user);

    // Touch five blocks: five payloads of 68 bytes will not fit one frame.
    for n in 0..5u16 {
        db.set_vec_u8_to_word_address(
            ID_ANONYMOUS_USER,
            ADDRESS_WORD_PACK_IN + 32 * n,
            &[n as u8 + 1],
        );
    }
    check_notification_changes(&mut db, &mut middlewares);

    // First exchange: three blocks fit.
    let reply = middlewares.handle_request_raw_frame(&mut db, RawFrame::new_message(AF_ALIVE));
    let decoded = decode_reply(&reply);
    assert_eq!(decoded.get_tag(), IC_PACK_IN);
    let items = decoded.get_data_items();
    assert_eq!(items.len(), 3);
    for (j, item) in items.iter().enumerate() {
        let payload = item.t_value.to_vec_u8();
        // Block j+1 of 5, at word offset 32 * j.
        assert_eq!(payload[0], 16 * (j as u8 + 1) + 5);
        assert_eq!(payload[1], 32 * j as u8);
        assert_eq!(payload[2], j as u8 + 1);
    }

    // A block notified during the transaction waits for the next one.
    db.set_vec_u8_to_word_address(ID_ANONYMOUS_USER, ADDRESS_WORD_PACK_IN + 32 * 6, &[0x66]);
    check_notification_changes(&mut db, &mut middlewares);

    // Second exchange: the two remaining snapshot blocks, transaction over.
    let reply = middlewares.handle_request_raw_frame(&mut db, RawFrame::new_message(AF_ALIVE));
    let decoded = decode_reply(&reply);
    assert_eq!(decoded.get_tag(), IC_PACK_IN);
    let items = decoded.get_data_items();
    assert_eq!(items.len(), 2);
    assert_eq!(items[0].t_value.to_vec_u8()[0], 16 * 4 + 5);
    assert_eq!(items[1].t_value.to_vec_u8()[0], 16 * 5 + 5);

    // Third exchange: the deferred block opens a new transaction.
    let reply = middlewares.handle_request_raw_frame(&mut db, RawFrame::new_message(AF_ALIVE));
    let decoded = decode_reply(&reply);
    assert_eq!(decoded.get_tag(), IC_PACK_IN);
    let items = decoded.get_data_items();
    assert_eq!(items.len(), 1);
    let payload = items[0].t_value.to_vec_u8();
    assert_eq!(payload[0], 0x11);
    assert_eq!(payload[1], 32 * 6);
    assert_eq!(payload[2], 0x66);
}

// A table-index request reports the range of indices collected from records,
// both bounds under the "first index" item tag.
#[test]
fn test_data_out_table_index_conversation() {
    let (mut db, id_user) = database_setup();
    let mut middlewares = Middlewares::new(id_user);

    // Two journal records in zone 2, indices 1234 and 6789.
    for index in [1234u64, 6789u64] {
        let mut request = RawFrame::new_message(AF_DATA_OUT);
        request
            .try_extend_data_item(&DataItem::new(D_DATA_ZONE, TFormat::U8, TValue::U8(2)))
            .unwrap();
        request
            .try_extend_data_item(&DataItem::new(
                icom_sim::id_message::D_DATA_TABLE_INDEX,
                TFormat::U64,
                TValue::U64(index),
            ))
            .unwrap();
        request
            .try_extend_data_item(&DataItem::new(
                D_DATA_TAG,
                TFormat::VecU8(5),
                TValue::VecU8(5, vec![0x11, 0x22, 0, 0, 0]),
            ))
            .unwrap();
        request
            .try_extend_data_item(&DataItem::new(D_DATA_VALUE, TFormat::U16, TValue::U16(1)))
            .unwrap();
        // The end-of-record sentinel closes the record.
        request
            .try_extend_data_item(&DataItem::new(
                D_DATA_TAG,
                TFormat::VecU8(5),
                TValue::VecU8(5, vec![0x72, 0x10, 0, 0, 0]),
            ))
            .unwrap();
        request
            .try_extend_data_item(&DataItem::new(D_DATA_VALUE, TFormat::U16, TValue::U16(0)))
            .unwrap();
        let reply = middlewares.handle_request_raw_frame(&mut db, request);
        assert!(decode_reply(&reply).is_simple_ack());
    }

    let mut request = RawFrame::new_message(AF_DATA_OUT_TABLE_INDEX);
    request
        .try_extend_data_item(&DataItem::new(D_DATA_ZONE, TFormat::U8, TValue::U8(2)))
        .unwrap();
    let reply = middlewares.handle_request_raw_frame(&mut db, request);
    let decoded = decode_reply(&reply);
    assert_eq!(decoded.get_tag(), IC_DATA_OUT_TABLE_INDEX);
    let items = decoded.get_data_items();
    assert_eq!(items.len(), 3);
    assert_eq!(items[0].tag, D_DATA_ZONE);
    assert_eq!(items[0].t_value.extract_u8(), 2);
    assert_eq!(items[1].tag, D_DATA_FIRST_TABLE_INDEX);
    assert_eq!(items[1].t_value.extract_u64(), 1234);
    // The upper bound reuses the "first index" tag, as the peer expects.
    assert_eq!(items[2].tag, D_DATA_FIRST_TABLE_INDEX);
    assert_eq!(items[2].t_value.extract_u64(), 6789);

    // A request without a zone item is refused.
    let reply =
        middlewares.handle_request_raw_frame(&mut db, RawFrame::new_message(AF_DATA_OUT_TABLE_INDEX));
    assert!(decode_reply(&reply).is_simple_nack());
}

// A menu request is always refused, and an unparsable frame gets no reply.
#[test]
fn test_menu_and_junk() {
    let (mut db, id_user) = database_setup();
    let mut middlewares = Middlewares::new(id_user);

    let reply = middlewares.handle_request_raw_frame(&mut db, RawFrame::new_message(AF_MENU));
    assert!(decode_reply(&reply).is_simple_nack());

    let reply = middlewares.handle_request_raw_frame(&mut db, RawFrame::new(&[9, 9, 9]));
    assert_eq!(reply.encode(), Vec::<u8>::new());
}
