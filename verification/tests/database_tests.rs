//! Tests of the tag database: typed accessors at word addresses and through
//! tag keys, the word-area overlap search, and the tag-table line parser.

use icom_sim::database::Database;
use icom_sim::id_tag::IdTag;
use icom_sim::id_users::ID_ANONYMOUS_USER;
use icom_sim::t_format::TFormat;
use icom_sim::t_value::TValue;
use icom_sim::tag::Tag;

// A database holding one tag at a fixed address, under the default key.
fn test_setup(db: &mut Database) -> (u16, IdTag) {
    let address: u16 = 0x1234;
    let id_tag = IdTag::default();
    let tag = Tag {
        word_address: address,
        ..Default::default()
    };
    db.add_tag(&tag);
    (address, id_tag)
}

#[test]
fn test_address_bool() {
    let mut db = Database::default();
    let (addr, _) = test_setup(&mut db);

    assert_eq!(db.get_bool_from_word_address(ID_ANONYMOUS_USER, addr), bool::default());

    db.set_bool_to_word_address(ID_ANONYMOUS_USER, addr, true);
    assert!(db.get_bool_from_word_address(ID_ANONYMOUS_USER, addr));

    db.set_bool_to_word_address(ID_ANONYMOUS_USER, addr, false);
    assert!(!db.get_bool_from_word_address(ID_ANONYMOUS_USER, addr));
}

#[test]
fn test_id_tag_bool() {
    let mut db = Database::default();
    let (_, id_tag) = test_setup(&mut db);

    assert_eq!(db.get_bool_from_id_tag(ID_ANONYMOUS_USER, id_tag), bool::default());

    db.set_bool_to_id_tag(ID_ANONYMOUS_USER, id_tag, true);
    assert!(db.get_bool_from_id_tag(ID_ANONYMOUS_USER, id_tag));

    db.set_bool_to_id_tag(ID_ANONYMOUS_USER, id_tag, false);
    assert!(!db.get_bool_from_id_tag(ID_ANONYMOUS_USER, id_tag));
}

#[test]
fn test_address_u8() {
    let mut db = Database::default();
    let (addr, _) = test_setup(&mut db);

    assert_eq!(db.get_u8_from_word_address(ID_ANONYMOUS_USER, addr), u8::default());

    for value in [0_u8, 10_u8, 100_u8, 200_u8] {
        db.set_u8_to_word_address(ID_ANONYMOUS_USER, addr, value);
        assert_eq!(db.get_u8_from_word_address(ID_ANONYMOUS_USER, addr), value);

        db.set_u8_to_word_address(ID_ANONYMOUS_USER, addr, value + 1);
        assert_eq!(db.get_u8_from_word_address(ID_ANONYMOUS_USER, addr), value + 1);
    }
}

#[test]
fn test_id_tag_u8() {
    let mut db = Database::default();
    let (_, id_tag) = test_setup(&mut db);

    assert_eq!(db.get_u8_from_id_tag(ID_ANONYMOUS_USER, id_tag), u8::default());

    for value in [0_u8, 10_u8, 100_u8, 200_u8] {
        db.set_u8_to_id_tag(ID_ANONYMOUS_USER, id_tag, value);
        assert_eq!(db.get_u8_from_id_tag(ID_ANONYMOUS_USER, id_tag), value);

        db.set_u8_to_id_tag(ID_ANONYMOUS_USER, id_tag, value + 1);
        assert_eq!(db.get_u8_from_id_tag(ID_ANONYMOUS_USER, id_tag), value + 1);
    }
}

#[test]
fn test_address_i8() {
    let mut db = Database::default();
    let (addr, _) = test_setup(&mut db);

    assert_eq!(db.get_i8_from_word_address(ID_ANONYMOUS_USER, addr), i8::default());

    for value in [-100_i8, -10_i8, 0_i8, 10_i8, 100_i8] {
        db.set_i8_to_word_address(ID_ANONYMOUS_USER, addr, value);
        assert_eq!(db.get_i8_from_word_address(ID_ANONYMOUS_USER, addr), value);

        db.set_i8_to_word_address(ID_ANONYMOUS_USER, addr, value + 1);
        assert_eq!(db.get_i8_from_word_address(ID_ANONYMOUS_USER, addr), value + 1);
    }
}

#[test]
fn test_id_tag_i8() {
    let mut db = Database::default();
    let (_, id_tag) = test_setup(&mut db);

    assert_eq!(db.get_i8_from_id_tag(ID_ANONYMOUS_USER, id_tag), i8::default());

    for value in [-100_i8, -10_i8, 0_i8, 10_i8, 100_i8] {
        db.set_i8_to_id_tag(ID_ANONYMOUS_USER, id_tag, value);
        assert_eq!(db.get_i8_from_id_tag(ID_ANONYMOUS_USER, id_tag), value);

        db.set_i8_to_id_tag(ID_ANONYMOUS_USER, id_tag, value + 1);
        assert_eq!(db.get_i8_from_id_tag(ID_ANONYMOUS_USER, id_tag), value + 1);
    }
}

#[test]
fn test_address_u16() {
    let mut db = Database::default();
    let (addr, _) = test_setup(&mut db);

    assert_eq!(db.get_u16_from_word_address(ID_ANONYMOUS_USER, addr), u16::default());

    for value in [0_u16, 1_000_u16, 50_000_u16] {
        db.set_u16_to_word_address(ID_ANONYMOUS_USER, addr, value);
        assert_eq!(db.get_u16_from_word_address(ID_ANONYMOUS_USER, addr), value);

        db.set_u16_to_word_address(ID_ANONYMOUS_USER, addr, value + 1);
        assert_eq!(db.get_u16_from_word_address(ID_ANONYMOUS_USER, addr), value + 1);
    }
}

#[test]
fn test_id_tag_u16() {
    let mut db = Database::default();
    let (_, id_tag) = test_setup(&mut db);

    assert_eq!(db.get_u16_from_id_tag(ID_ANONYMOUS_USER, id_tag), u16::default());

    for value in [0_u16, 1_000_u16, 50_000_u16] {
        db.set_u16_to_id_tag(ID_ANONYMOUS_USER, id_tag, value);
        assert_eq!(db.get_u16_from_id_tag(ID_ANONYMOUS_USER, id_tag), value);

        db.set_u16_to_id_tag(ID_ANONYMOUS_USER, id_tag, value + 1);
        assert_eq!(db.get_u16_from_id_tag(ID_ANONYMOUS_USER, id_tag), value + 1);
    }
}

#[test]
fn test_address_i16() {
    let mut db = Database::default();
    let (addr, _) = test_setup(&mut db);

    assert_eq!(db.get_i16_from_word_address(ID_ANONYMOUS_USER, addr), i16::default());

    for value in [-10_000_i16, -1_000_i16, 0_i16, 1_000_i16, 10_000_i16] {
        db.set_i16_to_word_address(ID_ANONYMOUS_USER, addr, value);
        assert_eq!(db.get_i16_from_word_address(ID_ANONYMOUS_USER, addr), value);

        db.set_i16_to_word_address(ID_ANONYMOUS_USER, addr, value + 1);
        assert_eq!(db.get_i16_from_word_address(ID_ANONYMOUS_USER, addr), value + 1);
    }
}

#[test]
fn test_id_tag_i16() {
    let mut db = Database::default();
    let (_, id_tag) = test_setup(&mut db);

    assert_eq!(db.get_i16_from_id_tag(ID_ANONYMOUS_USER, id_tag), i16::default());

    for value in [-10_000_i16, -1_000_i16, 0_i16, 1_000_i16, 10_000_i16] {
        db.set_i16_to_id_tag(ID_ANONYMOUS_USER, id_tag, value);
        assert_eq!(db.get_i16_from_id_tag(ID_ANONYMOUS_USER, id_tag), value);

        db.set_i16_to_id_tag(ID_ANONYMOUS_USER, id_tag, value + 1);
        assert_eq!(db.get_i16_from_id_tag(ID_ANONYMOUS_USER, id_tag), value + 1);
    }
}

#[test]
fn test_address_u32() {
    let mut db = Database::default();
    let (addr, _) = test_setup(&mut db);

    assert_eq!(db.get_u32_from_word_address(ID_ANONYMOUS_USER, addr), u32::default());

    for value in [0_u32, 1_000_u32, 1_000_000_u32] {
        db.set_u32_to_word_address(ID_ANONYMOUS_USER, addr, value);
        assert_eq!(db.get_u32_from_word_address(ID_ANONYMOUS_USER, addr), value);

        db.set_u32_to_word_address(ID_ANONYMOUS_USER, addr, value + 1);
        assert_eq!(db.get_u32_from_word_address(ID_ANONYMOUS_USER, addr), value + 1);
    }
}

#[test]
fn test_id_tag_u32() {
    let mut db = Database::default();
    let (_, id_tag) = test_setup(&mut db);

    assert_eq!(db.get_u32_from_id_tag(ID_ANONYMOUS_USER, id_tag), u32::default());

    for value in [0_u32, 1_000_u32, 1_000_000_u32] {
        db.set_u32_to_id_tag(ID_ANONYMOUS_USER, id_tag, value);
        assert_eq!(db.get_u32_from_id_tag(ID_ANONYMOUS_USER, id_tag), value);

        db.set_u32_to_id_tag(ID_ANONYMOUS_USER, id_tag, value + 1);
        assert_eq!(db.get_u32_from_id_tag(ID_ANONYMOUS_USER, id_tag), value + 1);
    }
}

#[test]
fn test_address_i32() {
    let mut db = Database::default();
    let (addr, _) = test_setup(&mut db);

    assert_eq!(db.get_i32_from_word_address(ID_ANONYMOUS_USER, addr), i32::default());

    for value in [-1_000_000_i32, -1_000_i32, 0_i32, 1_000_i32, 1_000_000_i32] {
        db.set_i32_to_word_address(ID_ANONYMOUS_USER, addr, value);
        assert_eq!(db.get_i32_from_word_address(ID_ANONYMOUS_USER, addr), value);

        db.set_i32_to_word_address(ID_ANONYMOUS_USER, addr, value + 1);
        assert_eq!(db.get_i32_from_word_address(ID_ANONYMOUS_USER, addr), value + 1);
    }
}

#[test]
fn test_id_tag_i32() {
    let mut db = Database::default();
    let (_, id_tag) = test_setup(&mut db);

    assert_eq!(db.get_i32_from_id_tag(ID_ANONYMOUS_USER, id_tag), i32::default());

    for value in [-1_000_000_i32, -1_000_i32, 0_i32, 1_000_i32, 1_000_000_i32] {
        db.set_i32_to_id_tag(ID_ANONYMOUS_USER, id_tag, value);
        assert_eq!(db.get_i32_from_id_tag(ID_ANONYMOUS_USER, id_tag), value);

        db.set_i32_to_id_tag(ID_ANONYMOUS_USER, id_tag, value + 1);
        assert_eq!(db.get_i32_from_id_tag(ID_ANONYMOUS_USER, id_tag), value + 1);
    }
}

#[test]
fn test_address_u64() {
    let mut db = Database::default();
    let (addr, _) = test_setup(&mut db);

    assert_eq!(db.get_u64_from_word_address(ID_ANONYMOUS_USER, addr), u64::default());

    for value in [0_u64, 0x1_0000_u64, 0x1_0000_0000_u64] {
        db.set_u64_to_word_address(ID_ANONYMOUS_USER, addr, value);
        assert_eq!(db.get_u64_from_word_address(ID_ANONYMOUS_USER, addr), value);

        db.set_u64_to_word_address(ID_ANONYMOUS_USER, addr, value + 1);
        assert_eq!(db.get_u64_from_word_address(ID_ANONYMOUS_USER, addr), value + 1);
    }
}

#[test]
fn test_id_tag_u64() {
    let mut db = Database::default();
    let (_, id_tag) = test_setup(&mut db);

    assert_eq!(db.get_u64_from_id_tag(ID_ANONYMOUS_USER, id_tag), u64::default());

    for value in [0_u64, 0x1_0000_u64, 0x1_0000_0000_u64] {
        db.set_u64_to_id_tag(ID_ANONYMOUS_USER, id_tag, value);
        assert_eq!(db.get_u64_from_id_tag(ID_ANONYMOUS_USER, id_tag), value);

        db.set_u64_to_id_tag(ID_ANONYMOUS_USER, id_tag, value + 1);
        assert_eq!(db.get_u64_from_id_tag(ID_ANONYMOUS_USER, id_tag), value + 1);
    }
}

#[test]
fn test_address_i64() {
    let mut db = Database::default();
    let (addr, _) = test_setup(&mut db);

    assert_eq!(db.get_i64_from_word_address(ID_ANONYMOUS_USER, addr), i64::default());

    for value in [
        -0x1_0000_0000_i64,
        -0x1_0000_i64,
        0_i64,
        0x1_0000_i64,
        0x1_0000_0000_i64,
    ] {
        db.set_i64_to_word_address(ID_ANONYMOUS_USER, addr, value);
        assert_eq!(db.get_i64_from_word_address(ID_ANONYMOUS_USER, addr), value);

        db.set_i64_to_word_address(ID_ANONYMOUS_USER, addr, value + 1);
        assert_eq!(db.get_i64_from_word_address(ID_ANONYMOUS_USER, addr), value + 1);
    }
}

#[test]
fn test_id_tag_i64() {
    let mut db = Database::default();
    let (_, id_tag) = test_setup(&mut db);

    assert_eq!(db.get_i64_from_id_tag(ID_ANONYMOUS_USER, id_tag), i64::default());

    for value in [
        -0x1_0000_0000_i64,
        -0x1_0000_i64,
        0_i64,
        0x1_0000_i64,
        0x1_0000_0000_i64,
    ] {
        db.set_i64_to_id_tag(ID_ANONYMOUS_USER, id_tag, value);
        assert_eq!(db.get_i64_from_id_tag(ID_ANONYMOUS_USER, id_tag), value);

        db.set_i64_to_id_tag(ID_ANONYMOUS_USER, id_tag, value + 1);
        assert_eq!(db.get_i64_from_id_tag(ID_ANONYMOUS_USER, id_tag), value + 1);
    }
}

#[test]
fn test_address_string() {
    let mut db = Database::default();
    let (addr, _) = test_setup(&mut db);

    assert_eq!(db.get_string_from_word_address(ID_ANONYMOUS_USER, addr, 4), "\0\0\0\0");

    let value = "TOTO";
    db.set_string_to_word_address(ID_ANONYMOUS_USER, addr, value);
    assert_eq!(db.get_string_from_word_address(ID_ANONYMOUS_USER, addr, 6), "TOTO\0\0");
    assert_eq!(db.get_string_from_word_address(ID_ANONYMOUS_USER, addr, 4), "TOTO");
    assert_eq!(db.get_string_from_word_address(ID_ANONYMOUS_USER, addr, 2), "TO");
}

#[test]
fn test_id_tag_string() {
    let mut db = Database::default();
    let (_, id_tag) = test_setup(&mut db);

    assert_eq!(db.get_string_from_id_tag(ID_ANONYMOUS_USER, &id_tag, 4), "\0\0\0\0");

    let value = "TOTO";
    db.set_string_to_id_tag(ID_ANONYMOUS_USER, &id_tag, value);
    assert_eq!(db.get_string_from_id_tag(ID_ANONYMOUS_USER, &id_tag, 6), "TOTO\0\0");
    assert_eq!(db.get_string_from_id_tag(ID_ANONYMOUS_USER, &id_tag, 4), "TOTO");
    assert_eq!(db.get_string_from_id_tag(ID_ANONYMOUS_USER, &id_tag, 2), "TO");
}

#[test]
fn test_address_vec_u8() {
    let mut db = Database::default();
    let (addr, _) = test_setup(&mut db);

    assert_eq!(
        db.get_vec_u8_from_word_address(ID_ANONYMOUS_USER, addr, 4),
        vec![0, 0, 0, 0]
    );

    let value = vec![0x01_u8, 0x02_u8, 0x03_u8, 0x04_u8];
    db.set_vec_u8_to_word_address(ID_ANONYMOUS_USER, addr, &value);
    assert_eq!(
        db.get_vec_u8_from_word_address(ID_ANONYMOUS_USER, addr, 6),
        vec![0x01_u8, 0x02_u8, 0x03_u8, 0x04_u8, 0, 0]
    );
    assert_eq!(
        db.get_vec_u8_from_word_address(ID_ANONYMOUS_USER, addr, 4),
        vec![0x01_u8, 0x02_u8, 0x03_u8, 0x04_u8]
    );
    assert_eq!(
        db.get_vec_u8_from_word_address(ID_ANONYMOUS_USER, addr, 2),
        vec![0x01_u8, 0x02_u8]
    );
}

#[test]
fn test_id_tag_vec_u8() {
    let mut db = Database::default();
    let (_, id_tag) = test_setup(&mut db);

    assert_eq!(db.get_vec_u8_from_id_tag(ID_ANONYMOUS_USER, id_tag, 4), vec![0, 0, 0, 0]);

    let value = vec![0x01_u8, 0x02_u8, 0x03_u8, 0x04_u8];
    db.set_vec_u8_to_id_tag(ID_ANONYMOUS_USER, id_tag, &value);
    assert_eq!(
        db.get_vec_u8_from_id_tag(ID_ANONYMOUS_USER, id_tag, 6),
        vec![0x01_u8, 0x02_u8, 0x03_u8, 0x04_u8, 0, 0]
    );
    assert_eq!(
        db.get_vec_u8_from_id_tag(ID_ANONYMOUS_USER, id_tag, 4),
        vec![0x01_u8, 0x02_u8, 0x03_u8, 0x04_u8]
    );
    assert_eq!(
        db.get_vec_u8_from_id_tag(ID_ANONYMOUS_USER, id_tag, 2),
        vec![0x01_u8, 0x02_u8]
    );
}

#[test]
fn test_tag_contains_word_address_area() {
    let mut tag = Tag::default();

    // A one-word boolean at address 0x0010.
    tag.word_address = 0x0010;
    tag.t_format = TFormat::Bool;
    // before
    assert!(!tag.contains_word_address_area(0x000F, 1));
    // before, but reaching in
    assert!(tag.contains_word_address_area(0x000F, 2));
    assert!(tag.contains_word_address_area(0x000F, 3));
    // inside
    assert!(tag.contains_word_address_area(0x0010, 1));
    // inside and past
    assert!(tag.contains_word_address_area(0x0010, 2));
    // after
    assert!(!tag.contains_word_address_area(0x0011, 1));
    assert!(!tag.contains_word_address_area(0x0011, 2));

    // A four-word value at address 0x0020.
    tag.word_address = 0x0020;
    tag.t_format = TFormat::F64;
    // before
    assert!(!tag.contains_word_address_area(0x001E, 1));
    assert!(!tag.contains_word_address_area(0x001E, 2));
    // before, but reaching in
    assert!(tag.contains_word_address_area(0x001E, 3));
    assert!(tag.contains_word_address_area(0x001E, 4));
    assert!(tag.contains_word_address_area(0x001E, 5));
    assert!(tag.contains_word_address_area(0x001E, 6));
    assert!(tag.contains_word_address_area(0x001E, 7));
    assert!(tag.contains_word_address_area(0x001E, 8));
    // inside
    assert!(tag.contains_word_address_area(0x0020, 1));
    assert!(tag.contains_word_address_area(0x0020, 2));
    assert!(tag.contains_word_address_area(0x0020, 3));
    assert!(tag.contains_word_address_area(0x0020, 4));
    assert!(tag.contains_word_address_area(0x0020, 5));
    // inside and past
    assert!(tag.contains_word_address_area(0x0022, 1));
    assert!(tag.contains_word_address_area(0x0022, 2));
    assert!(tag.contains_word_address_area(0x0022, 3));
    // after
    assert!(!tag.contains_word_address_area(0x0024, 1));
    assert!(!tag.contains_word_address_area(0x0024, 2));
    assert!(!tag.contains_word_address_area(0x0024, 3));
}

#[test]
fn test_from_line_csv() {
    // Comments and empty lines define nothing.
    assert!(icom_sim::database_csv::from_line_csv("").unwrap().is_none());
    assert!(icom_sim::database_csv::from_line_csv("// comment").unwrap().is_none());
    assert!(icom_sim::database_csv::from_line_csv("@@ header").unwrap().is_none());

    // A well-formed definition line.
    let line = "00:0102:00:00:00 ;0010 ;02 ;V ;Tension ; ; ; ; ; ;1 ;3 ;123";
    let tag = icom_sim::database_csv::from_line_csv(line).unwrap().unwrap();
    assert_eq!(tag.word_address, 0x0010);
    assert_eq!(tag.t_format, TFormat::U16);
    assert!(!tag.is_internal);
    assert!(tag.is_write);
    assert_eq!(tag.id_tag, IdTag::new(3, 0x0102, [0, 0, 0]));
    assert_eq!(tag.unity, "V");
    assert_eq!(tag.label, "Tension");
    assert_eq!(tag.default_value, "123");

    // Too few fields, a bad format byte, a bad zone: errors.
    assert!(icom_sim::database_csv::from_line_csv("a;b;c").is_err());
    let bad_format = "00:0102:00:00:00 ;0010 ;ZZ ;V ;L ; ; ; ; ; ;1 ;3 ;";
    assert!(icom_sim::database_csv::from_line_csv(bad_format).is_err());
    let bad_zone = "00:0102:00:00:00 ;0010 ;02 ;V ;L ; ; ; ; ; ;1 ;zone ;";
    assert!(icom_sim::database_csv::from_line_csv(bad_zone).is_err());
}

// The overlap search finds the tag whose word range covers a written area.
#[test]
fn test_tags_from_word_address_area() {
    let mut db = Database::default();
    let tag_a = Tag {
        word_address: 0x0100,
        id_tag: IdTag::new(1, 1, [0, 0, 0]),
        t_format: TFormat::U64,
        ..Default::default()
    };
    db.add_tag(&tag_a);
    let tag_b = Tag {
        word_address: 0x0104,
        id_tag: IdTag::new(1, 2, [0, 0, 0]),
        t_format: TFormat::U16,
        ..Default::default()
    };
    db.add_tag(&tag_b);

    // Writing inside the first tag's range reaches it alone.
    let tags = db.get_tags_from_word_address_area(0x0102, 1);
    assert_eq!(tags.len(), 1);
    assert_eq!(tags[0].id_tag, tag_a.id_tag);

    // Writing across both ranges reaches both, in address order.
    let tags = db.get_tags_from_word_address_area(0x0100, 5);
    assert_eq!(tags.len(), 2);
    assert_eq!(tags[0].id_tag, tag_a.id_tag);
    assert_eq!(tags[1].id_tag, tag_b.id_tag);

    // An area no tag reaches into stays empty.
    let tags = db.get_tags_from_word_address_area(0x0200, 2);
    assert_eq!(tags.len(), 0);
}

// Text-driven writes parse by the tag's format; text that does not parse
// changes nothing.
#[test]
fn test_set_value_and_typed_read() {
    let mut db = Database::default();
    let tag_u16 = Tag {
        word_address: 0x0010,
        id_tag: IdTag::new(1, 1, [0, 0, 0]),
        t_format: TFormat::U16,
        ..Default::default()
    };
    db.add_tag(&tag_u16);
    let tag_i16 = Tag {
        word_address: 0x0020,
        id_tag: IdTag::new(2, 2, [0, 0, 0]),
        t_format: TFormat::I16,
        ..Default::default()
    };
    db.add_tag(&tag_i16);
    let tag_bool = Tag {
        word_address: 0x0030,
        id_tag: IdTag::new(3, 3, [0, 0, 0]),
        t_format: TFormat::Bool,
        ..Default::default()
    };
    db.add_tag(&tag_bool);
    let tag_bytes = Tag {
        word_address: 0x0040,
        id_tag: IdTag::new(4, 4, [0, 0, 0]),
        t_format: TFormat::VecU8(5),
        ..Default::default()
    };
    db.add_tag(&tag_bytes);

    db.set_value(ID_ANONYMOUS_USER, &tag_u16, "123");
    assert_eq!(db.get_u16_from_id_tag(ID_ANONYMOUS_USER, tag_u16.id_tag), 123);

    db.set_value(ID_ANONYMOUS_USER, &tag_i16, "-123");
    assert_eq!(db.get_i16_from_id_tag(ID_ANONYMOUS_USER, tag_i16.id_tag), -123);

    db.set_value(ID_ANONYMOUS_USER, &tag_bool, "true");
    assert!(db.get_bool_from_id_tag(ID_ANONYMOUS_USER, tag_bool.id_tag));

    db.set_value(ID_ANONYMOUS_USER, &tag_bytes, "TOTO");
    assert_eq!(
        db.get_vec_u8_from_id_tag(ID_ANONYMOUS_USER, tag_bytes.id_tag, 5),
        vec![b'T', b'O', b'T', b'O', 0x00]
    );

    // Unparsable or out-of-range text changes nothing.
    db.set_value(ID_ANONYMOUS_USER, &tag_u16, "not a number");
    assert_eq!(db.get_u16_from_id_tag(ID_ANONYMOUS_USER, tag_u16.id_tag), 123);
    db.set_value(ID_ANONYMOUS_USER, &tag_u16, "70000");
    assert_eq!(db.get_u16_from_id_tag(ID_ANONYMOUS_USER, tag_u16.id_tag), 123);

    // The typed view reads by the tag's format.
    match db.get_t_value_from_tag(ID_ANONYMOUS_USER, &tag_u16) {
        TValue::U16(v) => assert_eq!(v, 123),
        _ => panic!("a two-byte value expected"),
    }
    match db.get_t_value_from_tag(ID_ANONYMOUS_USER, &tag_bytes) {
        TValue::VecU8(len, bytes) => {
            assert_eq!(len, 5);
            assert_eq!(bytes, vec![b'T', b'O', b'T', b'O', 0x00]);
        }
        _ => panic!("a byte-string value expected"),
    }
}

// The register block accessors read and write consecutive words.
#[test]
fn test_register_block_access() {
    let mut db = Database::default();
    db.write_registers(ID_ANONYMOUS_USER, 0x0100, &[11, 22, 33]);
    assert_eq!(db.read_registers(ID_ANONYMOUS_USER, 0x0100, 3), vec![11, 22, 33]);
    // A register past the register space reads as 0 and ignores writes.
    db.write_registers(ID_ANONYMOUS_USER, 0x7FFF, &[1, 2]);
    assert_eq!(db.read_registers(ID_ANONYMOUS_USER, 0x7FFF, 2), vec![1, 0]);
}
