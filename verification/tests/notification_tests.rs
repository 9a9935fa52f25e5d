//! Tests of the user registry and the change-notification ledger: filters,
//! cursors, debounce and purge.

use icom_sim::database::Database;
use icom_sim::id_tag::IdTag;
use icom_sim::id_users::{IdUsers, NotificationChange, ID_ANONYMOUS_USER};
use icom_sim::t_format::TFormat;
use icom_sim::tag::Tag;

#[test]
fn test_id_users() {
    let mut db = Database::default();

    let id_user_1 = db.get_id_user("user1", false);
    assert!(id_user_1 != ID_ANONYMOUS_USER);
    assert_eq!(db.get_id_user_name(id_user_1), "user1");

    let id_user_2 = db.get_id_user("user2", false);
    assert!(id_user_1 != id_user_2);
    assert_eq!(db.get_id_user_name(id_user_2), "user2");
}

#[test]
fn test_anonymous_notifications() {
    let mut db = Database::default();

    let tag_1 = Tag {
        word_address: 0x0010,
        id_tag: IdTag::new(1, 1, [0, 0, 0]),
        t_format: TFormat::U16,
        ..Default::default()
    };
    db.add_tag(&tag_1);

    let tag_2 = Tag {
        word_address: 0x0020,
        id_tag: IdTag::new(2, 2, [0, 0, 0]),
        t_format: TFormat::U16,
        ..Default::default()
    };
    db.add_tag(&tag_2);

    let id_user = db.get_id_user("user", true);

    // No history yet for this user.
    assert!(db.get_change(id_user, true, true).is_none());

    // An anonymous user updates the database.
    db.set_u16_to_id_tag(ID_ANONYMOUS_USER, tag_1.id_tag, 1);

    // Nothing when anonymous changes are filtered out...
    assert!(db.get_change(id_user, true, false).is_none());

    // ... and nothing now either: the filtered read dropped the entry.
    assert!(db.get_change(id_user, true, true).is_none());

    // A new anonymous update, on another tag to stay clear of the debounce.
    db.set_u16_to_id_tag(ID_ANONYMOUS_USER, tag_2.id_tag, 2);

    // This one reaches the user when anonymous changes are included.
    let option_notification_change = db.get_change(id_user, true, true);
    assert!(option_notification_change.is_some());
    match db.get_tag_from_id_tag(option_notification_change.unwrap().id_tag) {
        Some(tag) => {
            assert_eq!(tag.word_address, tag_2.word_address);
        }
        None => panic!("a change should name a registered tag"),
    }

    // And nothing follows.
    assert!(db.get_change(id_user, true, true).is_none());
}

#[test]
fn test_self_notifications() {
    let mut db = Database::default();

    let tag_1 = Tag {
        word_address: 0x0010,
        id_tag: IdTag::new(1, 1, [0, 0, 0]),
        t_format: TFormat::U16,
        ..Default::default()
    };
    db.add_tag(&tag_1);

    let tag_2 = Tag {
        word_address: 0x0020,
        id_tag: IdTag::new(2, 2, [0, 0, 0]),
        t_format: TFormat::U16,
        ..Default::default()
    };
    db.add_tag(&tag_2);

    let id_user = db.get_id_user("user", true);

    db.set_u16_to_id_tag(id_user, tag_1.id_tag, 1);

    // Nothing when the user's own changes are filtered out...
    assert!(db.get_change(id_user, false, true).is_none());

    // ... and nothing now either: the filtered read dropped the entry.
    assert!(db.get_change(id_user, true, true).is_none());

    // A new update, on another tag to stay clear of the debounce.
    db.set_u16_to_id_tag(id_user, tag_2.id_tag, 2);

    // This one reaches the user when own changes are included.
    let option_notification_change = db.get_change(id_user, true, true);
    assert!(option_notification_change.is_some());
    match db.get_tag_from_id_tag(option_notification_change.unwrap().id_tag) {
        Some(tag) => {
            assert_eq!(tag.word_address, tag_2.word_address);
        }
        None => panic!("a change should name a registered tag"),
    }
}

#[test]
fn test_multi_users_notifications() {
    let mut db = Database::default();

    let tag_1 = Tag {
        word_address: 0x0010,
        id_tag: IdTag::new(1, 1, [0, 0, 0]),
        t_format: TFormat::U16,
        ..Default::default()
    };
    db.add_tag(&tag_1);

    let tag_2 = Tag {
        word_address: 0x0020,
        id_tag: IdTag::new(2, 2, [0, 0, 0]),
        t_format: TFormat::U16,
        ..Default::default()
    };
    db.add_tag(&tag_2);

    let id_user_1 = db.get_id_user("user1", true);
    let id_user_2 = db.get_id_user("user2", true);

    db.set_u16_to_id_tag(id_user_1, tag_1.id_tag, 1);
    db.set_u16_to_id_tag(id_user_2, tag_2.id_tag, 2);

    // Each user is told of the other's change.
    let option_notification_change = db.get_change(id_user_1, false, true);
    assert!(option_notification_change.is_some());
    let tag = db.get_tag_from_id_tag(option_notification_change.unwrap().id_tag);
    assert_eq!(tag.unwrap().word_address, tag_2.word_address);

    let option_notification_change = db.get_change(id_user_2, false, true);
    assert!(option_notification_change.is_some());
    let tag = db.get_tag_from_id_tag(option_notification_change.unwrap().id_tag);
    assert_eq!(tag.unwrap().word_address, tag_1.word_address);

    // And nothing follows for either.
    assert!(db.get_change(id_user_1, false, true).is_none());
    assert!(db.get_change(id_user_2, false, true).is_none());
}

#[test]
fn test_unknown_user_notifications() {
    let mut db = Database::default();

    let tag = Tag {
        word_address: 0x0010,
        id_tag: IdTag::new(1, 1, [0, 0, 0]),
        t_format: TFormat::U16,
        ..Default::default()
    };
    db.add_tag(&tag);

    let id_user = db.get_id_user("user", true);

    db.set_u16_to_id_tag(id_user, tag.id_tag, 1);

    // A user that never registered.
    let id_unknown_user = 0x1234;

    // No history for an unknown user.
    assert!(db.get_change(id_unknown_user, true, true).is_none());

    // The registered user sees their own change.
    assert!(db.get_change(id_user, true, true).is_some());
    assert!(db.get_change(id_user, true, true).is_none());

    // The unknown user may still write.
    db.set_u16_to_id_tag(id_unknown_user, tag.id_tag, 2);

    // Still no history for them...
    assert!(db.get_change(id_unknown_user, true, true).is_none());

    // ... while the registered user sees that write.
    assert!(db.get_change(id_user, true, true).is_some());
}

#[test]
fn test_multi_tags_notifications() {
    let mut db = Database::default();

    let id_tag_1 = IdTag::new(1, 10, [0, 0, 0]);
    let tag_1 = Tag {
        word_address: 0x0010,
        id_tag: id_tag_1,
        t_format: TFormat::U16,
        ..Default::default()
    };
    db.add_tag(&tag_1);

    let id_tag_2 = IdTag::new(1, 11, [0, 0, 0]);
    let tag_2 = Tag {
        word_address: 0x0011,
        id_tag: id_tag_2,
        t_format: TFormat::U16,
        ..Default::default()
    };
    db.add_tag(&tag_2);

    let id_user = db.get_id_user("user", true);

    assert!(db.get_change(id_user, true, true).is_none());

    // One four-byte write touches both registered tags.
    db.set_u32_to_id_tag(id_user, id_tag_1, 0x0001_0002);

    let notif_1 = db.get_change(id_user, true, true);
    assert!(notif_1.is_some());
    let notif_2 = db.get_change(id_user, true, true);
    assert!(notif_2.is_some());

    // The notifications name both touched tags.
    let notif_1_id_tag = notif_1.unwrap().id_tag;
    let notif_2_id_tag = notif_2.unwrap().id_tag;
    assert!(notif_1_id_tag != notif_2_id_tag);
    assert!(notif_1_id_tag == id_tag_1 || notif_1_id_tag == id_tag_2);
    assert!(notif_2_id_tag == id_tag_1 || notif_2_id_tag == id_tag_2);

    assert!(db.get_change(id_user, true, true).is_none());
}

#[test]
fn test_purge_changes() {
    let mut db = Database::default();

    let tag_1 = Tag {
        word_address: 0x0010,
        id_tag: IdTag::new(1, 1, [0, 0, 0]),
        t_format: TFormat::U16,
        ..Default::default()
    };
    db.add_tag(&tag_1);

    let tag_2 = Tag {
        word_address: 0x0020,
        id_tag: IdTag::new(2, 2, [0, 0, 0]),
        t_format: TFormat::U16,
        ..Default::default()
    };
    db.add_tag(&tag_2);

    let id_user = db.get_id_user("user", true);

    db.set_u16_to_id_tag(id_user, tag_1.id_tag, 1);
    db.set_u16_to_id_tag(id_user, tag_2.id_tag, 2);

    // Two entries stand in the log before the reads.
    let start_vec_changes_len = db.nb_changes();

    // The user drains every notification.
    loop {
        if db.get_change(id_user, true, true).is_none() {
            break;
        }
    }

    // The purge runs on the next recorded change.
    db.set_u16_to_id_tag(id_user, tag_1.id_tag, 2);

    // The log shrank.
    assert!(db.nb_changes() < start_vec_changes_len);
}

#[test]
fn test_multi_users_purge_changes() {
    let mut db = Database::default();

    let tag_1 = Tag {
        word_address: 0x0010,
        id_tag: IdTag::new(1, 1, [0, 0, 0]),
        t_format: TFormat::U16,
        ..Default::default()
    };
    db.add_tag(&tag_1);

    let tag_2 = Tag {
        word_address: 0x0020,
        id_tag: IdTag::new(2, 2, [0, 0, 0]),
        t_format: TFormat::U16,
        ..Default::default()
    };
    db.add_tag(&tag_2);

    let id_user_1 = db.get_id_user("user1", true);
    let id_user_2 = db.get_id_user("user2", true);

    db.set_u16_to_id_tag(id_user_1, tag_1.id_tag, 1);
    db.set_u16_to_id_tag(id_user_2, tag_2.id_tag, 2);
    db.set_u16_to_id_tag(id_user_1, tag_1.id_tag, 3);
    db.set_u16_to_id_tag(id_user_2, tag_2.id_tag, 4);

    let start_vec_changes_len = db.nb_changes();

    // Both users drain every notification.
    loop {
        if db.get_change(id_user_1, true, true).is_none()
            && db.get_change(id_user_2, true, true).is_none()
        {
            break;
        }
    }

    // The purge runs on the next recorded change.
    db.set_u16_to_id_tag(id_user_1, tag_1.id_tag, 5);

    // The log shrank.
    assert!(db.nb_changes() < start_vec_changes_len);
}

// Debounce on explicit moments: the same change twice within the window
// leaves one entry; at the window's end it is recorded again.
#[test]
fn test_debounce_explicit_moments() {
    let mut users = IdUsers::new();
    let _subscriber = users.get_id_user("watcher", true);
    let nc = NotificationChange {
        id_user: 7,
        id_tag: IdTag::new(1, 2, [3, 4, 5]),
    };

    users.add_change_at(&nc, 1_000);
    assert_eq!(users.nb_changes(), 1);

    // The same change 999 ms later is a repeat.
    users.add_change_at(&nc, 1_999);
    assert_eq!(users.nb_changes(), 1);

    // The same change 1000 ms later is recorded.
    users.add_change_at(&nc, 2_000);
    assert_eq!(users.nb_changes(), 2);

    // A different tag is never a repeat.
    let other = NotificationChange {
        id_user: 7,
        id_tag: IdTag::new(1, 9, [0, 0, 0]),
    };
    users.add_change_at(&other, 2_001);
    assert_eq!(users.nb_changes(), 3);
}

// A reader sees one writer's changes in the order they were committed.
#[test]
fn test_notification_order_single_writer() {
    let mut db = Database::default();
    for n in 0..4u16 {
        let tag = Tag {
            word_address: 0x0100 + 16 * n,
            id_tag: IdTag::new(1, n, [0, 0, 0]),
            t_format: TFormat::U16,
            ..Default::default()
        };
        db.add_tag(&tag);
    }
    let writer = db.get_id_user("writer", true);
    let reader = db.get_id_user("reader", true);

    for n in 0..4u16 {
        db.set_u16_to_id_tag(writer, IdTag::new(1, n, [0, 0, 0]), n);
    }

    // The reader receives the writer's four changes, in commit order.
    for n in 0..4u16 {
        let nc = db.get_change(reader, false, true).unwrap();
        assert_eq!(nc.id_user, writer);
        assert_eq!(nc.id_tag, IdTag::new(1, n, [0, 0, 0]));
    }
    assert!(db.get_change(reader, false, true).is_none());
}

#[test]
fn test_zero_width_tags_in_area() {
    let mut db = Database::default();

    // A word-wide tag at the area's start, a zero-width tag inside the
    // area, and a word-wide tag past both.
    let tag_head = Tag {
        word_address: 0x0010,
        id_tag: IdTag::new(1, 1, [0, 0, 0]),
        t_format: TFormat::U16,
        ..Default::default()
    };
    db.add_tag(&tag_head);
    let tag_zero = Tag {
        word_address: 0x0011,
        id_tag: IdTag::new(2, 2, [0, 0, 0]),
        t_format: TFormat::VecU8(0),
        ..Default::default()
    };
    db.add_tag(&tag_zero);
    let tag_tail = Tag {
        word_address: 0x0012,
        id_tag: IdTag::new(3, 3, [0, 0, 0]),
        t_format: TFormat::U16,
        ..Default::default()
    };
    db.add_tag(&tag_tail);

    let id_user = db.get_id_user("observer", true);

    // A three-word write over all of them: the zero-width tag occupies no
    // word, so only the word-wide tags are touched and notified.
    db.set_vec_u8_to_word_address(ID_ANONYMOUS_USER, 0x0010, &[1, 2, 3, 4, 5, 6]);
    let first = db.get_change(id_user, true, true).expect("the head tag's change");
    assert_eq!(first.id_tag, tag_head.id_tag);
    let second = db.get_change(id_user, true, true).expect("the tail tag's change");
    assert_eq!(second.id_tag, tag_tail.id_tag);
    assert!(db.get_change(id_user, true, true).is_none());

    // A one-word write starting at the zero-width tag: no registered tag's
    // word range meets the area's start, so nobody is notified.
    db.set_vec_u8_to_word_address(ID_ANONYMOUS_USER, 0x0011, &[7, 8]);
    assert!(db.get_change(id_user, true, true).is_none());
}
