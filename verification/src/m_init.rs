//! Middleware for the INIT conversation: consumes the co-processor's version
//! and configuration items into reserved internal slots and answers with the
//! board's protocol and firmware versions.

use vstd::prelude::*;

use crate::context::Context;
use crate::data_frame::DataFrame;
use crate::data_item::DataItem;
use crate::database::Database;
use crate::id_tag::IdTag;
use crate::id_users::IdUser;
use crate::raw_frame::RawFrame;
use crate::t_format::TFormat;
use crate::t_value::TValue;
use crate::utils;

verus! {

use crate::context::{context_wf, ContextView};
use crate::data_frame::{spec_frame_items, spec_frame_tag};
use crate::data_item::{spec_encode_item, DataItemView};
use crate::database::{db_wf, DatabaseView};
use crate::id_message::{
    spec_version_split,
    AF_INIT,
    D_APPLI_CONFIG,
    D_APPLI_NUMBER,
    D_APPLI_VERSION,
    D_ICOM_VERSION,
    D_LANGUAGE,
    D_PROTOCOLE_VERSION,
    D_RESIDENT_VERSION,
    IC_INIT,
};
use crate::raw_frame::{frame_wf, RawFrameView};
use crate::t_value::{spec_to_u64, TValueView};
use crate::utils::spec_update_database_rel;

#[derive(Debug, Default)]
pub struct MInit {}

/// A counter bumped by one, stopping at the machine's largest value.
pub open spec fn spec_bump(n: nat) -> nat {
    if n < usize::MAX as nat {
        n + 1
    } else {
        n
    }
}

/// The one-byte reading of a value, 0 when out of range.
pub open spec fn spec_u8_of(v: TValueView) -> u8 {
    if spec_to_u64(v) <= u8::MAX as u64 {
        spec_to_u64(v) as u8
    } else {
        0u8
    }
}

/// The four-byte reading of a value, 0 when out of range.
pub open spec fn spec_u32_of(v: TValueView) -> u32 {
    if spec_to_u64(v) <= u32::MAX as u64 {
        spec_to_u64(v) as u32
    } else {
        0u32
    }
}

/// The internal slot key `zone / number` with zero indices.
pub open spec fn spec_slot(zone: u8, num_tag: u16) -> IdTag {
    IdTag { zone, num_tag, indice_0: 0, indice_1: 0, indice_2: 0 }
}

/// How the database evolves under one INIT item: a version item splits into
/// three two-byte writes, the other recognized items write their value to
/// their slot, anything else changes nothing.
pub open spec fn spec_minit_item_rel(
    pre: DatabaseView,
    id_user: IdUser,
    item: DataItemView,
    post: DatabaseView,
) -> bool {
    if item.tag == D_RESIDENT_VERSION {
        let split = spec_version_split(spec_u32_of(item.t_value));
        exists|m1: DatabaseView, m2: DatabaseView|
            spec_update_database_rel(pre, id_user, spec_slot(0, 0x0001), TValueView::U16(split.0), m1)
                && #[trigger] spec_update_database_rel(
                m1,
                id_user,
                spec_slot(0, 0x0002),
                TValueView::U16(split.1),
                m2,
            ) && spec_update_database_rel(
                m2,
                id_user,
                spec_slot(0, 0x0003),
                TValueView::U16(split.2),
                post,
            )
    } else if item.tag == D_APPLI_NUMBER {
        spec_update_database_rel(pre, id_user, spec_slot(0, 0x0010), item.t_value, post)
    } else if item.tag == D_APPLI_VERSION {
        let split = spec_version_split(spec_u32_of(item.t_value));
        exists|m1: DatabaseView, m2: DatabaseView|
            spec_update_database_rel(pre, id_user, spec_slot(0, 0x0011), TValueView::U16(split.0), m1)
                && #[trigger] spec_update_database_rel(
                m1,
                id_user,
                spec_slot(0, 0x0012),
                TValueView::U16(split.1),
                m2,
            ) && spec_update_database_rel(
                m2,
                id_user,
                spec_slot(0, 0x0013),
                TValueView::U16(split.2),
                post,
            )
    } else if item.tag == D_APPLI_CONFIG {
        spec_update_database_rel(pre, id_user, spec_slot(0, 0x0014), item.t_value, post)
    } else if item.tag == D_LANGUAGE {
        spec_update_database_rel(pre, id_user, spec_slot(1, 0x2042), item.t_value, post)
    } else {
        post == pre
    }
}

/// How the database evolves under a whole INIT request: the items' effects,
/// one after the other.
pub open spec fn spec_minit_rel(
    pre: DatabaseView,
    id_user: IdUser,
    items: Seq<DataItemView>,
    post: DatabaseView,
) -> bool
    decreases items.len(),
{
    if items.len() == 0 {
        post == pre
    } else {
        exists|mid: DatabaseView|
            #[trigger] spec_minit_item_rel(pre, id_user, items[0], mid) && spec_minit_rel(
                mid,
                id_user,
                items.skip(1),
                post,
            )
    }
}

/// One more item's effect extends the chain at its end.
pub proof fn lemma_minit_rel_snoc(
    pre: DatabaseView,
    id_user: IdUser,
    items: Seq<DataItemView>,
    mid: DatabaseView,
    item: DataItemView,
    post: DatabaseView,
)
    requires
        spec_minit_rel(pre, id_user, items, mid),
        spec_minit_item_rel(mid, id_user, item, post),
    ensures
        spec_minit_rel(pre, id_user, items.push(item), post),
    decreases items.len(),
{
    if items.len() == 0 {
        assert(items.push(item)[0] == item);
        assert(items.push(item).skip(1) =~= Seq::<DataItemView>::empty());
        assert(spec_minit_item_rel(pre, id_user, items.push(item)[0], post));
        assert(spec_minit_rel(post, id_user, items.push(item).skip(1), post));
    } else {
        let m0 = choose|m0: DatabaseView|
            #[trigger] spec_minit_item_rel(pre, id_user, items[0], m0) && spec_minit_rel(
                m0,
                id_user,
                items.skip(1),
                mid,
            );
        lemma_minit_rel_snoc(m0, id_user, items.skip(1), mid, item, post);
        assert(items.push(item)[0] == items[0]);
        assert(items.push(item).skip(1) =~= items.skip(1).push(item));
        assert(spec_minit_item_rel(pre, id_user, items.push(item)[0], m0));
        assert(spec_minit_rel(m0, id_user, items.push(item).skip(1), post));
    }
}

/// Payload of the INIT reply: protocol version 0 and board version 0.
pub open spec fn spec_init_reply() -> Seq<u8> {
    spec_encode_item(
        DataItemView {
            tag: D_PROTOCOLE_VERSION,
            t_format: TFormat::U16,
            t_value: TValueView::U16(0),
        },
    ) + spec_encode_item(
        DataItemView { tag: D_ICOM_VERSION, t_format: TFormat::U16, t_value: TValueView::U16(0) },
    )
}

impl MInit {
    /// A new conversation may begin; this middleware keeps no state.
    pub fn reset_conversation(&self, context: &mut Context)
        ensures
            final (context)@ == old(context)@,
    {
    }

    /// Handles an INIT request: consumes the recognized items into their
    /// internal slots and replies with the board's versions. Other requests
    /// are not this middleware's.
    pub fn get_conversation(
        &self,
        context: &mut Context,
        db: &mut Database,
        id_user: IdUser,
        request_data_frame: &DataFrame,
    ) -> (r: Option<RawFrame>)
        requires
            context_wf(old(context)@),
            db_wf(old(db)@),
        ensures
            context_wf(final (context)@),
            db_wf(final (db)@),
            spec_frame_tag(request_data_frame@) != AF_INIT ==> r is None && final (context)@ == old(
                context,
            )@ && final (db)@ == old(db)@,
            spec_frame_tag(request_data_frame@) == AF_INIT ==> {
                &&& final (context)@ == (ContextView {
                    nb_init: spec_bump(old(context)@.nb_init),
                    ..old(context)@
                })
                &&& spec_minit_rel(
                    old(db)@,
                    id_user,
                    spec_frame_items(request_data_frame@),
                    final (db)@,
                )
                &&& (r matches Some(f) && frame_wf(f@) && (f@ matches RawFrameView::Complete(
                    t,
                    l,
                    p,
                    x,
                ) && t == IC_INIT && p == spec_init_reply()))
            },
    {
        if request_data_frame.get_tag() != AF_INIT {
            return None;
        }
        if context.nb_init < usize::MAX {
            context.nb_init = context.nb_init + 1;
        }
        let data_items = request_data_frame.get_data_items();
        let ghost items = spec_frame_items(request_data_frame@);
        let ghost db0 = db@;
        let mut i: usize = 0;
        proof {
            assert(items.take(0) =~= Seq::<DataItemView>::empty());
        }
        while i < data_items.len()
            invariant
                0 <= i <= data_items@.len(),
                crate::data_item::items_views(data_items@) == items,
                db_wf(db@),
                spec_minit_rel(db0, id_user, items.take(i as int), db@),
            decreases data_items@.len() - i,
        {
            let ghost pre = db@;
            proof {
                assert(items[i as int] == data_items@[i as int]@);
            }
            let data_item = &data_items[i];
            if data_item.tag == D_RESIDENT_VERSION {
                let version_revision_edition = data_item.t_value.extract_u32();
                let (version, revision, edition) = utils::u32_to_version_revision_edition(
                    version_revision_edition,
                );
                let ghost m1_pre = db@;
                utils::update_database(
                    db,
                    id_user,
                    IdTag::new(0, 0x0001, [0, 0, 0]),
                    TValue::U16(version),
                );
                let ghost m1 = db@;
                utils::update_database(
                    db,
                    id_user,
                    IdTag::new(0, 0x0002, [0, 0, 0]),
                    TValue::U16(revision),
                );
                let ghost m2 = db@;
                utils::update_database(
                    db,
                    id_user,
                    IdTag::new(0, 0x0003, [0, 0, 0]),
                    TValue::U16(edition),
                );
                proof {
                    let split = spec_version_split(spec_u32_of(items[i as int].t_value));
                    assert(version == split.0 && revision == split.1 && edition == split.2);
                    assert(spec_update_database_rel(
                        pre,
                        id_user,
                        spec_slot(0, 0x0001),
                        TValueView::U16(split.0),
                        m1,
                    ));
                    assert(spec_update_database_rel(
                        m1,
                        id_user,
                        spec_slot(0, 0x0002),
                        TValueView::U16(split.1),
                        m2,
                    ));
                    assert(spec_update_database_rel(
                        m2,
                        id_user,
                        spec_slot(0, 0x0003),
                        TValueView::U16(split.2),
                        db@,
                    ));
                    assert(spec_minit_item_rel(pre, id_user, items[i as int], db@));
                }
            } else if data_item.tag == D_APPLI_NUMBER {
                utils::update_database(
                    db,
                    id_user,
                    IdTag::new(0, 0x0010, [0, 0, 0]),
                    data_item.t_value.clone(),
                );
            } else if data_item.tag == D_APPLI_VERSION {
                let version_revision_edition = data_item.t_value.extract_u32();
                let (version, revision, edition) = utils::u32_to_version_revision_edition(
                    version_revision_edition,
                );
                utils::update_database(
                    db,
                    id_user,
                    IdTag::new(0, 0x0011, [0, 0, 0]),
                    TValue::U16(version),
                );
                let ghost m1 = db@;
                utils::update_database(
                    db,
                    id_user,
                    IdTag::new(0, 0x0012, [0, 0, 0]),
                    TValue::U16(revision),
                );
                let ghost m2 = db@;
                utils::update_database(
                    db,
                    id_user,
                    IdTag::new(0, 0x0013, [0, 0, 0]),
                    TValue::U16(edition),
                );
                proof {
                    let split = spec_version_split(spec_u32_of(items[i as int].t_value));
                    assert(version == split.0 && revision == split.1 && edition == split.2);
                    assert(spec_update_database_rel(
                        pre,
                        id_user,
                        spec_slot(0, 0x0011),
                        TValueView::U16(split.0),
                        m1,
                    ));
                    assert(spec_update_database_rel(
                        m1,
                        id_user,
                        spec_slot(0, 0x0012),
                        TValueView::U16(split.1),
                        m2,
                    ));
                    assert(spec_update_database_rel(
                        m2,
                        id_user,
                        spec_slot(0, 0x0013),
                        TValueView::U16(split.2),
                        db@,
                    ));
                    assert(spec_minit_item_rel(pre, id_user, items[i as int], db@));
                }
            } else if data_item.tag == D_APPLI_CONFIG {
                utils::update_database(
                    db,
                    id_user,
                    IdTag::new(0, 0x0014, [0, 0, 0]),
                    data_item.t_value.clone(),
                );
            } else if data_item.tag == D_LANGUAGE {
                utils::update_database(
                    db,
                    id_user,
                    IdTag::new(1, 0x2042, [0, 0, 0]),
                    data_item.t_value.clone(),
                );
            }
            proof {
                assert(spec_minit_item_rel(pre, id_user, items[i as int], db@));
                lemma_minit_rel_snoc(db0, id_user, items.take(i as int), pre, items[i as int], db@);
                assert(items.take(i + 1 as int) =~= items.take(i as int).push(items[i as int]));
            }
            i += 1;
        }
        proof {
            assert(items.take(items.len() as int) =~= items);
        }
        proof {
            crate::be_data::lemma_u64_to_be_len(0, 2);
        }
        let mut response_raw_frame = RawFrame::new_message(IC_INIT);
        let item1 = DataItem::new(D_PROTOCOLE_VERSION, TFormat::U16, TValue::U16(0));
        let item2 = DataItem::new(D_ICOM_VERSION, TFormat::U16, TValue::U16(0));
        let _ = response_raw_frame.try_extend_data_item(&item1);
        let _ = response_raw_frame.try_extend_data_item(&item2);
        proof {
            assert(Seq::<u8>::empty() + spec_encode_item(item1@) =~= spec_encode_item(item1@));
            assert(spec_init_reply() =~= spec_encode_item(item1@) + spec_encode_item(item2@));
        }
        Some(response_raw_frame)
    }

    /// Initialization ignores database changes.
    pub fn notification_change(
        &self,
        context: &mut Context,
        db: &mut Database,
        my_id_user: IdUser,
        id_user: IdUser,
        id_tag: IdTag,
        t_value: &TValue,
    )
        ensures
            final (context)@ == old(context)@,
            final (db)@ == old(db)@,
    {
    }
}

} // verus!
