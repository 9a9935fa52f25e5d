//! Middleware for the DATA_OUT conversation: the co-processor hands data over
//! item by item. A zone and a table index persist across items; once a zone,
//! a tag name and a value are all present, the triple either becomes a record
//! datum (when a table index is set) or a database write, and the name and
//! value carriers are cleared.

use vstd::prelude::*;

use crate::context::Context;
use crate::data_frame::DataFrame;
use crate::database::Database;
use crate::id_tag::IdTag;
use crate::id_users::IdUser;
use crate::raw_frame::RawFrame;
use crate::records::RecordData;
use crate::t_value::TValue;
use crate::utils;

verus! {

use vstd::utf8::encode_utf8;
use crate::context::{context_wf, ContextView};
use crate::data_frame::{spec_frame_items, spec_frame_tag};
use crate::data_item::DataItemView;
use crate::database::{db_wf, DatabaseView};
use crate::id_message::{
    spec_id_tag_of_bytes,
    AF_DATA_OUT,
    D_DATA_TABLE_INDEX,
    D_DATA_TAG,
    D_DATA_VALUE,
    D_DATA_ZONE,
    TAG_NUM_END_OF_RECORD,
};
use crate::m_init::{spec_bump, spec_u8_of};
use crate::raw_frame::RawFrameView;
use crate::records::RecordDataView;
use crate::t_value::{pad_trunc, spec_to_text, spec_to_u64};
use crate::text::spec_trim_ascii;
use crate::utils::{spec_collect_records, spec_update_database_rel};

#[derive(Debug, Default)]
pub struct MDataOut {}

/// The context's carriers after one item: a zone, table-index, tag-name or
/// value item fills its carrier, anything else changes nothing. The tag name
/// is the item's value rendered as exactly five bytes.
pub open spec fn spec_carriers_after(c: ContextView, item: DataItemView) -> ContextView {
    if item.tag == D_DATA_ZONE {
        ContextView { option_zone: Some(spec_u8_of(item.t_value)), ..c }
    } else if item.tag == D_DATA_TABLE_INDEX {
        ContextView { option_table_index: Some(spec_to_u64(item.t_value)), ..c }
    } else if item.tag == D_DATA_TAG {
        ContextView {
            option_vec_u8_tag: Some(
                pad_trunc(spec_trim_ascii(encode_utf8(spec_to_text(item.t_value))), 5),
            ),
            ..c
        }
    } else if item.tag == D_DATA_VALUE {
        ContextView { option_t_value: Some(item.t_value), ..c }
    } else {
        c
    }
}

/// How the context and the database evolve under one DATA_OUT item: the
/// carriers are filled; a complete zone / name / value triple is consumed —
/// into the record collection when a table index is set (the end-of-record
/// key closes the record), into the database otherwise — and the name and
/// value carriers are cleared.
pub open spec fn spec_data_out_item_rel(
    pre_c: ContextView,
    pre_db: DatabaseView,
    id_user: IdUser,
    item: DataItemView,
    post_c: ContextView,
    post_db: DatabaseView,
) -> bool {
    let c1 = spec_carriers_after(pre_c, item);
    if c1.option_zone is Some && c1.option_vec_u8_tag is Some && c1.option_t_value is Some {
        let id_tag = spec_id_tag_of_bytes(c1.option_zone->Some_0, c1.option_vec_u8_tag->Some_0);
        if c1.option_table_index is Some {
            let rd = RecordDataView {
                table_index: c1.option_table_index->Some_0,
                id_tag,
                t_value: c1.option_t_value->Some_0,
            };
            &&& post_db == pre_db
            &&& (if id_tag.num_tag == TAG_NUM_END_OF_RECORD {
                post_c == (ContextView {
                    records: spec_collect_records(c1.records, c1.record_datas),
                    record_datas: Seq::<RecordDataView>::empty(),
                    option_vec_u8_tag: None,
                    option_t_value: None,
                    ..c1
                })
            } else {
                post_c == (ContextView {
                    record_datas: c1.record_datas.push(rd),
                    option_vec_u8_tag: None,
                    option_t_value: None,
                    ..c1
                })
            })
        } else {
            &&& spec_update_database_rel(pre_db, id_user, id_tag, c1.option_t_value->Some_0, post_db)
            &&& post_c == (ContextView { option_vec_u8_tag: None, option_t_value: None, ..c1 })
        }
    } else {
        post_c == c1 && post_db == pre_db
    }
}

/// How the context and the database evolve under a whole DATA_OUT request:
/// the items' effects, one after the other.
pub open spec fn spec_data_out_rel(
    pre_c: ContextView,
    pre_db: DatabaseView,
    id_user: IdUser,
    items: Seq<DataItemView>,
    post_c: ContextView,
    post_db: DatabaseView,
) -> bool
    decreases items.len(),
{
    if items.len() == 0 {
        post_c == pre_c && post_db == pre_db
    } else {
        exists|mc: ContextView, mdb: DatabaseView|
            #[trigger] spec_data_out_item_rel(pre_c, pre_db, id_user, items[0], mc, mdb)
                && spec_data_out_rel(mc, mdb, id_user, items.skip(1), post_c, post_db)
    }
}

/// One more item's effect extends the chain at its end.
pub proof fn lemma_data_out_rel_snoc(
    pre_c: ContextView,
    pre_db: DatabaseView,
    id_user: IdUser,
    items: Seq<DataItemView>,
    mid_c: ContextView,
    mid_db: DatabaseView,
    item: DataItemView,
    post_c: ContextView,
    post_db: DatabaseView,
)
    requires
        spec_data_out_rel(pre_c, pre_db, id_user, items, mid_c, mid_db),
        spec_data_out_item_rel(mid_c, mid_db, id_user, item, post_c, post_db),
    ensures
        spec_data_out_rel(pre_c, pre_db, id_user, items.push(item), post_c, post_db),
    decreases items.len(),
{
    if items.len() == 0 {
        assert(items.push(item)[0] == item);
        assert(items.push(item).skip(1) =~= Seq::<DataItemView>::empty());
        assert(spec_data_out_item_rel(pre_c, pre_db, id_user, items.push(item)[0], post_c, post_db));
        assert(spec_data_out_rel(post_c, post_db, id_user, items.push(item).skip(1), post_c, post_db));
    } else {
        let (m0c, m0db) = choose|m0c: ContextView, m0db: DatabaseView|
            #[trigger] spec_data_out_item_rel(pre_c, pre_db, id_user, items[0], m0c, m0db)
                && spec_data_out_rel(m0c, m0db, id_user, items.skip(1), mid_c, mid_db);
        lemma_data_out_rel_snoc(
            m0c,
            m0db,
            id_user,
            items.skip(1),
            mid_c,
            mid_db,
            item,
            post_c,
            post_db,
        );
        assert(items.push(item)[0] == items[0]);
        assert(items.push(item).skip(1) =~= items.skip(1).push(item));
        assert(spec_data_out_item_rel(pre_c, pre_db, id_user, items.push(item)[0], m0c, m0db));
        assert(spec_data_out_rel(m0c, m0db, id_user, items.push(item).skip(1), post_c, post_db));
    }
}

impl MDataOut {
    /// A new conversation may begin: the tag-name and value carriers are
    /// cleared and a pending record is closed and collected; the zone and
    /// table index stay, as they may span several frames.
    pub fn reset_conversation(&self, context: &mut Context)
        requires
            context_wf(old(context)@),
        ensures
            context_wf(final (context)@),
            final (context)@ == (ContextView {
                option_vec_u8_tag: None,
                option_t_value: None,
                records: spec_collect_records(old(context)@.records, old(context)@.record_datas),
                record_datas: Seq::<RecordDataView>::empty(),
                ..old(context)@
            }),
    {
        context.option_vec_u8_tag = None;
        context.option_t_value = None;
        RecordData::collect_record_datas(context);
    }

    /// Handles a DATA_OUT request: clears the name and value carriers, runs
    /// every item through the carrier state machine — writing the completed
    /// triples to the database or collecting them as record data — and
    /// acknowledges. Other requests are not this middleware's.
    pub fn get_conversation(
        &self,
        context: &mut Context,
        db: &mut Database,
        id_user: IdUser,
        request_data_frame: &DataFrame,
    ) -> (r: Option<RawFrame>)
        requires
            context_wf(old(context)@),
            db_wf(old(db)@),
        ensures
            context_wf(final (context)@),
            db_wf(final (db)@),
            spec_frame_tag(request_data_frame@) != AF_DATA_OUT ==> r is None && final (context)@
                == old(context)@ && final (db)@ == old(db)@,
            spec_frame_tag(request_data_frame@) == AF_DATA_OUT ==> {
                &&& (r matches Some(f) && f@ == RawFrameView::Ack)
                &&& spec_data_out_rel(
                    ContextView {
                        nb_data_out: spec_bump(old(context)@.nb_data_out),
                        option_vec_u8_tag: None,
                        option_t_value: None,
                        ..old(context)@
                    },
                    old(db)@,
                    id_user,
                    spec_frame_items(request_data_frame@),
                    final (context)@,
                    final (db)@,
                )
            },
    {
        if request_data_frame.get_tag() != AF_DATA_OUT {
            return None;
        }
        if context.nb_data_out < usize::MAX {
            context.nb_data_out = context.nb_data_out + 1;
        }
        context.option_vec_u8_tag = None;
        context.option_t_value = None;
        let ghost c0 = context@;
        let ghost db0 = db@;
        let data_items = request_data_frame.get_data_items();
        let ghost items = spec_frame_items(request_data_frame@);
        let mut i: usize = 0;
        proof {
            assert(items.take(0) =~= Seq::<DataItemView>::empty());
        }
        while i < data_items.len()
            invariant
                0 <= i <= data_items@.len(),
                crate::data_item::items_views(data_items@) == items,
                context_wf(context@),
                db_wf(db@),
                spec_data_out_rel(c0, db0, id_user, items.take(i as int), context@, db@),
            decreases data_items@.len() - i,
        {
            let ghost pre_c = context@;
            let ghost pre_db = db@;
            proof {
                assert(items[i as int] == data_items@[i as int]@);
            }
            let data_item = &data_items[i];
            if data_item.tag == D_DATA_ZONE {
                context.option_zone = Some(data_item.t_value.extract_u8());
            } else if data_item.tag == D_DATA_TABLE_INDEX {
                context.option_table_index = Some(data_item.t_value.extract_u64());
            } else if data_item.tag == D_DATA_TAG {
                let converted = data_item.t_value.to_t_value_vec_u8(5);
                match converted {
                    TValue::VecU8(_, vec_u8) => {
                        context.option_vec_u8_tag = Some(vec_u8);
                    },
                    _ => {},
                }
            } else if data_item.tag == D_DATA_VALUE {
                context.option_t_value = Some(data_item.t_value.clone());
            }
            let ghost c1 = context@;
            proof {
                assert(c1 == spec_carriers_after(pre_c, items[i as int]));
            }
            if context.option_zone.is_some() && context.option_vec_u8_tag.is_some()
                && context.option_t_value.is_some() {
                let zone = match context.option_zone {
                    Some(z) => z,
                    None => vstd::pervasive::unreached(),
                };
                let mut tag_bytes_opt: Option<Vec<u8>> = None;
                core::mem::swap(&mut tag_bytes_opt, &mut context.option_vec_u8_tag);
                let tag_bytes = match tag_bytes_opt {
                    Some(v) => v,
                    None => vstd::pervasive::unreached(),
                };
                let mut t_value_opt: Option<TValue> = None;
                core::mem::swap(&mut t_value_opt, &mut context.option_t_value);
                let t_value = match t_value_opt {
                    Some(v) => v,
                    None => vstd::pervasive::unreached(),
                };
                let id_tag = utils::zone_vec_u8_tag_to_id_tag(zone, tag_bytes.as_slice());
                match context.option_table_index {
                    Some(table_index) => {
                        let record = RecordData::new(table_index, id_tag, &t_value);
                        utils::add_record(context, record);
                    },
                    None => {
                        utils::update_database(db, id_user, id_tag, t_value);
                    },
                }
                proof {
                    assert(spec_data_out_item_rel(
                        pre_c,
                        pre_db,
                        id_user,
                        items[i as int],
                        context@,
                        db@,
                    ));
                }
            } else {
                proof {
                    assert(spec_data_out_item_rel(
                        pre_c,
                        pre_db,
                        id_user,
                        items[i as int],
                        context@,
                        db@,
                    ));
                }
            }
            proof {
                lemma_data_out_rel_snoc(
                    c0,
                    db0,
                    id_user,
                    items.take(i as int),
                    pre_c,
                    pre_db,
                    items[i as int],
                    context@,
                    db@,
                );
                assert(items.take(i + 1 as int) =~= items.take(i as int).push(items[i as int]));
            }
            i += 1;
        }
        proof {
            assert(items.take(items.len() as int) =~= items);
        }
        Some(RawFrame::new_ack())
    }

    /// Data output ignores database changes.
    pub fn notification_change(
        &self,
        context: &mut Context,
        db: &mut Database,
        my_id_user: IdUser,
        id_user: IdUser,
        id_tag: IdTag,
        t_value: &TValue,
    )
        ensures
            final (context)@ == old(context)@,
            final (db)@ == old(db)@,
    {
    }
}

} // verus!
