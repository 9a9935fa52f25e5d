//! Middleware for the DATA_OUT_TABLE_INDEX conversation: reports the range of
//! table indices seen in a zone. Both bounds are carried under the "first
//! index" item tag, as the peer expects.

use vstd::prelude::*;

use crate::context::Context;
use crate::data_frame::DataFrame;
use crate::data_item::DataItem;
use crate::database::Database;
use crate::id_tag::IdTag;
use crate::id_users::IdUser;
use crate::raw_frame::RawFrame;
use crate::t_format::TFormat;
use crate::t_value::TValue;

verus! {

use crate::context::{context_wf, ContextView};
use crate::data_frame::{spec_frame_items, spec_frame_tag};
use crate::data_item::{spec_encode_item, DataItemView};
use crate::id_message::{AF_DATA_OUT_TABLE_INDEX, D_DATA_ZONE, IC_DATA_OUT_TABLE_INDEX, D_DATA_FIRST_TABLE_INDEX};
use crate::raw_frame::{frame_wf, RawFrameView};
use crate::t_value::{spec_to_u64, TValueView};

#[derive(Debug, Default)]
pub struct MDataOutTableIndex {}

/// The zone named by the first zone item of a request, read as a one-byte
/// number.
pub open spec fn spec_first_zone(items: Seq<DataItemView>) -> Option<u8>
    decreases items.len(),
{
    if items.len() == 0 {
        None
    } else if items[0].tag == D_DATA_ZONE {
        Some(
            if spec_to_u64(items[0].t_value) <= u8::MAX as u64 {
                spec_to_u64(items[0].t_value) as u8
            } else {
                0u8
            },
        )
    } else {
        spec_first_zone(items.skip(1))
    }
}

/// Payload of the reply: the zone, then the smallest and the largest table
/// index seen there, both under the "first index" item tag.
pub open spec fn spec_table_index_reply(c: ContextView, zone: u8) -> Seq<u8> {
    spec_encode_item(
        DataItemView { tag: D_DATA_ZONE, t_format: TFormat::U8, t_value: TValueView::U8(zone) },
    ) + spec_encode_item(
        DataItemView {
            tag: D_DATA_FIRST_TABLE_INDEX,
            t_format: TFormat::U64,
            t_value: TValueView::U64(c.records.index_min[zone as int]),
        },
    ) + spec_encode_item(
        DataItemView {
            tag: D_DATA_FIRST_TABLE_INDEX,
            t_format: TFormat::U64,
            t_value: TValueView::U64(c.records.index_max[zone as int]),
        },
    )
}

impl MDataOutTableIndex {
    /// A new conversation may begin; this middleware keeps no state.
    pub fn reset_conversation(&self, context: &mut Context)
        ensures
            final (context)@ == old(context)@,
    {
    }

    /// Answers a table-index request with the zone's index range; a request
    /// without a zone item gets NACK. Other requests are not this
    /// middleware's.
    pub fn get_conversation(
        &self,
        context: &mut Context,
        db: &mut Database,
        id_user: IdUser,
        request_data_frame: &DataFrame,
    ) -> (r: Option<RawFrame>)
        requires
            context_wf(old(context)@),
        ensures
            final (context)@ == old(context)@,
            final (db)@ == old(db)@,
            spec_frame_tag(request_data_frame@) != AF_DATA_OUT_TABLE_INDEX ==> r is None,
            spec_frame_tag(request_data_frame@) == AF_DATA_OUT_TABLE_INDEX ==> match spec_first_zone(
                spec_frame_items(request_data_frame@),
            ) {
                None => (r matches Some(f) && f@ == RawFrameView::Nack),
                Some(zone) => (r matches Some(f) && frame_wf(f@) && (f@ matches RawFrameView::Complete(
                    t,
                    l,
                    p,
                    x,
                ) && t == IC_DATA_OUT_TABLE_INDEX && p == spec_table_index_reply(
                    old(context)@,
                    zone,
                ))),
            },
    {
        if request_data_frame.get_tag() != AF_DATA_OUT_TABLE_INDEX {
            return None;
        }
        let data_items = request_data_frame.get_data_items();
        let mut option_zone: Option<u8> = None;
        let mut i: usize = 0;
        let ghost items = spec_frame_items(request_data_frame@);
        proof {
            assert(items.skip(0) =~= items);
        }
        while i < data_items.len() && option_zone.is_none()
            invariant
                0 <= i <= data_items@.len(),
                crate::data_item::items_views(data_items@) == items,
                option_zone is None ==> spec_first_zone(items) == spec_first_zone(
                    items.skip(i as int),
                ),
                option_zone matches Some(z) ==> spec_first_zone(items) == Some(z),
            decreases data_items@.len() - i,
        {
            proof {
                assert(items[i as int] == data_items@[i as int]@);
                assert(items.skip(i as int)[0] == items[i as int]);
                assert(items.skip(i as int).skip(1) =~= items.skip(i + 1));
            }
            if data_items[i].tag == D_DATA_ZONE {
                option_zone = Some(data_items[i].t_value.extract_u8());
            }
            i += 1;
        }
        let cur_zone = match option_zone {
            Some(z) => z,
            None => {
                proof {
                    if i == data_items@.len() {
                        assert(items.skip(i as int) =~= Seq::<DataItemView>::empty());
                    }
                }
                return Some(RawFrame::new_nack());
            },
        };
        let mut raw_frame = RawFrame::new_message(IC_DATA_OUT_TABLE_INDEX);
        let zone_item = DataItem::new(D_DATA_ZONE, TFormat::U8, TValue::U8(cur_zone));
        let index_min = context.records.get_index_min(cur_zone);
        let min_item = DataItem::new(
            D_DATA_FIRST_TABLE_INDEX,
            TFormat::U64,
            TValue::U64(index_min),
        );
        let index_max = context.records.get_index_max(cur_zone);
        let max_item = DataItem::new(
            D_DATA_FIRST_TABLE_INDEX,
            TFormat::U64,
            TValue::U64(index_max),
        );
        proof {
            crate::be_data::lemma_u64_to_be_len(index_min, 8);
            crate::be_data::lemma_u64_to_be_len(index_max, 8);
        }
        let _ = raw_frame.try_extend_data_item(&zone_item);
        let _ = raw_frame.try_extend_data_item(&min_item);
        let _ = raw_frame.try_extend_data_item(&max_item);
        proof {
            assert(Seq::<u8>::empty() + spec_encode_item(zone_item@) =~= spec_encode_item(
                zone_item@,
            ));
            assert(spec_table_index_reply(old(context)@, cur_zone) =~= spec_encode_item(zone_item@)
                + spec_encode_item(min_item@) + spec_encode_item(max_item@));
        }
        Some(raw_frame)
    }

    /// Table-index reporting ignores database changes.
    pub fn notification_change(
        &self,
        context: &mut Context,
        db: &mut Database,
        my_id_user: IdUser,
        id_user: IdUser,
        id_tag: IdTag,
        t_value: &TValue,
    )
        ensures
            final (context)@ == old(context)@,
            final (db)@ == old(db)@,
    {
    }
}

} // verus!
