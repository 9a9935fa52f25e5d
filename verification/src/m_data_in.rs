//! Middleware for the DATA_IN conversation: hands queued database changes to
//! the co-processor. On an ALIVE or DATA_IN request with a nonempty queue it
//! fills one reply frame greedily — zone, tag name and value per change,
//! omitting the zone item while the zone repeats — and keeps the rest queued.

use vstd::prelude::*;

use crate::context::Context;
use crate::data_frame::DataFrame;
use crate::data_item::DataItem;
use crate::database::Database;
use crate::id_tag::IdTag;
use crate::id_users::IdUser;
use crate::raw_frame::RawFrame;
use crate::t_format::TFormat;
use crate::t_value::TValue;
use crate::utils;

verus! {

use crate::context::{context_wf, ContextView};
use crate::data_frame::spec_frame_tag;
use crate::data_item::{spec_encode_item, DataItemView};
use crate::database::db_wf;
use crate::t_value::{spec_format_of, TValueView};
use crate::utils::spec_tag_name_bytes;
use crate::id_message::{AF_ALIVE, AF_DATA_IN, IC_DATA_IN, TAG_DATA_PACK};
use crate::m_init::spec_bump;
use crate::raw_frame::{frame_wf, RawFrameView};

#[derive(Debug, Default)]
pub struct MDataIn {}

/// The items delivering one queued change: the zone (omitted while it
/// repeats), the five-byte tag name, then the value under its own format.
pub open spec fn spec_data_in_triple(id_tag: IdTag, v: TValueView, cur_zone: u8) -> Seq<u8> {
    let zone_part = if id_tag.zone != cur_zone {
        spec_encode_item(
            DataItemView {
                tag: crate::id_message::D_DATA_ZONE,
                t_format: TFormat::U8,
                t_value: TValueView::U8(id_tag.zone),
            },
        )
    } else {
        Seq::<u8>::empty()
    };
    zone_part + spec_encode_item(
        DataItemView {
            tag: crate::id_message::D_DATA_TAG,
            t_format: TFormat::VecU8(5),
            t_value: TValueView::VecU8(
                5,
                spec_tag_name_bytes(id_tag.num_tag, id_tag.indice_0, id_tag.indice_1, id_tag.indice_2),
            ),
        },
    ) + spec_encode_item(
        DataItemView { tag: crate::id_message::D_DATA_VALUE, t_format: spec_format_of(v), t_value: v },
    )
}

/// The payload delivering a run of queued changes, starting from zone
/// `cur_zone`, and the zone the run ends in.
pub open spec fn spec_data_in_payload(changes: Seq<(IdTag, TValueView)>, cur_zone: u8) -> (
    Seq<u8>,
    u8,
)
    decreases changes.len(),
{
    if changes.len() == 0 {
        (Seq::<u8>::empty(), cur_zone)
    } else {
        let head = spec_data_in_triple(changes[0].0, changes[0].1, cur_zone);
        let rest = spec_data_in_payload(changes.skip(1), changes[0].0.zone);
        (head + rest.0, rest.1)
    }
}

/// One more change's triple extends the payload at its end.
pub proof fn lemma_data_in_payload_snoc(
    changes: Seq<(IdTag, TValueView)>,
    cur_zone: u8,
    c: (IdTag, TValueView),
)
    ensures
        spec_data_in_payload(changes.push(c), cur_zone).0 == spec_data_in_payload(
            changes,
            cur_zone,
        ).0 + spec_data_in_triple(c.0, c.1, spec_data_in_payload(changes, cur_zone).1),
        spec_data_in_payload(changes.push(c), cur_zone).1 == c.0.zone,
    decreases changes.len(),
{
    if changes.len() == 0 {
        assert(changes.push(c)[0] == c);
        assert(changes.push(c).skip(1) =~= Seq::<(IdTag, TValueView)>::empty());
        assert(spec_data_in_payload(Seq::<(IdTag, TValueView)>::empty(), c.0.zone).0 =~= Seq::<
            u8,
        >::empty());
        assert(spec_data_in_payload(changes, cur_zone).0 =~= Seq::<u8>::empty());
        assert(spec_data_in_triple(c.0, c.1, cur_zone) + Seq::<u8>::empty() =~= spec_data_in_triple(
            c.0,
            c.1,
            cur_zone,
        ));
        assert(Seq::<u8>::empty() + spec_data_in_triple(c.0, c.1, cur_zone)
            =~= spec_data_in_triple(c.0, c.1, cur_zone));
    } else {
        assert(changes.push(c)[0] == changes[0]);
        assert(changes.push(c).skip(1) =~= changes.skip(1).push(c));
        lemma_data_in_payload_snoc(changes.skip(1), changes[0].0.zone, c);
        let head = spec_data_in_triple(changes[0].0, changes[0].1, cur_zone);
        let rest = spec_data_in_payload(changes.skip(1), changes[0].0.zone);
        assert((head + (rest.0 + spec_data_in_triple(c.0, c.1, rest.1))) =~= ((head + rest.0)
            + spec_data_in_triple(c.0, c.1, rest.1)));
    }
}

/// Whether delivery may stop after `k` entries: the queue is exhausted, or
/// the next change's items would overflow the frame's largest payload.
pub open spec fn spec_data_in_stop(q: Seq<(IdTag, TValueView)>, k: int) -> bool {
    ||| k == q.len()
    ||| spec_data_in_payload(q.take(k), 0xFF).0.len() + spec_data_in_triple(
        q[k].0,
        q[k].1,
        spec_data_in_payload(q.take(k), 0xFF).1,
    ).len() > crate::raw_frame::RAW_FRAME_MAX_LEN as int
}

impl MDataIn {
    /// A new conversation may begin; this middleware keeps no state of its
    /// own (the queue persists until delivered).
    pub fn reset_conversation(&self, context: &mut Context)
        ensures
            final (context)@ == old(context)@,
    {
    }

    /// On an ALIVE or DATA_IN request, delivers queued changes: the reply is
    /// a DATA_IN message filled greedily with the first queued changes, and
    /// exactly those leave the queue — delivery stops only when the queue is
    /// exhausted or the next change's items would overflow the frame. With an
    /// empty queue, or on any other request, the conversation is not this
    /// middleware's and nothing changes.
    pub fn get_conversation(
        &self,
        context: &mut Context,
        db: &mut Database,
        id_user: IdUser,
        request_data_frame: &DataFrame,
    ) -> (r: Option<RawFrame>)
        requires
            context_wf(old(context)@),
            db_wf(old(db)@),
        ensures
            context_wf(final (context)@),
            final (db)@ == old(db)@,
            spec_frame_tag(request_data_frame@) != AF_ALIVE && spec_frame_tag(request_data_frame@)
                != AF_DATA_IN ==> r is None && final (context)@ == old(context)@,
            old(context)@.notification_changes.len() == 0 ==> r is None && final (context)@ == old(
                context,
            )@,
            (spec_frame_tag(request_data_frame@) == AF_ALIVE || spec_frame_tag(request_data_frame@)
                == AF_DATA_IN) && old(context)@.notification_changes.len() > 0 ==> {
                &&& (r matches Some(f) && frame_wf(f@) && (f@ matches RawFrameView::Complete(
                    t,
                    l,
                    p,
                    x,
                ) && t == IC_DATA_IN))
                &&& exists|k: int|
                    0 <= k <= old(context)@.notification_changes.len() && final (context)@
                        == (ContextView {
                        nb_data_in: spec_bump(old(context)@.nb_data_in),
                        notification_changes: #[trigger] old(
                            context,
                        )@.notification_changes.skip(k),
                        ..old(context)@
                    }) && (r->Some_0@ matches RawFrameView::Complete(t, l, p, x) && p
                        == spec_data_in_payload(
                        old(context)@.notification_changes.take(k),
                        0xFF,
                    ).0) && spec_data_in_stop(old(context)@.notification_changes, k)
            },
    {
        let tag = request_data_frame.get_tag();
        if !(tag == AF_ALIVE || tag == AF_DATA_IN) {
            return None;
        }
        if context.notification_changes.len() == 0 {
            return None;
        }
        if context.nb_data_in < usize::MAX {
            context.nb_data_in = context.nb_data_in + 1;
        }
        let ghost c1 = context@;
        let ghost q0 = context@.notification_changes;
        let mut raw_frame = RawFrame::new_message(IC_DATA_IN);
        let mut cur_zone: u8 = 0xFF;
        let ghost mut popped: int = 0;
        proof {
            assert(q0.skip(0) =~= q0);
            assert(q0.take(0) =~= Seq::<(IdTag, TValueView)>::empty());
        }
        loop
            invariant_except_break
                context_wf(context@),
                0 <= popped <= q0.len(),
                context@ == (ContextView { notification_changes: q0.skip(popped), ..c1 }),
                frame_wf(raw_frame@),
                raw_frame@ matches RawFrameView::Complete(t, l, p, x) && t == IC_DATA_IN && p
                    == spec_data_in_payload(q0.take(popped), 0xFF).0,
                cur_zone == spec_data_in_payload(q0.take(popped), 0xFF).1,
            ensures
                context_wf(context@),
                exists|k: int|
                    0 <= k <= q0.len() && context@ == (ContextView {
                        notification_changes: #[trigger] q0.skip(k),
                        ..c1
                    }) && (raw_frame@ matches RawFrameView::Complete(t, l, p, x) && p
                        == spec_data_in_payload(q0.take(k), 0xFF).0) && spec_data_in_stop(q0, k),
                frame_wf(raw_frame@),
                raw_frame@ matches RawFrameView::Complete(t, l, p, x) && t == IC_DATA_IN,
            decreases q0.len() - popped,
        {
            if context.notification_changes.len() == 0 {
                proof {
                    assert(context@.notification_changes == q0.skip(popped));
                    assert(popped == q0.len());
                    assert(spec_data_in_stop(q0, popped));
                }
                break;
            }
            // The head change stays queued until the whole triple fits.
            let mut new_raw_frame = raw_frame.clone();
            let head_id_tag = context.notification_changes[0].0;
            let head_t_value = context.notification_changes[0].1.clone();
            proof {
                assert(context@.notification_changes == q0.skip(popped));
                assert(q0.skip(popped).len() > 0);
                assert(popped < q0.len());
                assert(q0.skip(popped)[0] == q0[popped]);
                assert(head_id_tag == q0[popped].0);
                assert(head_t_value@ == q0[popped].1);
            }
            let ghost p_k = spec_data_in_payload(q0.take(popped), 0xFF).0;
            let ghost triple = spec_data_in_triple(q0[popped].0, q0[popped].1, cur_zone);
            let ghost zone_part = if q0[popped].0.zone != cur_zone {
                spec_encode_item(
                    DataItemView {
                        tag: crate::id_message::D_DATA_ZONE,
                        t_format: TFormat::U8,
                        t_value: TValueView::U8(q0[popped].0.zone),
                    },
                )
            } else {
                Seq::<u8>::empty()
            };
            let ghost tag_part = spec_encode_item(
                DataItemView {
                    tag: crate::id_message::D_DATA_TAG,
                    t_format: TFormat::VecU8(5),
                    t_value: TValueView::VecU8(
                        5,
                        crate::utils::spec_tag_name_bytes(
                            q0[popped].0.num_tag,
                            q0[popped].0.indice_0,
                            q0[popped].0.indice_1,
                            q0[popped].0.indice_2,
                        ),
                    ),
                },
            );
            let ghost val_part = spec_encode_item(
                DataItemView {
                    tag: crate::id_message::D_DATA_VALUE,
                    t_format: spec_format_of(q0[popped].1),
                    t_value: q0[popped].1,
                },
            );
            proof {
                assert(triple == zone_part + tag_part + val_part);
                assert(triple.len() == zone_part.len() + tag_part.len() + val_part.len());
            }
            let mut next_zone = cur_zone;
            if head_id_tag.zone != cur_zone {
                next_zone = head_id_tag.zone;
                let data_item = DataItem::new(
                    crate::id_message::D_DATA_ZONE,
                    TFormat::U8,
                    TValue::U8(next_zone),
                );
                if new_raw_frame.try_extend_data_item(&data_item).is_err() {
                    proof {
                        assert(data_item@ == (DataItemView {
                            tag: crate::id_message::D_DATA_ZONE,
                            t_format: TFormat::U8,
                            t_value: TValueView::U8(q0[popped].0.zone),
                        }));
                        assert(p_k.len() + zone_part.len()
                            > crate::raw_frame::RAW_FRAME_MAX_LEN as int);
                        assert(spec_data_in_stop(q0, popped));
                    }
                    break;
                }
            }
            proof {
                assert(new_raw_frame@ matches RawFrameView::Complete(t, l, p, x) && p == p_k
                    + zone_part) by {
                    if q0[popped].0.zone == cur_zone {
                        assert(p_k + zone_part =~= p_k);
                    }
                }
            }
            let vec_u8 = utils::tag_num_indices_to_vec_u8(
                head_id_tag.num_tag,
                head_id_tag.indice_0,
                head_id_tag.indice_1,
                head_id_tag.indice_2,
            );
            let data_item = DataItem::new(
                crate::id_message::D_DATA_TAG,
                TFormat::VecU8(5),
                TValue::VecU8(5, vec_u8),
            );
            proof {
                assert(spec_encode_item(data_item@) == tag_part);
            }
            if new_raw_frame.try_extend_data_item(&data_item).is_err() {
                proof {
                    assert(p_k.len() + zone_part.len() + tag_part.len()
                        > crate::raw_frame::RAW_FRAME_MAX_LEN as int);
                    assert(spec_data_in_stop(q0, popped));
                }
                break;
            }
            let data_item = DataItem::new(
                crate::id_message::D_DATA_VALUE,
                head_t_value.to_t_format(),
                head_t_value,
            );
            proof {
                assert(spec_encode_item(data_item@) == val_part);
            }
            if new_raw_frame.try_extend_data_item(&data_item).is_err() {
                proof {
                    assert(p_k.len() + zone_part.len() + tag_part.len() + val_part.len()
                        > crate::raw_frame::RAW_FRAME_MAX_LEN as int);
                    assert(spec_data_in_stop(q0, popped));
                }
                break;
            }
            // The whole triple fits: commit the frame and pop the change.
            proof {
                assert(context@.notification_changes == q0.skip(popped));
                assert(q0.skip(popped).len() > 0);
                assert(popped < q0.len());
                assert(q0.skip(popped)[0] == q0[popped]);
                assert(head_id_tag == q0[popped].0);
                assert(new_raw_frame@ matches RawFrameView::Complete(t, l, p, x) && p
                    == spec_data_in_payload(q0.take(popped), 0xFF).0 + spec_data_in_triple(
                    q0[popped].0,
                    q0[popped].1,
                    cur_zone,
                ));
                lemma_data_in_payload_snoc(q0.take(popped), 0xFF, q0[popped]);
                assert(q0.take(popped + 1) =~= q0.take(popped).push(q0[popped]));
            }
            raw_frame = new_raw_frame;
            cur_zone = next_zone;
            let ghost q_pre = context@.notification_changes;
            context.notification_changes.remove(0);
            proof {
                popped = popped + 1;
                assert(q_pre.remove(0) =~= q0.skip(popped));
                assert(context@ =~~= (ContextView {
                    notification_changes: q0.skip(popped),
                    ..c1
                }));
            }
        }
        Some(raw_frame)
    }

    /// Queues a change made by another user, unless it belongs to the PACK
    /// machinery, which the PACK_IN middleware handles.
    pub fn notification_change(
        &self,
        context: &mut Context,
        db: &mut Database,
        my_id_user: IdUser,
        id_user: IdUser,
        id_tag: IdTag,
        t_value: &TValue,
    )
        ensures
            final (db)@ == old(db)@,
            id_user != my_id_user && id_tag.num_tag != TAG_DATA_PACK ==> final (context)@
                == (ContextView {
                notification_changes: old(context)@.notification_changes.push(
                    (id_tag, t_value@),
                ),
                ..old(context)@
            }),
            !(id_user != my_id_user && id_tag.num_tag != TAG_DATA_PACK) ==> final (context)@ == old(
                context,
            )@,
    {
        if id_user != my_id_user && id_tag.num_tag != TAG_DATA_PACK {
            context.notification_changes.push((id_tag, t_value.clone()));
            proof {
                assert(final (context)@.notification_changes =~= old(
                    context,
                )@.notification_changes.push((id_tag, t_value@)));
                assert(final (context)@ =~~= (ContextView {
                    notification_changes: old(context)@.notification_changes.push(
                        (id_tag, t_value@),
                    ),
                    ..old(context)@
                }));
            }
        }
    }
}

} // verus!
