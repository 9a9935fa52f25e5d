//! Middleware for the PACK_OUT conversation: the co-processor sends the
//! supervision zone's PACK data as numbered packets across one or more
//! frames. The packets are staged privately; the database is touched only
//! when the packet whose number equals the announced count arrives, and the
//! staged packets are then committed together.

use vstd::prelude::*;

use crate::context::Context;
use crate::data_frame::DataFrame;
use crate::database::Database;
use crate::id_tag::IdTag;
use crate::id_users::IdUser;
use crate::raw_frame::RawFrame;
use crate::t_value::TValue;

verus! {

use crate::context::{context_wf, ContextView, PackOutView};
use crate::data_frame::{spec_frame_items, spec_frame_tag};
use crate::data_item::DataItemView;
use crate::database::{db_wf, spec_find_by_id, spec_value_written, DatabaseView};
use crate::id_message::{AF_PACK_OUT, D_PACK_PAYLOAD, TAG_DATA_PACK};
use crate::m_init::spec_bump;
use crate::raw_frame::RawFrameView;
use crate::t_value::spec_to_vec_u8;

#[derive(Debug, Default)]
pub struct MPackOut {}

/// Key of the supervision zone's PACK base tag.
pub open spec fn spec_pack_out_key() -> IdTag {
    IdTag { zone: 4, num_tag: TAG_DATA_PACK, indice_0: 0, indice_1: 0, indice_2: 0 }
}

/// The packet a payload item carries: its header byte, its word offset and
/// its data bytes; `None` for other items and for payloads under two bytes.
pub open spec fn spec_payload_entry(item: DataItemView) -> Option<(u8, u8, Seq<u8>)> {
    if item.tag == D_PACK_PAYLOAD {
        let bytes = spec_to_vec_u8(item.t_value);
        if bytes.len() >= 2 {
            Some((bytes[0], bytes[1], bytes.skip(2)))
        } else {
            None
        }
    } else {
        None
    }
}

/// The transaction state after one item, with whether that item was the
/// packet closing the transaction (its number equals its announced count).
pub open spec fn spec_pack_out_step(p: PackOutView, last_final: bool, item: DataItemView) -> (
    PackOutView,
    bool,
) {
    match spec_payload_entry(item) {
        None => (p, last_final),
        Some((header, offset, data)) => {
            let total = (header % 16) as u8;
            let num = (header / 16) as u8;
            (
                PackOutView {
                    is_transaction: p.is_transaction,
                    option_nb_total_packets: if p.option_nb_total_packets is None {
                        Some(total)
                    } else {
                        p.option_nb_total_packets
                    },
                    option_last_num_packet: Some(num),
                    private_datas: p.private_datas.push((offset, data)),
                },
                num == total,
            )
        },
    }
}

/// The transaction state and closing flag after a run of items.
pub open spec fn spec_pack_out_scan(p: PackOutView, last_final: bool, items: Seq<DataItemView>) -> (
    PackOutView,
    bool,
)
    decreases items.len(),
{
    if items.len() == 0 {
        (p, last_final)
    } else {
        let step = spec_pack_out_step(p, last_final, items[0]);
        spec_pack_out_scan(step.0, step.1, items.skip(1))
    }
}

/// One more item extends the scan at its end.
pub proof fn lemma_pack_out_scan_snoc(
    p: PackOutView,
    last_final: bool,
    items: Seq<DataItemView>,
    item: DataItemView,
)
    ensures
        spec_pack_out_scan(p, last_final, items.push(item)) == spec_pack_out_step(
            spec_pack_out_scan(p, last_final, items).0,
            spec_pack_out_scan(p, last_final, items).1,
            item,
        ),
    decreases items.len(),
{
    if items.len() == 0 {
        assert(items.push(item)[0] == item);
        assert(items.push(item).skip(1) =~= Seq::<DataItemView>::empty());
        let step = spec_pack_out_step(p, last_final, item);
        assert(spec_pack_out_scan(step.0, step.1, Seq::<DataItemView>::empty()) == step);
        assert(spec_pack_out_scan(p, last_final, items) == (p, last_final));
    } else {
        assert(items.push(item)[0] == items[0]);
        assert(items.push(item).skip(1) =~= items.skip(1).push(item));
        let step = spec_pack_out_step(p, last_final, items[0]);
        lemma_pack_out_scan_snoc(step.0, step.1, items.skip(1), item);
        assert(spec_pack_out_scan(p, last_final, items) == spec_pack_out_scan(
            step.0,
            step.1,
            items.skip(1),
        ));
    }
}

/// How the database evolves when the staged packets are committed: each
/// packet's bytes land at the base address plus its offset, in order; a
/// packet that would land past the address space is skipped.
pub open spec fn spec_commit_rel(
    pre_db: DatabaseView,
    id_user: IdUser,
    base: u16,
    packets: Seq<(u8, Seq<u8>)>,
    post_db: DatabaseView,
) -> bool
    decreases packets.len(),
{
    if packets.len() == 0 {
        post_db == pre_db
    } else {
        exists|mid: DatabaseView|
            #[trigger] spec_commit_step(pre_db, id_user, base, packets[0], mid) && spec_commit_rel(
                mid,
                id_user,
                base,
                packets.skip(1),
                post_db,
            )
    }
}

/// One packet's write during the commit.
pub open spec fn spec_commit_step(
    pre_db: DatabaseView,
    id_user: IdUser,
    base: u16,
    packet: (u8, Seq<u8>),
    post_db: DatabaseView,
) -> bool {
    if base + packet.0 <= u16::MAX {
        spec_value_written(pre_db, id_user, (base + packet.0) as u16, packet.1, post_db)
    } else {
        post_db == pre_db
    }
}

/// One more packet's write extends the commit chain at its end.
pub proof fn lemma_commit_rel_snoc(
    pre_db: DatabaseView,
    id_user: IdUser,
    base: u16,
    packets: Seq<(u8, Seq<u8>)>,
    mid: DatabaseView,
    packet: (u8, Seq<u8>),
    post_db: DatabaseView,
)
    requires
        spec_commit_rel(pre_db, id_user, base, packets, mid),
        spec_commit_step(mid, id_user, base, packet, post_db),
    ensures
        spec_commit_rel(pre_db, id_user, base, packets.push(packet), post_db),
    decreases packets.len(),
{
    if packets.len() == 0 {
        assert(packets.push(packet)[0] == packet);
        assert(packets.push(packet).skip(1) =~= Seq::<(u8, Seq<u8>)>::empty());
        assert(spec_commit_step(pre_db, id_user, base, packets.push(packet)[0], post_db));
        assert(spec_commit_rel(post_db, id_user, base, packets.push(packet).skip(1), post_db));
    } else {
        let m0 = choose|m0: DatabaseView|
            #[trigger] spec_commit_step(pre_db, id_user, base, packets[0], m0) && spec_commit_rel(
                m0,
                id_user,
                base,
                packets.skip(1),
                mid,
            );
        lemma_commit_rel_snoc(m0, id_user, base, packets.skip(1), mid, packet, post_db);
        assert(packets.push(packet)[0] == packets[0]);
        assert(packets.push(packet).skip(1) =~= packets.skip(1).push(packet));
        assert(spec_commit_step(pre_db, id_user, base, packets.push(packet)[0], m0));
        assert(spec_commit_rel(m0, id_user, base, packets.push(packet).skip(1), post_db));
    }
}

/// A fresh transaction state: under way, nothing announced, nothing staged.
pub open spec fn spec_pack_out_fresh() -> PackOutView {
    PackOutView {
        is_transaction: true,
        option_nb_total_packets: None,
        option_last_num_packet: None,
        private_datas: Seq::<(u8, Seq<u8>)>::empty(),
    }
}

/// The transaction state cleared after a commit.
pub open spec fn spec_pack_out_cleared() -> PackOutView {
    PackOutView {
        is_transaction: false,
        option_nb_total_packets: None,
        option_last_num_packet: None,
        private_datas: Seq::<(u8, Seq<u8>)>::empty(),
    }
}

impl MPackOut {
    /// A new conversation may begin; the transaction state persists.
    pub fn reset_conversation(&self, context: &mut Context)
        ensures
            final (context)@ == old(context)@,
    {
    }

    /// Handles a PACK_OUT request: stages every packet of the request and
    /// acknowledges. The database is mutated only when the request's last
    /// packet closes the transaction (its number equals its announced count);
    /// the staged packets are then committed at the supervision zone's base
    /// address, and the transaction state clears. Other requests are not this
    /// middleware's.
    pub fn get_conversation(
        &self,
        context: &mut Context,
        db: &mut Database,
        id_user: IdUser,
        request_data_frame: &DataFrame,
    ) -> (r: Option<RawFrame>)
        requires
            context_wf(old(context)@),
            db_wf(old(db)@),
        ensures
            context_wf(final (context)@),
            db_wf(final (db)@),
            spec_frame_tag(request_data_frame@) != AF_PACK_OUT ==> r is None && final (context)@
                == old(context)@ && final (db)@ == old(db)@,
            spec_frame_tag(request_data_frame@) == AF_PACK_OUT ==> {
                let p0 = if old(context)@.pack_out.is_transaction {
                    old(context)@.pack_out
                } else {
                    spec_pack_out_fresh()
                };
                let scan = spec_pack_out_scan(p0, false, spec_frame_items(request_data_frame@));
                &&& (r matches Some(f) && f@ == RawFrameView::Ack)
                &&& (!scan.1 ==> final (db)@ == old(db)@ && final (context)@ == (ContextView {
                    nb_pack_out: spec_bump(old(context)@.nb_pack_out),
                    pack_out: scan.0,
                    ..old(context)@
                }))
                &&& (scan.1 ==> final (context)@ == (ContextView {
                    nb_pack_out: spec_bump(old(context)@.nb_pack_out),
                    pack_out: spec_pack_out_cleared(),
                    ..old(context)@
                }) && (match spec_find_by_id(old(db)@.tags, spec_pack_out_key()) {
                    Some(t) => spec_commit_rel(
                        old(db)@,
                        id_user,
                        t.word_address,
                        scan.0.private_datas,
                        final (db)@,
                    ),
                    None => final (db)@ == old(db)@,
                }))
            },
    {
        if request_data_frame.get_tag() != AF_PACK_OUT {
            return None;
        }
        if context.nb_pack_out < usize::MAX {
            context.nb_pack_out = context.nb_pack_out + 1;
        }
        if !context.pack_out.is_transaction {
            // A first packet opens a transaction.
            context.pack_out.is_transaction = true;
            context.pack_out.option_nb_total_packets = None;
            context.pack_out.option_last_num_packet = None;
            context.pack_out.private_datas = Vec::new();
            proof {
                assert(context@.pack_out =~~= spec_pack_out_fresh());
            }
        }
        let ghost p0 = context@.pack_out;
        let ghost c1 = context@;
        let data_items = request_data_frame.get_data_items();
        let ghost items = spec_frame_items(request_data_frame@);
        let mut last_packet_received = false;
        let mut i: usize = 0;
        proof {
            assert(items.take(0) =~= Seq::<DataItemView>::empty());
        }
        while i < data_items.len()
            invariant
                0 <= i <= data_items@.len(),
                crate::data_item::items_views(data_items@) == items,
                context_wf(context@),
                db_wf(db@),
                db@ == old(db)@,
                context@ == (ContextView { pack_out: context@.pack_out, ..c1 }),
                (context@.pack_out, last_packet_received) == spec_pack_out_scan(
                    p0,
                    false,
                    items.take(i as int),
                ),
            decreases data_items@.len() - i,
        {
            let ghost pre_p = context@.pack_out;
            let ghost pre_flag = last_packet_received;
            proof {
                assert(items[i as int] == data_items@[i as int]@);
            }
            let data_item = &data_items[i];
            if data_item.tag == D_PACK_PAYLOAD {
                let vec_u8 = data_item.t_value.to_vec_u8();
                if vec_u8.len() >= 2 {
                    let header = vec_u8[0];
                    let total_nb_packets = header % 16;
                    let num_packet = header / 16;
                    if context.pack_out.option_nb_total_packets.is_none() {
                        context.pack_out.option_nb_total_packets = Some(total_nb_packets);
                    }
                    context.pack_out.option_last_num_packet = Some(num_packet);
                    let word_address = vec_u8[1];
                    let mut data: Vec<u8> = Vec::new();
                    let mut j: usize = 2;
                    while j < vec_u8.len()
                        invariant
                            2 <= j <= vec_u8@.len(),
                            data@ == vec_u8@.subrange(2, j as int),
                        decreases vec_u8@.len() - j,
                    {
                        data.push(vec_u8[j]);
                        proof {
                            assert(vec_u8@.subrange(2, j + 1 as int) =~= vec_u8@.subrange(
                                2,
                                j as int,
                            ).push(vec_u8@[j as int]));
                        }
                        j += 1;
                    }
                    proof {
                        assert(vec_u8@.subrange(2, vec_u8@.len() as int) =~= vec_u8@.skip(2));
                    }
                    let ghost staged_pre = context@.pack_out.private_datas;
                    context.pack_out.private_datas.push((word_address, data));
                    last_packet_received = num_packet == total_nb_packets;
                    proof {
                        assert(context@.pack_out.private_datas =~= staged_pre.push(
                            (word_address, spec_to_vec_u8(items[i as int].t_value).skip(2)),
                        ));
                        assert((context@.pack_out, last_packet_received) == spec_pack_out_step(
                            pre_p,
                            pre_flag,
                            items[i as int],
                        )) by {
                            assert(context@.pack_out =~~= spec_pack_out_step(
                                pre_p,
                                pre_flag,
                                items[i as int],
                            ).0);
                        }
                    }
                }
            }
            proof {
                assert((context@.pack_out, last_packet_received) == spec_pack_out_step(
                    pre_p,
                    pre_flag,
                    items[i as int],
                ));
                lemma_pack_out_scan_snoc(p0, false, items.take(i as int), items[i as int]);
                assert(items.take(i + 1 as int) =~= items.take(i as int).push(items[i as int]));
            }
            i += 1;
        }
        proof {
            assert(items.take(items.len() as int) =~= items);
        }
        if last_packet_received {
            self.end_transaction(context, db, id_user);
        }
        Some(RawFrame::new_ack())
    }

    /// Commits the staged packets at the supervision zone's base address and
    /// clears the transaction state; without a registered base tag nothing is
    /// written.
    fn end_transaction(&self, context: &mut Context, db: &mut Database, id_user: IdUser)
        requires
            context_wf(old(context)@),
            db_wf(old(db)@),
        ensures
            context_wf(final (context)@),
            db_wf(final (db)@),
            final (context)@ == (ContextView { pack_out: spec_pack_out_cleared(), ..old(context)@ }),
            match spec_find_by_id(old(db)@.tags, spec_pack_out_key()) {
                Some(t) => spec_commit_rel(
                    old(db)@,
                    id_user,
                    t.word_address,
                    old(context)@.pack_out.private_datas,
                    final (db)@,
                ),
                None => final (db)@ == old(db)@,
            },
    {
        let key = IdTag::new(4, TAG_DATA_PACK, [0, 0, 0]);
        let base = match db.get_tag_from_id_tag(key) {
            Some(tag) => Some(tag.word_address),
            None => None,
        };
        let ghost packets = old(context)@.pack_out.private_datas;
        match base {
            Some(base_word_address) => {
                let ghost db0 = db@;
                let mut j: usize = 0;
                proof {
                    assert(packets.take(0) =~= Seq::<(u8, Seq<u8>)>::empty());
                }
                while j < context.pack_out.private_datas.len()
                    invariant
                        0 <= j <= context.pack_out.private_datas@.len(),
                        context@ == old(context)@,
                        db_wf(db@),
                        spec_commit_rel(
                            db0,
                            id_user,
                            base_word_address,
                            packets.take(j as int),
                            db@,
                        ),
                        packets == context@.pack_out.private_datas,
                    decreases context.pack_out.private_datas@.len() - j,
                {
                    let ghost pre_db = db@;
                    proof {
                        assert(context@.pack_out.private_datas[j as int] == packets[j as int]);
                    }
                    let word_offset = context.pack_out.private_datas[j].0;
                    let wa32: u32 = base_word_address as u32 + word_offset as u32;
                    if wa32 <= 0xFFFF {
                        let data = crate::text::copy_bytes(&context.pack_out.private_datas[j].1);
                        db.set_vec_u8_to_word_address(id_user, wa32 as u16, data.as_slice());
                    }
                    proof {
                        assert(spec_commit_step(
                            pre_db,
                            id_user,
                            base_word_address,
                            packets[j as int],
                            db@,
                        ));
                        lemma_commit_rel_snoc(
                            db0,
                            id_user,
                            base_word_address,
                            packets.take(j as int),
                            pre_db,
                            packets[j as int],
                            db@,
                        );
                        assert(packets.take(j + 1 as int) =~= packets.take(j as int).push(
                            packets[j as int],
                        ));
                    }
                    j += 1;
                }
                proof {
                    assert(packets.take(packets.len() as int) =~= packets);
                }
            },
            None => {},
        }
        context.pack_out.is_transaction = false;
        context.pack_out.option_nb_total_packets = None;
        context.pack_out.option_last_num_packet = None;
        context.pack_out.private_datas = Vec::new();
        proof {
            assert(final (context)@ =~~= (ContextView {
                pack_out: spec_pack_out_cleared(),
                ..old(context)@
            }));
        }
    }

    /// Supervision-zone reception ignores database change notifications.
    pub fn notification_change(
        &self,
        context: &mut Context,
        db: &mut Database,
        my_id_user: IdUser,
        id_user: IdUser,
        id_tag: IdTag,
        t_value: &TValue,
    )
        ensures
            final (context)@ == old(context)@,
            final (db)@ == old(db)@,
    {
    }
}

} // verus!
