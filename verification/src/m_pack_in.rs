//! Middleware for the PACK_IN conversation: hands the command zone's PACK
//! blocks to the co-processor. The command zone holds eight blocks of 32
//! words; blocks notified by other users are queued, snapshot at transaction
//! start, and emitted one payload item per block. Blocks notified during a
//! transaction wait for the next one.

use vstd::prelude::*;

use crate::context::Context;
use crate::data_frame::DataFrame;
use crate::data_item::DataItem;
use crate::database::Database;
use crate::id_tag::IdTag;
use crate::id_users::IdUser;
use crate::raw_frame::RawFrame;
use crate::t_format::TFormat;
use crate::t_value::TValue;

verus! {

use crate::context::{context_wf, spec_bloc_count, ContextView, PackInView, NB_PACK_BLOCS};
use crate::data_frame::spec_frame_tag;
use crate::data_item::{spec_encode_item, DataItemView};
use crate::database::{db_wf, spec_find_by_id, DatabaseView};
use crate::database_rw::spec_read_bytes;
use crate::id_message::{AF_ALIVE, AF_PACK_IN, D_PACK_PAYLOAD, IC_PACK_IN, TAG_DATA_PACK};
use crate::m_init::spec_bump;
use crate::raw_frame::{frame_wf, RawFrameView};
use crate::t_value::TValueView;

#[derive(Debug, Default)]
pub struct MPackIn {}

/// Key of a PACK block in the command zone.
pub open spec fn spec_pack_block_key(bloc: u8) -> IdTag {
    IdTag { zone: 5, num_tag: TAG_DATA_PACK, indice_0: 0, indice_1: 0, indice_2: bloc }
}

/// The 64 bytes of a PACK block as the database holds them; empty when the
/// block's tag is not registered.
pub open spec fn spec_block_bytes(d: DatabaseView, bloc: u8) -> Seq<u8> {
    match spec_find_by_id(d.tags, spec_pack_block_key(bloc)) {
        Some(t) => spec_read_bytes(d, t.word_address, 64),
        None => Seq::empty(),
    }
}

/// Snapshot of the queued blocks from block `b` up: each queued block's
/// number with its bytes, in ascending block order.
pub open spec fn spec_pack_in_snapshot(d: DatabaseView, set: Seq<bool>, b: int) -> Seq<
    (u8, Seq<u8>),
>
    decreases NB_PACK_BLOCS - b,
{
    if b < 0 || b >= NB_PACK_BLOCS {
        Seq::empty()
    } else {
        let rest = spec_pack_in_snapshot(d, set, b + 1);
        if set[b] {
            seq![(b as u8, spec_block_bytes(d, b as u8))] + rest
        } else {
            rest
        }
    }
}

/// One PACK_IN payload item: block number `num` of `total` in the first byte,
/// the block's word offset in the second, then the block's bytes.
pub open spec fn spec_pack_in_item(bloc: u8, data: Seq<u8>, num: nat, total: nat) -> DataItemView {
    DataItemView {
        tag: D_PACK_PAYLOAD,
        t_format: TFormat::VecU8((2 + data.len()) as usize),
        t_value: TValueView::VecU8(
            (2 + data.len()) as nat,
            seq![(16 * num + total) as u8, (32 * (bloc % 8)) as u8] + data,
        ),
    }
}

/// The payload carrying consecutive block entries, numbered from `num0`.
pub open spec fn spec_pack_in_payload(
    entries: Seq<(u8, Seq<u8>)>,
    total: nat,
    num0: nat,
) -> Seq<u8>
    decreases entries.len(),
{
    if entries.len() == 0 {
        Seq::empty()
    } else {
        spec_encode_item(spec_pack_in_item(entries[0].0, entries[0].1, num0, total))
            + spec_pack_in_payload(entries.skip(1), total, num0 + 1)
    }
}

/// One more entry's item extends the payload at its end.
pub proof fn lemma_pack_in_payload_snoc(
    entries: Seq<(u8, Seq<u8>)>,
    total: nat,
    num0: nat,
    e: (u8, Seq<u8>),
)
    ensures
        spec_pack_in_payload(entries.push(e), total, num0) == spec_pack_in_payload(
            entries,
            total,
            num0,
        ) + spec_encode_item(spec_pack_in_item(e.0, e.1, num0 + entries.len(), total)),
    decreases entries.len(),
{
    if entries.len() == 0 {
        assert(entries.push(e)[0] == e);
        assert(entries.push(e).skip(1) =~= Seq::<(u8, Seq<u8>)>::empty());
        assert(spec_pack_in_payload(Seq::<(u8, Seq<u8>)>::empty(), total, num0 + 1) == Seq::<
            u8,
        >::empty());
        assert(spec_pack_in_payload(entries, total, num0) == Seq::<u8>::empty());
        assert(spec_pack_in_payload(entries, total, num0) + spec_encode_item(
            spec_pack_in_item(e.0, e.1, num0, total),
        ) =~= spec_encode_item(spec_pack_in_item(e.0, e.1, num0, total)));
        assert(spec_encode_item(spec_pack_in_item(e.0, e.1, num0, total)) + Seq::<u8>::empty()
            =~= spec_encode_item(spec_pack_in_item(e.0, e.1, num0, total)));
        assert(spec_pack_in_payload(entries.push(e), total, num0) =~= spec_pack_in_payload(
            entries,
            total,
            num0,
        ) + spec_encode_item(spec_pack_in_item(e.0, e.1, num0 + entries.len(), total)));
    } else {
        assert(entries.push(e)[0] == entries[0]);
        assert(entries.push(e).skip(1) =~= entries.skip(1).push(e));
        lemma_pack_in_payload_snoc(entries.skip(1), total, num0 + 1, e);
        assert((spec_encode_item(spec_pack_in_item(entries[0].0, entries[0].1, num0, total)) + (
        spec_pack_in_payload(entries.skip(1), total, num0 + 1) + spec_encode_item(
            spec_pack_in_item(e.0, e.1, num0 + entries.len(), total),
        ))) =~= ((spec_encode_item(spec_pack_in_item(entries[0].0, entries[0].1, num0, total))
            + spec_pack_in_payload(entries.skip(1), total, num0 + 1)) + spec_encode_item(
            spec_pack_in_item(e.0, e.1, num0 + entries.len(), total),
        )));
        assert(spec_pack_in_payload(entries.push(e), total, num0) =~= spec_pack_in_payload(
            entries,
            total,
            num0,
        ) + spec_encode_item(spec_pack_in_item(e.0, e.1, num0 + entries.len(), total)));
    }
}

/// Whether emission may stop after `k` entries: the snapshot is exhausted,
/// or the next entry's payload item would overflow the frame's largest
/// payload.
pub open spec fn spec_pack_in_stop(entries: Seq<(u8, Seq<u8>)>, total: nat, k: int) -> bool {
    ||| k == entries.len()
    ||| spec_pack_in_payload(entries.take(k), total, (total - entries.len() + 1) as nat).len()
        + spec_encode_item(
        spec_pack_in_item(
            entries[k].0,
            entries[k].1,
            (total - entries.len() + 1 + k) as nat,
            total,
        ),
    ).len() > crate::raw_frame::RAW_FRAME_MAX_LEN as int
}

/// The outcome of one PACK_IN exchange, `k` entries emitted: the reply is a
/// complete PACK_IN message carrying the first `k` snapshot entries in order
/// — and `k` is maximal: emission stops only when the snapshot is exhausted
/// or the next item would overflow the frame — those entries leave the
/// private snapshot, and when the snapshot empties the transaction closes and
/// the deferred blocks take over.
pub open spec fn spec_pack_in_post(
    pre_c: ContextView,
    pre_db: DatabaseView,
    post_c: ContextView,
    frame: RawFrameView,
    k: int,
) -> bool {
    let entries = if pre_c.pack_in.is_transaction {
        pre_c.pack_in.private_datas
    } else {
        spec_pack_in_snapshot(pre_db, pre_c.pack_in.set_blocs, 0)
    };
    let total = spec_bloc_count(pre_c.pack_in.set_blocs);
    &&& 0 <= k <= entries.len()
    &&& frame_wf(frame)
    &&& (frame matches RawFrameView::Complete(t, l, p, x) && t == IC_PACK_IN && (entries.len()
        <= total ==> p == spec_pack_in_payload(
        entries.take(k),
        total,
        (total - entries.len() + 1) as nat,
    )))
    &&& (entries.len() <= total ==> spec_pack_in_stop(entries, total, k))
    &&& (entries.skip(k).len() == 0 ==> post_c == (ContextView {
        nb_pack_in: spec_bump(pre_c.nb_pack_in),
        pack_in: PackInView {
            is_transaction: false,
            set_blocs: pre_c.pack_in.set_pending_blocs,
            private_datas: Seq::<(u8, Seq<u8>)>::empty(),
            set_pending_blocs: Seq::new(NB_PACK_BLOCS as nat, |b: int| false),
        },
        ..pre_c
    }))
    &&& (entries.skip(k).len() > 0 ==> post_c == (ContextView {
        nb_pack_in: spec_bump(pre_c.nb_pack_in),
        pack_in: PackInView {
            is_transaction: true,
            set_blocs: pre_c.pack_in.set_blocs,
            private_datas: entries.skip(k),
            set_pending_blocs: pre_c.pack_in.set_pending_blocs,
        },
        ..pre_c
    }))
}

impl MPackIn {
    /// A new conversation may begin; the transaction state persists.
    pub fn reset_conversation(&self, context: &mut Context)
        ensures
            final (context)@ == old(context)@,
    {
    }

    /// On an ALIVE or PACK_IN request with queued blocks, starts a
    /// transaction if none is under way — snapshotting the queued blocks —
    /// and emits the snapshot entries that fit into one PACK_IN message, in
    /// block order. When the snapshot is exhausted the transaction ends and
    /// the blocks queued meanwhile take their place for the next one.
    pub fn get_conversation(
        &self,
        context: &mut Context,
        db: &mut Database,
        id_user: IdUser,
        request_data_frame: &DataFrame,
    ) -> (r: Option<RawFrame>)
        requires
            context_wf(old(context)@),
            db_wf(old(db)@),
        ensures
            context_wf(final (context)@),
            db_wf(final (db)@),
            final (db)@ == old(db)@,
            spec_frame_tag(request_data_frame@) != AF_ALIVE && spec_frame_tag(request_data_frame@)
                != AF_PACK_IN ==> r is None && final (context)@ == old(context)@,
            !old(context)@.pack_in.is_transaction && spec_bloc_count(old(context)@.pack_in.set_blocs)
                == 0 ==> r is None && final (context)@ == old(context)@,
            (spec_frame_tag(request_data_frame@) == AF_ALIVE || spec_frame_tag(request_data_frame@)
                == AF_PACK_IN) && (old(context)@.pack_in.is_transaction || spec_bloc_count(
                old(context)@.pack_in.set_blocs,
            ) > 0) ==> (r matches Some(f) && exists|k: int|
                #[trigger] spec_pack_in_post(old(context)@, old(db)@, final (context)@, f@, k)),
    {
        let tag = request_data_frame.get_tag();
        if !(tag == AF_ALIVE || tag == AF_PACK_IN) {
            return None;
        }
        if !context.pack_in.is_transaction {
            if context.pack_in.set_blocs.is_empty() {
                proof {
                    lemma_bloc_count_zero(old(context)@.pack_in.set_blocs);
                }
                return None;
            }
            proof {
                lemma_bloc_count_nonzero(old(context)@.pack_in.set_blocs);
            }
            // Start a transaction: snapshot each queued block's bytes.
            context.pack_in.private_datas = Vec::new();
            let mut bloc: u8 = 0;
            proof {
                assert(context@.pack_in.private_datas =~= Seq::<(u8, Seq<u8>)>::empty());
            }
            while bloc < 8
                invariant
                    0 <= bloc <= 8,
                    context_wf(context@),
                    db_wf(db@),
                    context@ == (ContextView {
                        pack_in: PackInView {
                            private_datas: context@.pack_in.private_datas,
                            ..old(context)@.pack_in
                        },
                        ..old(context)@
                    }),
                    context@.pack_in.private_datas + spec_pack_in_snapshot(
                        db@,
                        context@.pack_in.set_blocs,
                        bloc as int,
                    ) == spec_pack_in_snapshot(db@, context@.pack_in.set_blocs, 0),
                    db@ == old(db)@,
                decreases 8 - bloc,
            {
                if context.pack_in.set_blocs.contains(bloc) {
                    let key = IdTag::new(5, TAG_DATA_PACK, [0, 0, bloc]);
                    let vec_u8 = db.get_vec_u8_from_id_tag(id_user, key, 64);
                    let ghost pre = context@.pack_in.private_datas;
                    context.pack_in.private_datas.push((bloc, vec_u8));
                    proof {
                        assert(context@.pack_in.private_datas =~= pre.push(
                            (bloc, spec_block_bytes(db@, bloc)),
                        ));
                        assert(pre.push((bloc, spec_block_bytes(db@, bloc)))
                            + spec_pack_in_snapshot(db@, context@.pack_in.set_blocs, bloc + 1)
                            =~= pre + (seq![(bloc, spec_block_bytes(db@, bloc))]
                            + spec_pack_in_snapshot(db@, context@.pack_in.set_blocs, bloc + 1)));
                    }
                }
                bloc += 1;
            }
            proof {
                assert(spec_pack_in_snapshot(db@, context@.pack_in.set_blocs, 8) =~= Seq::<
                    (u8, Seq<u8>),
                >::empty());
                assert(context@.pack_in.private_datas + Seq::<(u8, Seq<u8>)>::empty()
                    =~= context@.pack_in.private_datas);
            }
            context.pack_in.is_transaction = true;
        }
        if context.nb_pack_in < usize::MAX {
            context.nb_pack_in = context.nb_pack_in + 1;
        }
        let ghost entries = context@.pack_in.private_datas;
        let ghost c1 = context@;
        proof {
            assert(c1 =~~= (ContextView {
                nb_pack_in: spec_bump(old(context)@.nb_pack_in),
                pack_in: PackInView {
                    is_transaction: true,
                    set_blocs: old(context)@.pack_in.set_blocs,
                    private_datas: entries,
                    set_pending_blocs: old(context)@.pack_in.set_pending_blocs,
                },
                ..old(context)@
            }));
        }
        let total_nb_blocs = context.pack_in.set_blocs.count();
        let mut raw_frame = RawFrame::new_message(IC_PACK_IN);
        let ghost mut popped: int = 0;
        proof {
            assert(entries.skip(0) =~= entries);
            assert(entries.take(0) =~= Seq::<(u8, Seq<u8>)>::empty());
        }
        loop
            invariant_except_break
                context_wf(context@),
                0 <= popped <= entries.len(),
                context@ == (ContextView {
                    pack_in: PackInView { private_datas: entries.skip(popped), ..c1.pack_in },
                    ..c1
                }),
                total_nb_blocs == spec_bloc_count(c1.pack_in.set_blocs),
                total_nb_blocs <= NB_PACK_BLOCS,
                frame_wf(raw_frame@),
                raw_frame@ matches RawFrameView::Complete(t, l, p, x) && t == IC_PACK_IN,
                entries.len() <= total_nb_blocs ==> (raw_frame@ matches RawFrameView::Complete(
                    t,
                    l,
                    p,
                    x,
                ) && p == spec_pack_in_payload(
                    entries.take(popped),
                    total_nb_blocs as nat,
                    (total_nb_blocs - entries.len() + 1) as nat,
                )),
            ensures
                context_wf(context@),
                0 <= popped <= entries.len(),
                context@ == (ContextView {
                    pack_in: PackInView { private_datas: entries.skip(popped), ..c1.pack_in },
                    ..c1
                }),
                frame_wf(raw_frame@),
                raw_frame@ matches RawFrameView::Complete(t, l, p, x) && t == IC_PACK_IN && (
                entries.len() <= spec_bloc_count(c1.pack_in.set_blocs) ==> p
                    == spec_pack_in_payload(
                    entries.take(popped),
                    spec_bloc_count(c1.pack_in.set_blocs),
                    (spec_bloc_count(c1.pack_in.set_blocs) - entries.len() + 1) as nat,
                )),
                entries.len() <= spec_bloc_count(c1.pack_in.set_blocs) ==> spec_pack_in_stop(
                    entries,
                    spec_bloc_count(c1.pack_in.set_blocs),
                    popped,
                ),
            decreases entries.len() - popped,
        {
            if context.pack_in.private_datas.len() == 0 {
                proof {
                    assert(entries.skip(popped).len() == 0);
                    assert(popped == entries.len());
                    assert(spec_pack_in_stop(entries, total_nb_blocs as nat, popped));
                }
                break;
            }
            let mut new_raw_frame = raw_frame.clone();
            let bloc = context.pack_in.private_datas[0].0;
            let data = crate::text::copy_bytes(&context.pack_in.private_datas[0].1);
            let remaining = context.pack_in.private_datas.len();
            // 1-based number of this block within the transaction.
            let num_bloc: usize = if remaining <= total_nb_blocs {
                total_nb_blocs - remaining + 1
            } else {
                1
            };
            let mut vec_u8: Vec<u8> = Vec::new();
            vec_u8.push((16 * num_bloc + total_nb_blocs) as u8);
            vec_u8.push(32 * (bloc % 8));
            let ghost header = vec_u8@;
            let mut j: usize = 0;
            while j < data.len()
                invariant
                    0 <= j <= data@.len(),
                    vec_u8@ == header + data@.take(j as int),
                decreases data@.len() - j,
            {
                vec_u8.push(data[j]);
                proof {
                    assert(header + data@.take(j + 1 as int) =~= (header + data@.take(
                        j as int,
                    )).push(data@[j as int]));
                }
                j += 1;
            }
            proof {
                assert(header + data@.take(data@.len() as int) =~= header + data@);
            }
            let width = vec_u8.len();
            let ghost vec_u8_view = vec_u8@;
            let data_item = DataItem::new(
                D_PACK_PAYLOAD,
                TFormat::VecU8(width),
                TValue::VecU8(width, vec_u8),
            );
            proof {
                assert(context@.pack_in.private_datas == entries.skip(popped));
                assert(entries.skip(popped)[0] == entries[popped]);
                assert(context@.pack_in.private_datas[0] == entries[popped]);
                assert(bloc == entries[popped].0);
                assert(data@ == entries[popped].1);
                if entries.len() <= total_nb_blocs {
                    let numn = (total_nb_blocs - entries.len() + 1 + popped) as nat;
                    assert(num_bloc == numn);
                    assert(vec_u8_view =~= seq![
                        (16 * numn + total_nb_blocs) as u8,
                        (32 * (entries[popped].0 % 8)) as u8,
                    ] + entries[popped].1);
                    assert(data_item@ == spec_pack_in_item(
                        entries[popped].0,
                        entries[popped].1,
                        numn,
                        total_nb_blocs as nat,
                    ));
                }
            }
            if new_raw_frame.try_extend_data_item(&data_item).is_err() {
                proof {
                    if entries.len() <= total_nb_blocs {
                        assert(spec_pack_in_payload(
                            entries.take(popped),
                            total_nb_blocs as nat,
                            (total_nb_blocs - entries.len() + 1) as nat,
                        ).len() + spec_encode_item(data_item@).len()
                            > crate::raw_frame::RAW_FRAME_MAX_LEN as int);
                    }
                    assert(entries.len() <= total_nb_blocs ==> spec_pack_in_stop(
                        entries,
                        total_nb_blocs as nat,
                        popped,
                    ));
                }
                break;
            }
            raw_frame = new_raw_frame;
            let ghost q_pre = context@.pack_in.private_datas;
            context.pack_in.private_datas.remove(0);
            proof {
                if entries.len() <= total_nb_blocs {
                    lemma_pack_in_payload_snoc(
                        entries.take(popped),
                        total_nb_blocs as nat,
                        (total_nb_blocs - entries.len() + 1) as nat,
                        entries[popped],
                    );
                    assert(entries.take(popped + 1) =~= entries.take(popped).push(
                        entries[popped],
                    ));
                }
                popped = popped + 1;
                assert(q_pre.remove(0) =~= entries.skip(popped));
                assert(context@ =~~= (ContextView {
                    pack_in: PackInView { private_datas: entries.skip(popped), ..c1.pack_in },
                    ..c1
                }));
            }
        }
        let ghost k_done = popped;
        if context.pack_in.private_datas.len() == 0 {
            // End of the transaction: the blocks queued meanwhile take over.
            context.pack_in.set_blocs = context.pack_in.set_pending_blocs.clone();
            context.pack_in.set_pending_blocs.clear();
            context.pack_in.is_transaction = false;
            proof {
                assert(final (context)@.pack_in.set_pending_blocs =~= Seq::new(
                    NB_PACK_BLOCS as nat,
                    |b: int| false,
                ));
                assert(entries.skip(k_done).len() == 0);
                assert(final (context)@ =~~= (ContextView {
                    nb_pack_in: spec_bump(old(context)@.nb_pack_in),
                    pack_in: PackInView {
                        is_transaction: false,
                        set_blocs: old(context)@.pack_in.set_pending_blocs,
                        private_datas: Seq::<(u8, Seq<u8>)>::empty(),
                        set_pending_blocs: Seq::new(NB_PACK_BLOCS as nat, |b: int| false),
                    },
                    ..old(context)@
                }));
                assert(entries.take(k_done) =~= entries.take(k_done));
            }
        } else {
            proof {
                assert(entries.skip(k_done).len() > 0);
                assert(final (context)@ =~~= (ContextView {
                    nb_pack_in: spec_bump(old(context)@.nb_pack_in),
                    pack_in: PackInView {
                        is_transaction: true,
                        set_blocs: old(context)@.pack_in.set_blocs,
                        private_datas: entries.skip(k_done),
                        set_pending_blocs: old(context)@.pack_in.set_pending_blocs,
                    },
                    ..old(context)@
                }));
                assert(entries.take(k_done) =~= entries.take(k_done));
            }
        }
        proof {
            let entries_outer = if old(context)@.pack_in.is_transaction {
                old(context)@.pack_in.private_datas
            } else {
                spec_pack_in_snapshot(old(db)@, old(context)@.pack_in.set_blocs, 0)
            };
            assert(entries_outer == entries);
            assert(c1.pack_in.set_blocs == old(context)@.pack_in.set_blocs);
            assert(spec_pack_in_post(old(context)@, old(db)@, final (context)@, raw_frame@, k_done));
        }
        Some(raw_frame)
    }

    /// Queues a PACK block another user changed in the command zone: for the
    /// next transaction while one is under way, for the coming one otherwise.
    /// Only the eight real blocks are tracked.
    pub fn notification_change(
        &self,
        context: &mut Context,
        db: &mut Database,
        my_id_user: IdUser,
        id_user: IdUser,
        id_tag: IdTag,
        t_value: &TValue,
    )
        requires
            context_wf(old(context)@),
        ensures
            context_wf(final (context)@),
            final (db)@ == old(db)@,
            ({
                let relevant = id_user != my_id_user && id_tag.zone == 5 && id_tag.num_tag
                    == TAG_DATA_PACK && id_tag.indice_2 < NB_PACK_BLOCS;
                &&& (relevant && old(context)@.pack_in.is_transaction ==> final (context)@
                    == (ContextView {
                    pack_in: PackInView {
                        set_pending_blocs: old(context)@.pack_in.set_pending_blocs.update(
                            id_tag.indice_2 as int,
                            true,
                        ),
                        ..old(context)@.pack_in
                    },
                    ..old(context)@
                }))
                &&& (relevant && !old(context)@.pack_in.is_transaction ==> final (context)@
                    == (ContextView {
                    pack_in: PackInView {
                        set_blocs: old(context)@.pack_in.set_blocs.update(
                            id_tag.indice_2 as int,
                            true,
                        ),
                        ..old(context)@.pack_in
                    },
                    ..old(context)@
                }))
                &&& (!relevant ==> final (context)@ == old(context)@)
            }),
    {
        if id_user != my_id_user && id_tag.zone == 5 && id_tag.num_tag == TAG_DATA_PACK
            && id_tag.indice_2 < 8 {
            if context.pack_in.is_transaction {
                context.pack_in.set_pending_blocs.insert(id_tag.indice_2);
            } else {
                context.pack_in.set_blocs.insert(id_tag.indice_2);
            }
        }
    }
}

/// An all-false block set has count 0; one with a block set has not.
proof fn lemma_bloc_count_zero(s: Seq<bool>)
    requires
        forall|b: int| 0 <= b < s.len() ==> !s[b],
    ensures
        spec_bloc_count(s) == 0,
    decreases s.len(),
{
    if s.len() > 0 {
        lemma_bloc_count_zero(s.drop_last());
    }
}

/// The block count decomposes at the head of the set.
proof fn lemma_bloc_count_skip(s: Seq<bool>)
    requires
        s.len() > 0,
    ensures
        spec_bloc_count(s) == (if s[0] {
            1nat
        } else {
            0nat
        }) + spec_bloc_count(s.skip(1)),
    decreases s.len(),
{
    if s.len() == 1 {
        assert(s.drop_last() =~= Seq::<bool>::empty());
        assert(s.skip(1) =~= Seq::<bool>::empty());
    } else {
        lemma_bloc_count_skip(s.drop_last());
        assert(s.drop_last()[0] == s[0]);
        assert(s.drop_last().skip(1) =~= s.skip(1).drop_last());
        assert(s.skip(1).last() == s.last());
    }
}

/// The snapshot taken from block `b` up holds one entry per queued block at
/// or past `b` — each with the block's bytes — no other entry, and its
/// entries in ascending block order.
proof fn lemma_pack_in_snapshot_from(d: DatabaseView, set: Seq<bool>, b: int)
    requires
        set.len() == NB_PACK_BLOCS,
        0 <= b <= NB_PACK_BLOCS,
    ensures
        ({
            let snap = spec_pack_in_snapshot(d, set, b);
            &&& snap.len() == spec_bloc_count(set.skip(b))
            &&& forall|i: int|
                0 <= i < snap.len() ==> b <= (#[trigger] snap[i]).0 < NB_PACK_BLOCS && set[
                snap[i].0 as int] && snap[i].1 == spec_block_bytes(d, snap[i].0)
            &&& forall|c: int|
                b <= c < NB_PACK_BLOCS && set[c] ==> exists|i: int|
                    0 <= i < snap.len() && #[trigger] snap[i] == (
                    c as u8,
                    spec_block_bytes(d, c as u8),
                    )
            &&& forall|i: int, j: int|
                0 <= i < j < snap.len() ==> (#[trigger] snap[i]).0 < (#[trigger] snap[j]).0
        }),
    decreases NB_PACK_BLOCS - b,
{
    let snap = spec_pack_in_snapshot(d, set, b);
    if b == NB_PACK_BLOCS {
        assert(set.skip(b) =~= Seq::<bool>::empty());
    } else {
        lemma_pack_in_snapshot_from(d, set, b + 1);
        lemma_bloc_count_skip(set.skip(b));
        assert(set.skip(b)[0] == set[b]);
        assert(set.skip(b).skip(1) =~= set.skip(b + 1));
        let rest = spec_pack_in_snapshot(d, set, b + 1);
        if set[b] {
            let head = (b as u8, spec_block_bytes(d, b as u8));
            assert(snap == seq![head] + rest);
            assert(snap[0] == head);
            assert(forall|i: int| 1 <= i < snap.len() ==> snap[i] == rest[i - 1]);
            assert forall|c: int| b <= c < NB_PACK_BLOCS && set[c] implies exists|i: int|
                0 <= i < snap.len() && #[trigger] snap[i] == (
                c as u8,
                spec_block_bytes(d, c as u8),
                ) by {
                if c == b {
                    assert(snap[0] == (c as u8, spec_block_bytes(d, c as u8)));
                } else {
                    let i = choose|i: int|
                        0 <= i < rest.len() && #[trigger] rest[i] == (
                        c as u8,
                        spec_block_bytes(d, c as u8),
                        );
                    assert(snap[i + 1] == (c as u8, spec_block_bytes(d, c as u8)));
                }
            }
        } else {
            assert(snap == rest);
        }
    }
}

/// PACK_IN completeness: the snapshot taken at a transaction's start holds
/// exactly one entry per queued block — each carrying the bytes the database
/// holds for that block at that moment — no entry for any other block, and
/// the entries in ascending block order. The dispatch contract emits those
/// entries in order, a prefix per exchange, and closes the transaction
/// exactly when none is left, so one transaction emits one payload item per
/// queued block; blocks notified meanwhile wait in the pending set until the
/// close.
pub proof fn lemma_pack_in_completeness(d: DatabaseView, set: Seq<bool>)
    requires
        set.len() == NB_PACK_BLOCS,
    ensures
        ({
            let snap = spec_pack_in_snapshot(d, set, 0);
            &&& snap.len() == spec_bloc_count(set)
            &&& forall|i: int|
                0 <= i < snap.len() ==> (#[trigger] snap[i]).0 < NB_PACK_BLOCS && set[
                snap[i].0 as int] && snap[i].1 == spec_block_bytes(d, snap[i].0)
            &&& forall|c: int|
                0 <= c < NB_PACK_BLOCS && set[c] ==> exists|i: int|
                    0 <= i < snap.len() && #[trigger] snap[i] == (
                    c as u8,
                    spec_block_bytes(d, c as u8),
                    )
            &&& forall|i: int, j: int|
                0 <= i < j < snap.len() ==> (#[trigger] snap[i]).0 < (#[trigger] snap[j]).0
        }),
{
    lemma_pack_in_snapshot_from(d, set, 0);
    assert(set.skip(0) =~= set);
}

/// Across consecutive exchanges of one transaction, the emitted entries are
/// growing prefixes of the snapshot: an exchange that hands out the first
/// `k1` entries leaves the rest, and a following exchange handing out `k2`
/// of the rest brings the total handed out to the snapshot's first
/// `k1 + k2` entries, in order — no entry repeated, none passed over.
pub proof fn lemma_pack_in_emission_chain(entries: Seq<(u8, Seq<u8>)>, k1: int, k2: int)
    requires
        0 <= k1 <= entries.len(),
        0 <= k2 <= entries.len() - k1,
    ensures
        entries.take(k1) + entries.skip(k1).take(k2) == entries.take(k1 + k2),
{
    assert(entries.take(k1) + entries.skip(k1).take(k2) =~= entries.take(k1 + k2));
}

proof fn lemma_bloc_count_nonzero(s: Seq<bool>)
    requires
        exists|b: int| 0 <= b < s.len() && s[b],
    ensures
        spec_bloc_count(s) > 0,
    decreases s.len(),
{
    let b = choose|b: int| 0 <= b < s.len() && s[b];
    if b == s.len() - 1 {
    } else {
        assert(0 <= b < s.drop_last().len() && s.drop_last()[b]);
        lemma_bloc_count_nonzero(s.drop_last());
    }
}

} // verus!
