//! Dispatcher of the conversations: parses each received frame, routes it to
//! the middleware owning the current conversation or searches a new owner,
//! and broadcasts database changes to every middleware.

use vstd::prelude::*;

use crate::context::Context;
use crate::data_frame::DataFrame;
use crate::database::Database;
use crate::id_tag::IdTag;
use crate::id_users::IdUser;
use crate::m_data_in::MDataIn;
use crate::m_data_out::MDataOut;
use crate::m_data_out_table_index::MDataOutTableIndex;
use crate::m_init::MInit;
use crate::m_menu::MMenu;
use crate::m_pack_in::MPackIn;
use crate::m_pack_out::MPackOut;
use crate::raw_frame::RawFrame;
use crate::t_value::TValue;

verus! {

use crate::context::{context_wf, ContextView, PackInView, NB_PACK_BLOCS};
use crate::data_frame::{spec_data_frame_of, spec_frame_tag, DataFrameView};
use crate::database::{db_wf, spec_find_by_id, DatabaseView};
use crate::database_rw::spec_read_t_value;
use crate::id_users::{spec_next_match, NotificationChange, UserView};
use crate::context::spec_bloc_count;
use crate::id_message::{
    AF_ALIVE,
    AF_DATA_IN,
    AF_DATA_OUT,
    AF_DATA_OUT_TABLE_INDEX,
    AF_INIT,
    AF_MENU,
    AF_PACK_IN,
    AF_PACK_OUT,
    IC_INIT,
    TAG_DATA_PACK,
};
use crate::data_frame::spec_frame_items;
use crate::id_message::{IC_DATA_IN, IC_DATA_OUT_TABLE_INDEX};
use crate::m_data_in::{spec_data_in_payload, spec_data_in_stop};
use crate::m_data_out::spec_data_out_rel;
use crate::m_data_out_table_index::{spec_first_zone, spec_table_index_reply};
use crate::m_init::{spec_bump, spec_init_reply, spec_minit_rel};
use crate::m_pack_in::spec_pack_in_post;
use crate::m_pack_out::{
    spec_commit_rel,
    spec_pack_out_cleared,
    spec_pack_out_fresh,
    spec_pack_out_key,
    spec_pack_out_scan,
};
use crate::raw_frame::{frame_wf, RawFrameView};
use crate::records::RecordDataView;
use crate::utils::spec_collect_records;

/// Count of routable middlewares, tried in a fixed order.
pub const NB_MIDDLEWARES: usize = 6;

/// The dispatcher: the shared conversation context, the index of the
/// middleware owning the current conversation, and the user identifier the
/// serial task writes the database under.
#[derive(Debug)]
pub struct Middlewares {
    /// Shared state of all middlewares.
    context: Context,
    /// Index of the middleware owning the current conversation, in the fixed
    /// order PACK_OUT, PACK_IN, DATA_OUT, DATA_IN, DATA_OUT_TABLE_INDEX,
    /// MENU.
    option_cur_middleware: Option<usize>,
    /// User identifier of the serial task.
    id_user: IdUser,
}

/// Mathematical model of the dispatcher.
#[verifier::ext_equal]
pub struct MiddlewaresView {
    pub context: ContextView,
    pub option_cur_middleware: Option<usize>,
    pub id_user: IdUser,
}

impl View for Middlewares {
    type V = MiddlewaresView;

    closed spec fn view(&self) -> MiddlewaresView {
        MiddlewaresView {
            context: self.context@,
            option_cur_middleware: self.option_cur_middleware,
            id_user: self.id_user,
        }
    }
}

/// Whether the middleware of an index claims a frame with this tag under
/// this context, in the fixed order PACK_OUT, PACK_IN, DATA_OUT, DATA_IN,
/// DATA_OUT_TABLE_INDEX, MENU. The PACK_IN middleware claims a keep-alive
/// only with a transaction under way or blocks queued; the DATA_IN middleware
/// only with changes queued.
pub open spec fn spec_claims(index: int, tag: u8, c: ContextView) -> bool {
    if index == 0 {
        tag == AF_PACK_OUT
    } else if index == 1 {
        (tag == AF_ALIVE || tag == AF_PACK_IN) && (c.pack_in.is_transaction || spec_bloc_count(
            c.pack_in.set_blocs,
        ) > 0)
    } else if index == 2 {
        tag == AF_DATA_OUT
    } else if index == 3 {
        (tag == AF_ALIVE || tag == AF_DATA_IN) && c.notification_changes.len() > 0
    } else if index == 4 {
        tag == AF_DATA_OUT_TABLE_INDEX
    } else if index == 5 {
        tag == AF_MENU
    } else {
        false
    }
}

/// The first middleware from index `i` on that claims the frame.
pub open spec fn spec_first_claimant_from(tag: u8, c: ContextView, i: int) -> Option<usize>
    decreases NB_MIDDLEWARES - i,
{
    if i < 0 || i >= NB_MIDDLEWARES {
        None
    } else if spec_claims(i, tag, c) {
        Some(i as usize)
    } else {
        spec_first_claimant_from(tag, c, i + 1)
    }
}

/// The first middleware, in the fixed order, that claims the frame.
pub open spec fn spec_first_claimant(tag: u8, c: ContextView) -> Option<usize> {
    spec_first_claimant_from(tag, c, 0)
}

/// Whether the middleware owning the current conversation claims the frame.
pub open spec fn spec_owner_claims(cur: Option<usize>, tag: u8, c: ContextView) -> bool {
    match cur {
        Some(j) => j < NB_MIDDLEWARES && spec_claims(j as int, tag, c),
        None => false,
    }
}

/// What the claiming middleware's answer means, per index: the reply to the
/// parsed request `df` and the effects on context and database, as each
/// middleware's own contract states them, read on the state the dispatcher
/// handed the middleware. `my` is the user the dispatcher writes under.
pub open spec fn spec_dispatch_step(
    index: int,
    my: IdUser,
    df: DataFrameView,
    pre_c: ContextView,
    pre_db: DatabaseView,
    post_c: ContextView,
    post_db: DatabaseView,
    reply: RawFrameView,
) -> bool {
    if index == 0 {
        // PACK_OUT: stage the request's packets; the packet closing the
        // transaction commits the staged packets at the PACK_OUT tag's
        // address; always acknowledged.
        let p0 = if pre_c.pack_out.is_transaction {
            pre_c.pack_out
        } else {
            spec_pack_out_fresh()
        };
        let scan = spec_pack_out_scan(p0, false, spec_frame_items(df));
        &&& reply == RawFrameView::Ack
        &&& (!scan.1 ==> post_db == pre_db && post_c == (ContextView {
            nb_pack_out: spec_bump(pre_c.nb_pack_out),
            pack_out: scan.0,
            ..pre_c
        }))
        &&& (scan.1 ==> post_c == (ContextView {
            nb_pack_out: spec_bump(pre_c.nb_pack_out),
            pack_out: spec_pack_out_cleared(),
            ..pre_c
        }) && (match spec_find_by_id(pre_db.tags, spec_pack_out_key()) {
            Some(t) => spec_commit_rel(pre_db, my, t.word_address, scan.0.private_datas, post_db),
            None => post_db == pre_db,
        }))
    } else if index == 1 {
        // PACK_IN: one exchange of the block transaction.
        &&& post_db == pre_db
        &&& exists|k: int| spec_pack_in_post(pre_c, pre_db, post_c, reply, k)
    } else if index == 2 {
        // DATA_OUT: play the request's items on the fresh carriers; always
        // acknowledged.
        &&& reply == RawFrameView::Ack
        &&& spec_data_out_rel(
            ContextView {
                nb_data_out: spec_bump(pre_c.nb_data_out),
                option_vec_u8_tag: None,
                option_t_value: None,
                ..pre_c
            },
            pre_db,
            my,
            spec_frame_items(df),
            post_c,
            post_db,
        )
    } else if index == 3 {
        // DATA_IN: deliver a maximal prefix of the queued changes.
        &&& post_db == pre_db
        &&& frame_wf(reply)
        &&& (reply matches RawFrameView::Complete(t, l, p, x) && t == IC_DATA_IN)
        &&& exists|k: int|
            0 <= k <= pre_c.notification_changes.len() && post_c == (ContextView {
                nb_data_in: spec_bump(pre_c.nb_data_in),
                notification_changes: #[trigger] pre_c.notification_changes.skip(k),
                ..pre_c
            }) && (reply matches RawFrameView::Complete(t, l, p, x) && p == spec_data_in_payload(
                pre_c.notification_changes.take(k),
                0xFF,
            ).0) && spec_data_in_stop(pre_c.notification_changes, k)
    } else if index == 4 {
        // DATA_OUT_TABLE_INDEX: report the recorded index range of the
        // request's first zone; refused without one.
        &&& post_c == pre_c
        &&& post_db == pre_db
        &&& match spec_first_zone(spec_frame_items(df)) {
            None => reply == RawFrameView::Nack,
            Some(zone) => frame_wf(reply) && (reply matches RawFrameView::Complete(t, l, p, x) && t
                == IC_DATA_OUT_TABLE_INDEX && p == spec_table_index_reply(pre_c, zone)),
        }
    } else if index == 5 {
        // MENU: claimed and refused.
        &&& post_c == pre_c
        &&& post_db == pre_db
        &&& reply == RawFrameView::Nack
    } else {
        false
    }
}

/// The context after one database change is broadcast to every middleware:
/// the DATA_IN middleware queues it unless it belongs to the PACK machinery,
/// and the PACK_IN middleware queues its block when it names one; everything
/// else stays.
pub open spec fn spec_notify_ctx(
    c: ContextView,
    my: IdUser,
    id_user: IdUser,
    id_tag: IdTag,
    v: crate::t_value::TValueView,
) -> ContextView {
    let queued = id_user != my && id_tag.num_tag != TAG_DATA_PACK;
    let pack_relevant = id_user != my && id_tag.zone == 5 && id_tag.num_tag == TAG_DATA_PACK
        && id_tag.indice_2 < NB_PACK_BLOCS;
    ContextView {
        notification_changes: if queued {
            c.notification_changes.push((id_tag, v))
        } else {
            c.notification_changes
        },
        pack_in: if pack_relevant {
            if c.pack_in.is_transaction {
                PackInView {
                    set_pending_blocs: c.pack_in.set_pending_blocs.update(
                        id_tag.indice_2 as int,
                        true,
                    ),
                    ..c.pack_in
                }
            } else {
                PackInView {
                    set_blocs: c.pack_in.set_blocs.update(id_tag.indice_2 as int, true),
                    ..c.pack_in
                }
            }
        } else {
            c.pack_in
        },
        ..c
    }
}

/// The context after every middleware resets its conversation: the data-out
/// carriers clear and a pending record closes; everything else stays.
pub open spec fn spec_reset_all(c: ContextView) -> ContextView {
    ContextView {
        option_vec_u8_tag: None,
        option_t_value: None,
        records: spec_collect_records(c.records, c.record_datas),
        record_datas: Seq::<RecordDataView>::empty(),
        ..c
    }
}

/// The changes a drain pass hands to the middlewares: the log entries at or
/// after `cursor` that pass the drain's filters (not the drain user's own
/// changes, anonymous ones included), in log order.
pub open spec fn spec_drained(
    changes: Seq<NotificationChange>,
    cursor: nat,
    my: IdUser,
) -> Seq<NotificationChange>
    decreases changes.len() - cursor,
{
    match spec_next_match(changes, cursor, my, false, true) {
        Some(i) => if cursor <= i < changes.len() {
            seq![changes[i as int]] + spec_drained(changes, i + 1, my)
        } else {
            Seq::<NotificationChange>::empty()
        },
        None => Seq::<NotificationChange>::empty(),
    }
}

/// One drained change's effect on the context: when its tag is registered,
/// the change is broadcast with the tag's current typed value; an
/// unregistered tag is skipped.
pub open spec fn spec_drain_step(
    c: ContextView,
    d: DatabaseView,
    my: IdUser,
    nc: NotificationChange,
) -> ContextView {
    match spec_find_by_id(d.tags, nc.id_tag) {
        Some(t) => spec_notify_ctx(
            c,
            my,
            nc.id_user,
            nc.id_tag,
            spec_read_t_value(d, t.t_format, t.word_address),
        ),
        None => c,
    }
}

/// The context after a run of drained changes is broadcast, in order.
pub open spec fn spec_drain_ctx(
    c: ContextView,
    d: DatabaseView,
    my: IdUser,
    ncs: Seq<NotificationChange>,
) -> ContextView
    decreases ncs.len(),
{
    if ncs.len() == 0 {
        c
    } else {
        spec_drain_ctx(spec_drain_step(c, d, my, ncs[0]), d, my, ncs.skip(1))
    }
}

/// One more drained change extends the broadcast chain at its end.
pub proof fn lemma_drain_ctx_snoc(
    c: ContextView,
    d: DatabaseView,
    my: IdUser,
    ncs: Seq<NotificationChange>,
    nc: NotificationChange,
)
    ensures
        spec_drain_ctx(c, d, my, ncs.push(nc)) == spec_drain_step(
            spec_drain_ctx(c, d, my, ncs),
            d,
            my,
            nc,
        ),
    decreases ncs.len(),
{
    if ncs.len() == 0 {
        assert(ncs.push(nc)[0] == nc);
        assert(ncs.push(nc).skip(1) =~= Seq::<NotificationChange>::empty());
        assert(spec_drain_ctx(spec_drain_step(c, d, my, nc), d, my, Seq::<
            NotificationChange,
        >::empty()) == spec_drain_step(c, d, my, nc));
        assert(spec_drain_ctx(c, d, my, ncs) == c);
    } else {
        assert(ncs.push(nc)[0] == ncs[0]);
        assert(ncs.push(nc).skip(1) =~= ncs.skip(1).push(nc));
        lemma_drain_ctx_snoc(spec_drain_step(c, d, my, ncs[0]), d, my, ncs.skip(1), nc);
    }
}

impl Middlewares {
    /// A fresh dispatcher for the given serial-task user: a fresh context and
    /// no conversation under way.
    pub fn new(id_user: IdUser) -> (r: Middlewares)
        ensures
            context_wf(r@.context),
            r@.option_cur_middleware is None,
            r@.id_user == id_user,
            r@.context.notification_changes == Seq::<(IdTag, crate::t_value::TValueView)>::empty(),
            !r@.context.pack_in.is_transaction,
            !r@.context.pack_out.is_transaction,
    {
        Middlewares { context: Context::new(), option_cur_middleware: None, id_user }
    }

    /// Announces a new conversation to every middleware.
    fn reset_conversation_all_middlewares(&mut self)
        requires
            context_wf(old(self)@.context),
        ensures
            context_wf(final (self)@.context),
            final (self)@.context == spec_reset_all(old(self)@.context),
            final (self)@.option_cur_middleware == old(self)@.option_cur_middleware,
            final (self)@.id_user == old(self)@.id_user,
    {
        let m_pack_out = MPackOut {  };
        m_pack_out.reset_conversation(&mut self.context);
        let m_pack_in = MPackIn {  };
        m_pack_in.reset_conversation(&mut self.context);
        let m_data_out = MDataOut {  };
        m_data_out.reset_conversation(&mut self.context);
        let m_data_in = MDataIn {  };
        m_data_in.reset_conversation(&mut self.context);
        let m_toi = MDataOutTableIndex {  };
        m_toi.reset_conversation(&mut self.context);
        let m_menu = MMenu {  };
        m_menu.reset_conversation(&mut self.context);
    }

    /// Routes a request to the middleware of the given index. The middleware
    /// answers exactly when it claims the frame, and a declining middleware
    /// changes nothing.
    fn get_conversation_at(
        &mut self,
        index: usize,
        db: &mut Database,
        request_data_frame: &DataFrame,
    ) -> (r: Option<RawFrame>)
        requires
            context_wf(old(self)@.context),
            db_wf(old(db)@),
            index < NB_MIDDLEWARES,
        ensures
            context_wf(final (self)@.context),
            db_wf(final (db)@),
            final (self)@.option_cur_middleware == old(self)@.option_cur_middleware,
            final (self)@.id_user == old(self)@.id_user,
            r is Some <==> spec_claims(
                index as int,
                spec_frame_tag(request_data_frame@),
                old(self)@.context,
            ),
            r is None ==> final (self)@ == old(self)@ && final (db)@ == old(db)@,
            r matches Some(f) ==> spec_dispatch_step(
                index as int,
                old(self)@.id_user,
                request_data_frame@,
                old(self)@.context,
                old(db)@,
                final (self)@.context,
                final (db)@,
                f@,
            ),
    {
        let id_user = self.id_user;
        if index == 0 {
            let m = MPackOut {  };
            m.get_conversation(&mut self.context, db, id_user, request_data_frame)
        } else if index == 1 {
            let m = MPackIn {  };
            m.get_conversation(&mut self.context, db, id_user, request_data_frame)
        } else if index == 2 {
            let m = MDataOut {  };
            m.get_conversation(&mut self.context, db, id_user, request_data_frame)
        } else if index == 3 {
            let m = MDataIn {  };
            m.get_conversation(&mut self.context, db, id_user, request_data_frame)
        } else if index == 4 {
            let m = MDataOutTableIndex {  };
            m.get_conversation(&mut self.context, db, id_user, request_data_frame)
        } else {
            let m = MMenu {  };
            m.get_conversation(&mut self.context, db, id_user, request_data_frame)
        }
    }

    /// Handles one received frame and returns the reply to send back.
    ///
    /// A frame that does not parse gets an empty reply. An INIT request
    /// resets every conversation and is answered by the INIT middleware, with
    /// its database writes. Any other frame goes to the middleware owning the
    /// current conversation; if none owns one, or the owner declines, every
    /// middleware is reset and the first middleware claiming the frame — in
    /// the fixed order — supplies the reply and owns the conversation; either
    /// way the reply and the effects on context and database are the claiming
    /// middleware's own, as `spec_dispatch_step` states them. An unclaimed
    /// ALIVE request is acknowledged, anything else unclaimed is refused.
    pub fn handle_request_raw_frame(&mut self, db: &mut Database, request_raw_frame: RawFrame) -> (r:
        RawFrame)
        requires
            context_wf(old(self)@.context),
            db_wf(old(db)@),
        ensures
            context_wf(final (self)@.context),
            db_wf(final (db)@),
            final (self)@.id_user == old(self)@.id_user,
            spec_data_frame_of(request_raw_frame@) is Err ==> r@ == RawFrameView::Empty && final (
            self)@ == old(self)@ && final (db)@ == old(db)@,
            (spec_data_frame_of(request_raw_frame@) matches Ok(df) && spec_frame_tag(df) == AF_INIT)
                ==> {
                &&& frame_wf(r@)
                &&& (r@ matches RawFrameView::Complete(t, l, p, x) && t == IC_INIT && p
                    == spec_init_reply())
                &&& ({
                    let df = spec_data_frame_of(request_raw_frame@)->Ok_0;
                    spec_minit_rel(
                        old(db)@,
                        old(self)@.id_user,
                        crate::data_frame::spec_frame_items(df),
                        final (db)@,
                    )
                })
                &&& final (self)@.context == (ContextView {
                    nb_init: spec_bump(spec_reset_all(old(self)@.context).nb_init),
                    ..spec_reset_all(old(self)@.context)
                })
                &&& final (self)@.option_cur_middleware is None
            },
            (spec_data_frame_of(request_raw_frame@) matches Ok(df) && spec_frame_tag(df)
                != AF_INIT) ==> {
                let tag = spec_frame_tag(spec_data_frame_of(request_raw_frame@)->Ok_0);
                let c = old(self)@.context;
                let owner_claims = spec_owner_claims(old(self)@.option_cur_middleware, tag, c);
                &&& (owner_claims ==> final (self)@.option_cur_middleware == old(
                    self,
                )@.option_cur_middleware)
                &&& (!owner_claims ==> final (self)@.option_cur_middleware == spec_first_claimant(
                    tag,
                    c,
                ))
                &&& (owner_claims ==> spec_dispatch_step(
                    old(self)@.option_cur_middleware->Some_0 as int,
                    old(self)@.id_user,
                    spec_data_frame_of(request_raw_frame@)->Ok_0,
                    c,
                    old(db)@,
                    final (self)@.context,
                    final (db)@,
                    r@,
                ))
                &&& (!owner_claims && spec_first_claimant(tag, c) is Some
                    ==> spec_dispatch_step(
                    spec_first_claimant(tag, c)->Some_0 as int,
                    old(self)@.id_user,
                    spec_data_frame_of(request_raw_frame@)->Ok_0,
                    spec_reset_all(c),
                    old(db)@,
                    final (self)@.context,
                    final (db)@,
                    r@,
                ))
                &&& (!owner_claims && spec_first_claimant(tag, c) is None ==> {
                    &&& final (self)@.context == spec_reset_all(c)
                    &&& final (db)@ == old(db)@
                    &&& (tag == AF_ALIVE ==> r@ == RawFrameView::Ack)
                    &&& (tag != AF_ALIVE ==> r@ == RawFrameView::Nack)
                })
            },
    {
        let request_data_frame = match DataFrame::try_from_raw_frame(request_raw_frame) {
            Ok(df) => df,
            Err(_) => {
                // A frame that does not parse gets no reply.
                return RawFrame::Empty;
            },
        };
        if request_data_frame.get_tag() == AF_INIT {
            // The co-processor restarts the exchanges: every conversation
            // ends and the INIT middleware answers.
            self.reset_conversation_all_middlewares();
            self.option_cur_middleware = None;
            let id_user = self.id_user;
            let middleware = MInit {  };
            let reply = middleware.get_conversation(
                &mut self.context,
                db,
                id_user,
                &request_data_frame,
            );
            return match reply {
                Some(response_raw_frame) => response_raw_frame,
                None => vstd::pervasive::unreached(),
            };
        }
        let ghost tag0 = spec_frame_tag(request_data_frame@);
        let ghost c_start = self@.context;
        // A conversation under way has the first claim.
        let cur = self.option_cur_middleware;
        match cur {
            Some(id_middleware) => {
                if id_middleware < NB_MIDDLEWARES {
                    match self.get_conversation_at(id_middleware, db, &request_data_frame) {
                        Some(response_raw_frame) => {
                            proof {
                                assert(spec_owner_claims(
                                    old(self)@.option_cur_middleware,
                                    tag0,
                                    c_start,
                                ));
                            }
                            return response_raw_frame;
                        },
                        None => {
                            // The owner no longer wants this conversation.
                            self.option_cur_middleware = None;
                        },
                    }
                } else {
                    self.option_cur_middleware = None;
                }
            },
            None => {},
        }
        proof {
            assert(!spec_owner_claims(old(self)@.option_cur_middleware, tag0, c_start));
            assert(self@.context == c_start);
            assert(self@.option_cur_middleware is None);
        }
        // A new conversation may begin: the first middleware claiming the
        // frame owns it.
        self.reset_conversation_all_middlewares();
        let mut id_middleware: usize = 0;
        while id_middleware < NB_MIDDLEWARES
            invariant
                context_wf(self@.context),
                db_wf(db@),
                id_middleware <= NB_MIDDLEWARES,
                self@.id_user == old(self)@.id_user,
                spec_data_frame_of(request_raw_frame@) == Ok::<
                    DataFrameView,
                    crate::raw_frame::FrameError,
                >(request_data_frame@),
                spec_frame_tag(request_data_frame@) != AF_INIT,
                tag0 == spec_frame_tag(request_data_frame@),
                c_start == old(self)@.context,
                !spec_owner_claims(old(self)@.option_cur_middleware, tag0, c_start),
                self@.context == spec_reset_all(c_start),
                self@.option_cur_middleware is None,
                db@ == old(db)@,
                spec_first_claimant(tag0, c_start) == spec_first_claimant_from(
                    tag0,
                    c_start,
                    id_middleware as int,
                ),
            decreases NB_MIDDLEWARES - id_middleware,
        {
            proof {
                assert(spec_data_frame_of(request_raw_frame@) is Ok);
                // A reset clears only the conversation carriers, so a claim
                // reads the same before and after it.
                assert(spec_claims(id_middleware as int, tag0, spec_reset_all(c_start))
                    == spec_claims(id_middleware as int, tag0, c_start));
            }
            match self.get_conversation_at(id_middleware, db, &request_data_frame) {
                Some(response_raw_frame) => {
                    self.option_cur_middleware = Some(id_middleware);
                    proof {
                        assert(spec_first_claimant(tag0, c_start) == Some(id_middleware));
                    }
                    return response_raw_frame;
                },
                None => {},
            }
            id_middleware += 1;
        }
        proof {
            assert(spec_first_claimant(tag0, c_start) is None);
        }
        // Nobody claimed the frame.
        if request_data_frame.get_tag() == AF_ALIVE {
            RawFrame::new_ack()
        } else {
            RawFrame::new_nack()
        }
    }

    /// Broadcasts one database change to every middleware: the DATA_IN
    /// middleware queues it (unless it belongs to the PACK machinery) and the
    /// PACK_IN middleware queues its block when it is one.
    pub fn notification_change(
        &mut self,
        db: &mut Database,
        id_user: IdUser,
        id_tag: IdTag,
        t_value: &TValue,
    )
        requires
            context_wf(old(self)@.context),
            db_wf(old(db)@),
        ensures
            context_wf(final (self)@.context),
            db_wf(final (db)@),
            final (db)@ == old(db)@,
            final (self)@.option_cur_middleware == old(self)@.option_cur_middleware,
            final (self)@.id_user == old(self)@.id_user,
            final (self)@.context == spec_notify_ctx(
                old(self)@.context,
                old(self)@.id_user,
                id_user,
                id_tag,
                t_value@,
            ),
    {
        let my_id_user = self.id_user;
        let m_pack_out = MPackOut {  };
        m_pack_out.notification_change(&mut self.context, db, my_id_user, id_user, id_tag, t_value);
        let m_pack_in = MPackIn {  };
        m_pack_in.notification_change(&mut self.context, db, my_id_user, id_user, id_tag, t_value);
        let m_data_out = MDataOut {  };
        m_data_out.notification_change(&mut self.context, db, my_id_user, id_user, id_tag, t_value);
        let m_data_in = MDataIn {  };
        m_data_in.notification_change(&mut self.context, db, my_id_user, id_user, id_tag, t_value);
        let m_toi = MDataOutTableIndex {  };
        m_toi.notification_change(&mut self.context, db, my_id_user, id_user, id_tag, t_value);
        let m_menu = MMenu {  };
        m_menu.notification_change(&mut self.context, db, my_id_user, id_user, id_tag, t_value);
        proof {
            assert(final (self)@.context =~~= (ContextView {
                notification_changes: final (self)@.context.notification_changes,
                pack_in: final (self)@.context.pack_in,
                ..old(self)@.context
            }));
        }
    }
}

/// Drains every pending change of the dispatcher's user from the database and
/// broadcasts each to the middlewares, with the changed tag's current value.
/// On return the drain user has no pending admitted change left: their cursor
/// stands at the log's end, and the context saw exactly the drained changes,
/// in log order. A drain under an unknown or unsubscribed user changes
/// nothing.
pub fn check_notification_changes(db: &mut Database, middlewares: &mut Middlewares)
    requires
        context_wf(old(middlewares)@.context),
        db_wf(old(db)@),
    ensures
        context_wf(final (middlewares)@.context),
        db_wf(final (db)@),
        final (db)@.bytes == old(db)@.bytes,
        final (db)@.tags == old(db)@.tags,
        final (db)@.ledger.changes == old(db)@.ledger.changes,
        final (db)@.ledger.last_millis == old(db)@.ledger.last_millis,
        final (middlewares)@.id_user == old(middlewares)@.id_user,
        final (middlewares)@.option_cur_middleware == old(middlewares)@.option_cur_middleware,
        ({
            let my = old(middlewares)@.id_user;
            let l = old(db)@.ledger;
            &&& (my >= l.users.len() || !l.users[my as int].use_notification ==> final (db)@ == old(
                db,
            )@ && final (middlewares)@ == old(middlewares)@)
            &&& (my < l.users.len() && l.users[my as int].use_notification ==> final (
            db)@.ledger.users == l.users.update(
                my as int,
                UserView {
                    name: l.users[my as int].name,
                    use_notification: true,
                    next_notification_index: l.changes.len(),
                },
            ) && final (middlewares)@.context == spec_drain_ctx(
                old(middlewares)@.context,
                old(db)@,
                my,
                spec_drained(l.changes, l.users[my as int].next_notification_index, my),
            ))
        }),
{
    let id_user = middlewares.id_user();
    let ghost my = old(middlewares)@.id_user;
    let ghost c0 = old(middlewares)@.context;
    let ghost l0 = old(db)@.ledger;
    let ghost subscribed = my < l0.users.len() && l0.users[my as int].use_notification;
    let ghost cursor0 = if subscribed {
        l0.users[my as int].next_notification_index
    } else {
        0
    };
    let ghost drained0 = spec_drained(l0.changes, cursor0, my);
    let ghost mut processed: Seq<NotificationChange> = Seq::empty();
    proof {
        if subscribed {
            assert(l0.users.update(
                my as int,
                UserView {
                    name: l0.users[my as int].name,
                    use_notification: true,
                    next_notification_index: cursor0,
                },
            ) =~= l0.users);
        }
        assert(processed + drained0 =~= drained0);
    }
    loop
        invariant_except_break
            context_wf(middlewares@.context),
            db_wf(db@),
            db@.bytes == old(db)@.bytes,
            db@.tags == old(db)@.tags,
            db@.ledger.changes == l0.changes,
            db@.ledger.last_millis == l0.last_millis,
            middlewares@.id_user == my,
            middlewares@.option_cur_middleware == old(middlewares)@.option_cur_middleware,
            id_user == my,
            l0 == old(db)@.ledger,
            c0 == old(middlewares)@.context,
            subscribed == (my < l0.users.len() && l0.users[my as int].use_notification),
            cursor0 == (if subscribed {
                l0.users[my as int].next_notification_index
            } else {
                0
            }),
            drained0 == spec_drained(l0.changes, cursor0, my),
            !subscribed ==> db@ == old(db)@ && middlewares@ == old(middlewares)@,
            subscribed ==> {
                let cur = db@.ledger.users[my as int].next_notification_index;
                &&& my < db@.ledger.users.len()
                &&& cursor0 <= cur <= l0.changes.len()
                &&& db@.ledger.users == l0.users.update(
                    my as int,
                    UserView {
                        name: l0.users[my as int].name,
                        use_notification: true,
                        next_notification_index: cur,
                    },
                )
                &&& drained0 == processed + spec_drained(l0.changes, cur, my)
                &&& middlewares@.context == spec_drain_ctx(c0, old(db)@, my, processed)
            },
        ensures
            context_wf(middlewares@.context),
            db_wf(db@),
            db@.bytes == old(db)@.bytes,
            db@.tags == old(db)@.tags,
            db@.ledger.changes == l0.changes,
            db@.ledger.last_millis == l0.last_millis,
            middlewares@.id_user == my,
            middlewares@.option_cur_middleware == old(middlewares)@.option_cur_middleware,
            !subscribed ==> db@ == old(db)@ && middlewares@ == old(middlewares)@,
            subscribed ==> db@.ledger.users == l0.users.update(
                my as int,
                UserView {
                    name: l0.users[my as int].name,
                    use_notification: true,
                    next_notification_index: l0.changes.len(),
                },
            ) && middlewares@.context == spec_drain_ctx(c0, old(db)@, my, drained0),
        decreases (if my < db@.ledger.users.len() {
            db@.ledger.changes.len() - db@.ledger.users[my as int].next_notification_index
        } else {
            0
        }),
    {
        let ghost pre = db@;
        let ghost cur_pre: nat = if subscribed {
            pre.ledger.users[my as int].next_notification_index
        } else {
            0
        };
        let notification_change = match db.get_change(id_user, false, true) {
            Some(nc) => nc,
            None => {
                proof {
                    if subscribed {
                        // The search found nothing: the drain ran dry and the
                        // cursor stands at the log's end.
                        assert(spec_next_match(l0.changes, cur_pre, my, false, true) is None);
                        assert(spec_drained(l0.changes, cur_pre, my) =~= Seq::<
                            NotificationChange,
                        >::empty());
                        assert(processed + Seq::<NotificationChange>::empty() =~= processed);
                        assert(drained0 == processed);
                        assert(db@.ledger.users =~= l0.users.update(
                            my as int,
                            UserView {
                                name: l0.users[my as int].name,
                                use_notification: true,
                                next_notification_index: l0.changes.len(),
                            },
                        ));
                    } else {
                        assert(db@ == old(db)@);
                    }
                }
                break;
            },
        };
        proof {
            // A change came back, so the drain user is known and subscribed.
            assert(subscribed);
            crate::id_users::lemma_next_match_props(l0.changes, cur_pre, my, false, true);
            let i = spec_next_match(l0.changes, cur_pre, my, false, true)->Some_0;
            assert(notification_change == l0.changes[i as int]);
            assert(spec_drained(l0.changes, cur_pre, my) == seq![l0.changes[i as int]]
                + spec_drained(l0.changes, i + 1, my));
            assert(drained0 =~= processed.push(notification_change) + spec_drained(
                l0.changes,
                i + 1,
                my,
            ));
            assert(db@.ledger.users =~= l0.users.update(
                my as int,
                UserView {
                    name: l0.users[my as int].name,
                    use_notification: true,
                    next_notification_index: (i + 1) as nat,
                },
            ));
        }
        let ghost ctx_pre = middlewares@.context;
        let tag_data = match db.get_tag_from_id_tag(notification_change.id_tag) {
            Some(tag) => {
                let t_value = db.get_t_value_from_tag(notification_change.id_user, tag);
                proof {
                    crate::database_rw::lemma_read_t_value_bytes_only(
                        db@,
                        old(db)@,
                        tag.t_format,
                        tag.word_address,
                    );
                }
                Some(t_value)
            },
            None => None,
        };
        match tag_data {
            Some(t_value) => {
                middlewares.notification_change(
                    db,
                    notification_change.id_user,
                    notification_change.id_tag,
                    &t_value,
                );
                proof {
                    assert(middlewares@.context == spec_drain_step(
                        ctx_pre,
                        old(db)@,
                        my,
                        notification_change,
                    ));
                }
            },
            None => {
                proof {
                    assert(middlewares@.context == spec_drain_step(
                        ctx_pre,
                        old(db)@,
                        my,
                        notification_change,
                    ));
                }
            },
        }
        proof {
            lemma_drain_ctx_snoc(c0, old(db)@, my, processed, notification_change);
            processed = processed.push(notification_change);
        }
    }
}

impl Middlewares {
    /// The user identifier the dispatcher writes the database under.
    pub fn id_user(&self) -> (r: IdUser)
        ensures
            r == self@.id_user,
    {
        self.id_user
    }
}

} // verus!
