//! Shared conversation state of the middlewares: per-conversation carriers,
//! collected records, table indices seen per zone, and the PACK transaction
//! states.

use vstd::prelude::*;

use crate::id_tag::IdTag;
use crate::records::{RecordData, RecordDataView};
use crate::t_value::{TValue, TValueView};

verus! {

/// Number of zones a record table may use.
pub const NB_ZONES: usize = 256;

/// Number of blocks of the PACK zones.
pub const NB_PACK_BLOCS: usize = 8;

/// Smallest and largest table index seen per zone; 0 means none seen.
#[derive(Debug)]
pub struct Records {
    /// Smallest index per zone.
    index_min: Vec<u64>,
    /// Largest index per zone.
    index_max: Vec<u64>,
}

/// Mathematical model of `Records`.
#[verifier::ext_equal]
pub struct RecordsView {
    pub index_min: Seq<u64>,
    pub index_max: Seq<u64>,
}

impl View for Records {
    type V = RecordsView;

    closed spec fn view(&self) -> RecordsView {
        RecordsView { index_min: self.index_min@, index_max: self.index_max@ }
    }
}

pub open spec fn records_wf(r: RecordsView) -> bool {
    r.index_min.len() == NB_ZONES && r.index_max.len() == NB_ZONES
}

/// The index table after a new index is seen in a zone.
pub open spec fn spec_records_set(r: RecordsView, zone: u8, index: u64) -> RecordsView {
    let prev_min = r.index_min[zone as int];
    let prev_max = r.index_max[zone as int];
    RecordsView {
        index_min: if prev_min == 0 || index < prev_min {
            r.index_min.update(zone as int, index)
        } else {
            r.index_min
        },
        index_max: if prev_max == 0 || prev_max < index {
            r.index_max.update(zone as int, index)
        } else {
            r.index_max
        },
    }
}

impl Default for Records {
    /// An empty table: no index seen in any zone.
    fn default() -> (r: Records)
        ensures
            records_wf(r@),
            forall|z: int| 0 <= z < NB_ZONES ==> r@.index_min[z] == 0 && r@.index_max[z] == 0,
    {
        Records::new()
    }
}

impl Records {
    /// An empty table: no index seen in any zone.
    pub fn new() -> (r: Records)
        ensures
            records_wf(r@),
            forall|z: int| 0 <= z < NB_ZONES ==> r@.index_min[z] == 0 && r@.index_max[z] == 0,
    {
        let mut index_min: Vec<u64> = Vec::new();
        let mut index_max: Vec<u64> = Vec::new();
        let mut i: usize = 0;
        while i < NB_ZONES
            invariant
                0 <= i <= NB_ZONES,
                index_min@.len() == i,
                index_max@.len() == i,
                forall|z: int| 0 <= z < i ==> index_min@[z] == 0 && index_max@[z] == 0,
            decreases NB_ZONES - i,
        {
            index_min.push(0);
            index_max.push(0);
            i += 1;
        }
        Records { index_min, index_max }
    }

    /// The smallest index seen in a zone, 0 when none was seen.
    pub fn get_index_min(&self, zone: u8) -> (r: u64)
        requires
            records_wf(self@),
        ensures
            r == self@.index_min[zone as int],
    {
        self.index_min[zone as usize]
    }

    /// The largest index seen in a zone, 0 when none was seen.
    pub fn get_index_max(&self, zone: u8) -> (r: u64)
        requires
            records_wf(self@),
        ensures
            r == self@.index_max[zone as int],
    {
        self.index_max[zone as usize]
    }

    /// Notes a new index seen in a zone, widening the zone's range.
    pub fn set_index(&mut self, zone: u8, index: u64)
        requires
            records_wf(old(self)@),
        ensures
            records_wf(final (self)@),
            final (self)@ == spec_records_set(old(self)@, zone, index),
    {
        let prev_min = self.index_min[zone as usize];
        if prev_min == 0 || index < prev_min {
            self.index_min[zone as usize] = index;
        }
        let prev_max = self.index_max[zone as usize];
        if prev_max == 0 || prev_max < index {
            self.index_max[zone as usize] = index;
        }
    }
}

/// A set of PACK block numbers, 0 to 7.
#[derive(Debug)]
pub struct BlocSet {
    flags: Vec<bool>,
}

impl View for BlocSet {
    type V = Seq<bool>;

    closed spec fn view(&self) -> Seq<bool> {
        self.flags@
    }
}

pub open spec fn bloc_set_wf(s: Seq<bool>) -> bool {
    s.len() == NB_PACK_BLOCS
}

/// Count of blocks present in the set.
pub open spec fn spec_bloc_count(s: Seq<bool>) -> nat
    decreases s.len(),
{
    if s.len() == 0 {
        0
    } else {
        spec_bloc_count(s.drop_last()) + (if s.last() {
            1nat
        } else {
            0nat
        })
    }
}

impl Clone for BlocSet {
    /// A copy of the set, equal to the original in its model.
    fn clone(&self) -> (r: Self)
        ensures
            r@ == self@,
    {
        let mut flags: Vec<bool> = Vec::new();
        let mut i: usize = 0;
        while i < self.flags.len()
            invariant
                0 <= i <= self.flags@.len(),
                flags@ == self.flags@.take(i as int),
            decreases self.flags@.len() - i,
        {
            flags.push(self.flags[i]);
            proof {
                assert(self.flags@.take(i + 1 as int) =~= self.flags@.take(i as int).push(
                    self.flags@[i as int],
                ));
            }
            i += 1;
        }
        proof {
            assert(self.flags@.take(self.flags@.len() as int) =~= self.flags@);
        }
        BlocSet { flags }
    }
}

impl BlocSet {
    /// The empty set.
    pub fn new() -> (r: BlocSet)
        ensures
            bloc_set_wf(r@),
            forall|b: int| 0 <= b < NB_PACK_BLOCS ==> !r@[b],
    {
        let mut flags: Vec<bool> = Vec::new();
        let mut i: usize = 0;
        while i < NB_PACK_BLOCS
            invariant
                0 <= i <= NB_PACK_BLOCS,
                flags@.len() == i,
                forall|b: int| 0 <= b < i ==> !flags@[b],
            decreases NB_PACK_BLOCS - i,
        {
            flags.push(false);
            i += 1;
        }
        BlocSet { flags }
    }

    /// Adds a block to the set.
    pub fn insert(&mut self, bloc: u8)
        requires
            bloc_set_wf(old(self)@),
            bloc < NB_PACK_BLOCS,
        ensures
            final (self)@ == old(self)@.update(bloc as int, true),
    {
        self.flags[bloc as usize] = true;
    }

    /// Whether the set holds a block.
    pub fn contains(&self, bloc: u8) -> (r: bool)
        requires
            bloc_set_wf(self@),
            bloc < NB_PACK_BLOCS,
        ensures
            r == self@[bloc as int],
    {
        self.flags[bloc as usize]
    }

    /// Whether the set is empty.
    pub fn is_empty(&self) -> (r: bool)
        requires
            bloc_set_wf(self@),
        ensures
            r == (forall|b: int| 0 <= b < self@.len() ==> !self@[b]),
    {
        let mut i: usize = 0;
        while i < self.flags.len()
            invariant
                0 <= i <= self.flags@.len(),
                forall|b: int| 0 <= b < i ==> !self.flags@[b],
            decreases self.flags@.len() - i,
        {
            if self.flags[i] {
                proof {
                    assert(self@[i as int]);
                }
                return false;
            }
            i += 1;
        }
        true
    }

    /// Count of blocks in the set.
    pub fn count(&self) -> (r: usize)
        requires
            bloc_set_wf(self@),
        ensures
            r == spec_bloc_count(self@),
            r <= NB_PACK_BLOCS,
    {
        proof {
            lemma_bloc_count_bound(self@);
        }
        let mut n: usize = 0;
        let mut i: usize = 0;
        proof {
            assert(self@.take(0) =~= Seq::<bool>::empty());
        }
        while i < self.flags.len()
            invariant
                0 <= i <= self.flags@.len(),
                self.flags@.len() == NB_PACK_BLOCS,
                n == spec_bloc_count(self.flags@.take(i as int)),
                n <= i,
            decreases self.flags@.len() - i,
        {
            proof {
                assert(self.flags@.take(i + 1 as int).drop_last() =~= self.flags@.take(i as int));
                assert(self.flags@.take(i + 1 as int).last() == self.flags@[i as int]);
            }
            if self.flags[i] {
                n += 1;
            }
            i += 1;
        }
        proof {
            assert(self.flags@.take(self.flags@.len() as int) =~= self.flags@);
        }
        n
    }

    /// Empties the set.
    pub fn clear(&mut self)
        requires
            bloc_set_wf(old(self)@),
        ensures
            bloc_set_wf(final (self)@),
            forall|b: int| 0 <= b < NB_PACK_BLOCS ==> !final (self)@[b],
    {
        let mut i: usize = 0;
        while i < self.flags.len()
            invariant
                0 <= i <= self.flags@.len(),
                self.flags@.len() == NB_PACK_BLOCS,
                forall|b: int| 0 <= b < i ==> !self.flags@[b],
            decreases self.flags@.len() - i,
        {
            self.flags[i] = false;
            i += 1;
        }
    }
}

pub proof fn lemma_bloc_count_bound(s: Seq<bool>)
    ensures
        spec_bloc_count(s) <= s.len(),
    decreases s.len(),
{
    if s.len() > 0 {
        lemma_bloc_count_bound(s.drop_last());
    }
}

/// Conversation state of a PACK_IN transfer towards the co-processor.
#[derive(Debug)]
pub struct PackIn {
    /// True while a transaction is under way.
    pub is_transaction: bool,
    /// Blocks to transmit in the current or next transaction.
    pub set_blocs: BlocSet,
    /// Private snapshot of the blocks still to transmit: block number and its
    /// 64 bytes.
    pub private_datas: Vec<(u8, Vec<u8>)>,
    /// Blocks notified during a transaction, deferred to the next one.
    pub set_pending_blocs: BlocSet,
}

/// Mathematical model of `PackIn`.
#[verifier::ext_equal]
pub struct PackInView {
    pub is_transaction: bool,
    pub set_blocs: Seq<bool>,
    pub private_datas: Seq<(u8, Seq<u8>)>,
    pub set_pending_blocs: Seq<bool>,
}

impl View for PackIn {
    type V = PackInView;

    open spec fn view(&self) -> PackInView {
        PackInView {
            is_transaction: self.is_transaction,
            set_blocs: self.set_blocs@,
            private_datas: Seq::new(
                self.private_datas@.len(),
                |i: int| (self.private_datas@[i].0, self.private_datas@[i].1@),
            ),
            set_pending_blocs: self.set_pending_blocs@,
        }
    }
}

pub open spec fn pack_in_wf(p: PackInView) -> bool {
    bloc_set_wf(p.set_blocs) && bloc_set_wf(p.set_pending_blocs)
}

impl PackIn {
    /// No transaction, nothing to transmit.
    pub fn new() -> (r: PackIn)
        ensures
            pack_in_wf(r@),
            !r@.is_transaction,
            r@.private_datas == Seq::<(u8, Seq<u8>)>::empty(),
            forall|b: int| 0 <= b < NB_PACK_BLOCS ==> !r@.set_blocs[b],
            forall|b: int| 0 <= b < NB_PACK_BLOCS ==> !r@.set_pending_blocs[b],
    {
        let r = PackIn {
            is_transaction: false,
            set_blocs: BlocSet::new(),
            private_datas: Vec::new(),
            set_pending_blocs: BlocSet::new(),
        };
        proof {
            assert(r@.private_datas =~= Seq::<(u8, Seq<u8>)>::empty());
        }
        r
    }
}

/// Conversation state of a PACK_OUT transfer from the co-processor.
#[derive(Debug)]
pub struct PackOut {
    /// True while a transaction is under way.
    pub is_transaction: bool,
    /// Count of packets the transaction announces.
    pub option_nb_total_packets: Option<u8>,
    /// Number of the last packet received.
    pub option_last_num_packet: Option<u8>,
    /// Packets received so far: word offset in the zone, then the bytes.
    pub private_datas: Vec<(u8, Vec<u8>)>,
}

/// Mathematical model of `PackOut`.
#[verifier::ext_equal]
pub struct PackOutView {
    pub is_transaction: bool,
    pub option_nb_total_packets: Option<u8>,
    pub option_last_num_packet: Option<u8>,
    pub private_datas: Seq<(u8, Seq<u8>)>,
}

impl View for PackOut {
    type V = PackOutView;

    open spec fn view(&self) -> PackOutView {
        PackOutView {
            is_transaction: self.is_transaction,
            option_nb_total_packets: self.option_nb_total_packets,
            option_last_num_packet: self.option_last_num_packet,
            private_datas: Seq::new(
                self.private_datas@.len(),
                |i: int| (self.private_datas@[i].0, self.private_datas@[i].1@),
            ),
        }
    }
}

impl PackOut {
    /// No transaction, nothing received.
    pub fn new() -> (r: PackOut)
        ensures
            !r@.is_transaction,
            r@.option_nb_total_packets is None,
            r@.option_last_num_packet is None,
            r@.private_datas == Seq::<(u8, Seq<u8>)>::empty(),
    {
        let r = PackOut {
            is_transaction: false,
            option_nb_total_packets: None,
            option_last_num_packet: None,
            private_datas: Vec::new(),
        };
        proof {
            assert(r@.private_datas =~= Seq::<(u8, Seq<u8>)>::empty());
        }
        r
    }
}

/// Shared state of all middlewares for the current conversations.
#[derive(Debug)]
pub struct Context {
    /// Count of INIT conversations handled.
    pub nb_init: usize,
    /// Count of PACK_OUT requests handled.
    pub nb_pack_out: usize,
    /// Count of PACK_IN requests handled.
    pub nb_pack_in: usize,
    /// Count of DATA_OUT requests handled.
    pub nb_data_out: usize,
    /// Count of DATA_IN requests handled.
    pub nb_data_in: usize,
    /// Zone of the conversation under way.
    pub option_zone: Option<u8>,
    /// Table index of the conversation under way.
    pub option_table_index: Option<u64>,
    /// Five-byte tag name of the conversation under way.
    pub option_vec_u8_tag: Option<Vec<u8>>,
    /// Value of the conversation under way.
    pub option_t_value: Option<TValue>,
    /// Record data collected during a DATA_OUT conversation.
    pub record_datas: Vec<RecordData>,
    /// Changes queued for the DATA_IN conversation.
    pub notification_changes: Vec<(IdTag, TValue)>,
    /// Table indices seen per zone.
    pub records: Records,
    /// PACK_IN transaction state.
    pub pack_in: PackIn,
    /// PACK_OUT transaction state.
    pub pack_out: PackOut,
}

/// Mathematical model of the `Context`.
#[verifier::ext_equal]
pub struct ContextView {
    pub nb_init: nat,
    pub nb_pack_out: nat,
    pub nb_pack_in: nat,
    pub nb_data_out: nat,
    pub nb_data_in: nat,
    pub option_zone: Option<u8>,
    pub option_table_index: Option<u64>,
    pub option_vec_u8_tag: Option<Seq<u8>>,
    pub option_t_value: Option<TValueView>,
    pub record_datas: Seq<RecordDataView>,
    pub notification_changes: Seq<(IdTag, TValueView)>,
    pub records: RecordsView,
    pub pack_in: PackInView,
    pub pack_out: PackOutView,
}

impl View for Context {
    type V = ContextView;

    open spec fn view(&self) -> ContextView {
        ContextView {
            nb_init: self.nb_init as nat,
            nb_pack_out: self.nb_pack_out as nat,
            nb_pack_in: self.nb_pack_in as nat,
            nb_data_out: self.nb_data_out as nat,
            nb_data_in: self.nb_data_in as nat,
            option_zone: self.option_zone,
            option_table_index: self.option_table_index,
            option_vec_u8_tag: match self.option_vec_u8_tag {
                Some(v) => Some(v@),
                None => None,
            },
            option_t_value: match self.option_t_value {
                Some(v) => Some(v@),
                None => None,
            },
            record_datas: Seq::new(self.record_datas@.len(), |i: int| self.record_datas@[i]@),
            notification_changes: Seq::new(
                self.notification_changes@.len(),
                |i: int| (self.notification_changes@[i].0, self.notification_changes@[i].1@),
            ),
            records: self.records@,
            pack_in: self.pack_in@,
            pack_out: self.pack_out@,
        }
    }
}

/// Well-formedness of the context: the index table covers every zone and the
/// block sets cover every block.
pub open spec fn context_wf(c: ContextView) -> bool {
    records_wf(c.records) && pack_in_wf(c.pack_in)
}

impl Context {
    /// A fresh context: all counters at 0, no conversation under way, no
    /// records, no queued changes, no transactions.
    pub fn new() -> (r: Context)
        ensures
            context_wf(r@),
            r@.nb_init == 0 && r@.nb_pack_out == 0 && r@.nb_pack_in == 0 && r@.nb_data_out == 0
                && r@.nb_data_in == 0,
            r@.option_zone is None && r@.option_table_index is None && r@.option_vec_u8_tag is None
                && r@.option_t_value is None,
            r@.record_datas == Seq::<RecordDataView>::empty(),
            r@.notification_changes == Seq::<(IdTag, TValueView)>::empty(),
            forall|z: int|
                0 <= z < NB_ZONES ==> r@.records.index_min[z] == 0 && r@.records.index_max[z] == 0,
            !r@.pack_in.is_transaction,
            r@.pack_in.private_datas == Seq::<(u8, Seq<u8>)>::empty(),
            forall|b: int| 0 <= b < NB_PACK_BLOCS ==> !r@.pack_in.set_blocs[b],
            forall|b: int| 0 <= b < NB_PACK_BLOCS ==> !r@.pack_in.set_pending_blocs[b],
            !r@.pack_out.is_transaction,
            r@.pack_out.option_nb_total_packets is None,
            r@.pack_out.option_last_num_packet is None,
            r@.pack_out.private_datas == Seq::<(u8, Seq<u8>)>::empty(),
    {
        let r = Context {
            nb_init: 0,
            nb_pack_out: 0,
            nb_pack_in: 0,
            nb_data_out: 0,
            nb_data_in: 0,
            option_zone: None,
            option_table_index: None,
            option_vec_u8_tag: None,
            option_t_value: None,
            record_datas: Vec::new(),
            notification_changes: Vec::new(),
            records: Records::new(),
            pack_in: PackIn::new(),
            pack_out: PackOut::new(),
        };
        proof {
            assert(r@.record_datas =~= Seq::<RecordDataView>::empty());
            assert(r@.notification_changes =~= Seq::<(IdTag, TValueView)>::empty());
        }
        r
    }
}

} // verus!
