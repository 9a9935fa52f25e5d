//! The tag database: a word-addressable byte store, the registry of tags,
//! and the user ledger. Every write funnels through
//! `set_vec_u8_to_word_address`, which also records one notification per tag
//! whose word range meets the written area.

use vstd::prelude::*;

use crate::id_tag::IdTag;
use crate::id_users::{IdUser, IdUsers, NotificationChange};
use crate::tag::{Tag, WordAddress};

verus! {

use vstd::string::StringExecFns;

use crate::id_users::{ledger_wf, spec_add_change_at, spec_next_match, IdUsersView, UserView};
use crate::t_format::spec_nb_words;
use crate::tag::spec_contains_area;

/// Number of words in the store.
pub const DB_NB_WORDS: usize = 0x8000;

/// Number of bytes in the store.
pub const DB_NB_BYTES: usize = 0x10000;

/// The board's database.
#[derive(Debug)]
pub struct Database {
    /// Flat byte store; a word address `wa` names the big-endian pair at
    /// offsets `2 * wa` and `2 * wa + 1`.
    vec_u8: Vec<u8>,
    /// Registered tags; word addresses and keys are unique.
    tags: Vec<Tag>,
    /// Identified users and the change log.
    id_users: IdUsers,
}

/// Mathematical model of the database.
#[verifier::ext_equal]
pub struct DatabaseView {
    pub bytes: Seq<u8>,
    pub tags: Seq<Tag>,
    pub ledger: IdUsersView,
}

impl View for Database {
    type V = DatabaseView;

    closed spec fn view(&self) -> DatabaseView {
        DatabaseView { bytes: self.vec_u8@, tags: self.tags@, ledger: self.id_users@ }
    }
}

/// Well-formedness: the store holds exactly its fixed size, the ledger is
/// sound, and no two tags share a word address or a key.
pub open spec fn db_wf(d: DatabaseView) -> bool {
    &&& d.bytes.len() == DB_NB_BYTES
    &&& ledger_wf(d.ledger)
    &&& forall|i: int, j: int|
        0 <= i < j < d.tags.len() ==> (#[trigger] d.tags[i]).word_address != (
        #[trigger] d.tags[j]).word_address && d.tags[i].id_tag != d.tags[j].id_tag
}

/// First registered tag at a word address; addresses outside `u16` hold none.
pub open spec fn spec_find_by_wa(tags: Seq<Tag>, addr: int) -> Option<Tag>
    decreases tags.len(),
{
    if tags.len() == 0 {
        None
    } else if tags[0].word_address == addr {
        Some(tags[0])
    } else {
        spec_find_by_wa(tags.skip(1), addr)
    }
}

/// First registered tag with a key.
pub open spec fn spec_find_by_id(tags: Seq<Tag>, id_tag: IdTag) -> Option<Tag>
    decreases tags.len(),
{
    if tags.len() == 0 {
        None
    } else if tags[0].id_tag == id_tag {
        Some(tags[0])
    } else {
        spec_find_by_id(tags.skip(1), id_tag)
    }
}

/// Backward search for the tag covering a word area: inspecting address `p`
/// downward, the first registered tag ends the search — kept when its word
/// range meets the area, otherwise the area has no covering tag.
pub open spec fn spec_scan_back(tags: Seq<Tag>, p: int, wa: u16, nb_words: nat) -> Option<Tag>
    decreases p + 1,
{
    if p < 0 {
        None
    } else {
        match spec_find_by_wa(tags, p) {
            Some(t) => if spec_contains_area(t.t_format, t.word_address, wa, nb_words) {
                Some(t)
            } else {
                None
            },
            None => spec_scan_back(tags, p - 1, wa, nb_words),
        }
    }
}

/// Forward collection of tags past `fwa` whose word range meets the area. A
/// registered tag of width zero occupies no word, so it is passed over; the
/// first registered tag of nonzero width outside the area ends the
/// collection.
pub open spec fn spec_fwd_tags(tags: Seq<Tag>, wa: int, nb_words: nat, fwa: int) -> Seq<Tag>
    decreases wa + nb_words + 1 - fwa,
{
    if fwa > wa + nb_words || fwa < wa {
        Seq::empty()
    } else {
        let nxt = fwa + 1;
        match spec_find_by_wa(tags, nxt) {
            Some(t) => if spec_nb_words(t.t_format) == 0 {
                spec_fwd_tags(tags, wa, nb_words, nxt)
            } else if spec_contains_area(t.t_format, t.word_address, wa as u16, nb_words) {
                seq![t] + spec_fwd_tags(tags, wa, nb_words, nxt)
            } else {
                Seq::empty()
            },
            None => spec_fwd_tags(tags, wa, nb_words, nxt),
        }
    }
}

/// The tags a write to the word area touches: the tag at the area's start or
/// the nearest earlier tag, when its word range meets the area, then every
/// following registered tag whose word range meets the area, in address
/// order. A leading tag whose word range misses the area — one of width
/// zero, or any tag when the area is empty — leaves the write with no
/// touched tags at all.
pub open spec fn spec_area_tags(tags: Seq<Tag>, wa: u16, nb_words: nat) -> Seq<Tag> {
    match spec_find_by_wa(tags, wa as int) {
        Some(t) => if spec_contains_area(t.t_format, t.word_address, wa, nb_words) {
            seq![t] + spec_fwd_tags(tags, wa as int, nb_words, wa as int)
        } else {
            Seq::empty()
        },
        None => match spec_scan_back(tags, wa - 1, wa, nb_words) {
            Some(t) => seq![t] + spec_fwd_tags(tags, wa as int, nb_words, wa as int),
            None => Seq::empty(),
        },
    }
}

/// The store with `data` written at byte offset `at`.
pub open spec fn spec_write_bytes(bytes: Seq<u8>, at: int, data: Seq<u8>) -> Seq<u8> {
    Seq::new(
        bytes.len(),
        |i: int|
            if at <= i < at + data.len() {
                data[i - at]
            } else {
                bytes[i]
            },
    )
}

/// The ledger after one change per tag key is recorded, each at its own
/// moment.
pub open spec fn spec_notify_all(
    l: IdUsersView,
    id_user: IdUser,
    ids: Seq<IdTag>,
    times: Seq<u64>,
) -> IdUsersView
    decreases ids.len(),
{
    if ids.len() == 0 || times.len() == 0 {
        l
    } else {
        spec_notify_all(
            spec_add_change_at(l, NotificationChange { id_user, id_tag: ids[0] }, times[0]),
            id_user,
            ids.skip(1),
            times.skip(1),
        )
    }
}

/// Keys of a sequence of tags.
pub open spec fn spec_tag_ids(tags: Seq<Tag>) -> Seq<IdTag> {
    tags.map_values(|t: Tag| t.id_tag)
}

/// The database after a write of `data` at word address `wa` by `id_user`: a
/// write that would run past the store leaves everything unchanged; otherwise
/// the bytes are overwritten and one notification per touched tag is
/// recorded, at the given moments.
pub open spec fn spec_db_after_write(
    d: DatabaseView,
    id_user: IdUser,
    wa: u16,
    data: Seq<u8>,
    times: Seq<u64>,
) -> DatabaseView {
    if 2 * wa + data.len() <= d.bytes.len() {
        let nb_words = ((data.len() + 1) / 2) as nat;
        DatabaseView {
            bytes: spec_write_bytes(d.bytes, 2 * wa, data),
            tags: d.tags,
            ledger: spec_notify_all(
                d.ledger,
                id_user,
                spec_tag_ids(spec_area_tags(d.tags, wa, nb_words)),
                times,
            ),
        }
    } else {
        d
    }
}

/// Whether `post` is `pre` after a write of `data` at `wa` by `id_user`, at
/// some sequence of clock moments (the moments of the recorded
/// notifications). The moments are exactly one per touched tag, so the
/// ledger really records one change per tag the write touches.
pub open spec fn spec_value_written(
    pre: DatabaseView,
    id_user: IdUser,
    wa: u16,
    data: Seq<u8>,
    post: DatabaseView,
) -> bool {
    exists|times: Seq<u64>|
        times.len() == spec_area_tags(pre.tags, wa, ((data.len() + 1) / 2) as nat).len() && post
            == #[trigger] spec_db_after_write(pre, id_user, wa, data, times)
}

impl Default for Database {
    /// An empty database: a zeroed store, no tags, the anonymous user alone.
    fn default() -> (r: Self)
        ensures
            db_wf(r@),
            r@.bytes == Seq::new(DB_NB_BYTES as nat, |i: int| 0u8),
            r@.tags == Seq::<Tag>::empty(),
            r@.ledger.users.len() == 1,
            r@.ledger.changes == Seq::<NotificationChange>::empty(),
    {
        let mut vec_u8: Vec<u8> = Vec::new();
        let mut i: usize = 0;
        while i < DB_NB_BYTES
            invariant
                0 <= i <= DB_NB_BYTES,
                vec_u8@.len() == i,
                forall|j: int| 0 <= j < i ==> vec_u8@[j] == 0u8,
            decreases DB_NB_BYTES - i,
        {
            vec_u8.push(0);
            i += 1;
        }
        let r = Database { vec_u8, tags: Vec::new(), id_users: IdUsers::new() };
        proof {
            assert(r@.bytes =~= Seq::new(DB_NB_BYTES as nat, |j: int| 0u8));
            assert(r@.tags =~= Seq::<Tag>::empty());
        }
        r
    }
}

impl Database {
    /// Registers a tag. The word address and the key must both be fresh; the
    /// embedding program treats a duplicate as a fatal configuration error.
    pub fn add_tag(&mut self, tag: &Tag)
        requires
            db_wf(old(self)@),
            spec_find_by_wa(old(self)@.tags, tag.word_address as int) is None,
            spec_find_by_id(old(self)@.tags, tag.id_tag) is None,
        ensures
            db_wf(final (self)@),
            final (self)@.tags == old(self)@.tags.push(*tag),
            final (self)@.bytes == old(self)@.bytes,
            final (self)@.ledger == old(self)@.ledger,
    {
        proof {
            lemma_find_none_means_absent_wa(old(self)@.tags, tag.word_address as int);
            lemma_find_none_means_absent_id(old(self)@.tags, tag.id_tag);
        }
        self.tags.push(tag.clone());
        proof {
            assert(final (self)@.tags =~= old(self)@.tags.push(*tag));
            assert forall|i: int, j: int|
                0 <= i < j < final (self)@.tags.len() implies (#[trigger] final (self)@.tags[
                i
            ]).word_address != (#[trigger] final (self)@.tags[j]).word_address && final (
            self)@.tags[i].id_tag != final (self)@.tags[j].id_tag by {
                if j == final (self)@.tags.len() - 1 {
                    assert(final (self)@.tags[i] == old(self)@.tags[i]);
                }
            }
        }
    }

    /// The registered tag at a word address, if one is registered there.
    pub fn get_tag_from_word_address(&self, word_address: WordAddress) -> (r: Option<&Tag>)
        ensures
            match r {
                Some(t) => spec_find_by_wa(self@.tags, word_address as int) == Some(*t),
                None => spec_find_by_wa(self@.tags, word_address as int) is None,
            },
    {
        self.find_by_addr(word_address as u64)
    }

    /// The registered tag at a word address given as a wide integer.
    fn find_by_addr(&self, addr: u64) -> (r: Option<&Tag>)
        ensures
            match r {
                Some(t) => spec_find_by_wa(self@.tags, addr as int) == Some(*t),
                None => spec_find_by_wa(self@.tags, addr as int) is None,
            },
    {
        let mut i: usize = 0;
        proof {
            assert(self@.tags.skip(0) =~= self@.tags);
        }
        while i < self.tags.len()
            invariant
                0 <= i <= self@.tags.len(),
                self@.tags.len() == self.tags@.len(),
                spec_find_by_wa(self@.tags, addr as int) == spec_find_by_wa(
                    self@.tags.skip(i as int),
                    addr as int,
                ),
            decreases self@.tags.len() - i,
        {
            proof {
                assert(self@.tags.skip(i as int)[0] == self@.tags[i as int]);
                assert(self@.tags.skip(i as int).skip(1) =~= self@.tags.skip(i + 1));
            }
            if self.tags[i].word_address as u64 == addr {
                return Some(&self.tags[i]);
            }
            i += 1;
        }
        None
    }

    /// The registered tag with a key, if any.
    pub fn get_tag_from_id_tag(&self, id_tag: IdTag) -> (r: Option<&Tag>)
        ensures
            match r {
                Some(t) => spec_find_by_id(self@.tags, id_tag) == Some(*t),
                None => spec_find_by_id(self@.tags, id_tag) is None,
            },
    {
        let mut i: usize = 0;
        proof {
            assert(self@.tags.skip(0) =~= self@.tags);
        }
        while i < self.tags.len()
            invariant
                0 <= i <= self@.tags.len(),
                self@.tags.len() == self.tags@.len(),
                spec_find_by_id(self@.tags, id_tag) == spec_find_by_id(
                    self@.tags.skip(i as int),
                    id_tag,
                ),
            decreases self@.tags.len() - i,
        {
            proof {
                assert(self@.tags.skip(i as int)[0] == self@.tags[i as int]);
                assert(self@.tags.skip(i as int).skip(1) =~= self@.tags.skip(i + 1));
            }
            if self.tags[i].id_tag == id_tag {
                return Some(&self.tags[i]);
            }
            i += 1;
        }
        None
    }

    /// The tags a write to the word area touches, as `spec_area_tags`
    /// describes.
    pub fn get_tags_from_word_address_area(
        &self,
        word_address: WordAddress,
        nb_words: usize,
    ) -> (r: Vec<Tag>)
        requires
            nb_words < 0x1_0000_0000,
        ensures
            r@ == spec_area_tags(self@.tags, word_address, nb_words as nat),
    {
        let mut ret_tags: Vec<Tag> = Vec::new();
        match self.get_tag_from_word_address(word_address) {
            Some(tag) => {
                if !tag.contains_word_address_area(word_address, nb_words) {
                    let empty_ret: Vec<Tag> = Vec::new();
                    proof {
                        assert(empty_ret@ =~= spec_area_tags(
                            self@.tags,
                            word_address,
                            nb_words as nat,
                        ));
                    }
                    return empty_ret;
                }
                ret_tags.push(tag.clone());
            },
            None => {
                let mut previous_word_address = word_address;
                let mut found = false;
                while !found
                    invariant
                        0 <= previous_word_address <= word_address,
                        nb_words < 0x1_0000_0000,
                        spec_find_by_wa(self@.tags, word_address as int) is None,
                        !found ==> spec_scan_back(
                            self@.tags,
                            word_address - 1,
                            word_address,
                            nb_words as nat,
                        ) == spec_scan_back(
                            self@.tags,
                            previous_word_address - 1,
                            word_address,
                            nb_words as nat,
                        ),
                        found ==> ({
                            &&& ret_tags@.len() == 1
                            &&& spec_scan_back(
                                self@.tags,
                                word_address - 1,
                                word_address,
                                nb_words as nat,
                            ) == Some(ret_tags@[0])
                        }),
                        !found ==> ret_tags@.len() == 0,
                    decreases previous_word_address + 1,
                {
                    if previous_word_address == 0 {
                        let empty_ret: Vec<Tag> = Vec::new();
                        proof {
                            assert(spec_scan_back(
                                self@.tags,
                                -1,
                                word_address,
                                nb_words as nat,
                            ) is None);
                            assert(empty_ret@ =~= spec_area_tags(
                                self@.tags,
                                word_address,
                                nb_words as nat,
                            ));
                        }
                        return empty_ret;
                    }
                    previous_word_address = previous_word_address - 1;
                    match self.get_tag_from_word_address(previous_word_address) {
                        Some(tag) => {
                            if tag.contains_word_address_area(word_address, nb_words) {
                                ret_tags.push(tag.clone());
                                found = true;
                            } else {
                                let empty_ret: Vec<Tag> = Vec::new();
                                proof {
                                    assert(spec_scan_back(
                                        self@.tags,
                                        previous_word_address as int,
                                        word_address,
                                        nb_words as nat,
                                    ) is None);
                                    assert(empty_ret@ =~= spec_area_tags(
                                        self@.tags,
                                        word_address,
                                        nb_words as nat,
                                    ));
                                }
                                return empty_ret;
                            }
                        },
                        None => {},
                    }
                }
            },
        }
        // Forward collection of the following tags inside the area.
        let ghost first = ret_tags@;
        proof {
            assert(spec_area_tags(self@.tags, word_address, nb_words as nat) == first
                + spec_fwd_tags(
                self@.tags,
                word_address as int,
                nb_words as nat,
                word_address as int,
            )) by {
                assert(first.len() == 1);
                assert(seq![first[0]] =~= first);
            }
        }
        let mut forward_word_address: u64 = word_address as u64;
        loop
            invariant_except_break
                word_address as u64 <= forward_word_address <= word_address as u64
                    + nb_words as u64 + 1,
                nb_words < 0x1_0000_0000,
                first.len() == 1,
                spec_area_tags(self@.tags, word_address, nb_words as nat) == first + spec_fwd_tags(
                    self@.tags,
                    word_address as int,
                    nb_words as nat,
                    word_address as int,
                ),
                ret_tags@ + spec_fwd_tags(
                    self@.tags,
                    word_address as int,
                    nb_words as nat,
                    forward_word_address as int,
                ) == first + spec_fwd_tags(
                    self@.tags,
                    word_address as int,
                    nb_words as nat,
                    word_address as int,
                ),
            ensures
                ret_tags@ == spec_area_tags(self@.tags, word_address, nb_words as nat),
            decreases word_address as int + nb_words + 1 - forward_word_address,
        {
            if forward_word_address > word_address as u64 + nb_words as u64 {
                proof {
                    assert(spec_fwd_tags(
                        self@.tags,
                        word_address as int,
                        nb_words as nat,
                        forward_word_address as int,
                    ) =~= Seq::<Tag>::empty());
                    assert(ret_tags@ =~= ret_tags@ + Seq::<Tag>::empty());
                }
                break;
            }
            let ghost before = forward_word_address as int;
            forward_word_address = forward_word_address + 1;
            match self.find_by_addr(forward_word_address) {
                Some(tag) => {
                    if tag.t_format.nb_words() == 0 {
                        proof {
                            assert(spec_fwd_tags(
                                self@.tags,
                                word_address as int,
                                nb_words as nat,
                                before,
                            ) == spec_fwd_tags(
                                self@.tags,
                                word_address as int,
                                nb_words as nat,
                                forward_word_address as int,
                            ));
                        }
                    } else if tag.contains_word_address_area(word_address, nb_words) {
                        ret_tags.push(tag.clone());
                        proof {
                            let fwd_next = spec_fwd_tags(
                                self@.tags,
                                word_address as int,
                                nb_words as nat,
                                forward_word_address as int,
                            );
                            assert(spec_fwd_tags(
                                self@.tags,
                                word_address as int,
                                nb_words as nat,
                                before,
                            ) == seq![*tag] + fwd_next);
                            assert((ret_tags@.drop_last() + (seq![*tag] + fwd_next)) =~= (ret_tags@
                                + fwd_next));
                        }
                    } else {
                        proof {
                            assert(spec_fwd_tags(
                                self@.tags,
                                word_address as int,
                                nb_words as nat,
                                before,
                            ) =~= Seq::<Tag>::empty());
                            assert(ret_tags@ =~= ret_tags@ + Seq::<Tag>::empty());
                        }
                        break;
                    }
                },
                None => {},
            }
        }
        ret_tags
    }

    /// Reads `nb_u8` bytes at a word address; a read past the store yields
    /// the empty vector.
    pub fn get_vec_u8_from_word_address(
        &self,
        _id_user: IdUser,
        word_address: WordAddress,
        nb_u8: usize,
    ) -> (r: Vec<u8>)
        requires
            db_wf(self@),
        ensures
            2 * word_address + nb_u8 <= DB_NB_BYTES ==> r@ == self@.bytes.subrange(
                2 * word_address as int,
                2 * word_address + nb_u8,
            ),
            2 * word_address + nb_u8 > DB_NB_BYTES ==> r@ == Seq::<u8>::empty(),
    {
        let start = 2 * (word_address as usize);
        if start > DB_NB_BYTES || nb_u8 > DB_NB_BYTES - start {
            let empty_ret: Vec<u8> = Vec::new();
            proof {
                if 2 * word_address + nb_u8 <= DB_NB_BYTES {
                    assert(self@.bytes.subrange(
                        2 * word_address as int,
                        2 * word_address + nb_u8,
                    ) =~= Seq::<u8>::empty());
                }
            }
            return empty_ret;
        }
        let mut ret: Vec<u8> = Vec::new();
        let mut n: usize = 0;
        while n < nb_u8
            invariant
                0 <= n <= nb_u8,
                start + nb_u8 <= self.vec_u8@.len(),
                start == 2 * word_address as int,
                self.vec_u8@.len() == DB_NB_BYTES,
                ret@ == self@.bytes.subrange(start as int, start + n),
            decreases nb_u8 - n,
        {
            ret.push(self.vec_u8[start + n]);
            proof {
                assert(self@.bytes.subrange(start as int, start + n + 1) =~= self@.bytes.subrange(
                    start as int,
                    start + n,
                ).push(self@.bytes[start + n]));
            }
            n += 1;
        }
        ret
    }

    /// Writes bytes at a word address — the one entry point that mutates the
    /// store — and records one notification per touched tag. A write that
    /// would run past the store changes nothing.
    pub fn set_vec_u8_to_word_address(
        &mut self,
        id_user: IdUser,
        word_address: WordAddress,
        vec_u8: &[u8],
    )
        requires
            db_wf(old(self)@),
        ensures
            db_wf(final (self)@),
            spec_value_written(old(self)@,
                    id_user,
                    word_address,
                    vec_u8@, final (self)@),
    {
        let len = vec_u8.len();
        let start = 2 * (word_address as usize);
        if start > DB_NB_BYTES || len > DB_NB_BYTES - start {
            proof {
                let nb_words = ((vec_u8@.len() + 1) / 2) as nat;
                let times = Seq::<u64>::new(
                    spec_area_tags(old(self)@.tags, word_address, nb_words).len(),
                    |i: int| 0u64,
                );
                assert(final (self)@ == spec_db_after_write(
                    old(self)@,
                    id_user,
                    word_address,
                    vec_u8@,
                    times,
                ));
            }
            return;
        }
        let mut u8_address = start;
        let mut k: usize = 0;
        while k < len
            invariant
                0 <= k <= len,
                u8_address == start + k,
                start + len <= DB_NB_BYTES,
                len == vec_u8@.len(),
                self.vec_u8@.len() == DB_NB_BYTES,
                self@.tags == old(self)@.tags,
                self@.ledger == old(self)@.ledger,
                forall|i: int|
                    0 <= i < DB_NB_BYTES ==> self.vec_u8@[i] == (if start <= i < start + k {
                        vec_u8@[i - start]
                    } else {
                        old(self)@.bytes[i]
                    }),
            decreases len - k,
        {
            self.vec_u8[u8_address] = vec_u8[k];
            u8_address += 1;
            k += 1;
        }
        proof {
            assert(self@.bytes =~= spec_write_bytes(
                old(self)@.bytes,
                2 * word_address as int,
                vec_u8@,
            ));
        }
        let nb_words = (len + 1) / 2;
        let tags = self.get_tags_from_word_address_area(word_address, nb_words);
        let ghost mid = self@;
        let ghost area_ids = spec_tag_ids(
            spec_area_tags(old(self)@.tags, word_address, nb_words as nat),
        );
        let mut t: usize = 0;
        let ghost mut times_so_far: Seq<u64> = Seq::empty();
        proof {
            assert(area_ids.take(0) =~= Seq::<IdTag>::empty());
        }
        while t < tags.len()
            invariant
                0 <= t <= tags@.len(),
                ledger_wf(self@.ledger),
                tags@.len() == area_ids.len(),
                forall|i: int| 0 <= i < tags@.len() ==> area_ids[i] == (#[trigger] tags@[i]).id_tag,
                times_so_far.len() == t,
                self@.bytes == mid.bytes,
                self@.tags == mid.tags,
                self@.ledger == spec_notify_all(
                    mid.ledger,
                    id_user,
                    area_ids.take(t as int),
                    times_so_far,
                ),
            decreases tags@.len() - t,
        {
            let ghost cur = self@.ledger;
            self.user_write_tag(id_user, &tags[t]);
            proof {
                let nc = NotificationChange { id_user, id_tag: tags@[t as int].id_tag };
                let now = choose|now: u64| self@.ledger == spec_add_change_at(cur, nc, now);
                lemma_notify_all_snoc(
                    mid.ledger,
                    id_user,
                    area_ids.take(t as int),
                    times_so_far,
                    nc.id_tag,
                    now,
                );
                assert(area_ids.take(t + 1 as int) =~= area_ids.take(t as int).push(
                    area_ids[t as int],
                ));
                times_so_far = times_so_far.push(now);
            }
            t += 1;
        }
        proof {
            assert(area_ids.take(area_ids.len() as int) =~= area_ids);
            assert(times_so_far.len() == spec_area_tags(
                old(self)@.tags,
                word_address,
                ((vec_u8@.len() + 1) / 2) as nat,
            ).len());
            assert(final (self)@ == spec_db_after_write(
                old(self)@,
                id_user,
                word_address,
                vec_u8@,
                times_so_far,
            ));
        }
    }

    /// Records one notification: the user changed the tag. The log evolves as
    /// `spec_add_change_at` describes, at the moment the clock shows.
    pub fn user_write_tag(&mut self, id_user: IdUser, tag: &Tag)
        requires
            ledger_wf(old(self)@.ledger),
        ensures
            final (self)@.bytes == old(self)@.bytes,
            final (self)@.tags == old(self)@.tags,
            ledger_wf(final (self)@.ledger),
            exists|now: u64|
                final (self)@.ledger == spec_add_change_at(
                    old(self)@.ledger,
                    NotificationChange { id_user, id_tag: tag.id_tag },
                    now,
                ),
    {
        let notification_change = NotificationChange { id_user, id_tag: tag.id_tag };
        self.id_users.add_change(&notification_change);
    }

    // ---- users and notifications ----

    /// Registers a database user under a name, subscribed or not; the new
    /// identifier is never the anonymous user's.
    pub fn get_id_user(&mut self, name: &str, use_notification: bool) -> (r: IdUser)
        requires
            db_wf(old(self)@),
            old(self)@.ledger.users.len() < usize::MAX,
        ensures
            db_wf(final (self)@),
            r == old(self)@.ledger.users.len(),
            r != crate::id_users::ID_ANONYMOUS_USER,
            final (self)@.bytes == old(self)@.bytes,
            final (self)@.tags == old(self)@.tags,
            final (self)@.ledger.changes == old(self)@.ledger.changes,
            final (self)@.ledger.users == old(self)@.ledger.users.push(
                UserView {
                    name: name@,
                    use_notification,
                    next_notification_index: old(self)@.ledger.changes.len(),
                },
            ),
    {
        self.id_users.get_id_user(name, use_notification)
    }

    /// Count of entries the change log currently holds.
    pub fn nb_changes(&self) -> (r: usize)
        ensures
            r == self@.ledger.changes.len(),
    {
        self.id_users.nb_changes()
    }

    /// The name a user registered under; the anonymous name for an unknown
    /// identifier.
    pub fn get_id_user_name(&self, id_user: IdUser) -> (r: String)
        requires
            db_wf(self@),
        ensures
            id_user < self@.ledger.users.len() ==> r@ == self@.ledger.users[id_user as int].name,
            id_user >= self@.ledger.users.len() ==> r@ == "Anonymous user"@,
    {
        match self.id_users.get_id_user_name(id_user) {
            Some(name) => name,
            None => anonymous_name(),
        }
    }

    /// Returns the next change for a user that passes the filters, advancing
    /// the user's cursor, exactly as the ledger's `get_change` describes.
    pub fn get_change(
        &mut self,
        id_user: IdUser,
        include_my_changes: bool,
        include_anonymous_changes: bool,
    ) -> (r: Option<NotificationChange>)
        requires
            db_wf(old(self)@),
        ensures
            db_wf(final (self)@),
            final (self)@.bytes == old(self)@.bytes,
            final (self)@.tags == old(self)@.tags,
            final (self)@.ledger.changes == old(self)@.ledger.changes,
            final (self)@.ledger.last_millis == old(self)@.ledger.last_millis,
            id_user >= old(self)@.ledger.users.len() || !old(self)@.ledger.users[
                id_user as int
            ].use_notification ==> r is None && final (self)@ == old(self)@,
            id_user < old(self)@.ledger.users.len() && old(self)@.ledger.users[
                id_user as int
            ].use_notification ==> {
                let cursor = old(self)@.ledger.users[id_user as int].next_notification_index;
                match spec_next_match(
                    old(self)@.ledger.changes,
                    cursor,
                    id_user,
                    include_my_changes,
                    include_anonymous_changes,
                ) {
                    Some(i) => r == Some(old(self)@.ledger.changes[i as int]) && final (
                    self)@.ledger.users == old(self)@.ledger.users.update(
                        id_user as int,
                        UserView {
                            name: old(self)@.ledger.users[id_user as int].name,
                            use_notification: true,
                            next_notification_index: (i + 1) as nat,
                        },
                    ),
                    None => r is None && final (self)@.ledger.users == old(
                        self,
                    )@.ledger.users.update(
                        id_user as int,
                        UserView {
                            name: old(self)@.ledger.users[id_user as int].name,
                            use_notification: true,
                            next_notification_index: old(self)@.ledger.changes.len(),
                        },
                    ),
                }
            },
    {
        self.id_users.get_change(id_user, include_my_changes, include_anonymous_changes)
    }
}

/// The anonymous user's display name.
fn anonymous_name() -> (r: String)
    ensures
        r@ == "Anonymous user"@,
{
    String::from_str("Anonymous user")
}

/// A sequence of tags found absent by the scan really has no entry with the
/// word address.
pub proof fn lemma_find_none_means_absent_wa(tags: Seq<Tag>, addr: int)
    requires
        spec_find_by_wa(tags, addr) is None,
    ensures
        forall|i: int| 0 <= i < tags.len() ==> (#[trigger] tags[i]).word_address != addr,
    decreases tags.len(),
{
    if tags.len() > 0 {
        lemma_find_none_means_absent_wa(tags.skip(1), addr);
        assert forall|i: int| 0 <= i < tags.len() implies (#[trigger] tags[i]).word_address
            != addr by {
            if i > 0 {
                assert(tags.skip(1)[i - 1] == tags[i]);
            }
        }
    }
}

/// A sequence of tags found absent by the scan really has no entry with the
/// key.
pub proof fn lemma_find_none_means_absent_id(tags: Seq<Tag>, id_tag: IdTag)
    requires
        spec_find_by_id(tags, id_tag) is None,
    ensures
        forall|i: int| 0 <= i < tags.len() ==> (#[trigger] tags[i]).id_tag != id_tag,
    decreases tags.len(),
{
    if tags.len() > 0 {
        lemma_find_none_means_absent_id(tags.skip(1), id_tag);
        assert forall|i: int| 0 <= i < tags.len() implies (#[trigger] tags[i]).id_tag != id_tag by {
            if i > 0 {
                assert(tags.skip(1)[i - 1] == tags[i]);
            }
        }
    }
}

/// Recording one more change is one more debounced append to the ledger.
pub proof fn lemma_notify_all_snoc(
    l: IdUsersView,
    id_user: IdUser,
    ids: Seq<IdTag>,
    times: Seq<u64>,
    id: IdTag,
    now: u64,
)
    requires
        ids.len() == times.len(),
    ensures
        spec_notify_all(l, id_user, ids.push(id), times.push(now)) == spec_add_change_at(
            spec_notify_all(l, id_user, ids, times),
            NotificationChange { id_user, id_tag: id },
            now,
        ),
    decreases ids.len(),
{
    if ids.len() == 0 {
        assert(ids.push(id)[0] == id);
        assert(times.push(now)[0] == now);
        assert(ids.push(id).skip(1) =~= Seq::<IdTag>::empty());
        assert(times.push(now).skip(1) =~= Seq::<u64>::empty());
        let stepped = spec_add_change_at(l, NotificationChange { id_user, id_tag: id }, now);
        assert(spec_notify_all(stepped, id_user, Seq::<IdTag>::empty(), Seq::<u64>::empty())
            == stepped);
        assert(spec_notify_all(l, id_user, ids, times) == l);
    } else {
        assert(ids.push(id)[0] == ids[0]);
        assert(times.push(now)[0] == times[0]);
        assert(ids.push(id).skip(1) =~= ids.skip(1).push(id));
        assert(times.push(now).skip(1) =~= times.skip(1).push(now));
        lemma_notify_all_snoc(
            spec_add_change_at(l, NotificationChange { id_user, id_tag: ids[0] }, times[0]),
            id_user,
            ids.skip(1),
            times.skip(1),
            id,
            now,
        );
    }
}

} // verus!
