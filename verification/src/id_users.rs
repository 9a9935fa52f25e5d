//! Identified users of the database and the per-user change-notification
//! ledger: an append-only log of changes with one read cursor per user,
//! debounced appends, and a purge of entries every subscriber has seen.

use vstd::prelude::*;

use crate::id_tag::IdTag;

verus! {

use vstd::string::StringExecFns;

/// Identifier of a database user.
pub type IdUser = usize;

/// The anonymous user; it never receives notifications.
pub const ID_ANONYMOUS_USER: IdUser = 0;

/// Two equal consecutive writes within this window leave one log entry.
pub const DURATION_CHANGE_FILTER_MILLIS: u64 = 1000;

/// One identified user.
#[derive(Debug)]
pub struct User {
    /// Name the user registered with.
    name: String,
    /// True when the user wants change notifications.
    use_notification: bool,
    /// First index of the change log not yet notified to this user.
    next_notification_index: usize,
}

/// Mathematical model of a `User`.
#[verifier::ext_equal]
pub struct UserView {
    pub name: Seq<char>,
    pub use_notification: bool,
    pub next_notification_index: nat,
}

impl View for User {
    type V = UserView;

    closed spec fn view(&self) -> UserView {
        UserView {
            name: self.name@,
            use_notification: self.use_notification,
            next_notification_index: self.next_notification_index as nat,
        }
    }
}

/// One recorded change of the database.
#[derive(Clone, Copy, Debug, PartialEq, Eq, Structural)]
pub struct NotificationChange {
    /// User who made the change.
    pub id_user: IdUser,
    /// Key of the changed tag.
    pub id_tag: IdTag,
}

/// The monotonic clock's opaque reading, the debounce's time base: unlike
/// the wall clock it never jumps backwards.
#[verifier::external_type_specification]
#[verifier::external_body]
pub struct ExInstant(std::time::Instant);

/// The user registry and the change log.
#[derive(Debug)]
pub struct IdUsers {
    /// Identified users; index 0 is the anonymous user.
    vec_users: Vec<User>,
    /// Append-only log of changes.
    vec_changes: Vec<NotificationChange>,
    /// Moment of the latest appended change, in milliseconds of the
    /// ledger's clock.
    date_last_change_millis: u64,
    /// Birth of the ledger: the zero of its clock.
    epoch: std::time::Instant,
}

/// Mathematical model of `IdUsers`.
#[verifier::ext_equal]
pub struct IdUsersView {
    pub users: Seq<UserView>,
    pub changes: Seq<NotificationChange>,
    pub last_millis: u64,
}

impl View for IdUsers {
    type V = IdUsersView;

    closed spec fn view(&self) -> IdUsersView {
        IdUsersView {
            users: Seq::new(self.vec_users@.len(), |i: int| self.vec_users@[i]@),
            changes: self.vec_changes@,
            last_millis: self.date_last_change_millis,
        }
    }
}

/// Well-formedness of the ledger: the anonymous user exists and subscribes to
/// nothing, and no cursor points past the log.
pub open spec fn ledger_wf(l: IdUsersView) -> bool {
    &&& l.users.len() >= 1
    &&& !l.users[0].use_notification
    &&& forall|i: int|
        0 <= i < l.users.len() ==> (#[trigger] l.users[i]).next_notification_index
            <= l.changes.len()
}

/// Whether a change equals the last logged one and arrives within the
/// debounce window.
pub open spec fn spec_same_as_last(l: IdUsersView, nc: NotificationChange, now: u64) -> bool {
    &&& l.changes.len() > 0
    &&& l.changes.last() == nc
    &&& l.last_millis <= now
    &&& now - l.last_millis < DURATION_CHANGE_FILTER_MILLIS
}

/// Whether any user subscribes to notifications.
pub open spec fn spec_someone_subscribed(users: Seq<UserView>) -> bool {
    exists|i: int| 0 <= i < users.len() && (#[trigger] users[i]).use_notification
}

/// Smallest cursor among subscribed users, `cap` when none is subscribed.
pub open spec fn spec_min_cursor(users: Seq<UserView>, cap: nat) -> nat
    decreases users.len(),
{
    if users.len() == 0 {
        cap
    } else {
        let rest = spec_min_cursor(users.skip(1), cap);
        if users[0].use_notification && users[0].next_notification_index < rest {
            users[0].next_notification_index
        } else {
            rest
        }
    }
}

/// Every user's cursor moved back by `k`, saturating at 0.
pub open spec fn spec_shift_users(users: Seq<UserView>, k: nat) -> Seq<UserView> {
    users.map_values(
        |u: UserView|
            UserView {
                name: u.name,
                use_notification: u.use_notification,
                next_notification_index: if u.next_notification_index >= k {
                    (u.next_notification_index - k) as nat
                } else {
                    0
                },
            },
    )
}

/// The ledger purged of every entry all subscribed users have seen.
pub open spec fn spec_purge(l: IdUsersView) -> IdUsersView {
    if l.changes.len() == 0 {
        l
    } else {
        let k = spec_min_cursor(l.users, l.changes.len());
        if k > 0 {
            IdUsersView {
                users: spec_shift_users(l.users, k),
                changes: l.changes.skip(k as int),
                last_millis: l.last_millis,
            }
        } else {
            l
        }
    }
}

/// The ledger after recording a change at moment `now`: nothing when the
/// change repeats the last one within the debounce window or nobody
/// subscribes; otherwise the change is appended, the moment remembered, and
/// fully-seen entries are purged.
pub open spec fn spec_add_change_at(l: IdUsersView, nc: NotificationChange, now: u64) -> IdUsersView {
    if !spec_same_as_last(l, nc, now) && spec_someone_subscribed(l.users) {
        spec_purge(IdUsersView { users: l.users, changes: l.changes.push(nc), last_millis: now })
    } else {
        l
    }
}

/// Whether a change passes a reader's filters.
pub open spec fn spec_passes(
    nc: NotificationChange,
    id_user: IdUser,
    include_my_changes: bool,
    include_anonymous_changes: bool,
) -> bool {
    &&& (include_anonymous_changes || nc.id_user != ID_ANONYMOUS_USER)
    &&& (include_my_changes || nc.id_user != id_user)
}

/// Index of the first change at or after `from` that passes the filters.
pub open spec fn spec_next_match(
    changes: Seq<NotificationChange>,
    from: nat,
    id_user: IdUser,
    include_my_changes: bool,
    include_anonymous_changes: bool,
) -> Option<nat>
    decreases changes.len() - from,
{
    if from >= changes.len() {
        None
    } else if spec_passes(changes[from as int], id_user, include_my_changes,
    include_anonymous_changes) {
        Some(from)
    } else {
        spec_next_match(changes, from + 1, id_user, include_my_changes, include_anonymous_changes)
    }
}

/// Relies on `std::time::Instant::now`: a fresh reading of the monotonic
/// clock. Nothing is promised of the value.
#[verifier::external_body]
fn instant_now() -> std::time::Instant {
    std::time::Instant::now()
}

/// Relies on `std::time::Instant::elapsed`: how long ago `epoch` was, in
/// whole milliseconds of the monotonic clock — readings against one epoch
/// never decrease. Nothing is promised of the value.
#[verifier::external_body]
fn millis_since(epoch: &std::time::Instant) -> u64 {
    epoch.elapsed().as_millis() as u64
}

impl IdUsers {
    /// A fresh ledger: the anonymous user alone and an empty log. The moment
    /// of the latest change starts at the current clock reading.
    pub fn new() -> (r: IdUsers)
        ensures
            ledger_wf(r@),
            r@.users.len() == 1,
            !r@.users[0].use_notification,
            r@.changes == Seq::<NotificationChange>::empty(),
    {
        let mut vec_users: Vec<User> = Vec::new();
        vec_users.push(
            User {
                name: anonymous_user_name(),
                use_notification: false,
                next_notification_index: 0,
            },
        );
        let r = IdUsers {
            vec_users,
            vec_changes: Vec::new(),
            date_last_change_millis: 0,
            epoch: instant_now(),
        };
        proof {
            assert(r@.users.len() == 1);
        }
        r
    }

    /// Registers a user under a name, subscribed to notifications or not.
    /// The new identifier is never the anonymous user's; the user's cursor
    /// starts at the end of the log, so only later changes reach them.
    pub fn get_id_user(&mut self, name: &str, use_notification: bool) -> (r: IdUser)
        requires
            ledger_wf(old(self)@),
            old(self)@.users.len() < usize::MAX,
        ensures
            ledger_wf(final (self)@),
            r == old(self)@.users.len(),
            r != ID_ANONYMOUS_USER,
            final (self)@.changes == old(self)@.changes,
            final (self)@.last_millis == old(self)@.last_millis,
            final (self)@.users == old(self)@.users.push(
                UserView {
                    name: name@,
                    use_notification,
                    next_notification_index: old(self)@.changes.len(),
                },
            ),
    {
        let new_id_user = self.vec_users.len();
        let next_notification_index = self.vec_changes.len();
        let new_user = User {
            name: String::from_str(name),
            use_notification,
            next_notification_index,
        };
        self.vec_users.push(new_user);
        proof {
            assert(final (self)@.users =~= old(self)@.users.push(
                UserView {
                    name: name@,
                    use_notification,
                    next_notification_index: old(self)@.changes.len(),
                },
            ));
        }
        new_id_user
    }

    /// Count of entries the change log currently holds.
    pub fn nb_changes(&self) -> (r: usize)
        ensures
            r == self@.changes.len(),
    {
        self.vec_changes.len()
    }

    /// The name a user registered under; `None` for an unknown identifier.
    pub fn get_id_user_name(&self, id_user: IdUser) -> (r: Option<String>)
        ensures
            match r {
                Some(name) => id_user < self@.users.len() && name@ == self@.users[
                    id_user as int
                ].name,
                None => id_user >= self@.users.len(),
            },
    {
        if id_user < self.vec_users.len() {
            Some(String::from_str(self.vec_users[id_user].name.as_str()))
        } else {
            None
        }
    }

    /// Records a change at the moment the clock shows now. The log evolves as
    /// `spec_add_change_at` describes, for some clock reading.
    pub fn add_change(&mut self, notification_change: &NotificationChange)
        requires
            ledger_wf(old(self)@),
        ensures
            ledger_wf(final (self)@),
            exists|now: u64|
                final (self)@ == spec_add_change_at(old(self)@, *notification_change, now),
    {
        let now = millis_since(&self.epoch);
        self.add_change_at(notification_change, now);
    }

    /// Records a change at the given moment: appended and purged, or dropped
    /// as a repeat within the debounce window, exactly as
    /// `spec_add_change_at` describes.
    pub fn add_change_at(&mut self, notification_change: &NotificationChange, now: u64)
        requires
            ledger_wf(old(self)@),
        ensures
            ledger_wf(final (self)@),
            final (self)@ == spec_add_change_at(old(self)@, *notification_change, now),
    {
        let same = self.is_same_as_last_change(notification_change, now);
        let someone = self.is_some_users_use_notification();
        if !same && someone {
            self.vec_changes.push(*notification_change);
            self.date_last_change_millis = now;
            let ghost mid = self@;
            proof {
                assert(mid.users =~= old(self)@.users);
                assert(ledger_wf(mid));
            }
            self.purge_changes();
            proof {
                assert(final (self)@ == spec_purge(mid));
            }
        } else {
            proof {
                assert(final (self)@ == old(self)@);
            }
        }
    }

    /// Whether the change equals the last logged one within the window.
    fn is_same_as_last_change(&self, notification_change: &NotificationChange, now: u64) -> (r:
        bool)
        ensures
            r == spec_same_as_last(self@, *notification_change, now),
    {
        if self.vec_changes.len() == 0 {
            return false;
        }
        let last = self.vec_changes[self.vec_changes.len() - 1];
        last.id_user == notification_change.id_user && last.id_tag == notification_change.id_tag
            && self.date_last_change_millis <= now && now - self.date_last_change_millis
            < DURATION_CHANGE_FILTER_MILLIS
    }

    /// Whether any user subscribes to notifications.
    fn is_some_users_use_notification(&self) -> (r: bool)
        ensures
            r == spec_someone_subscribed(self@.users),
    {
        let mut i: usize = 0;
        while i < self.vec_users.len()
            invariant
                0 <= i <= self@.users.len(),
                self@.users.len() == self.vec_users@.len(),
                forall|j: int| 0 <= j < i ==> !(#[trigger] self@.users[j]).use_notification,
            decreases self@.users.len() - i,
        {
            proof {
                assert(self@.users[i as int] == self.vec_users@[i as int]@);
            }
            if self.vec_users[i].use_notification {
                proof {
                    assert(self@.users[i as int] == self.vec_users@[i as int]@);
                }
                return true;
            }
            i += 1;
        }
        false
    }

    /// Removes every leading log entry all subscribed users have seen and
    /// moves the cursors back accordingly.
    fn purge_changes(&mut self)
        requires
            ledger_wf(old(self)@),
        ensures
            ledger_wf(final (self)@),
            final (self)@ == spec_purge(old(self)@),
    {
        if self.vec_changes.len() == 0 {
            return;
        }
        let mut min_changes_index: usize = self.vec_changes.len();
        let mut i: usize = self.vec_users.len();
        proof {
            assert(self@.users.skip(i as int) =~= Seq::<UserView>::empty());
        }
        while i > 0
            invariant
                0 <= i <= self.vec_users@.len(),
                self@.users.len() == self.vec_users@.len(),
                min_changes_index == spec_min_cursor(self@.users.skip(i as int), self@.changes.len()),
                min_changes_index <= self@.changes.len(),
            decreases i,
        {
            i -= 1;
            let user = &self.vec_users[i];
            proof {
                assert(self@.users[i as int] == self.vec_users@[i as int]@);
                assert(self@.users.skip(i as int)[0] == self@.users[i as int]);
                assert(self@.users.skip(i as int).skip(1) =~= self@.users.skip(i + 1));
            }
            if user.use_notification && user.next_notification_index < min_changes_index {
                min_changes_index = user.next_notification_index;
            }
        }
        proof {
            assert(self@.users.skip(0) =~= self@.users);
        }
        if min_changes_index > 0 {
            self.do_purge_changes(min_changes_index);
        }
    }

    /// Drops the first `nb` log entries and moves every cursor back by `nb`,
    /// saturating at 0.
    fn do_purge_changes(&mut self, nb: usize)
        requires
            ledger_wf(old(self)@),
            nb <= old(self)@.changes.len(),
        ensures
            ledger_wf(final (self)@),
            final (self)@.changes == old(self)@.changes.skip(nb as int),
            final (self)@.users == spec_shift_users(old(self)@.users, nb as nat),
            final (self)@.last_millis == old(self)@.last_millis,
    {
        let mut kept: Vec<NotificationChange> = Vec::new();
        let mut i: usize = nb;
        proof {
            assert(kept@ =~= old(self)@.changes.subrange(nb as int, nb as int));
        }
        while i < self.vec_changes.len()
            invariant
                nb <= i <= self.vec_changes@.len(),
                self.vec_changes@ == old(self)@.changes,
                kept@ == old(self)@.changes.subrange(nb as int, i as int),
            decreases self.vec_changes@.len() - i,
        {
            kept.push(self.vec_changes[i]);
            proof {
                assert(old(self)@.changes.subrange(nb as int, i + 1 as int) =~= old(
                    self,
                )@.changes.subrange(nb as int, i as int).push(old(self)@.changes[i as int]));
            }
            i += 1;
        }
        self.vec_changes = kept;
        let mut u: usize = 0;
        let ghost users0 = old(self)@.users;
        while u < self.vec_users.len()
            invariant
                0 <= u <= self.vec_users@.len(),
                self.vec_users@.len() == users0.len(),
                forall|j: int| u <= j < users0.len() ==> self.vec_users@[j]@ == users0[j],
                forall|j: int|
                    0 <= j < u ==> self.vec_users@[j]@ == spec_shift_users(users0, nb as nat)[j],
                self.vec_changes@ == old(self)@.changes.skip(nb as int),
                self.date_last_change_millis == old(self)@.last_millis,
            decreases self.vec_users@.len() - u,
        {
            let cur = self.vec_users[u].next_notification_index;
            let new_index: usize = if cur >= nb {
                cur - nb
            } else {
                0
            };
            self.vec_users[u].next_notification_index = new_index;
            u += 1;
        }
        proof {
            assert(final (self)@.changes =~= old(self)@.changes.skip(nb as int));
            assert(final (self)@.users =~= spec_shift_users(users0, nb as nat));
        }
    }

    /// Returns the next change for a user that passes the filters, advancing
    /// the cursor past it and past every earlier filtered-out entry (those
    /// are dropped for this user for good). An unknown or unsubscribed user
    /// gets `None` and nothing moves.
    pub fn get_change(
        &mut self,
        id_user: IdUser,
        include_my_changes: bool,
        include_anonymous_changes: bool,
    ) -> (r: Option<NotificationChange>)
        requires
            ledger_wf(old(self)@),
        ensures
            ledger_wf(final (self)@),
            final (self)@.changes == old(self)@.changes,
            final (self)@.last_millis == old(self)@.last_millis,
            id_user >= old(self)@.users.len() || !old(self)@.users[id_user as int].use_notification
                ==> r is None && final (self)@ == old(self)@,
            id_user < old(self)@.users.len() && old(self)@.users[id_user as int].use_notification
                ==> {
                let cursor = old(self)@.users[id_user as int].next_notification_index;
                match spec_next_match(
                    old(self)@.changes,
                    cursor,
                    id_user,
                    include_my_changes,
                    include_anonymous_changes,
                ) {
                    Some(i) => r == Some(old(self)@.changes[i as int]) && final (self)@.users
                        == old(self)@.users.update(
                        id_user as int,
                        UserView {
                            name: old(self)@.users[id_user as int].name,
                            use_notification: true,
                            next_notification_index: (i + 1) as nat,
                        },
                    ),
                    None => r is None && final (self)@.users == old(self)@.users.update(
                        id_user as int,
                        UserView {
                            name: old(self)@.users[id_user as int].name,
                            use_notification: true,
                            next_notification_index: old(self)@.changes.len(),
                        },
                    ),
                }
            },
    {
        proof {
            assert(self@.users.len() == self.vec_users@.len());
        }
        if id_user >= self.vec_users.len() {
            proof {
                assert(final (self)@ == old(self)@);
            }
            return None;
        }
        proof {
            assert(self@.users[id_user as int] == self.vec_users@[id_user as int]@);
        }
        if !self.vec_users[id_user].use_notification {
            proof {
                assert(final (self)@ == old(self)@);
            }
            return None;
        }
        let offset = self.vec_users[id_user].next_notification_index;
        let mut notification_offset = offset;
        while notification_offset < self.vec_changes.len()
            invariant
                ledger_wf(self@),
                self@ == old(self)@,
                offset <= notification_offset <= self@.changes.len(),
                id_user < self@.users.len(),
                old(self)@.users[id_user as int].use_notification,
                offset == old(self)@.users[id_user as int].next_notification_index,
                spec_next_match(
                    self@.changes,
                    offset as nat,
                    id_user,
                    include_my_changes,
                    include_anonymous_changes,
                ) == spec_next_match(
                    self@.changes,
                    notification_offset as nat,
                    id_user,
                    include_my_changes,
                    include_anonymous_changes,
                ),
            decreases self@.changes.len() - notification_offset,
        {
            let notification = self.vec_changes[notification_offset];
            if (include_anonymous_changes || notification.id_user != ID_ANONYMOUS_USER) && (
            include_my_changes || notification.id_user != id_user) {
                let ghost pre = self@;
                self.vec_users[id_user].next_notification_index = notification_offset + 1;
                proof {
                    let upd = old(self)@.users.update(
                        id_user as int,
                        UserView {
                            name: old(self)@.users[id_user as int].name,
                            use_notification: true,
                            next_notification_index: (notification_offset + 1) as nat,
                        },
                    );
                    assert forall|j: int| 0 <= j < self.vec_users@.len() implies self@.users[j]
                        == upd[j] by {
                        assert(self@.users[j] == self.vec_users@[j]@);
                        assert(pre.users[j] == old(self)@.users[j]);
                    }
                    assert(self@.users =~= upd);
                    assert(self@.changes == old(self)@.changes);
                }
                return Some(notification);
            }
            notification_offset += 1;
        }
        let ghost pre = self@;
        self.vec_users[id_user].next_notification_index = notification_offset;
        proof {
            let upd = old(self)@.users.update(
                id_user as int,
                UserView {
                    name: old(self)@.users[id_user as int].name,
                    use_notification: true,
                    next_notification_index: old(self)@.changes.len(),
                },
            );
            assert forall|j: int| 0 <= j < self.vec_users@.len() implies self@.users[j] == upd[
                j
            ] by {
                assert(self@.users[j] == self.vec_users@[j]@);
                assert(pre.users[j] == old(self)@.users[j]);
            }
            assert(self@.users =~= upd);
        }
        None
    }
}

/// The anonymous user's display name.
fn anonymous_user_name() -> (r: String)
    ensures
        r@ == "Anonymous user"@,
{
    String::from_str("Anonymous user")
}

/// Properties of the reader's search: the index found is the first passing
/// entry at or after the cursor, and every entry skipped on the way fails the
/// filter. With no index found, everything from the cursor on fails.
pub proof fn lemma_next_match_props(
    changes: Seq<NotificationChange>,
    from: nat,
    id_user: IdUser,
    include_my_changes: bool,
    include_anonymous_changes: bool,
)
    ensures
        match spec_next_match(changes, from, id_user, include_my_changes,
        include_anonymous_changes) {
            Some(i) => from <= i < changes.len() && spec_passes(
                changes[i as int],
                id_user,
                include_my_changes,
                include_anonymous_changes,
            ) && forall|j: int|
                from <= j < i ==> !spec_passes(
                    #[trigger] changes[j],
                    id_user,
                    include_my_changes,
                    include_anonymous_changes,
                ),
            None => forall|j: int|
                from <= j < changes.len() ==> !spec_passes(
                    #[trigger] changes[j],
                    id_user,
                    include_my_changes,
                    include_anonymous_changes,
                ),
        },
    decreases changes.len() - from,
{
    if from < changes.len() && !spec_passes(
        changes[from as int],
        id_user,
        include_my_changes,
        include_anonymous_changes,
    ) {
        lemma_next_match_props(
            changes,
            from + 1,
            id_user,
            include_my_changes,
            include_anonymous_changes,
        );
    }
}

/// Notification ordering: for one reader, the change returned is the first
/// passing entry at or after the cursor — earlier passing entries are never
/// skipped — and a second read starts past it, so one reader sees the passing
/// entries of the log in log order, without omission.
pub proof fn lemma_notification_ordering(
    changes: Seq<NotificationChange>,
    cursor: nat,
    id_user: IdUser,
    include_my_changes: bool,
    include_anonymous_changes: bool,
)
    ensures
        match spec_next_match(changes, cursor, id_user, include_my_changes,
        include_anonymous_changes) {
            Some(i) => {
                &&& cursor <= i < changes.len()
                &&& spec_passes(
                    changes[i as int],
                    id_user,
                    include_my_changes,
                    include_anonymous_changes,
                )
                &&& forall|j: int|
                    cursor <= j < i ==> !spec_passes(
                        #[trigger] changes[j],
                        id_user,
                        include_my_changes,
                        include_anonymous_changes,
                    )
                &&& match spec_next_match(
                    changes,
                    i + 1,
                    id_user,
                    include_my_changes,
                    include_anonymous_changes,
                ) {
                    Some(i2) => i2 > i,
                    None => true,
                }
            },
            None => forall|j: int|
                cursor <= j < changes.len() ==> !spec_passes(
                    #[trigger] changes[j],
                    id_user,
                    include_my_changes,
                    include_anonymous_changes,
                ),
        },
{
    lemma_next_match_props(changes, cursor, id_user, include_my_changes, include_anonymous_changes);
    if spec_next_match(changes, cursor, id_user, include_my_changes, include_anonymous_changes)
        is Some {
        let i = spec_next_match(
            changes,
            cursor,
            id_user,
            include_my_changes,
            include_anonymous_changes,
        )->Some_0;
        lemma_next_match_props(
            changes,
            i + 1,
            id_user,
            include_my_changes,
            include_anonymous_changes,
        );
    }
}

/// Debounce: starting from a ledger with a subscriber whose cursor is at the
/// log's start (so no purge interferes), a first write is appended; a second
/// identical write within the window is dropped, and exactly one entry was
/// appended in all; a second identical write at or after the window's end is
/// appended too, and both entries stand in the log.
pub proof fn lemma_debounce(l: IdUsersView, nc: NotificationChange, t1: u64, t2: u64)
    requires
        ledger_wf(l),
        !spec_same_as_last(l, nc, t1),
        exists|i: int|
            0 <= i < l.users.len() && (#[trigger] l.users[i]).use_notification && l.users[
                i
            ].next_notification_index == 0,
        t1 <= t2,
    ensures
        ({
            let l1 = spec_add_change_at(l, nc, t1);
            &&& l1.changes == l.changes.push(nc)
            &&& (t2 - t1 < DURATION_CHANGE_FILTER_MILLIS ==> spec_add_change_at(l1, nc, t2) == l1)
            &&& (t2 - t1 >= DURATION_CHANGE_FILTER_MILLIS ==> spec_add_change_at(l1, nc, t2).changes
                == l.changes.push(nc).push(nc))
        }),
{
    let i = choose|i: int|
        0 <= i < l.users.len() && (#[trigger] l.users[i]).use_notification && l.users[
            i
        ].next_notification_index == 0;
    assert(spec_someone_subscribed(l.users));
    let pushed = IdUsersView { users: l.users, changes: l.changes.push(nc), last_millis: t1 };
    lemma_min_cursor_zero(l.users, pushed.changes.len(), i);
    assert(spec_purge(pushed) == pushed);
    let l1 = spec_add_change_at(l, nc, t1);
    assert(l1 == pushed);
    if t2 - t1 < DURATION_CHANGE_FILTER_MILLIS {
        assert(spec_same_as_last(l1, nc, t2));
    } else {
        assert(!spec_same_as_last(l1, nc, t2));
        let pushed2 = IdUsersView {
            users: l1.users,
            changes: l1.changes.push(nc),
            last_millis: t2,
        };
        lemma_min_cursor_zero(l1.users, pushed2.changes.len(), i);
        assert(spec_purge(pushed2) == pushed2);
    }
}

/// A subscribed user with cursor 0 pins the minimum cursor to 0.
proof fn lemma_min_cursor_zero(users: Seq<UserView>, cap: nat, i: int)
    requires
        0 <= i < users.len(),
        users[i].use_notification,
        users[i].next_notification_index == 0,
    ensures
        spec_min_cursor(users, cap) == 0,
    decreases users.len(),
{
    if i == 0 {
        lemma_min_cursor_nonneg(users.skip(1), cap);
    } else {
        assert(users.skip(1)[i - 1] == users[i]);
        lemma_min_cursor_zero(users.skip(1), cap, i - 1);
    }
}

proof fn lemma_min_cursor_nonneg(users: Seq<UserView>, cap: nat)
    ensures
        spec_min_cursor(users, cap) >= 0,
{
}

/// After a purge, the subscribed users' smallest cursor is 0: some subscriber
/// stands at the log's start, or the log is empty.
pub proof fn lemma_purge_resets_min(l: IdUsersView)
    requires
        ledger_wf(l),
    ensures
        spec_min_cursor(spec_purge(l).users, spec_purge(l).changes.len()) == 0,
{
    let p = spec_purge(l);
    if l.changes.len() == 0 {
        lemma_min_cursor_cap_bound(l.users, 0);
    } else {
        let k = spec_min_cursor(l.users, l.changes.len());
        lemma_min_cursor_cap_bound(l.users, l.changes.len());
        if k > 0 {
            lemma_min_cursor_shifted(l.users, l.changes.len(), k);
        }
    }
}

/// The minimum cursor never exceeds its cap.
proof fn lemma_min_cursor_cap_bound(users: Seq<UserView>, cap: nat)
    ensures
        spec_min_cursor(users, cap) <= cap,
    decreases users.len(),
{
    if users.len() > 0 {
        lemma_min_cursor_cap_bound(users.skip(1), cap);
    }
}

/// Shifting every cursor back by the old minimum brings the minimum to 0 (or
/// to the new cap when no subscriber exists).
proof fn lemma_min_cursor_shifted(users: Seq<UserView>, cap: nat, k: nat)
    requires
        k == spec_min_cursor(users, cap),
        k <= cap,
    ensures
        spec_min_cursor(spec_shift_users(users, k), (cap - k) as nat) == (spec_min_cursor(
            users,
            cap,
        ) - k) as nat,
    decreases users.len(),
{
    lemma_min_cursor_is_min(users, cap);
    lemma_min_cursor_shift_by(users, cap, k);
}

/// Shifting cursors back by `k` (no larger than any subscribed cursor or the
/// cap) shifts the minimum by `k`.
proof fn lemma_min_cursor_shift_by(users: Seq<UserView>, cap: nat, k: nat)
    requires
        k <= cap,
        forall|i: int|
            0 <= i < users.len() && (#[trigger] users[i]).use_notification ==> users[
                i
            ].next_notification_index >= spec_min_cursor(users, cap),
        k <= spec_min_cursor(users, cap),
    ensures
        spec_min_cursor(spec_shift_users(users, k), (cap - k) as nat) >= spec_min_cursor(users, cap)
            - k,
        spec_min_cursor(spec_shift_users(users, k), (cap - k) as nat) <= spec_min_cursor(users, cap)
            - k,
    decreases users.len(),
{
    if users.len() == 0 {
    } else {
        let tail = users.skip(1);
        assert forall|i: int|
            0 <= i < tail.len() && (#[trigger] tail[i]).use_notification implies tail[
            i
        ].next_notification_index >= spec_min_cursor(tail, cap) by {
            lemma_min_cursor_is_min(tail, cap);
        }
        lemma_min_cursor_ge(users, cap);
        lemma_min_cursor_ge(tail, cap);
        assert(k <= spec_min_cursor(tail, cap)) by {
            if users[0].use_notification && users[0].next_notification_index < spec_min_cursor(
                tail,
                cap,
            ) {
            } else {
            }
        }
        lemma_min_cursor_shift_by(tail, cap, k);
        assert(spec_shift_users(users, k).skip(1) =~= spec_shift_users(tail, k));
    }
}

/// The minimum cursor is no larger than any subscribed user's cursor.
proof fn lemma_min_cursor_is_min(users: Seq<UserView>, cap: nat)
    ensures
        forall|i: int|
            0 <= i < users.len() && (#[trigger] users[i]).use_notification ==> users[
                i
            ].next_notification_index >= spec_min_cursor(users, cap),
    decreases users.len(),
{
    if users.len() > 0 {
        lemma_min_cursor_is_min(users.skip(1), cap);
        lemma_min_cursor_ge(users.skip(1), cap);
        assert forall|i: int|
            0 <= i < users.len() && (#[trigger] users[i]).use_notification implies users[
            i
        ].next_notification_index >= spec_min_cursor(users, cap) by {
            if i > 0 {
                assert(users.skip(1)[i - 1] == users[i]);
            }
        }
    }
}

/// The minimum with a tail cap is no larger than the head's contribution.
proof fn lemma_min_cursor_ge(users: Seq<UserView>, cap: nat)
    ensures
        spec_min_cursor(users, cap) <= cap,
    decreases users.len(),
{
    if users.len() > 0 {
        lemma_min_cursor_ge(users.skip(1), cap);
    }
}

} // verus!
