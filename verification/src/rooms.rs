use vstd::prelude::*;

use crate::ids::{RoomId, UserId};

verus! {

/// One room with its ordered member list.
pub struct RoomEntry {
    pub room: RoomId,
    pub users: Vec<UserId>,
}

/// Room registry: a mapping from room identifier to the ordered,
/// de-duplicated sequence of its members. A room exists exactly while it has
/// at least one member.
pub struct RoomManager {
    pub rooms: Vec<RoomEntry>,
}

/// True when `users` holds a member whose identifier text is `user`.
pub open spec fn has_user_view(users: Seq<UserId>, user: Seq<char>) -> bool {
    exists|k: int| 0 <= k < users.len() && users[k]@ == user
}

/// True when no two members of `users` share their identifier text.
pub open spec fn distinct_user_views(users: Seq<UserId>) -> bool {
    forall|a: int, b: int| 0 <= a < b < users.len() ==> users[a]@ != users[b]@
}

/// The predicate that keeps every member other than `user`.
pub open spec fn keep_other_than(user: Seq<char>) -> spec_fn(UserId) -> bool {
    |u: UserId| u@ != user
}

proof fn lemma_filter_distinct_views(users: Seq<UserId>, pred: spec_fn(UserId) -> bool)
    requires
        distinct_user_views(users),
    ensures
        distinct_user_views(users.filter(pred)),
    decreases users.len(),
{
    reveal(Seq::filter);
    if users.len() > 0 {
        let dl = users.drop_last();
        assert(distinct_user_views(dl));
        lemma_filter_distinct_views(dl, pred);
        if pred(users.last()) {
            let f = dl.filter(pred);
            assert forall|a: int| 0 <= a < f.len() implies f[a]@ != users.last()@ by {
                assert(f.contains(f[a]));
                dl.lemma_filter_contains_rev(pred, f[a]);
                let k = choose|k: int| 0 <= k < dl.len() && dl[k] == f[a];
                assert(users[k]@ != users.last()@);
            }
        }
    }
}

impl RoomManager {
    /// Internal well-formedness: room identifiers are distinct, every room
    /// has at least one member, and no room lists a member twice.
    pub open spec fn wf(&self) -> bool {
        &&& forall|i: int, j: int|
            0 <= i < j < self.rooms@.len() ==> (#[trigger] self.rooms@[i]).room@ != (
            #[trigger] self.rooms@[j]).room@
        &&& forall|i: int|
            0 <= i < self.rooms@.len() ==> (#[trigger] self.rooms@[i]).users@.len() > 0
        &&& forall|i: int|
            0 <= i < self.rooms@.len() ==> distinct_user_views(
                (#[trigger] self.rooms@[i]).users@,
            )
    }

    /// True when a room with identifier text `room` exists.
    pub open spec fn has_room(&self, room: Seq<char>) -> bool {
        exists|i: int| 0 <= i < self.rooms@.len() && self.rooms@[i].room@ == room
    }

    /// The index of the room with identifier text `room`.
    pub open spec fn room_idx(&self, room: Seq<char>) -> int {
        choose|i: int| 0 <= i < self.rooms@.len() && self.rooms@[i].room@ == room
    }

    /// The ordered member list of the room with identifier text `room`.
    pub open spec fn users_of(&self, room: Seq<char>) -> Seq<UserId> {
        self.rooms@[self.room_idx(room)].users@
    }

    /// True when a room `room` exists and lists `user` as a member.
    pub open spec fn is_member(&self, room: Seq<char>, user: Seq<char>) -> bool {
        &&& self.has_room(room)
        &&& has_user_view(self.users_of(room), user)
    }

    pub proof fn lemma_room_idx_is(&self, room: Seq<char>, i: int)
        requires
            self.wf(),
            0 <= i < self.rooms@.len(),
            self.rooms@[i].room@ == room,
        ensures
            self.has_room(room),
            self.room_idx(room) == i,
    {
        assert(self.has_room(room));
        let j = self.room_idx(room);
        if j != i {
            if j < i {
                assert(self.rooms@[j].room@ != self.rooms@[i].room@);
            } else {
                assert(self.rooms@[i].room@ != self.rooms@[j].room@);
            }
        }
    }

    /// An empty registry.
    pub fn new() -> (r: RoomManager)
        ensures
            r.rooms@.len() == 0,
            r.wf(),
    {
        RoomManager { rooms: Vec::new() }
    }

    fn find_room(&self, room: &RoomId) -> (r: Option<usize>)
        requires
            self.wf(),
        ensures
            match r {
                Some(i) => {
                    &&& i < self.rooms@.len()
                    &&& self.rooms@[i as int].room@ == room@
                    &&& self.has_room(room@)
                    &&& self.room_idx(room@) == i
                },
                None => !self.has_room(room@),
            },
    {
        let n = self.rooms.len();
        let mut i: usize = 0;
        while i < n
            invariant
                self.wf(),
                n == self.rooms@.len(),
                0 <= i <= n,
                forall|j: int| 0 <= j < i ==> (#[trigger] self.rooms@[j]).room@ != room@,
            decreases n - i,
        {
            if self.rooms[i].room == *room {
                proof {
                    self.lemma_room_idx_is(room@, i as int);
                }
                return Some(i);
            }
            i = i + 1;
        }
        None
    }

    /// Adds `user` to `room`, creating the room when it does not exist yet.
    /// Returns true exactly when the room came into existence by this call.
    /// Re-adding a member that is already listed leaves the registry
    /// unchanged (and still returns false, since the room existed).
    pub fn add_user(&mut self, room: RoomId, user: UserId) -> (r: bool)
        requires
            old(self).wf(),
        ensures
            final(self).wf(),
            r == !old(self).has_room(room@),
            final(self).has_room(room@),
            !old(self).has_room(room@) ==> {
                &&& final(self).rooms@.len() == old(self).rooms@.len() + 1
                &&& final(self).rooms@.subrange(0, old(self).rooms@.len() as int) == old(
                    self,
                ).rooms@
                &&& final(self).rooms@.last().room == room
                &&& final(self).rooms@.last().users@ == seq![user]
            },
            old(self).has_room(room@) && has_user_view(old(self).users_of(room@), user@)
                ==> final(self).rooms@ == old(self).rooms@,
            old(self).has_room(room@) && !has_user_view(old(self).users_of(room@), user@) ==> {
                let i = old(self).room_idx(room@);
                &&& final(self).rooms@.len() == old(self).rooms@.len()
                &&& forall|j: int|
                    0 <= j < old(self).rooms@.len() && j != i ==> final(self).rooms@[j] == old(
                        self,
                    ).rooms@[j]
                &&& final(self).rooms@[i].room == old(self).rooms@[i].room
                &&& final(self).rooms@[i].users@ == old(self).rooms@[i].users@.push(user)
            },
            final(self).is_member(room@, user@),
            forall|q: Seq<char>, v: Seq<char>|
                #[trigger] old(self).is_member(q, v) ==> final(self).is_member(q, v),
    {
        match self.find_room(&room) {
            Some(i) => {
                let ghost old_self = *self;
                let m = self.rooms[i].users.len();
                let mut present = false;
                let mut k: usize = 0;
                while k < m
                    invariant
                        *self == old_self,
                        self.wf(),
                        i < self.rooms@.len(),
                        m == self.rooms@[i as int].users@.len(),
                        0 <= k <= m,
                        present == has_user_view(
                            self.rooms@[i as int].users@.subrange(0, k as int),
                            user@,
                        ),
                    decreases m - k,
                {
                    let ghost prefix = self.rooms@[i as int].users@.subrange(0, k as int);
                    if self.rooms[i].users[k] == user {
                        present = true;
                    }
                    proof {
                        let next = self.rooms@[i as int].users@.subrange(0, k as int + 1);
                        assert(next.drop_last() =~= prefix);
                        assert(next.last() == self.rooms@[i as int].users@[k as int]);
                        assert(has_user_view(next, user@) == (has_user_view(prefix, user@)
                            || next.last()@ == user@)) by {
                            if has_user_view(prefix, user@) {
                                let w = choose|w: int|
                                    0 <= w < prefix.len() && prefix[w]@ == user@;
                                assert(next[w]@ == user@);
                            }
                            if next.last()@ == user@ {
                                assert(next[next.len() - 1]@ == user@);
                            }
                            if has_user_view(next, user@) && !(next.last()@ == user@) {
                                let w = choose|w: int| 0 <= w < next.len() && next[w]@ == user@;
                                assert(prefix[w]@ == user@);
                            }
                        }
                    }
                    k = k + 1;
                }
                proof {
                    assert(self.rooms@[i as int].users@.subrange(
                        0,
                        self.rooms@[i as int].users@.len() as int,
                    ) =~= self.rooms@[i as int].users@);
                }
                if !present {
                    let mut entry = self.rooms.remove(i);
                    entry.users.push(user);
                    self.rooms.insert(i, entry);
                    proof {
                        assert(self.rooms@ =~= old(self).rooms@.update(
                            i as int,
                            self.rooms@[i as int],
                        ));
                        assert(self.rooms@[i as int].users@ == old(self).rooms@[i as int].users@
                            .push(user));
                        assert(distinct_user_views(self.rooms@[i as int].users@)) by {
                            let us = old(self).rooms@[i as int].users@;
                            assert forall|a: int, b: int|
                                0 <= a < b < us.push(user).len() implies us.push(user)[a]@ != us
                                .push(user)[b]@ by {
                                if b < us.len() {
                                    assert(us[a]@ != us[b]@);
                                } else {
                                    assert(us.push(user)[b] == user);
                                    assert(us.push(user)[a] == us[a]);
                                    assert(!has_user_view(us, user@));
                                }
                            }
                        }
                        old(self).lemma_room_idx_is(room@, i as int);
                        self.lemma_room_idx_is(room@, i as int);
                        let pushed = self.rooms@[i as int].users@;
                        assert(pushed[pushed.len() - 1]@ == user@);
                        assert(has_user_view(self.users_of(room@), user@));
                        assert forall|q: Seq<char>, v: Seq<char>|
                            #[trigger] old(self).is_member(q, v) implies self.is_member(
                            q,
                            v,
                        ) by {
                            let j = old(self).room_idx(q);
                            if j == i {
                                let w = choose|w: int|
                                    0 <= w < old(self).users_of(q).len() && old(self).users_of(
                                        q,
                                    )[w]@ == v;
                                assert(pushed[w]@ == v);
                                assert(has_user_view(self.users_of(q), v));
                            } else {
                                assert(self.rooms@[j] == old(self).rooms@[j]);
                                self.lemma_room_idx_is(q, j);
                            }
                        }
                    }
                } else {
                    proof {
                        old(self).lemma_room_idx_is(room@, i as int);
                        assert(*self == *old(self));
                        assert(has_user_view(self.users_of(room@), user@));
                    }
                }
                false
            },
            None => {
                let mut users: Vec<UserId> = Vec::new();
                users.push(user);
                self.rooms.push(RoomEntry { room, users });
                proof {
                    let n = old(self).rooms@.len() as int;
                    assert(self.rooms@.subrange(0, n) =~= old(self).rooms@);
                    assert(self.rooms@.last().users@ =~= seq![user]);
                    assert(self.wf()) by {
                        assert forall|i: int, j: int|
                            0 <= i < j < self.rooms@.len() implies (
                        #[trigger] self.rooms@[i]).room@ != (#[trigger] self.rooms@[j]).room@ by {
                            if j == n {
                                assert(!old(self).has_room(self.rooms@[n].room@));
                                assert(old(self).rooms@[i].room@ != self.rooms@[n].room@);
                            }
                        }
                    }
                    self.lemma_room_idx_is(self.rooms@.last().room@, n);
                    assert(self.users_of(room@)[0]@ == user@);
                    assert(has_user_view(self.users_of(room@), user@));
                    assert forall|q: Seq<char>, v: Seq<char>|
                        #[trigger] old(self).is_member(q, v) implies self.is_member(q, v) by {
                        let j = old(self).room_idx(q);
                        assert(self.rooms@[j] == old(self).rooms@[j]);
                        self.lemma_room_idx_is(q, j);
                    }
                }
                true
            },
        }
    }

    /// Removes `user` from `room`. When the room loses its last member the
    /// room itself is removed and the call returns true; otherwise (the room
    /// keeps other members, or no such room exists) it returns false.
    pub fn remove_user(&mut self, room: &RoomId, user: &UserId) -> (r: bool)
        requires
            old(self).wf(),
        ensures
            final(self).wf(),
            r == (old(self).has_room(room@) && old(self).users_of(room@).filter(
                keep_other_than(user@),
            ).len() == 0),
            !old(self).has_room(room@) ==> final(self).rooms@ == old(self).rooms@,
            old(self).has_room(room@) ==> {
                let i = old(self).room_idx(room@);
                let kept = old(self).rooms@[i].users@.filter(keep_other_than(user@));
                if kept.len() == 0 {
                    final(self).rooms@ == old(self).rooms@.remove(i)
                } else {
                    &&& final(self).rooms@.len() == old(self).rooms@.len()
                    &&& forall|j: int|
                        0 <= j < old(self).rooms@.len() && j != i ==> final(self).rooms@[j]
                            == old(self).rooms@[j]
                    &&& final(self).rooms@[i].room == old(self).rooms@[i].room
                    &&& final(self).rooms@[i].users@ == kept
                }
            },
            final(self).has_room(room@) <==> (old(self).has_room(room@) && old(self).users_of(
                room@,
            ).filter(keep_other_than(user@)).len() != 0),
            !final(self).is_member(room@, user@),
            forall|q: Seq<char>, v: Seq<char>|
                (!(q == room@ && v == user@) && #[trigger] old(self).is_member(q, v))
                    ==> final(self).is_member(q, v),
    {
        let ghost pred = keep_other_than(user@);
        match self.find_room(room) {
            None => false,
            Some(i) => {
                let ghost us = self.rooms@[i as int].users@;
                let m = self.rooms[i].users.len();
                let mut kept: Vec<UserId> = Vec::new();
                let mut k: usize = 0;
                while k < m
                    invariant
                        *self == *old(self),
                        self.wf(),
                        i < self.rooms@.len(),
                        us == self.rooms@[i as int].users@,
                        m == us.len(),
                        0 <= k <= m,
                        kept@ == us.subrange(0, k as int).filter(pred),
                        pred == keep_other_than(user@),
                    decreases m - k,
                {
                    let ghost prefix = us.subrange(0, k as int);
                    let keep_it = !(self.rooms[i].users[k] == *user);
                    if keep_it {
                        kept.push(self.rooms[i].users[k].clone());
                    }
                    proof {
                        reveal(Seq::filter);
                        let next = us.subrange(0, k as int + 1);
                        assert(next.drop_last() =~= prefix);
                        assert(next.last() == us[k as int]);
                        assert(next.filter(pred) == if pred(us[k as int]) {
                            prefix.filter(pred).push(us[k as int])
                        } else {
                            prefix.filter(pred)
                        });
                    }
                    k = k + 1;
                }
                proof {
                    assert(us.subrange(0, m as int) =~= us);
                    old(self).lemma_room_idx_is(room@, i as int);
                }
                if kept.len() == 0 {
                    self.rooms.remove(i);
                    proof {
                        assert forall|j: int|
                            0 <= j < self.rooms@.len() implies (#[trigger] self.rooms@[j]).room@
                            != room@ by {
                            if j < i {
                                assert(self.rooms@[j] == old(self).rooms@[j]);
                                assert(old(self).rooms@[j].room@ != old(self).rooms@[
                                i as int].room@);
                            } else {
                                assert(self.rooms@[j] == old(self).rooms@[j + 1]);
                                assert(old(self).rooms@[i as int].room@ != old(self).rooms@[j
                                    + 1].room@);
                            }
                        }
                        assert(!self.has_room(room@));
                        old(self).rooms@.remove_ensures(i as int);
                        assert forall|q: Seq<char>, v: Seq<char>|
                            (!(q == room@ && v == user@) && #[trigger] old(self).is_member(
                                q,
                                v,
                            )) implies self.is_member(q, v) by {
                            let j = old(self).room_idx(q);
                            if j == i as int {
                                assert(q == room@);
                                assert(v != user@);
                                let w = choose|w: int|
                                    0 <= w < us.len() && us[w]@ == v;
                                assert(pred(us[w]));
                                us.lemma_filter_contains(pred, w);
                                assert(us.filter(pred).len() > 0);
                            } else if j < i as int {
                                assert(self.rooms@[j] == old(self).rooms@[j]);
                                self.lemma_room_idx_is(q, j);
                            } else {
                                assert(self.rooms@[j - 1] == old(self).rooms@[j]);
                                self.lemma_room_idx_is(q, j - 1);
                            }
                        }
                    }
                    true
                } else {
                    let mut entry = self.rooms.remove(i);
                    entry.users = kept;
                    self.rooms.insert(i, entry);
                    proof {
                        assert(self.rooms@ =~= old(self).rooms@.update(
                            i as int,
                            self.rooms@[i as int],
                        ));
                        lemma_filter_distinct_views(us, pred);
                        self.lemma_room_idx_is(room@, i as int);
                        let keptv = us.filter(pred);
                        assert(!has_user_view(keptv, user@)) by {
                            if has_user_view(keptv, user@) {
                                let w = choose|w: int|
                                    0 <= w < keptv.len() && keptv[w]@ == user@;
                                us.lemma_filter_pred(pred, w);
                            }
                        }
                        assert forall|q: Seq<char>, v: Seq<char>|
                            (!(q == room@ && v == user@) && #[trigger] old(self).is_member(
                                q,
                                v,
                            )) implies self.is_member(q, v) by {
                            let j = old(self).room_idx(q);
                            if j == i as int {
                                assert(q == room@);
                                assert(v != user@);
                                let w = choose|w: int|
                                    0 <= w < us.len() && us[w]@ == v;
                                assert(pred(us[w]));
                                us.lemma_filter_contains(pred, w);
                                let x = choose|x: int|
                                    0 <= x < keptv.len() && keptv[x] == us[w];
                                assert(self.users_of(q)[x]@ == v);
                            } else {
                                assert(self.rooms@[j] == old(self).rooms@[j]);
                                self.lemma_room_idx_is(q, j);
                            }
                        }
                    }
                    false
                }
            },
        }
    }

    /// A point-in-time snapshot of the ordered member list of `room`; empty
    /// when no such room exists.
    pub fn get_users(&self, room: &RoomId) -> (r: Vec<UserId>)
        requires
            self.wf(),
        ensures
            self.has_room(room@) ==> r@ == self.users_of(room@),
            !self.has_room(room@) ==> r@.len() == 0,
    {
        match self.find_room(room) {
            None => Vec::new(),
            Some(i) => {
                let m = self.rooms[i].users.len();
                let mut out: Vec<UserId> = Vec::new();
                let mut k: usize = 0;
                while k < m
                    invariant
                        self.wf(),
                        i < self.rooms@.len(),
                        m == self.rooms@[i as int].users@.len(),
                        0 <= k <= m,
                        out@ == self.rooms@[i as int].users@.subrange(0, k as int),
                    decreases m - k,
                {
                    out.push(self.rooms[i].users[k].clone());
                    proof {
                        assert(out@ =~= self.rooms@[i as int].users@.subrange(0, k as int + 1));
                    }
                    k = k + 1;
                }
                proof {
                    assert(self.rooms@[i as int].users@.subrange(0, m as int) =~= self.rooms@[
                    i as int].users@);
                }
                out
            },
        }
    }
}

impl Default for RoomManager {
    /// An empty registry.
    fn default() -> (r: Self)
        ensures
            r.rooms@.len() == 0,
            r.wf(),
    {
        RoomManager::new()
    }
}

/// No member appears twice in any room's member list: whatever sequence of
/// `add_user` and `remove_user` calls produced a well-formed registry, a
/// snapshot of a room lists each user at most once.
pub proof fn lemma_room_users_listed_once(m: &RoomManager, room: Seq<char>)
    requires
        m.wf(),
        m.has_room(room),
    ensures
        distinct_user_views(m.users_of(room)),
        m.users_of(room).len() > 0,
{
}

/// A room exists exactly while it has at least one member: a well-formed
/// registry never lists an empty room, and `remove_user` reports true
/// precisely on the call that removes the room.
pub proof fn lemma_rooms_never_empty(m: &RoomManager)
    requires
        m.wf(),
    ensures
        forall|room: Seq<char>| m.has_room(room) ==> #[trigger] m.users_of(room).len() > 0,
{
}

} // verus!
