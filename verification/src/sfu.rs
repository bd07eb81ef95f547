use vstd::prelude::*;

use tokio::sync::mpsc::Receiver;

use crate::broadcaster::{CodecCapability, PliRequest, TrackBroadcaster, TrackKind};
use crate::channel::queue_channel;
use crate::events::SfuEvent;
use crate::ids::{RoomId, StreamId, TrackId, UserId};
use crate::metrics::{sat_add, sat_sub, Metrics};
use crate::packet::RtpPacket;
use crate::peer::Peer;
use crate::rooms::{has_user_view, keep_other_than, RoomManager};
use crate::sdp::rewrite_setup_active;
use crate::signaling::TrackAddedEvent;

verus! {

/// The error kinds of the control path, mapped onto RPC status codes by the
/// surrounding process.
#[derive(Debug)]
pub enum SfuError {
    /// An identifier was empty, or a payload was malformed.
    InvalidArgument(String),
    /// No session exists under the given key.
    NotFound(String),
    /// A bounded wait (ICE gathering) ran out; retrying may succeed.
    Unavailable(String),
    /// The media transport failed underneath a control operation.
    Internal(String),
}

/// The composite key of one source track.
#[derive(Debug)]
pub struct TrackKey {
    pub room: RoomId,
    pub user: UserId,
    pub stream: StreamId,
    pub track: TrackId,
}

impl Clone for TrackKey {
    fn clone(&self) -> (r: Self)
        ensures
            r == *self,
    {
        TrackKey {
            room: self.room.clone(),
            user: self.user.clone(),
            stream: self.stream.clone(),
            track: self.track.clone(),
        }
    }
}

/// One registered source track with its fan-out engine.
pub struct TrackEntry {
    pub key: TrackKey,
    pub broadcaster: TrackBroadcaster,
}

/// One step of the initial-sync or track-notification flow: which existing
/// track a peer should subscribe to, and with what codec.
pub struct SubscribeInstruction {
    pub source_user: UserId,
    pub stream: StreamId,
    pub track: TrackId,
    pub kind: TrackKind,
    pub capability: CodecCapability,
}

/// What a freshly created session still has to do: subscribe to every
/// existing track of the other members of its room.
pub struct SessionPlan {
    pub subscriptions: Vec<SubscribeInstruction>,
}

/// The whole control-plane state of the unit: room membership, peer
/// sessions, source tracks with their broadcasters, and the counters.
pub struct Sfu {
    pub rooms: RoomManager,
    pub peers: Vec<Peer>,
    pub tracks: Vec<TrackEntry>,
    pub metrics: Metrics,
}

/// True when no two peers share a session key.
pub open spec fn distinct_peer_keys(ps: Seq<Peer>) -> bool {
    forall|a: int, b: int|
        0 <= a < b < ps.len() ==> !((#[trigger] ps[a]).room_id@ == (#[trigger] ps[b]).room_id@
            && ps[a].user_id@ == ps[b].user_id@)
}

/// True when no two entries share a track key.
pub open spec fn distinct_track_keys(ts: Seq<TrackEntry>) -> bool {
    forall|a: int, b: int|
        0 <= a < b < ts.len() ==> !((#[trigger] ts[a]).key.room@ == (#[trigger] ts[b]).key.room@
            && ts[a].key.user@ == ts[b].key.user@ && ts[a].key.stream@ == ts[b].key.stream@
            && ts[a].key.track@ == ts[b].key.track@)
}

/// Keeps every peer whose session key differs from (`room`, `user`).
pub open spec fn peer_key_differs(room: Seq<char>, user: Seq<char>) -> spec_fn(Peer) -> bool {
    |p: Peer| !(p.room_id@ == room && p.user_id@ == user)
}

/// Keeps every track not owned by the session (`room`, `user`).
pub open spec fn track_not_owned_by(room: Seq<char>, user: Seq<char>) -> spec_fn(
    TrackEntry,
) -> bool {
    |t: TrackEntry| !(t.key.room@ == room && t.key.user@ == user)
}

/// Keeps every track whose full key differs from the given one.
pub open spec fn track_key_differs(
    room: Seq<char>,
    user: Seq<char>,
    stream: Seq<char>,
    track: Seq<char>,
) -> spec_fn(TrackEntry) -> bool {
    |t: TrackEntry|
        !(t.key.room@ == room && t.key.user@ == user && t.key.stream@ == stream && t.key.track@
            == track)
}

/// The tracks a member of `room` other than `user` publishes.
pub open spec fn track_visible_to(room: Seq<char>, user: Seq<char>) -> spec_fn(
    TrackEntry,
) -> bool {
    |t: TrackEntry| t.key.room@ == room && t.key.user@ != user
}

/// The peers in `room` other than `user`.
pub open spec fn peer_notify_target(room: Seq<char>, user: Seq<char>) -> spec_fn(Peer) -> bool {
    |p: Peer| p.room_id@ == room && p.user_id@ != user
}

/// True when `plan` lists exactly the tracks of `ts`, in order, with their
/// publishing user, stream, track, kind and codec capability.
pub open spec fn plan_matches(plan: Seq<SubscribeInstruction>, ts: Seq<TrackEntry>) -> bool {
    &&& plan.len() == ts.len()
    &&& forall|k: int|
        0 <= k < ts.len() ==> {
            &&& (#[trigger] plan[k]).source_user == ts[k].key.user
            &&& plan[k].stream == ts[k].key.stream
            &&& plan[k].track == ts[k].key.track
            &&& plan[k].kind == ts[k].broadcaster.kind
            &&& plan[k].capability == ts[k].broadcaster.capability
        }
}

/// True when `users` lists exactly the user identifiers of `ps`, in order.
pub open spec fn notify_matches(users: Seq<UserId>, ps: Seq<Peer>) -> bool {
    &&& users.len() == ps.len()
    &&& forall|k: int| 0 <= k < ps.len() ==> #[trigger] users[k] == ps[k].user_id
}

proof fn lemma_filter_peers_distinct(ps: Seq<Peer>, pred: spec_fn(Peer) -> bool)
    requires
        distinct_peer_keys(ps),
    ensures
        distinct_peer_keys(ps.filter(pred)),
    decreases ps.len(),
{
    reveal(Seq::filter);
    if ps.len() > 0 {
        let dl = ps.drop_last();
        assert(distinct_peer_keys(dl));
        lemma_filter_peers_distinct(dl, pred);
        if pred(ps.last()) {
            let f = dl.filter(pred);
            assert forall|a: int| 0 <= a < f.len() implies !(
            (#[trigger] f[a]).room_id@ == ps.last().room_id@ && f[a].user_id@
                == ps.last().user_id@) by {
                assert(f.contains(f[a]));
                dl.lemma_filter_contains_rev(pred, f[a]);
                let k = choose|k: int| 0 <= k < dl.len() && dl[k] == f[a];
                assert(!(ps[k].room_id@ == ps.last().room_id@ && ps[k].user_id@
                    == ps.last().user_id@));
            }
        }
    }
}

proof fn lemma_filter_tracks_distinct(ts: Seq<TrackEntry>, pred: spec_fn(TrackEntry) -> bool)
    requires
        distinct_track_keys(ts),
    ensures
        distinct_track_keys(ts.filter(pred)),
    decreases ts.len(),
{
    reveal(Seq::filter);
    if ts.len() > 0 {
        let dl = ts.drop_last();
        assert(distinct_track_keys(dl));
        lemma_filter_tracks_distinct(dl, pred);
        if pred(ts.last()) {
            let f = dl.filter(pred);
            assert forall|a: int| 0 <= a < f.len() implies !(
            (#[trigger] f[a]).key.room@ == ts.last().key.room@ && f[a].key.user@
                == ts.last().key.user@ && f[a].key.stream@ == ts.last().key.stream@
                && f[a].key.track@ == ts.last().key.track@) by {
                assert(f.contains(f[a]));
                ts.drop_last().lemma_filter_contains_rev(pred, f[a]);
                let k = choose|k: int| 0 <= k < dl.len() && dl[k] == f[a];
                assert(!(ts[k].key.room@ == ts.last().key.room@ && ts[k].key.user@
                    == ts.last().key.user@ && ts[k].key.stream@ == ts.last().key.stream@
                    && ts[k].key.track@ == ts.last().key.track@));
            }
        }
    }
}

fn remove_peer_entries(peers: &mut Vec<Peer>, room: &RoomId, user: &UserId)
    ensures
        final(peers)@ == old(peers)@.filter(peer_key_differs(room@, user@)),
{
    let ghost pred = peer_key_differs(room@, user@);
    let ghost all = peers@;
    let mut pending: Vec<Peer> = Vec::new();
    core::mem::swap(&mut pending, peers);
    let n = pending.len();
    let mut i: usize = 0;
    while i < n
        invariant
            n == all.len(),
            0 <= i <= n,
            pending@ == all.subrange(i as int, n as int),
            peers@ == all.subrange(0, i as int).filter(pred),
            pred == peer_key_differs(room@, user@),
        decreases n - i,
    {
        let ghost prefix = all.subrange(0, i as int);
        let p = pending.remove(0);
        proof {
            assert(p == all[i as int]);
            assert(pending@ =~= all.subrange(i as int + 1, n as int));
        }
        let keep_it = !(p.room_id == *room && p.user_id == *user);
        if keep_it {
            peers.push(p);
        }
        proof {
            reveal(Seq::filter);
            let next = all.subrange(0, i as int + 1);
            assert(next.drop_last() =~= prefix);
            assert(next.last() == all[i as int]);
            assert(next.filter(pred) == if pred(all[i as int]) {
                prefix.filter(pred).push(all[i as int])
            } else {
                prefix.filter(pred)
            });
        }
        i = i + 1;
    }
    proof {
        assert(all.subrange(0, n as int) =~= all);
    }
}

fn remove_track_entries(tracks: &mut Vec<TrackEntry>, room: &RoomId, user: &UserId)
    ensures
        final(tracks)@ == old(tracks)@.filter(track_not_owned_by(room@, user@)),
{
    let ghost pred = track_not_owned_by(room@, user@);
    let ghost all = tracks@;
    let mut pending: Vec<TrackEntry> = Vec::new();
    core::mem::swap(&mut pending, tracks);
    let n = pending.len();
    let mut i: usize = 0;
    while i < n
        invariant
            n == all.len(),
            0 <= i <= n,
            pending@ == all.subrange(i as int, n as int),
            tracks@ == all.subrange(0, i as int).filter(pred),
            pred == track_not_owned_by(room@, user@),
        decreases n - i,
    {
        let ghost prefix = all.subrange(0, i as int);
        let t = pending.remove(0);
        proof {
            assert(t == all[i as int]);
            assert(pending@ =~= all.subrange(i as int + 1, n as int));
        }
        let keep_it = !(t.key.room == *room && t.key.user == *user);
        if keep_it {
            tracks.push(t);
        }
        proof {
            reveal(Seq::filter);
            let next = all.subrange(0, i as int + 1);
            assert(next.drop_last() =~= prefix);
            assert(next.last() == all[i as int]);
            assert(next.filter(pred) == if pred(all[i as int]) {
                prefix.filter(pred).push(all[i as int])
            } else {
                prefix.filter(pred)
            });
        }
        i = i + 1;
    }
    proof {
        assert(all.subrange(0, n as int) =~= all);
    }
}

fn remove_track_with_key(
    tracks: &mut Vec<TrackEntry>,
    room: &RoomId,
    user: &UserId,
    stream: &StreamId,
    track: &TrackId,
)
    ensures
        final(tracks)@ == old(tracks)@.filter(
            track_key_differs(room@, user@, stream@, track@),
        ),
{
    let ghost pred = track_key_differs(room@, user@, stream@, track@);
    let ghost all = tracks@;
    let mut pending: Vec<TrackEntry> = Vec::new();
    core::mem::swap(&mut pending, tracks);
    let n = pending.len();
    let mut i: usize = 0;
    while i < n
        invariant
            n == all.len(),
            0 <= i <= n,
            pending@ == all.subrange(i as int, n as int),
            tracks@ == all.subrange(0, i as int).filter(pred),
            pred == track_key_differs(room@, user@, stream@, track@),
        decreases n - i,
    {
        let ghost prefix = all.subrange(0, i as int);
        let t = pending.remove(0);
        proof {
            assert(t == all[i as int]);
            assert(pending@ =~= all.subrange(i as int + 1, n as int));
        }
        let keep_it = !(t.key.room == *room && t.key.user == *user && t.key.stream == *stream
            && t.key.track == *track);
        if keep_it {
            tracks.push(t);
        }
        proof {
            reveal(Seq::filter);
            let next = all.subrange(0, i as int + 1);
            assert(next.drop_last() =~= prefix);
            assert(next.last() == all[i as int]);
            assert(next.filter(pred) == if pred(all[i as int]) {
                prefix.filter(pred).push(all[i as int])
            } else {
                prefix.filter(pred)
            });
        }
        i = i + 1;
    }
    proof {
        assert(all.subrange(0, n as int) =~= all);
    }
}

impl Sfu {
    /// True when a session (`room`, `user`) is registered.
    pub open spec fn has_peer(&self, room: Seq<char>, user: Seq<char>) -> bool {
        exists|i: int|
            0 <= i < self.peers@.len() && self.peers@[i].room_id@ == room
                && self.peers@[i].user_id@ == user
    }

    /// The index of the session (`room`, `user`).
    pub open spec fn peer_idx(&self, room: Seq<char>, user: Seq<char>) -> int {
        choose|i: int|
            0 <= i < self.peers@.len() && self.peers@[i].room_id@ == room
                && self.peers@[i].user_id@ == user
    }

    /// True when a source track with the given key is registered.
    pub open spec fn has_track(
        &self,
        room: Seq<char>,
        user: Seq<char>,
        stream: Seq<char>,
        track: Seq<char>,
    ) -> bool {
        exists|i: int|
            0 <= i < self.tracks@.len() && self.tracks@[i].key.room@ == room
                && self.tracks@[i].key.user@ == user && self.tracks@[i].key.stream@ == stream
                && self.tracks@[i].key.track@ == track
    }

    /// The index of the source track with the given key.
    pub open spec fn track_idx(
        &self,
        room: Seq<char>,
        user: Seq<char>,
        stream: Seq<char>,
        track: Seq<char>,
    ) -> int {
        choose|i: int|
            0 <= i < self.tracks@.len() && self.tracks@[i].key.room@ == room
                && self.tracks@[i].key.user@ == user && self.tracks@[i].key.stream@ == stream
                && self.tracks@[i].key.track@ == track
    }

    /// Internal well-formedness: the room registry is well formed, session
    /// and track keys are unique, every peer's subscription map is well
    /// formed, and every registered peer is listed as a member of its room.
    pub open spec fn wf(&self) -> bool {
        &&& self.rooms.wf()
        &&& distinct_peer_keys(self.peers@)
        &&& distinct_track_keys(self.tracks@)
        &&& forall|i: int| 0 <= i < self.peers@.len() ==> (#[trigger] self.peers@[i]).wf()
        &&& forall|i: int|
            0 <= i < self.peers@.len() ==> self.rooms.is_member(
                (#[trigger] self.peers@[i]).room_id@,
                self.peers@[i].user_id@,
            )
    }

    proof fn lemma_peer_idx_is(&self, room: Seq<char>, user: Seq<char>, i: int)
        requires
            distinct_peer_keys(self.peers@),
            0 <= i < self.peers@.len(),
            self.peers@[i].room_id@ == room,
            self.peers@[i].user_id@ == user,
        ensures
            self.has_peer(room, user),
            self.peer_idx(room, user) == i,
    {
        assert(self.has_peer(room, user));
        let j = self.peer_idx(room, user);
        if j != i {
            if j < i {
                assert(!(self.peers@[j].room_id@ == self.peers@[i].room_id@
                    && self.peers@[j].user_id@ == self.peers@[i].user_id@));
            } else {
                assert(!(self.peers@[i].room_id@ == self.peers@[j].room_id@
                    && self.peers@[i].user_id@ == self.peers@[j].user_id@));
            }
        }
    }

    proof fn lemma_track_idx_is(
        &self,
        room: Seq<char>,
        user: Seq<char>,
        stream: Seq<char>,
        track: Seq<char>,
        i: int,
    )
        requires
            distinct_track_keys(self.tracks@),
            0 <= i < self.tracks@.len(),
            self.tracks@[i].key.room@ == room,
            self.tracks@[i].key.user@ == user,
            self.tracks@[i].key.stream@ == stream,
            self.tracks@[i].key.track@ == track,
        ensures
            self.has_track(room, user, stream, track),
            self.track_idx(room, user, stream, track) == i,
    {
        assert(self.has_track(room, user, stream, track));
        let j = self.track_idx(room, user, stream, track);
        if j != i {
            if j < i {
                assert(!(self.tracks@[j].key.room@ == self.tracks@[i].key.room@
                    && self.tracks@[j].key.user@ == self.tracks@[i].key.user@
                    && self.tracks@[j].key.stream@ == self.tracks@[i].key.stream@
                    && self.tracks@[j].key.track@ == self.tracks@[i].key.track@));
            } else {
                assert(!(self.tracks@[i].key.room@ == self.tracks@[j].key.room@
                    && self.tracks@[i].key.user@ == self.tracks@[j].key.user@
                    && self.tracks@[i].key.stream@ == self.tracks@[j].key.stream@
                    && self.tracks@[i].key.track@ == self.tracks@[j].key.track@));
            }
        }
    }

    /// A unit with no rooms, peers or tracks, and zeroed counters.
    pub fn new() -> (r: Sfu)
        ensures
            r.wf(),
            r.peers@.len() == 0,
            r.tracks@.len() == 0,
            r.rooms.rooms@.len() == 0,
            r.metrics == (Metrics {
                active_rooms: 0u64,
                active_peers: 0u64,
                packets_forwarded_video: 0u64,
                packets_forwarded_audio: 0u64,
                packets_dropped_buffer_full: 0u64,
                packets_dropped_channel_closed: 0u64,
                keyframes_requested: 0u64,
                webrtc_connections: 0u64,
                webrtc_connection_failures: 0u64,
            }),
    {
        Sfu {
            rooms: RoomManager::new(),
            peers: Vec::new(),
            tracks: Vec::new(),
            metrics: crate::metrics::register_metrics(),
        }
    }

    fn find_peer(&self, room: &RoomId, user: &UserId) -> (r: Option<usize>)
        requires
            distinct_peer_keys(self.peers@),
        ensures
            match r {
                Some(i) => {
                    &&& i < self.peers@.len()
                    &&& self.peers@[i as int].room_id@ == room@
                    &&& self.peers@[i as int].user_id@ == user@
                    &&& self.has_peer(room@, user@)
                    &&& self.peer_idx(room@, user@) == i
                },
                None => !self.has_peer(room@, user@),
            },
    {
        let n = self.peers.len();
        let mut i: usize = 0;
        while i < n
            invariant
                distinct_peer_keys(self.peers@),
                n == self.peers@.len(),
                0 <= i <= n,
                forall|j: int|
                    0 <= j < i ==> !((#[trigger] self.peers@[j]).room_id@ == room@
                        && self.peers@[j].user_id@ == user@),
            decreases n - i,
        {
            if self.peers[i].room_id == *room && self.peers[i].user_id == *user {
                proof {
                    self.lemma_peer_idx_is(room@, user@, i as int);
                }
                return Some(i);
            }
            i = i + 1;
        }
        None
    }

    fn find_track(
        &self,
        room: &RoomId,
        user: &UserId,
        stream: &StreamId,
        track: &TrackId,
    ) -> (r: Option<usize>)
        requires
            distinct_track_keys(self.tracks@),
        ensures
            match r {
                Some(i) => {
                    &&& i < self.tracks@.len()
                    &&& self.tracks@[i as int].key.room@ == room@
                    &&& self.tracks@[i as int].key.user@ == user@
                    &&& self.tracks@[i as int].key.stream@ == stream@
                    &&& self.tracks@[i as int].key.track@ == track@
                    &&& self.has_track(room@, user@, stream@, track@)
                    &&& self.track_idx(room@, user@, stream@, track@) == i
                },
                None => !self.has_track(room@, user@, stream@, track@),
            },
    {
        let n = self.tracks.len();
        let mut i: usize = 0;
        while i < n
            invariant
                distinct_track_keys(self.tracks@),
                n == self.tracks@.len(),
                0 <= i <= n,
                forall|j: int|
                    0 <= j < i ==> !((#[trigger] self.tracks@[j]).key.room@ == room@
                        && self.tracks@[j].key.user@ == user@ && self.tracks@[j].key.stream@
                        == stream@ && self.tracks@[j].key.track@ == track@),
            decreases n - i,
        {
            if self.tracks[i].key.room == *room && self.tracks[i].key.user == *user
                && self.tracks[i].key.stream == *stream && self.tracks[i].key.track == *track {
                proof {
                    self.lemma_track_idx_is(room@, user@, stream@, track@, i as int);
                }
                return Some(i);
            }
            i = i + 1;
        }
        None
    }

    /// Creates a session for (`room`, `user`): rejects empty identifiers,
    /// registers the peer (replacing any prior session under the same key),
    /// adds the user to the room, moves the peer and room counters, and
    /// returns the initial-sync plan — one subscription instruction per
    /// existing track of the room's other members, in registry order.
    pub fn create_session(&mut self, room: RoomId, user: UserId) -> (r: Result<
        SessionPlan,
        SfuError,
    >)
        requires
            old(self).wf(),
        ensures
            final(self).wf(),
            (r is Err) == (room@.len() == 0 || user@.len() == 0),
            r matches Err(e) ==> (e is InvalidArgument && *final(self) == *old(self)),
            r matches Ok(plan) ==> {
                &&& plan_matches(
                    plan.subscriptions@,
                    old(self).tracks@.filter(track_visible_to(room@, user@)),
                )
                &&& final(self).tracks@ == old(self).tracks@
                &&& final(self).peers@.len() == old(self).peers@.filter(
                    peer_key_differs(room@, user@),
                ).len() + 1
                &&& final(self).peers@.drop_last() == old(self).peers@.filter(
                    peer_key_differs(room@, user@),
                )
                &&& final(self).peers@.last().room_id == room
                &&& final(self).peers@.last().user_id == user
                &&& final(self).peers@.last().event_tx is None
                &&& final(self).peers@.last().track_mapping@.len() == 0
                &&& final(self).has_peer(room@, user@)
                &&& final(self).rooms.has_room(room@)
                &&& has_user_view(final(self).rooms.users_of(room@), user@)
                &&& final(self).metrics == (Metrics {
                    active_peers: sat_add(old(self).metrics.active_peers, 1),
                    active_rooms: if old(self).rooms.has_room(room@) {
                        old(self).metrics.active_rooms
                    } else {
                        sat_add(old(self).metrics.active_rooms, 1)
                    },
                    ..old(self).metrics
                })
            },
    {
        if room.as_str().is_empty() || user.as_str().is_empty() {
            return Err(
                SfuError::InvalidArgument(
                    String::from_str("room_id and user_id must be non-empty"),
                ),
            );
        }
        let ghost pred = track_visible_to(room@, user@);
        let mut subscriptions: Vec<SubscribeInstruction> = Vec::new();
        let n = self.tracks.len();
        let mut i: usize = 0;
        while i < n
            invariant
                *self == *old(self),
                self.wf(),
                n == self.tracks@.len(),
                0 <= i <= n,
                plan_matches(subscriptions@, self.tracks@.subrange(0, i as int).filter(pred)),
                pred == track_visible_to(room@, user@),
                room@.len() > 0,
                user@.len() > 0,
            decreases n - i,
        {
            let ghost prefix = self.tracks@.subrange(0, i as int);
            let is_target = self.tracks[i].key.room == room && !(self.tracks[i].key.user == user);
            if is_target {
                subscriptions.push(SubscribeInstruction {
                    source_user: self.tracks[i].key.user.clone(),
                    stream: self.tracks[i].key.stream.clone(),
                    track: self.tracks[i].key.track.clone(),
                    kind: self.tracks[i].broadcaster.kind,
                    capability: self.tracks[i].broadcaster.capability.clone(),
                });
            }
            proof {
                reveal(Seq::filter);
                let next = self.tracks@.subrange(0, i as int + 1);
                assert(next.drop_last() =~= prefix);
                assert(next.last() == self.tracks@[i as int]);
                assert(next.filter(pred) == if pred(self.tracks@[i as int]) {
                    prefix.filter(pred).push(self.tracks@[i as int])
                } else {
                    prefix.filter(pred)
                });
            }
            i = i + 1;
        }
        proof {
            assert(self.tracks@.subrange(0, n as int) =~= self.tracks@);
        }
        let new_room = self.rooms.add_user(room.clone(), user.clone());
        if new_room {
            self.metrics.inc_active_rooms();
        }
        self.metrics.inc_active_peers();
        remove_peer_entries(&mut self.peers, &room, &user);
        let ghost kept = old(self).peers@.filter(peer_key_differs(room@, user@));
        self.peers.push(Peer::new(user, room));
        proof {
            assert(self.peers@.drop_last() =~= kept);
            lemma_filter_peers_distinct(old(self).peers@, peer_key_differs(room@, user@));
            let m = self.peers@.len() - 1;
            assert forall|a: int, b: int|
                0 <= a < b < self.peers@.len() implies !(
            (#[trigger] self.peers@[a]).room_id@ == (#[trigger] self.peers@[b]).room_id@
                && self.peers@[a].user_id@ == self.peers@[b].user_id@) by {
                if b < m {
                    assert(kept[a] == self.peers@[a] && kept[b] == self.peers@[b]);
                } else {
                    assert(self.peers@[a] == kept[a]);
                    assert(kept.contains(kept[a]));
                    old(self).peers@.lemma_filter_contains_rev(
                        peer_key_differs(room@, user@),
                        kept[a],
                    );
                    assert(peer_key_differs(room@, user@)(kept[a]));
                }
            }
            self.lemma_peer_idx_is(room@, user@, m);
            assert forall|a: int| 0 <= a < self.peers@.len() implies (
            #[trigger] self.peers@[a]).wf() && self.rooms.is_member(
                self.peers@[a].room_id@,
                self.peers@[a].user_id@,
            ) by {
                if a < m {
                    assert(self.peers@[a] == kept[a]);
                    assert(kept.contains(kept[a]));
                    old(self).peers@.lemma_filter_contains_rev(
                        peer_key_differs(room@, user@),
                        kept[a],
                    );
                    let k = choose|k: int|
                        0 <= k < old(self).peers@.len() && old(self).peers@[k] == kept[a];
                    assert(old(self).peers@[k].wf());
                    assert(old(self).rooms.is_member(
                        old(self).peers@[k].room_id@,
                        old(self).peers@[k].user_id@,
                    ));
                } else {
                    assert(self.peers@[a].room_id == room);
                    assert(self.peers@[a].user_id == user);
                }
            }
            if old(self).rooms.has_room(room@) {
                let i = old(self).rooms.room_idx(room@);
                old(self).rooms.lemma_room_idx_is(room@, i);
                if has_user_view(old(self).rooms.users_of(room@), user@) {
                    self.rooms.lemma_room_idx_is(room@, i);
                    assert(has_user_view(self.rooms.users_of(room@), user@));
                } else {
                    self.rooms.lemma_room_idx_is(room@, i);
                    let us = self.rooms.users_of(room@);
                    assert(us[us.len() - 1]@ == user@);
                    assert(has_user_view(us, user@));
                }
            } else {
                let last = self.rooms.rooms@.len() - 1;
                self.rooms.lemma_room_idx_is(room@, last);
                let us = self.rooms.users_of(room@);
                assert(us == seq![user]);
                assert(us[0]@ == user@);
                assert(has_user_view(us, user@));
            }
        }
        Ok(SessionPlan { subscriptions })
    }
}


/// A signaling payload arriving from a peer.
#[derive(Debug)]
pub enum SignalPayload {
    /// The peer answers an offer of the unit.
    SdpAnswer(String),
    /// One ICE candidate of the peer, in browser JSON form.
    IceCandidate(String),
    /// The peer makes its own offer.
    SdpOffer(String),
}

/// What the media transport must now do with a validated signal.
#[derive(Debug)]
pub enum SignalAction {
    /// Set the given SDP as the remote answer.
    ApplyRemoteAnswer(String),
    /// Add the given ICE candidate.
    AddIceCandidate(String),
    /// Set the given SDP as the remote offer, then answer it.
    ApplyRemoteOffer(String),
}

/// The session key of one peer.
#[derive(Debug)]
pub struct SessionKey {
    pub room: RoomId,
    pub user: UserId,
}

/// The kind of the first registered track of `user` on `stream` in `room`;
/// video when no such track is registered.
pub open spec fn kind_for(
    ts: Seq<TrackEntry>,
    room: Seq<char>,
    user: Seq<char>,
    stream: Seq<char>,
) -> TrackKind
    decreases ts.len(),
{
    if ts.len() == 0 {
        TrackKind::Video
    } else if ts[0].key.room@ == room && ts[0].key.user@ == user && ts[0].key.stream@
        == stream {
        ts[0].broadcaster.kind
    } else {
        kind_for(ts.drop_first(), room, user, stream)
    }
}

/// The conventional word for a track kind.
pub open spec fn kind_text(k: TrackKind) -> Seq<char> {
    match k {
        TrackKind::Video => "video"@,
        TrackKind::Audio => "audio"@,
    }
}

fn resolve_kind(
    tracks: &Vec<TrackEntry>,
    room: &RoomId,
    user: &UserId,
    stream: &StreamId,
) -> (r: TrackKind)
    ensures
        r == kind_for(tracks@, room@, user@, stream@),
{
    let n = tracks.len();
    let mut j: usize = 0;
    proof {
        assert(tracks@.skip(0) =~= tracks@);
    }
    while j < n
        invariant
            n == tracks@.len(),
            0 <= j <= n,
            kind_for(tracks@, room@, user@, stream@) == kind_for(
                tracks@.skip(j as int),
                room@,
                user@,
                stream@,
            ),
        decreases n - j,
    {
        let ghost rest = tracks@.skip(j as int);
        let found = tracks[j].key.room == *room && tracks[j].key.user == *user
            && tracks[j].key.stream == *stream;
        proof {
            assert(rest[0] == tracks@[j as int]);
            assert(rest.drop_first() =~= tracks@.skip(j as int + 1));
        }
        if found {
            return tracks[j].broadcaster.kind;
        }
        j = j + 1;
    }
    proof {
        assert(tracks@.skip(n as int) =~= Seq::<TrackEntry>::empty());
    }
    TrackKind::Video
}

impl Sfu {
    /// Validates an incoming signal for the session (`room`, `user`) and
    /// says what the media transport must do with it: answers and offers are
    /// applied as remote descriptions, candidates are added. An unknown
    /// session is reported as not found.
    pub fn handle_signal(&self, room: &RoomId, user: &UserId, payload: SignalPayload) -> (r:
        Result<SignalAction, SfuError>)
        requires
            distinct_peer_keys(self.peers@),
        ensures
            (r is Err) == !self.has_peer(room@, user@),
            r matches Err(e) ==> e is NotFound,
            self.has_peer(room@, user@) ==> r == Ok::<SignalAction, SfuError>(
                match payload {
                    SignalPayload::SdpAnswer(sdp) => SignalAction::ApplyRemoteAnswer(sdp),
                    SignalPayload::IceCandidate(c) => SignalAction::AddIceCandidate(c),
                    SignalPayload::SdpOffer(sdp) => SignalAction::ApplyRemoteOffer(sdp),
                },
            ),
    {
        if self.find_peer(room, user).is_none() {
            return Err(SfuError::NotFound(String::from_str("Session not found")));
        }
        Ok(
            match payload {
                SignalPayload::SdpAnswer(sdp) => SignalAction::ApplyRemoteAnswer(sdp),
                SignalPayload::IceCandidate(c) => SignalAction::AddIceCandidate(c),
                SignalPayload::SdpOffer(sdp) => SignalAction::ApplyRemoteOffer(sdp),
            },
        )
    }

    /// Emits the unit's SDP answer toward the session's listener, first
    /// rewriting any "a=setup:active" attribute to "a=setup:passive" so the
    /// unit keeps the passive DTLS role. The emission never blocks; the
    /// outcome reports a missing listener and full or closed queues.
    pub fn emit_sdp_answer(&self, room: &RoomId, user: &UserId, answer: &str) -> (r: Result<
        crate::peer::EmitOutcome,
        SfuError,
    >)
        requires
            distinct_peer_keys(self.peers@),
        ensures
            (r is Err) == !self.has_peer(room@, user@),
            r matches Err(e) ==> e is NotFound,
            r matches Ok(o) ==> ((o is NoListener) == (self.peers@[self.peer_idx(
                room@,
                user@,
            )].event_tx is None)),
    {
        match self.find_peer(room, user) {
            None => Err(SfuError::NotFound(String::from_str("Session not found"))),
            Some(i) => {
                let fixed = rewrite_setup_active(answer);
                Ok(self.peers[i].emit(SfuEvent::SdpAnswer(fixed)))
            },
        }
    }

    /// Emits a track notification toward the session's listener, as the
    /// first step of the renegotiation that follows a new subscription:
    /// which user publishes the track, on which stream, and of which kind.
    pub fn emit_track_added(
        &self,
        room: &RoomId,
        user: &UserId,
        source_user: &UserId,
        stream: &StreamId,
        kind: TrackKind,
    ) -> (r: Result<crate::peer::EmitOutcome, SfuError>)
        requires
            distinct_peer_keys(self.peers@),
        ensures
            (r is Err) == !self.has_peer(room@, user@),
            r matches Err(e) ==> e is NotFound,
            r matches Ok(o) ==> ((o is NoListener) == (self.peers@[self.peer_idx(
                room@,
                user@,
            )].event_tx is None)),
    {
        match self.find_peer(room, user) {
            None => Err(SfuError::NotFound(String::from_str("Session not found"))),
            Some(i) => Ok(
                self.peers[i].emit(
                    SfuEvent::TrackAdded(
                        TrackAddedEvent {
                            user_id: source_user.text(),
                            stream_id: stream.text(),
                            track_kind: kind.as_str().to_owned(),
                        },
                    ),
                ),
            ),
        }
    }

    /// Emits the unit's renegotiation offer toward the session's listener,
    /// as the last step of the serialized renegotiation sequence.
    pub fn emit_renegotiate_offer(&self, room: &RoomId, user: &UserId, sdp: String) -> (r: Result<
        crate::peer::EmitOutcome,
        SfuError,
    >)
        requires
            distinct_peer_keys(self.peers@),
        ensures
            (r is Err) == !self.has_peer(room@, user@),
            r matches Err(e) ==> e is NotFound,
            r matches Ok(o) ==> ((o is NoListener) == (self.peers@[self.peer_idx(
                room@,
                user@,
            )].event_tx is None)),
    {
        match self.find_peer(room, user) {
            None => Err(SfuError::NotFound(String::from_str("Session not found"))),
            Some(i) => Ok(self.peers[i].emit(SfuEvent::RenegotiateSdpOffer(sdp))),
        }
    }

    /// Emits a local ICE candidate (already serialized to the browser JSON
    /// form) toward the session's listener.
    pub fn emit_ice_candidate(&self, room: &RoomId, user: &UserId, candidate_json: String) -> (r:
        Result<crate::peer::EmitOutcome, SfuError>)
        requires
            distinct_peer_keys(self.peers@),
        ensures
            (r is Err) == !self.has_peer(room@, user@),
            r matches Err(e) ==> e is NotFound,
            r matches Ok(o) ==> ((o is NoListener) == (self.peers@[self.peer_idx(
                room@,
                user@,
            )].event_tx is None)),
    {
        match self.find_peer(room, user) {
            None => Err(SfuError::NotFound(String::from_str("Session not found"))),
            Some(i) => Ok(self.peers[i].emit(SfuEvent::IceCandidate(candidate_json))),
        }
    }

    /// Registers a new source track of (`room`, `user`): creates its
    /// broadcaster (no subscribers, keyframe clock at zero), replaces any
    /// prior entry under the same key, and returns — in registry order — the
    /// other members of the room whose sessions must now subscribe to it.
    pub fn on_source_track(
        &mut self,
        room: RoomId,
        user: UserId,
        stream: StreamId,
        track: TrackId,
        kind: TrackKind,
        capability: CodecCapability,
        ssrc: u32,
    ) -> (r: Vec<UserId>)
        requires
            old(self).wf(),
        ensures
            final(self).wf(),
            notify_matches(r@, old(self).peers@.filter(peer_notify_target(room@, user@))),
            final(self).peers@ == old(self).peers@,
            final(self).rooms == old(self).rooms,
            final(self).metrics == old(self).metrics,
            final(self).tracks@.len() == old(self).tracks@.filter(
                track_key_differs(room@, user@, stream@, track@),
            ).len() + 1,
            final(self).tracks@.drop_last() == old(self).tracks@.filter(
                track_key_differs(room@, user@, stream@, track@),
            ),
            final(self).tracks@.last().key.room == room,
            final(self).tracks@.last().key.user == user,
            final(self).tracks@.last().key.stream == stream,
            final(self).tracks@.last().key.track == track,
            final(self).tracks@.last().broadcaster.writers@.len() == 0,
            final(self).tracks@.last().broadcaster.kind == kind,
            final(self).tracks@.last().broadcaster.capability == capability,
            final(self).tracks@.last().broadcaster.source_ssrc == ssrc,
            final(self).tracks@.last().broadcaster.last_keyframe_ts == 0,
            final(self).has_track(room@, user@, stream@, track@),
    {
        let ghost pred = peer_notify_target(room@, user@);
        let mut targets: Vec<UserId> = Vec::new();
        let n = self.peers.len();
        let mut i: usize = 0;
        while i < n
            invariant
                *self == *old(self),
                self.wf(),
                n == self.peers@.len(),
                0 <= i <= n,
                notify_matches(targets@, self.peers@.subrange(0, i as int).filter(pred)),
                pred == peer_notify_target(room@, user@),
            decreases n - i,
        {
            let ghost prefix = self.peers@.subrange(0, i as int);
            let is_target = self.peers[i].room_id == room && !(self.peers[i].user_id == user);
            if is_target {
                targets.push(self.peers[i].user_id.clone());
            }
            proof {
                reveal(Seq::filter);
                let next = self.peers@.subrange(0, i as int + 1);
                assert(next.drop_last() =~= prefix);
                assert(next.last() == self.peers@[i as int]);
                assert(next.filter(pred) == if pred(self.peers@[i as int]) {
                    prefix.filter(pred).push(self.peers@[i as int])
                } else {
                    prefix.filter(pred)
                });
            }
            i = i + 1;
        }
        proof {
            assert(self.peers@.subrange(0, n as int) =~= self.peers@);
        }
        remove_track_with_key(&mut self.tracks, &room, &user, &stream, &track);
        let ghost kept = old(self).tracks@.filter(track_key_differs(room@, user@, stream@, track@));
        let broadcaster = TrackBroadcaster::new(kind, capability, ssrc);
        self.tracks.push(TrackEntry { key: TrackKey { room, user, stream, track }, broadcaster });
        proof {
            assert(self.tracks@.drop_last() =~= kept);
            lemma_filter_tracks_distinct(
                old(self).tracks@,
                track_key_differs(room@, user@, stream@, track@),
            );
            let m = self.tracks@.len() - 1;
            assert forall|a: int, b: int|
                0 <= a < b < self.tracks@.len() implies !(
            (#[trigger] self.tracks@[a]).key.room@ == (#[trigger] self.tracks@[b]).key.room@
                && self.tracks@[a].key.user@ == self.tracks@[b].key.user@
                && self.tracks@[a].key.stream@ == self.tracks@[b].key.stream@
                && self.tracks@[a].key.track@ == self.tracks@[b].key.track@) by {
                if b < m {
                    assert(kept[a] == self.tracks@[a] && kept[b] == self.tracks@[b]);
                } else {
                    assert(self.tracks@[a] == kept[a]);
                    assert(kept.contains(kept[a]));
                    old(self).tracks@.lemma_filter_contains_rev(
                        track_key_differs(room@, user@, stream@, track@),
                        kept[a],
                    );
                    assert(track_key_differs(room@, user@, stream@, track@)(kept[a]));
                }
            }
            self.lemma_track_idx_is(room@, user@, stream@, track@, m);
        }
        targets
    }

    /// Completes one subscription: appends a writer (with its fresh bounded
    /// queue) to the publisher's broadcaster, asks for a keyframe upstream,
    /// and records the stream in the subscriber's map. Returns the consumer
    /// half of the new queue for the subscriber's writer task, and the
    /// picture-loss indication to send (present exactly for video tracks).
    pub fn complete_subscription(
        &mut self,
        room: &RoomId,
        subscriber: &UserId,
        publisher: &UserId,
        stream: &StreamId,
        track: &TrackId,
        ssrc: u32,
        payload_type: u8,
    ) -> (r: Result<(Receiver<RtpPacket>, Option<PliRequest>), SfuError>)
        requires
            old(self).wf(),
        ensures
            final(self).wf(),
            (r is Err) == !(old(self).has_track(room@, publisher@, stream@, track@) && old(
                self,
            ).has_peer(room@, subscriber@)),
            r matches Err(e) ==> (e is NotFound && *final(self) == *old(self)),
            r matches Ok(ok) ==> ({
                let t = old(self).track_idx(room@, publisher@, stream@, track@);
                let p = old(self).peer_idx(room@, subscriber@);
                let b0 = old(self).tracks@[t].broadcaster;
                let b1 = final(self).tracks@[t].broadcaster;
                let p0 = old(self).peers@[p];
                let p1 = final(self).peers@[p];
                &&& final(self).rooms == old(self).rooms
                &&& final(self).tracks@.len() == old(self).tracks@.len()
                &&& forall|j: int|
                    0 <= j < old(self).tracks@.len() && j != t ==> final(self).tracks@[j] == old(
                        self,
                    ).tracks@[j]
                &&& final(self).tracks@[t].key == old(self).tracks@[t].key
                &&& b1.writers@.len() == b0.writers@.len() + 1
                &&& b1.writers@.subrange(0, b0.writers@.len() as int) == b0.writers@
                &&& b1.writers@.last().ssrc == ssrc
                &&& b1.writers@.last().payload_type == payload_type
                &&& b1.kind == b0.kind
                &&& b1.capability == b0.capability
                &&& b1.source_ssrc == b0.source_ssrc
                &&& b1.last_keyframe_ts == b0.last_keyframe_ts
                &&& ok.1 == (if b0.kind is Video {
                    Some(PliRequest { sender_ssrc: 0u32, media_ssrc: b0.source_ssrc })
                } else {
                    None::<PliRequest>
                })
                &&& final(self).metrics == (if b0.kind is Video {
                    Metrics {
                        keyframes_requested: sat_add(old(self).metrics.keyframes_requested, 1),
                        ..old(self).metrics
                    }
                } else {
                    old(self).metrics
                })
                &&& final(self).peers@.len() == old(self).peers@.len()
                &&& forall|j: int|
                    0 <= j < old(self).peers@.len() && j != p ==> final(self).peers@[j] == old(
                        self,
                    ).peers@[j]
                &&& p1.user_id == p0.user_id
                &&& p1.room_id == p0.room_id
                &&& p1.event_tx == p0.event_tx
                &&& (!p0.mapping_has_stream(stream@) ==> p1.track_mapping@ == p0.track_mapping@
                    .push((*stream, *publisher)))
                &&& (p0.mapping_has_stream(stream@) ==> p1.track_mapping@ == p0.track_mapping@
                    .update(
                    p0.mapping_idx(stream@),
                    (p0.track_mapping@[p0.mapping_idx(stream@)].0, *publisher),
                ))
            }),
    {
        let ti = match self.find_track(room, publisher, stream, track) {
            Some(ti) => ti,
            None => {
                return Err(SfuError::NotFound(String::from_str("Track not found")));
            },
        };
        let pi = match self.find_peer(room, subscriber) {
            Some(pi) => pi,
            None => {
                return Err(SfuError::NotFound(String::from_str("Session not found")));
            },
        };
        let mut entry = self.tracks.remove(ti);
        let (rx, pli) = entry.broadcaster.add_writer(ssrc, payload_type, &mut self.metrics);
        self.tracks.insert(ti, entry);
        let mut p = self.peers.remove(pi);
        p.record_subscription(stream.clone(), publisher.clone());
        self.peers.insert(pi, p);
        proof {
            assert(self.tracks@ =~= old(self).tracks@.update(
                ti as int,
                self.tracks@[ti as int],
            ));
            assert(self.peers@ =~= old(self).peers@.update(pi as int, self.peers@[pi as int]));
        }
        Ok((rx, pli))
    }

    /// The initial snapshot a fresh listener receives: one track event per
    /// entry of the session's subscription map, in subscription order,
    /// naming the publishing user, the stream, and the kind of the first
    /// matching registered track ("video" when none is registered).
    pub fn initial_track_events(&self, room: &RoomId, user: &UserId) -> (r: Result<
        Vec<TrackAddedEvent>,
        SfuError,
    >)
        requires
            distinct_peer_keys(self.peers@),
        ensures
            (r is Err) == !self.has_peer(room@, user@),
            r matches Err(e) ==> e is NotFound,
            r matches Ok(events) ==> ({
                let mapping = self.peers@[self.peer_idx(room@, user@)].track_mapping@;
                &&& events@.len() == mapping.len()
                &&& forall|k: int|
                    0 <= k < mapping.len() ==> {
                        &&& (#[trigger] events@[k]).user_id@ == mapping[k].1@
                        &&& events@[k].stream_id@ == mapping[k].0@
                        &&& events@[k].track_kind@ == kind_text(
                            kind_for(self.tracks@, room@, mapping[k].1@, mapping[k].0@),
                        )
                    }
            }),
    {
        let pi = match self.find_peer(room, user) {
            Some(pi) => pi,
            None => {
                return Err(SfuError::NotFound(String::from_str("Session not found")));
            },
        };
        let mut events: Vec<TrackAddedEvent> = Vec::new();
        let m = self.peers[pi].track_mapping.len();
        let mut k: usize = 0;
        while k < m
            invariant
                distinct_peer_keys(self.peers@),
                pi < self.peers@.len(),
                self.peers@[pi as int].room_id@ == room@,
                m == self.peers@[pi as int].track_mapping@.len(),
                0 <= k <= m,
                events@.len() == k,
                forall|j: int|
                    0 <= j < k ==> {
                        let mapping = self.peers@[pi as int].track_mapping@;
                        &&& (#[trigger] events@[j]).user_id@ == mapping[j].1@
                        &&& events@[j].stream_id@ == mapping[j].0@
                        &&& events@[j].track_kind@ == kind_text(
                            kind_for(self.tracks@, room@, mapping[j].1@, mapping[j].0@),
                        )
                    },
            decreases m - k,
        {
            let src_user = self.peers[pi].track_mapping[k].1.clone();
            let stream = self.peers[pi].track_mapping[k].0.clone();
            let kind = resolve_kind(&self.tracks, &self.peers[pi].room_id, &src_user, &stream);
            events.push(TrackAddedEvent {
                user_id: src_user.text(),
                stream_id: stream.text(),
                track_kind: kind.as_str().to_owned(),
            });
            k = k + 1;
        }
        Ok(events)
    }

    /// Attaches a listener to the session: installs a fresh bounded event
    /// channel (capacity 100), replacing any prior one, and immediately
    /// emits the initial track snapshot (`initial_track_events`) on it, in
    /// subscription order. Returns the consumer half for the listener.
    pub fn listen_events(&mut self, room: &RoomId, user: &UserId) -> (r: Result<
        Receiver<SfuEvent>,
        SfuError,
    >)
        requires
            old(self).wf(),
        ensures
            final(self).wf(),
            (r is Err) == !old(self).has_peer(room@, user@),
            r matches Err(e) ==> (e is NotFound && *final(self) == *old(self)),
            r is Ok ==> ({
                let p = old(self).peer_idx(room@, user@);
                &&& final(self).rooms == old(self).rooms
                &&& final(self).tracks@ == old(self).tracks@
                &&& final(self).metrics == old(self).metrics
                &&& final(self).peers@.len() == old(self).peers@.len()
                &&& forall|j: int|
                    0 <= j < old(self).peers@.len() && j != p ==> final(self).peers@[j] == old(
                        self,
                    ).peers@[j]
                &&& final(self).peers@[p].user_id == old(self).peers@[p].user_id
                &&& final(self).peers@[p].room_id == old(self).peers@[p].room_id
                &&& final(self).peers@[p].track_mapping@ == old(self).peers@[p].track_mapping@
                &&& final(self).peers@[p].event_tx is Some
            }),
    {
        let mut events = match self.initial_track_events(room, user) {
            Ok(events) => events,
            Err(e) => {
                return Err(e);
            },
        };
        let pi = match self.find_peer(room, user) {
            Some(pi) => pi,
            None => {
                return Err(SfuError::NotFound(String::from_str("Session not found")));
            },
        };
        let (tx, rx) = queue_channel(100);
        let mut p = self.peers.remove(pi);
        p.set_listener(tx);
        while events.len() > 0
            invariant
                p.wf(),
            decreases events@.len(),
        {
            let e = events.remove(0);
            let _outcome = p.emit(SfuEvent::TrackAdded(e));
        }
        self.peers.insert(pi, p);
        proof {
            assert(self.peers@ =~= old(self).peers@.update(pi as int, self.peers@[pi as int]));
        }
        Ok(rx)
    }

    /// Deletes the session (`room`, `user`): removes the peer, removes every
    /// source track it owned, removes the user from the room (dropping the
    /// room when it empties), and moves the peer and room counters down.
    /// Returns whether the session existed, so the caller can close its
    /// media transport.
    pub fn delete_session(&mut self, room: &RoomId, user: &UserId) -> (r: bool)
        requires
            old(self).wf(),
        ensures
            final(self).wf(),
            r == old(self).has_peer(room@, user@),
            !r ==> *final(self) == *old(self),
            r ==> {
                &&& final(self).peers@ == old(self).peers@.filter(
                    peer_key_differs(room@, user@),
                )
                &&& final(self).tracks@ == old(self).tracks@.filter(
                    track_not_owned_by(room@, user@),
                )
                &&& (final(self).rooms.has_room(room@) <==> (old(self).rooms.has_room(room@)
                    && old(self).rooms.users_of(room@).filter(keep_other_than(user@)).len()
                    != 0))
                &&& (!old(self).rooms.has_room(room@) ==> final(self).rooms.rooms@ == old(
                    self,
                ).rooms.rooms@)
                &&& final(self).metrics == (Metrics {
                    active_peers: sat_sub(old(self).metrics.active_peers, 1),
                    active_rooms: if old(self).rooms.has_room(room@) && old(
                        self,
                    ).rooms.users_of(room@).filter(keep_other_than(user@)).len() == 0 {
                        sat_sub(old(self).metrics.active_rooms, 1)
                    } else {
                        old(self).metrics.active_rooms
                    },
                    ..old(self).metrics
                })
            },
    {
        if self.find_peer(room, user).is_none() {
            return false;
        }
        remove_peer_entries(&mut self.peers, room, user);
        remove_track_entries(&mut self.tracks, room, user);
        let emptied = self.rooms.remove_user(room, user);
        if emptied {
            self.metrics.dec_active_rooms();
        }
        self.metrics.dec_active_peers();
        proof {
            lemma_filter_peers_distinct(old(self).peers@, peer_key_differs(room@, user@));
            lemma_filter_tracks_distinct(old(self).tracks@, track_not_owned_by(room@, user@));
            assert forall|a: int| 0 <= a < self.peers@.len() implies (
            #[trigger] self.peers@[a]).wf() && self.rooms.is_member(
                self.peers@[a].room_id@,
                self.peers@[a].user_id@,
            ) by {
                assert(self.peers@.contains(self.peers@[a]));
                old(self).peers@.lemma_filter_contains_rev(
                    peer_key_differs(room@, user@),
                    self.peers@[a],
                );
                let k = choose|k: int|
                    0 <= k < old(self).peers@.len() && old(self).peers@[k] == self.peers@[a];
                assert(old(self).peers@[k].wf());
                assert(peer_key_differs(room@, user@)(self.peers@[a]));
                assert(old(self).rooms.is_member(
                    old(self).peers@[k].room_id@,
                    old(self).peers@[k].user_id@,
                ));
            }
        }
        true
    }

    /// One step of a source read loop, routed by track key: finds the track
    /// and lets its broadcaster detect and record a keyframe, then fan the
    /// packet out to every subscriber with the per-subscriber header
    /// rewrite, the drop accounting, and the sweep of closed writers.
    /// Returns whether the track is registered.
    pub fn process_track_packet(
        &mut self,
        room: &RoomId,
        user: &UserId,
        stream: &StreamId,
        track: &TrackId,
        packet: &RtpPacket,
        now_ms: i64,
    ) -> (r: bool)
        requires
            old(self).wf(),
        ensures
            final(self).wf(),
            r == old(self).has_track(room@, user@, stream@, track@),
            !r ==> *final(self) == *old(self),
            r ==> ({
                let t = old(self).track_idx(room@, user@, stream@, track@);
                let b0 = old(self).tracks@[t].broadcaster;
                let b1 = final(self).tracks@[t].broadcaster;
                &&& final(self).rooms == old(self).rooms
                &&& final(self).peers@ == old(self).peers@
                &&& final(self).tracks@.len() == old(self).tracks@.len()
                &&& forall|j: int|
                    0 <= j < old(self).tracks@.len() && j != t ==> final(self).tracks@[j] == old(
                        self,
                    ).tracks@[j]
                &&& final(self).tracks@[t].key == old(self).tracks@[t].key
                &&& b1.kind == b0.kind
                &&& b1.capability == b0.capability
                &&& b1.source_ssrc == b0.source_ssrc
                &&& b1.last_keyframe_ts == (if crate::packet::spec_is_keyframe(
                    crate::packet::spec_codec_from_mime(b0.capability.mime_type@),
                    crate::buffer::payload_bytes(packet.payload),
                ) {
                    now_ms
                } else {
                    b0.last_keyframe_ts
                })
                &&& exists|sent: int, full: int, closed: int, keep: Seq<int>|
                    #![trigger crate::broadcaster::broadcast_accounting(old(self).metrics, final(self).metrics, b0.kind is Video, sent, full, closed), crate::broadcaster::writers_kept(b1.writers@, b0.writers@, keep)]
                    {
                        &&& 0 <= sent
                        &&& 0 <= full
                        &&& 0 <= closed
                        &&& sent + full + closed == b0.writers@.len()
                        &&& b1.writers@.len() + closed == b0.writers@.len()
                        &&& crate::broadcaster::broadcast_accounting(
                            old(self).metrics,
                            final(self).metrics,
                            b0.kind is Video,
                            sent,
                            full,
                            closed,
                        )
                        &&& crate::broadcaster::writers_kept(b1.writers@, b0.writers@, keep)
                    }
            }),
    {
        let ti = match self.find_track(room, user, stream, track) {
            Some(ti) => ti,
            None => {
                return false;
            },
        };
        let mut entry = self.tracks.remove(ti);
        let log = entry.broadcaster.process_source_packet(packet, now_ms, &mut self.metrics);
        self.tracks.insert(ti, entry);
        proof {
            assert(self.tracks@ =~= old(self).tracks@.update(
                ti as int,
                self.tracks@[ti as int],
            ));
            let t = ti as int;
            let b0 = old(self).tracks@[t].broadcaster;
            let b1 = self.tracks@[t].broadcaster;
            assert(crate::broadcaster::broadcast_accounting(
                old(self).metrics,
                self.metrics,
                b0.kind is Video,
                log@.0,
                log@.1,
                log@.2,
            ));
            assert(crate::broadcaster::writers_kept(b1.writers@, b0.writers@, log@.3));
        }
        true
    }

    /// Drains the unit: collects every session key (so the caller can close
    /// each media transport), then clears the peer, track and room
    /// registries and zeroes the active-peer and active-room counters.
    pub fn shutdown(&mut self) -> (r: Vec<SessionKey>)
        requires
            old(self).wf(),
        ensures
            final(self).wf(),
            r@.len() == old(self).peers@.len(),
            forall|k: int|
                0 <= k < old(self).peers@.len() ==> (#[trigger] r@[k]).room == old(
                    self,
                ).peers@[k].room_id && r@[k].user == old(self).peers@[k].user_id,
            final(self).peers@.len() == 0,
            final(self).tracks@.len() == 0,
            final(self).rooms.rooms@.len() == 0,
            final(self).metrics == (Metrics {
                active_peers: 0u64,
                active_rooms: 0u64,
                ..old(self).metrics
            }),
    {
        let mut keys: Vec<SessionKey> = Vec::new();
        let n = self.peers.len();
        let mut i: usize = 0;
        while i < n
            invariant
                *self == *old(self),
                n == self.peers@.len(),
                0 <= i <= n,
                keys@.len() == i,
                forall|k: int|
                    0 <= k < i ==> (#[trigger] keys@[k]).room == self.peers@[k].room_id
                        && keys@[k].user == self.peers@[k].user_id,
            decreases n - i,
        {
            keys.push(SessionKey {
                room: self.peers[i].room_id.clone(),
                user: self.peers[i].user_id.clone(),
            });
            i = i + 1;
        }
        self.peers = Vec::new();
        self.tracks = Vec::new();
        self.rooms = RoomManager::new();
        self.metrics.active_peers = 0;
        self.metrics.active_rooms = 0;
        keys
    }
}


/// The peer and room registries never disagree: every registered peer
/// session appears in the room registry as a member of its own room, for
/// every state the control operations can reach.
pub proof fn lemma_registered_peer_is_room_member(s: &Sfu, i: int)
    requires
        s.wf(),
        0 <= i < s.peers@.len(),
    ensures
        s.rooms.is_member(s.peers@[i].room_id@, s.peers@[i].user_id@),
{
}

} // verus!
