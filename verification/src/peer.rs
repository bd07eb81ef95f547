use vstd::prelude::*;

use tokio::sync::mpsc::Sender;

use crate::channel::{queue_try_send, SendOutcome};
use crate::events::SfuEvent;
use crate::ids::{RoomId, StreamId, UserId};

verus! {

/// Outcome of one event emission toward a peer's listener.
#[derive(Debug, Clone, Copy, PartialEq, Eq, Structural)]
pub enum EmitOutcome {
    /// No listener is attached; the event was silently dropped.
    NoListener,
    /// The event was enqueued for the listener.
    Sent,
    /// The listener's queue was full; the event was dropped.
    Full,
    /// The listener's consumer side is gone; the event was dropped.
    Closed,
}

/// One peer session, as the registries see it: its identifiers, the producer
/// half of its event channel (when a listener is attached), and the map from
/// stream to publishing user for the tracks currently written to it. The
/// media transport itself, and the signaling lock that serializes
/// renegotiation, live with the process around this state.
pub struct Peer {
    pub user_id: UserId,
    pub room_id: RoomId,
    /// Producer half toward the current event listener, if one is attached.
    pub event_tx: Option<Sender<SfuEvent>>,
    /// Stream identifier to publishing user, in subscription order.
    pub track_mapping: Vec<(StreamId, UserId)>,
}

impl Peer {
    /// True when `stream` already has an entry in the subscription map.
    pub open spec fn mapping_has_stream(&self, stream: Seq<char>) -> bool {
        exists|k: int|
            0 <= k < self.track_mapping@.len() && self.track_mapping@[k].0@ == stream
    }

    /// The index of `stream` in the subscription map.
    pub open spec fn mapping_idx(&self, stream: Seq<char>) -> int {
        choose|k: int|
            0 <= k < self.track_mapping@.len() && self.track_mapping@[k].0@ == stream
    }

    /// Internal well-formedness: no stream is mapped twice.
    pub open spec fn wf(&self) -> bool {
        forall|a: int, b: int|
            0 <= a < b < self.track_mapping@.len() ==> (#[trigger] self.track_mapping@[a]).0@
                != (#[trigger] self.track_mapping@[b]).0@
    }

    proof fn lemma_mapping_idx_is(&self, stream: Seq<char>, k: int)
        requires
            self.wf(),
            0 <= k < self.track_mapping@.len(),
            self.track_mapping@[k].0@ == stream,
        ensures
            self.mapping_has_stream(stream),
            self.mapping_idx(stream) == k,
    {
        assert(self.mapping_has_stream(stream));
        let j = self.mapping_idx(stream);
        if j != k {
            if j < k {
                assert(self.track_mapping@[j].0@ != self.track_mapping@[k].0@);
            } else {
                assert(self.track_mapping@[k].0@ != self.track_mapping@[j].0@);
            }
        }
    }

    /// A fresh session: no listener attached, no subscriptions yet.
    pub fn new(user_id: UserId, room_id: RoomId) -> (r: Peer)
        ensures
            r.user_id == user_id,
            r.room_id == room_id,
            r.event_tx is None,
            r.track_mapping@.len() == 0,
            r.wf(),
    {
        Peer { user_id, room_id, event_tx: None, track_mapping: Vec::new() }
    }

    /// Installs the producer half of a new listener's event channel,
    /// replacing any prior one (whose queued events are thereby dropped).
    pub fn set_listener(&mut self, tx: Sender<SfuEvent>)
        ensures
            *final(self) == (Peer { event_tx: Some(tx), ..*old(self) }),
    {
        self.event_tx = Some(tx);
    }

    /// Emits one event toward the current listener, without ever blocking:
    /// with no listener attached, or a full or closed queue, the event is
    /// dropped and the outcome says so.
    pub fn emit(&self, event: SfuEvent) -> (r: EmitOutcome)
        ensures
            (r is NoListener) == (self.event_tx is None),
    {
        match &self.event_tx {
            None => EmitOutcome::NoListener,
            Some(tx) => match queue_try_send(tx, event) {
                SendOutcome::Sent => EmitOutcome::Sent,
                SendOutcome::Full => EmitOutcome::Full,
                SendOutcome::Closed => EmitOutcome::Closed,
            },
        }
    }

    /// Records that `stream`, published by `source`, is now written to this
    /// peer. A new stream is appended; re-recording a stream replaces its
    /// publisher and keeps its position.
    pub fn record_subscription(&mut self, stream: StreamId, source: UserId)
        requires
            old(self).wf(),
        ensures
            final(self).wf(),
            final(self).user_id == old(self).user_id,
            final(self).room_id == old(self).room_id,
            final(self).event_tx == old(self).event_tx,
            !old(self).mapping_has_stream(stream@) ==> final(self).track_mapping@ == old(
                self,
            ).track_mapping@.push((stream, source)),
            old(self).mapping_has_stream(stream@) ==> {
                let k = old(self).mapping_idx(stream@);
                final(self).track_mapping@ == old(self).track_mapping@.update(
                    k,
                    (old(self).track_mapping@[k].0, source),
                )
            },
    {
        let n = self.track_mapping.len();
        let mut k: usize = 0;
        while k < n
            invariant
                *self == *old(self),
                self.wf(),
                n == self.track_mapping@.len(),
                0 <= k <= n,
                forall|j: int| 0 <= j < k ==> (#[trigger] self.track_mapping@[j]).0@ != stream@,
            decreases n - k,
        {
            if self.track_mapping[k].0 == stream {
                proof {
                    self.lemma_mapping_idx_is(stream@, k as int);
                }
                let entry = self.track_mapping.remove(k);
                self.track_mapping.insert(k, (entry.0, source));
                proof {
                    assert(self.track_mapping@ =~= old(self).track_mapping@.update(
                        k as int,
                        (old(self).track_mapping@[k as int].0, source),
                    ));
                }
                return ;
            }
            k = k + 1;
        }
        self.track_mapping.push((stream, source));
        proof {
            let m = old(self).track_mapping@;
            assert forall|a: int, b: int|
                0 <= a < b < self.track_mapping@.len() implies (
            #[trigger] self.track_mapping@[a]).0@ != (#[trigger] self.track_mapping@[b]).0@ by {
                if b < m.len() {
                    assert(m[a].0@ != m[b].0@);
                } else {
                    assert(self.track_mapping@[b] == (stream, source));
                    assert(self.track_mapping@[a] == m[a]);
                }
            }
        }
    }
}

} // verus!
