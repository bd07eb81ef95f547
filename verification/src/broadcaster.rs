use vstd::prelude::*;

use tokio::sync::mpsc::{Receiver, Sender};

use crate::channel::{queue_channel, queue_try_send, SendOutcome};
use crate::metrics::{sat_add, Metrics};
use crate::packet::{
    detect_keyframe_mime, rewrite_for_writer, spec_codec_from_mime, spec_is_keyframe, RtpPacket,
};

verus! {

/// Capacity of one subscriber's packet queue.
pub const WRITER_QUEUE_CAPACITY: usize = 128;

/// The media kind of a track.
#[derive(Debug, Clone, Copy, PartialEq, Eq, Structural)]
pub enum TrackKind {
    Audio,
    Video,
}

impl TrackKind {
    /// The kind as the conventional lower-case word.
    pub fn as_str(&self) -> (r: &str)
        ensures
            *self is Video ==> r@ == "video"@,
            *self is Audio ==> r@ == "audio"@,
    {
        match self {
            TrackKind::Video => "video",
            TrackKind::Audio => "audio",
        }
    }
}

/// Codec capability of a source track, carried to each local send track.
#[derive(Debug)]
pub struct CodecCapability {
    pub mime_type: String,
    pub clock_rate: u32,
    pub channels: u16,
    pub sdp_fmtp_line: String,
}

impl Clone for CodecCapability {
    fn clone(&self) -> (r: Self)
        ensures
            r == *self,
    {
        CodecCapability {
            mime_type: self.mime_type.clone(),
            clock_rate: self.clock_rate,
            channels: self.channels,
            sdp_fmtp_line: self.sdp_fmtp_line.clone(),
        }
    }
}

/// A picture-loss indication to send on the upstream transport.
#[derive(Debug, Clone, Copy, PartialEq, Eq, Structural)]
pub struct PliRequest {
    pub sender_ssrc: u32,
    pub media_ssrc: u32,
}

/// One subscriber's endpoint: the producer half of its bounded packet queue
/// and the header values to rewrite to.
pub struct BroadcasterWriter {
    /// Producer half of the subscriber's queue; the subscriber's writer task
    /// owns the consumer half.
    pub tx: Sender<RtpPacket>,
    /// SSRC each forwarded packet is rewritten to.
    pub ssrc: u32,
    /// Payload type each forwarded packet is rewritten to; zero leaves the
    /// source payload type unchanged.
    pub payload_type: u8,
}

/// Fan-out engine for one source track: an ordered list of subscriber
/// writers, fed by the source read loop, never blocking on any subscriber.
pub struct TrackBroadcaster {
    /// Ordered subscriber list.
    pub writers: Vec<BroadcasterWriter>,
    /// Media kind of the source track.
    pub kind: TrackKind,
    /// Codec capability of the source track.
    pub capability: CodecCapability,
    /// SSRC of the source track, the target of picture-loss indications.
    pub source_ssrc: u32,
    /// When the last keyframe was seen, in wall-clock milliseconds; zero
    /// until a keyframe arrives.
    pub last_keyframe_ts: i64,
}

impl TrackBroadcaster {
    /// A broadcaster with no subscribers yet.
    pub fn new(kind: TrackKind, capability: CodecCapability, source_ssrc: u32) -> (r: Self)
        ensures
            r.writers@.len() == 0,
            r.kind == kind,
            r.capability == capability,
            r.source_ssrc == source_ssrc,
            r.last_keyframe_ts == 0,
    {
        TrackBroadcaster {
            writers: Vec::new(),
            kind,
            capability,
            source_ssrc,
            last_keyframe_ts: 0,
        }
    }

    /// Appends a subscriber with a fresh bounded queue, then immediately
    /// requests a keyframe upstream so the new subscriber becomes decodable.
    /// Returns the consumer half of the queue for the subscriber's writer
    /// task, and the keyframe request to send (present exactly for video).
    pub fn add_writer(&mut self, ssrc: u32, payload_type: u8, metrics: &mut Metrics) -> (r: (
        Receiver<RtpPacket>,
        Option<PliRequest>,
    ))
        ensures
            final(self).writers@.len() == old(self).writers@.len() + 1,
            final(self).writers@.subrange(0, old(self).writers@.len() as int) == old(
                self,
            ).writers@,
            final(self).writers@.last().ssrc == ssrc,
            final(self).writers@.last().payload_type == payload_type,
            final(self).kind == old(self).kind,
            final(self).capability == old(self).capability,
            final(self).source_ssrc == old(self).source_ssrc,
            final(self).last_keyframe_ts == old(self).last_keyframe_ts,
            r.1 == (if old(self).kind is Video {
                Some(PliRequest { sender_ssrc: 0u32, media_ssrc: old(self).source_ssrc })
            } else {
                None::<PliRequest>
            }),
            old(self).kind is Video ==> *final(metrics) == (Metrics {
                keyframes_requested: sat_add(old(metrics).keyframes_requested, 1),
                ..*old(metrics)
            }),
            old(self).kind is Audio ==> *final(metrics) == *old(metrics),
    {
        let (tx, rx) = queue_channel(WRITER_QUEUE_CAPACITY);
        self.writers.push(BroadcasterWriter { tx, ssrc, payload_type });
        proof {
            assert(self.writers@.subrange(0, old(self).writers@.len() as int) =~= old(
                self,
            ).writers@);
        }
        let pli = self.request_keyframe(metrics);
        (rx, pli)
    }

    /// The picture-loss indication to send upstream: for a video track, a
    /// PLI with sender SSRC zero aimed at the source SSRC (and the request
    /// counter moves); audio tracks never request keyframes.
    pub fn request_keyframe(&self, metrics: &mut Metrics) -> (r: Option<PliRequest>)
        ensures
            self.kind is Video ==> r == Some(
                PliRequest { sender_ssrc: 0u32, media_ssrc: self.source_ssrc },
            ),
            self.kind is Audio ==> r is None,
            self.kind is Video ==> *final(metrics) == (Metrics {
                keyframes_requested: sat_add(old(metrics).keyframes_requested, 1),
                ..*old(metrics)
            }),
            self.kind is Audio ==> *final(metrics) == *old(metrics),
    {
        match self.kind {
            TrackKind::Audio => None,
            TrackKind::Video => {
                metrics.inc_keyframes_requested();
                Some(PliRequest { sender_ssrc: 0, media_ssrc: self.source_ssrc })
            },
        }
    }

    /// Records that a keyframe arrived now (wall-clock milliseconds).
    pub fn mark_keyframe_received(&mut self, now_ms: i64)
        ensures
            *final(self) == (TrackBroadcaster { last_keyframe_ts: now_ms, ..*old(self) }),
    {
        self.last_keyframe_ts = now_ms;
    }

    /// The retry decision of the keyframe-request schedule: after the wait,
    /// a second request is due exactly when no keyframe arrived since the
    /// schedule started.
    pub fn pli_retry_due(&self, start_ms: i64) -> (r: bool)
        ensures
            r == (self.last_keyframe_ts < start_ms),
    {
        self.last_keyframe_ts < start_ms
    }
}

/// What one fan-out pass did: how many subscriber queues accepted the
/// packet, how many were full, and how many were closed.
pub open spec fn broadcast_accounting(
    before: Metrics,
    after: Metrics,
    video: bool,
    sent: int,
    full: int,
    closed: int,
) -> bool {
    &&& after.packets_forwarded_video == sat_add(
        before.packets_forwarded_video,
        if video {
            sent as u64
        } else {
            0u64
        },
    )
    &&& after.packets_forwarded_audio == sat_add(
        before.packets_forwarded_audio,
        if video {
            0u64
        } else {
            sent as u64
        },
    )
    &&& after.packets_dropped_buffer_full == sat_add(
        before.packets_dropped_buffer_full,
        full as u64,
    )
    &&& after.packets_dropped_channel_closed == sat_add(
        before.packets_dropped_channel_closed,
        closed as u64,
    )
    &&& after.active_rooms == before.active_rooms
    &&& after.active_peers == before.active_peers
    &&& after.keyframes_requested == before.keyframes_requested
    &&& after.webrtc_connections == before.webrtc_connections
    &&& after.webrtc_connection_failures == before.webrtc_connection_failures
}

/// True when `kept` lists, in order, exactly the entries of `from` at the
/// strictly increasing positions `keep`.
pub open spec fn writers_kept(
    kept: Seq<BroadcasterWriter>,
    from: Seq<BroadcasterWriter>,
    keep: Seq<int>,
) -> bool {
    &&& keep.len() == kept.len()
    &&& forall|a: int, b: int| 0 <= a < b < keep.len() ==> keep[a] < keep[b]
    &&& forall|k: int|
        0 <= k < keep.len() ==> 0 <= #[trigger] keep[k] < from.len() && kept[k] == from[keep[k]]
}

impl TrackBroadcaster {
    /// Fans one source packet out to every subscriber, never blocking and
    /// never skipping a subscriber on account of another one's queue. Each
    /// subscriber gets its own clone with the header rewritten to its SSRC
    /// and payload type; the payload buffer is shared, not copied. Every
    /// subscriber's outcome is counted: enqueued, dropped on a full queue,
    /// or dropped on a closed queue — no packet vanishes uncounted. Writers
    /// whose queue is closed (the subscriber's task exited) are swept from
    /// the list in the same pass.
    pub fn broadcast(&mut self, packet: &RtpPacket, metrics: &mut Metrics) -> (log: Ghost<
        (int, int, int, Seq<int>),
    >)
        ensures
            final(self).kind == old(self).kind,
            final(self).capability == old(self).capability,
            final(self).source_ssrc == old(self).source_ssrc,
            final(self).last_keyframe_ts == old(self).last_keyframe_ts,
            0 <= log@.0 && 0 <= log@.1 && 0 <= log@.2,
            log@.0 + log@.1 + log@.2 == old(self).writers@.len(),
            final(self).writers@.len() + log@.2 == old(self).writers@.len(),
            broadcast_accounting(
                *old(metrics),
                *final(metrics),
                old(self).kind is Video,
                log@.0,
                log@.1,
                log@.2,
            ),
            writers_kept(final(self).writers@, old(self).writers@, log@.3),
    {
        let ghost before_metrics = *metrics;
        let ghost all = self.writers@;
        let video = match self.kind {
            TrackKind::Video => true,
            TrackKind::Audio => false,
        };
        let mut pending: Vec<BroadcasterWriter> = Vec::new();
        core::mem::swap(&mut pending, &mut self.writers);
        let n = pending.len();
        let mut survivors: Vec<BroadcasterWriter> = Vec::new();
        let ghost mut keep: Seq<int> = Seq::empty();
        let ghost mut sent: int = 0;
        let ghost mut full: int = 0;
        let ghost mut closed: int = 0;
        let mut i: usize = 0;
        while i < n
            invariant
                n == all.len(),
                0 <= i <= n,
                pending@ == all.subrange(i as int, n as int),
                video == (self.kind is Video),
                0 <= sent,
                0 <= full,
                0 <= closed,
                sent + full + closed == i,
                survivors@.len() + closed == i,
                broadcast_accounting(before_metrics, *metrics, video, sent, full, closed),
                writers_kept(survivors@, all, keep),
                forall|k: int| 0 <= k < keep.len() ==> #[trigger] keep[k] < i,
            decreases n - i,
        {
            let w = pending.remove(0);
            proof {
                assert(w == all[i as int]);
                assert(pending@ =~= all.subrange(i as int + 1, n as int));
            }
            let clone = rewrite_for_writer(packet, w.ssrc, w.payload_type);
            let outcome = queue_try_send(&w.tx, clone);
            match outcome {
                SendOutcome::Sent => {
                    metrics.count_forwarded(video);
                    survivors.push(w);
                    proof {
                        keep = keep.push(i as int);
                        sent = sent + 1;
                        lemma_sat_add_step(
                            before_metrics.packets_forwarded_video,
                            if video {
                                sent - 1
                            } else {
                                0
                            },
                        );
                        lemma_sat_add_step(
                            before_metrics.packets_forwarded_audio,
                            if video {
                                0
                            } else {
                                sent - 1
                            },
                        );
                    }
                },
                SendOutcome::Full => {
                    metrics.count_dropped_buffer_full();
                    survivors.push(w);
                    proof {
                        keep = keep.push(i as int);
                        full = full + 1;
                        lemma_sat_add_step(before_metrics.packets_dropped_buffer_full, full - 1);
                    }
                },
                SendOutcome::Closed => {
                    metrics.count_dropped_channel_closed();
                    proof {
                        closed = closed + 1;
                        lemma_sat_add_step(
                            before_metrics.packets_dropped_channel_closed,
                            closed - 1,
                        );
                    }
                },
            }
            i = i + 1;
        }
        core::mem::swap(&mut survivors, &mut self.writers);
        proof {
            assert(all.subrange(n as int, n as int) =~= Seq::<BroadcasterWriter>::empty());
            assert(broadcast_accounting(
                before_metrics,
                *metrics,
                old(self).kind is Video,
                sent,
                full,
                closed,
            ));
            assert(writers_kept(self.writers@, old(self).writers@, keep));
        }
        Ghost((sent, full, closed, keep))
    }

    /// One step of the source read loop for this track: keyframe detection
    /// on the packet's payload (by the source's MIME type), recording of a
    /// detected keyframe, then the fan-out. The keyframe is recorded before
    /// the fan-out runs, so a detected keyframe is visible by the time
    /// `broadcast` returns.
    pub fn process_source_packet(
        &mut self,
        packet: &RtpPacket,
        now_ms: i64,
        metrics: &mut Metrics,
    ) -> (log: Ghost<(int, int, int, Seq<int>)>)
        ensures
            final(self).kind == old(self).kind,
            final(self).capability == old(self).capability,
            final(self).source_ssrc == old(self).source_ssrc,
            final(self).last_keyframe_ts == (if spec_is_keyframe(
                spec_codec_from_mime(old(self).capability.mime_type@),
                crate::buffer::payload_bytes(packet.payload),
            ) {
                now_ms
            } else {
                old(self).last_keyframe_ts
            }),
            0 <= log@.0 && 0 <= log@.1 && 0 <= log@.2,
            log@.0 + log@.1 + log@.2 == old(self).writers@.len(),
            final(self).writers@.len() + log@.2 == old(self).writers@.len(),
            broadcast_accounting(
                *old(metrics),
                *final(metrics),
                old(self).kind is Video,
                log@.0,
                log@.1,
                log@.2,
            ),
            writers_kept(final(self).writers@, old(self).writers@, log@.3),
    {
        let is_kf = detect_keyframe_mime(self.capability.mime_type.as_str(), &packet.payload);
        if is_kf {
            self.mark_keyframe_received(now_ms);
        }
        self.broadcast(packet, metrics)
    }
}

proof fn lemma_sat_add_step(a: u64, k: int)
    requires
        0 <= k,
        k + 1 <= u64::MAX,
    ensures
        sat_add(sat_add(a, k as u64), 1) == sat_add(a, (k + 1) as u64),
{
}

} // verus!
