use vstd::prelude::*;

verus! {

/// `a + b`, capped at the largest counter value.
pub open spec fn sat_add(a: u64, b: u64) -> u64 {
    if a + b > u64::MAX {
        u64::MAX
    } else {
        (a + b) as u64
    }
}

/// `a - b`, floored at zero.
pub open spec fn sat_sub(a: u64, b: u64) -> u64 {
    if a >= b {
        (a - b) as u64
    } else {
        0
    }
}

/// The process-wide operational counters: active rooms and peers, packets
/// forwarded per media type, packets dropped per reason, keyframe requests,
/// and transport connection outcomes.
#[derive(Debug, Clone, Copy, PartialEq, Eq, Structural)]
pub struct Metrics {
    /// Number of currently active rooms.
    pub active_rooms: u64,
    /// Number of currently active peers.
    pub active_peers: u64,
    /// RTP packets forwarded on video tracks.
    pub packets_forwarded_video: u64,
    /// RTP packets forwarded on audio tracks.
    pub packets_forwarded_audio: u64,
    /// RTP packets dropped because a subscriber queue was full.
    pub packets_dropped_buffer_full: u64,
    /// RTP packets dropped because a subscriber queue was closed.
    pub packets_dropped_channel_closed: u64,
    /// Picture-loss indications sent upstream.
    pub keyframes_requested: u64,
    /// Media transport connections established.
    pub webrtc_connections: u64,
    /// Media transport connection failures.
    pub webrtc_connection_failures: u64,
}

/// Creates the counter set, every counter starting at zero.
pub fn register_metrics() -> (r: Metrics)
    ensures
        r == (Metrics {
            active_rooms: 0u64,
            active_peers: 0u64,
            packets_forwarded_video: 0u64,
            packets_forwarded_audio: 0u64,
            packets_dropped_buffer_full: 0u64,
            packets_dropped_channel_closed: 0u64,
            keyframes_requested: 0u64,
            webrtc_connections: 0u64,
            webrtc_connection_failures: 0u64,
        }),
{
    Metrics {
        active_rooms: 0,
        active_peers: 0,
        packets_forwarded_video: 0,
        packets_forwarded_audio: 0,
        packets_dropped_buffer_full: 0,
        packets_dropped_channel_closed: 0,
        keyframes_requested: 0,
        webrtc_connections: 0,
        webrtc_connection_failures: 0,
    }
}

impl Metrics {
    /// One more active room.
    pub fn inc_active_rooms(&mut self)
        ensures
            *final(self) == (Metrics { active_rooms: sat_add(old(self).active_rooms, 1), ..*old(self) }),
    {
        self.active_rooms = if self.active_rooms < u64::MAX {
            self.active_rooms + 1
        } else {
            self.active_rooms
        };
    }

    /// One active room fewer.
    pub fn dec_active_rooms(&mut self)
        ensures
            *final(self) == (Metrics { active_rooms: sat_sub(old(self).active_rooms, 1), ..*old(self) }),
    {
        self.active_rooms = if self.active_rooms > 0 {
            self.active_rooms - 1
        } else {
            0
        };
    }

    /// One more active peer.
    pub fn inc_active_peers(&mut self)
        ensures
            *final(self) == (Metrics { active_peers: sat_add(old(self).active_peers, 1), ..*old(self) }),
    {
        self.active_peers = if self.active_peers < u64::MAX {
            self.active_peers + 1
        } else {
            self.active_peers
        };
    }

    /// One active peer fewer.
    pub fn dec_active_peers(&mut self)
        ensures
            *final(self) == (Metrics { active_peers: sat_sub(old(self).active_peers, 1), ..*old(self) }),
    {
        self.active_peers = if self.active_peers > 0 {
            self.active_peers - 1
        } else {
            0
        };
    }

    /// One more packet forwarded on a track of the given kind.
    pub fn count_forwarded(&mut self, video: bool)
        ensures
            video ==> *final(self) == (Metrics {
                packets_forwarded_video: sat_add(old(self).packets_forwarded_video, 1),
                ..*old(self)
            }),
            !video ==> *final(self) == (Metrics {
                packets_forwarded_audio: sat_add(old(self).packets_forwarded_audio, 1),
                ..*old(self)
            }),
    {
        if video {
            self.packets_forwarded_video = if self.packets_forwarded_video < u64::MAX {
                self.packets_forwarded_video + 1
            } else {
                self.packets_forwarded_video
            };
        } else {
            self.packets_forwarded_audio = if self.packets_forwarded_audio < u64::MAX {
                self.packets_forwarded_audio + 1
            } else {
                self.packets_forwarded_audio
            };
        }
    }

    /// One more packet dropped on a full subscriber queue.
    pub fn count_dropped_buffer_full(&mut self)
        ensures
            *final(self) == (Metrics {
                packets_dropped_buffer_full: sat_add(old(self).packets_dropped_buffer_full, 1),
                ..*old(self)
            }),
    {
        self.packets_dropped_buffer_full = if self.packets_dropped_buffer_full < u64::MAX {
            self.packets_dropped_buffer_full + 1
        } else {
            self.packets_dropped_buffer_full
        };
    }

    /// One more packet dropped on a closed subscriber queue.
    pub fn count_dropped_channel_closed(&mut self)
        ensures
            *final(self) == (Metrics {
                packets_dropped_channel_closed: sat_add(old(self).packets_dropped_channel_closed, 1),
                ..*old(self)
            }),
    {
        self.packets_dropped_channel_closed = if self.packets_dropped_channel_closed < u64::MAX {
            self.packets_dropped_channel_closed + 1
        } else {
            self.packets_dropped_channel_closed
        };
    }

    /// One more keyframe request sent upstream.
    pub fn inc_keyframes_requested(&mut self)
        ensures
            *final(self) == (Metrics {
                keyframes_requested: sat_add(old(self).keyframes_requested, 1),
                ..*old(self)
            }),
    {
        self.keyframes_requested = if self.keyframes_requested < u64::MAX {
            self.keyframes_requested + 1
        } else {
            self.keyframes_requested
        };
    }
}

} // verus!
