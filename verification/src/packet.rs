use vstd::prelude::*;

use bytes::Bytes;

use crate::buffer::{bytes_clone, bytes_get, bytes_len, payload_bytes};

verus! {

/// The RTP header fields that the forwarder reads or rewrites. Everything
/// else in a packet rides along unchanged inside the payload buffer.
#[derive(Debug, Clone, Copy, PartialEq, Eq, Structural)]
pub struct RtpHeader {
    /// Marker bit.
    pub marker: bool,
    /// Payload type; rewritten per subscriber when the writer asks for it.
    pub payload_type: u8,
    /// Sequence number; passed through unchanged.
    pub sequence_number: u16,
    /// Media timestamp; passed through unchanged.
    pub timestamp: u32,
    /// Synchronization source; rewritten per subscriber.
    pub ssrc: u32,
}

/// One RTP packet: a small mutable header and a shared immutable payload.
pub struct RtpPacket {
    pub header: RtpHeader,
    pub payload: Bytes,
}

impl Clone for RtpPacket {
    /// The clone carries the same header fields and shares the payload
    /// buffer (O(1), no byte copy).
    fn clone(&self) -> (r: Self)
        ensures
            r.header == self.header,
            payload_bytes(r.payload) == payload_bytes(self.payload),
    {
        RtpPacket { header: self.header, payload: bytes_clone(&self.payload) }
    }
}

/// The video codec of a source track, read from its MIME type.
#[derive(Debug, Clone, Copy, PartialEq, Eq, Structural)]
pub enum VideoCodec {
    Vp8,
    H264,
    Other,
}

/// Whether an RTP payload starts a keyframe, per codec:
/// for VP8 the low bit of the first byte is clear; for H.264 the NAL type is
/// 5 (IDR), or a fragmentation unit whose start bit is set and whose inner
/// type is 5; empty payloads and unknown codecs never count.
pub open spec fn spec_is_keyframe(codec: VideoCodec, payload: Seq<u8>) -> bool {
    if payload.len() == 0 {
        false
    } else {
        match codec {
            VideoCodec::Vp8 => payload[0] & 0x01 == 0,
            VideoCodec::H264 => {
                let nal = payload[0] & 0x1F;
                if nal == 5 {
                    true
                } else if nal == 28 && payload.len() > 1 {
                    (payload[1] & 0x80) != 0 && (payload[1] & 0x1F) == 5
                } else {
                    false
                }
            },
            VideoCodec::Other => false,
        }
    }
}

/// Codec-aware keyframe detection on a payload buffer.
pub fn detect_keyframe(codec: VideoCodec, payload: &Bytes) -> (r: bool)
    ensures
        r == spec_is_keyframe(codec, payload_bytes(*payload)),
{
    let n = bytes_len(payload);
    if n == 0 {
        return false;
    }
    match codec {
        VideoCodec::Vp8 => {
            let b0 = bytes_get(payload, 0);
            b0 & 0x01 == 0
        },
        VideoCodec::H264 => {
            let b0 = bytes_get(payload, 0);
            let nal = b0 & 0x1F;
            if nal == 5 {
                true
            } else if nal == 28 && n > 1 {
                let b1 = bytes_get(payload, 1);
                (b1 & 0x80) != 0 && (b1 & 0x1F) == 5
            } else {
                false
            }
        },
        VideoCodec::Other => false,
    }
}

/// The ASCII code of `c` with an upper-case letter folded to lower case.
pub open spec fn lower_u32(c: char) -> u32 {
    if 65 <= c as u32 <= 90 {
        (c as u32 + 32) as u32
    } else {
        c as u32
    }
}

/// True when the lower-cased text of `s` spells `pat` starting at `i`.
pub open spec fn mime_matches_at(s: Seq<char>, pat: Seq<char>, i: int) -> bool {
    forall|k: int| 0 <= k < pat.len() ==> lower_u32(s[i + k]) == #[trigger] pat[k] as u32
}

/// True when the lower-cased text of `s` contains `pat`.
pub open spec fn mime_contains_ci(s: Seq<char>, pat: Seq<char>) -> bool {
    exists|i: int| 0 <= i <= s.len() - pat.len() && mime_matches_at(s, pat, i)
}

/// Which video codec a MIME type names: the first of "vp8" and "h264" that
/// occurs in it, compared case-insensitively.
pub open spec fn spec_codec_from_mime(s: Seq<char>) -> VideoCodec {
    if mime_contains_ci(s, "vp8"@) {
        VideoCodec::Vp8
    } else if mime_contains_ci(s, "h264"@) {
        VideoCodec::H264
    } else {
        VideoCodec::Other
    }
}

fn mime_contains_pattern(s: &str, pat: &str) -> (r: bool)
    ensures
        r == mime_contains_ci(s@, pat@),
{
    let n = s.unicode_len();
    let m = pat.unicode_len();
    if m > n {
        assert(!mime_contains_ci(s@, pat@));
        return false;
    }
    let mut i: usize = 0;
    while i <= n - m
        invariant
            n == s@.len(),
            m == pat@.len(),
            m <= n,
            0 <= i,
            i <= n - m + 1,
            forall|q: int| 0 <= q < i ==> !mime_matches_at(s@, pat@, q),
        decreases n - i,
    {
        let mut ok = true;
        let mut k: usize = 0;
        while k < m
            invariant
                n == s@.len(),
                m == pat@.len(),
                0 <= i,
                i + m <= n,
                0 <= k <= m,
                ok == (forall|j: int|
                    0 <= j < k ==> lower_u32(s@[i + j]) == #[trigger] pat@[j] as u32),
            decreases m - k,
        {
            let c = s.get_char(i + k);
            let cv = c as u32;
            let lv: u32 = if cv >= 65 && cv <= 90 {
                cv + 32
            } else {
                cv
            };
            let p = pat.get_char(k);
            if lv != p as u32 {
                ok = false;
            }
            k = k + 1;
        }
        if ok {
            assert(mime_matches_at(s@, pat@, i as int));
            return true;
        }
        i = i + 1;
    }
    assert forall|q: int| 0 <= q <= s@.len() - pat@.len() implies !mime_matches_at(
        s@,
        pat@,
        q,
    ) by {
        assert(q < i);
    }
    false
}

/// Reads the video codec out of a MIME type, case-insensitively, as the
/// source read loop does before keyframe detection.
pub fn codec_from_mime(mime: &str) -> (r: VideoCodec)
    ensures
        r == spec_codec_from_mime(mime@),
{
    proof {
        reveal_strlit("vp8");
        reveal_strlit("h264");
    }
    if mime_contains_pattern(mime, "vp8") {
        VideoCodec::Vp8
    } else if mime_contains_pattern(mime, "h264") {
        VideoCodec::H264
    } else {
        VideoCodec::Other
    }
}

/// Codec-aware keyframe detection straight from the MIME type, as applied to
/// every packet of a video source.
pub fn detect_keyframe_mime(mime: &str, payload: &Bytes) -> (r: bool)
    ensures
        r == spec_is_keyframe(spec_codec_from_mime(mime@), payload_bytes(*payload)),
{
    let codec = codec_from_mime(mime);
    detect_keyframe(codec, payload)
}

/// What the header of a per-subscriber clone holds: the writer's SSRC, and
/// the writer's payload type where that is nonzero (zero means "leave the
/// source payload type unchanged").
pub open spec fn spec_rewrite_header(h: RtpHeader, ssrc: u32, payload_type: u8) -> RtpHeader {
    RtpHeader {
        ssrc,
        payload_type: if payload_type != 0 {
            payload_type
        } else {
            h.payload_type
        },
        ..h
    }
}

/// Clones a packet for one subscriber: the header is copied and rewritten,
/// the payload buffer is shared.
pub fn rewrite_for_writer(p: &RtpPacket, ssrc: u32, payload_type: u8) -> (r: RtpPacket)
    ensures
        r.header == spec_rewrite_header(p.header, ssrc, payload_type),
        payload_bytes(r.payload) == payload_bytes(p.payload),
{
    let mut header = p.header;
    header.ssrc = ssrc;
    if payload_type != 0 {
        header.payload_type = payload_type;
    }
    RtpPacket { header, payload: bytes_clone(&p.payload) }
}

/// Header mutation is per-clone: subscribers with different target SSRCs
/// never observe each other's rewritten SSRC, whatever the source header and
/// payload-type settings are.
pub proof fn lemma_rewrite_isolates_writers(
    h: RtpHeader,
    ssrc1: u32,
    pt1: u8,
    ssrc2: u32,
    pt2: u8,
)
    requires
        ssrc1 != ssrc2,
    ensures
        spec_rewrite_header(h, ssrc1, pt1).ssrc != spec_rewrite_header(h, ssrc2, pt2).ssrc,
{
}

} // verus!
