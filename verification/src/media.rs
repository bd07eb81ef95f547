use vstd::prelude::*;

use crate::broadcaster::{CodecCapability, TrackKind};

verus! {

/// How the transport bundles its media sections.
#[derive(Debug, Clone, Copy, PartialEq, Eq, Structural)]
pub enum BundlePolicy {
    Balanced,
    MaxCompat,
    MaxBundle,
}

/// Transport configuration handed to the media engine.
#[derive(Debug)]
pub struct RtcConfig {
    /// STUN servers to gather candidates against.
    pub stun_urls: Vec<String>,
    /// Bundling policy; this unit always bundles maximally.
    pub bundle_policy: BundlePolicy,
}

/// One codec registration for the media engine.
#[derive(Debug)]
pub struct CodecParameters {
    pub capability: CodecCapability,
    pub payload_type: u8,
    pub kind: TrackKind,
}

/// The media-engine configuration of the unit: which codecs it negotiates,
/// which RTP header extensions it offers, and how the transport is set up.
/// The surrounding process feeds these tables to the media engine verbatim.
pub struct MediaSetup;

impl MediaSetup {
    /// The transport configuration: one STUN server (the given one, or the
    /// well-known default) and maximal bundling.
    pub fn get_rtc_config(stun_url: Option<String>) -> (r: RtcConfig)
        ensures
            r.bundle_policy is MaxBundle,
            r.stun_urls@.len() == 1,
            r.stun_urls@[0]@ == (match stun_url {
                Some(s) => s@,
                None => "stun:stun.l.google.com:19302"@,
            }),
    {
        let url = match stun_url {
            Some(s) => s,
            None => String::from_str("stun:stun.l.google.com:19302"),
        };
        let mut stun_urls: Vec<String> = Vec::new();
        stun_urls.push(url);
        RtcConfig { stun_urls, bundle_policy: BundlePolicy::MaxBundle }
    }

    /// The codecs this unit negotiates: Opus with in-band FEC on payload
    /// type 111, VP8 on 96, and constrained-baseline H.264 on 102.
    pub fn registered_codecs() -> (r: Vec<CodecParameters>)
        ensures
            r@.len() == 3,
            r@[0].kind is Audio,
            r@[0].payload_type == 111,
            r@[0].capability.mime_type@ == "audio/opus"@,
            r@[0].capability.clock_rate == 48000,
            r@[0].capability.channels == 2,
            r@[0].capability.sdp_fmtp_line@ == "minptime=10;useinbandfec=1"@,
            r@[1].kind is Video,
            r@[1].payload_type == 96,
            r@[1].capability.mime_type@ == "video/VP8"@,
            r@[1].capability.clock_rate == 90000,
            r@[1].capability.channels == 0,
            r@[1].capability.sdp_fmtp_line@ == ""@,
            r@[2].kind is Video,
            r@[2].payload_type == 102,
            r@[2].capability.mime_type@ == "video/H264"@,
            r@[2].capability.clock_rate == 90000,
            r@[2].capability.channels == 0,
            r@[2].capability.sdp_fmtp_line@
                == "level-asymmetry-allowed=1;packetization-mode=1;profile-level-id=42e01f"@,
    {
        let mut r: Vec<CodecParameters> = Vec::new();
        r.push(CodecParameters {
            capability: CodecCapability {
                mime_type: String::from_str("audio/opus"),
                clock_rate: 48000,
                channels: 2,
                sdp_fmtp_line: String::from_str("minptime=10;useinbandfec=1"),
            },
            payload_type: 111,
            kind: TrackKind::Audio,
        });
        r.push(CodecParameters {
            capability: CodecCapability {
                mime_type: String::from_str("video/VP8"),
                clock_rate: 90000,
                channels: 0,
                sdp_fmtp_line: String::from_str(""),
            },
            payload_type: 96,
            kind: TrackKind::Video,
        });
        r.push(CodecParameters {
            capability: CodecCapability {
                mime_type: String::from_str("video/H264"),
                clock_rate: 90000,
                channels: 0,
                sdp_fmtp_line: String::from_str(
                    "level-asymmetry-allowed=1;packetization-mode=1;profile-level-id=42e01f",
                ),
            },
            payload_type: 102,
            kind: TrackKind::Video,
        });
        r
    }

    /// The RTP header extensions offered for both audio and video, in the
    /// order they are registered.
    pub fn header_extension_uris() -> (r: Vec<String>)
        ensures
            r@.len() == 9,
            r@[0]@ == "urn:ietf:params:rtp-hdrext:sdes:mid"@,
            r@[1]@ == "urn:ietf:params:rtp-hdrext:sdes:rtp-stream-id"@,
            r@[2]@ == "urn:ietf:params:rtp-hdrext:sdes:repaired-rtp-stream-id"@,
            r@[3]@ == "http://www.webrtc.org/experiments/rtp-hdrext/abs-send-time"@,
            r@[4]@ == "http://www.ietf.org/id/draft-holmer-rmcat-transport-wide-cc-extensions-01"@,
            r@[5]@ == "urn:ietf:params:rtp-hdrext:ssrc-audio-level"@,
            r@[6]@ == "urn:ietf:params:rtp-hdrext:toffset"@,
            r@[7]@ == "urn:3gpp:video-orientation"@,
            r@[8]@ == "http://www.webrtc.org/experiments/rtp-hdrext/video-content-type"@,
    {
        let mut r: Vec<String> = Vec::new();
        r.push(String::from_str("urn:ietf:params:rtp-hdrext:sdes:mid"));
        r.push(String::from_str("urn:ietf:params:rtp-hdrext:sdes:rtp-stream-id"));
        r.push(String::from_str("urn:ietf:params:rtp-hdrext:sdes:repaired-rtp-stream-id"));
        r.push(String::from_str("http://www.webrtc.org/experiments/rtp-hdrext/abs-send-time"));
        r.push(String::from_str(
            "http://www.ietf.org/id/draft-holmer-rmcat-transport-wide-cc-extensions-01",
        ));
        r.push(String::from_str("urn:ietf:params:rtp-hdrext:ssrc-audio-level"));
        r.push(String::from_str("urn:ietf:params:rtp-hdrext:toffset"));
        r.push(String::from_str("urn:3gpp:video-orientation"));
        r.push(String::from_str("http://www.webrtc.org/experiments/rtp-hdrext/video-content-type"));
        r
    }
}

} // verus!
