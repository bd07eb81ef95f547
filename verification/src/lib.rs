//! Core of a selective forwarding unit for real-time conferencing.
//!
//! The library holds the verified logic of the unit: the identifier types,
//! the room, peer and track registries, configuration validation, codec-aware
//! keyframe detection, the per-track fan-out broadcaster with its
//! backpressure-aware drop policy, and the event-channel rules. The
//! surrounding process (media transport, RPC surface, clocks and timers)
//! drives this state machine from outside.

mod broadcaster;
mod buffer;
mod channel;
mod config;
mod events;
mod ids;
mod media;
mod metrics;
mod packet;
mod peer;
mod rooms;
mod sdp;
mod sfu;
pub mod signal_event;
pub mod signal_request;
pub mod signaling;
pub mod web_socket_message;

pub use broadcaster::{BroadcasterWriter, CodecCapability, PliRequest, TrackBroadcaster, TrackKind};
pub use buffer::payload_bytes;
pub use channel::SendOutcome;
pub use config::{
    decimal_text, digits_value, lemma_decimal_text_value, parses_as_port, port_digits,
    u16_to_text, validate_env, validate_env_spec, Config, ConfigError,
};
pub use events::SfuEvent;
pub use metrics::{register_metrics, Metrics};
pub use peer::{EmitOutcome, Peer};
pub use ids::{RoomId, StreamId, TrackId, UserId};
pub use packet::{
    codec_from_mime, detect_keyframe, detect_keyframe_mime, rewrite_for_writer, RtpHeader,
    RtpPacket, VideoCodec,
};
pub use media::{BundlePolicy, CodecParameters, MediaSetup, RtcConfig};
pub use rooms::{RoomEntry, RoomManager};
pub use sdp::rewrite_setup_active;
pub use sfu::{SessionKey, SessionPlan, Sfu, SfuError, SignalAction, SignalPayload, SubscribeInstruction, TrackEntry, TrackKey};
pub use signaling::TrackAddedEvent;
