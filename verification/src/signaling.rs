use vstd::prelude::*;

use crate::web_socket_message::Payload;

verus! {

/// The master envelope of the signaling surface: exactly one payload.
#[derive(Debug)]
pub struct WebSocketMessage {
    pub payload: Option<Payload>,
}

/// Request to join a room.
#[derive(Debug)]
pub struct JoinRequest {
    pub token: String,
    pub room_id: String,
    pub display_name: String,
}

/// Answer to a join request.
#[derive(Debug)]
pub struct JoinResponse {
    pub success: bool,
    pub user_id: String,
    pub initial_state: Option<RoomStateEvent>,
    pub is_host: bool,
}

/// Request to resume a previous session.
#[derive(Debug)]
pub struct ReconnectRequest {
    pub token: String,
    pub previous_session_id: String,
}

/// Request to enable or disable one's own audio or video.
#[derive(Debug)]
pub struct ToggleMediaRequest {
    /// "audio" or "video".
    pub kind: String,
    pub is_enabled: bool,
}

/// Broadcast of a participant's media state.
#[derive(Debug)]
pub struct MediaStateEvent {
    pub user_id: String,
    pub is_audio_enabled: bool,
    pub is_video_enabled: bool,
}

/// Request to raise or lower one's hand.
#[derive(Debug)]
pub struct ToggleHandRequest {
    pub is_raised: bool,
}

/// Broadcast of a participant's hand state.
#[derive(Debug)]
pub struct HandUpdateEvent {
    pub user_id: String,
    pub is_raised: bool,
}

/// Request to start or stop screen sharing.
#[derive(Debug)]
pub struct ScreenShareRequest {
    pub is_sharing: bool,
}

/// Broadcast of a participant's screen-share state.
#[derive(Debug)]
pub struct ScreenShareEvent {
    pub user_id: String,
    pub is_sharing: bool,
}

/// Request for permission to share the screen.
#[derive(Debug)]
pub struct RequestScreenSharePermission {}

/// Grant or denial of a screen-share permission request.
#[derive(Debug)]
pub struct ScreenSharePermissionEvent {
    pub user_id: String,
    pub display_name: String,
    pub is_granted: bool,
}

/// A chat message to send.
#[derive(Debug)]
pub struct ChatRequest {
    pub content: String,
    pub target_id: String,
}

/// A chat message delivered to participants.
#[derive(Debug)]
pub struct ChatEvent {
    pub id: String,
    pub sender_id: String,
    pub sender_name: String,
    pub content: String,
    pub timestamp: i64,
    pub is_private: bool,
}

/// Request for the recent chat history.
#[derive(Debug)]
pub struct GetRecentChatsRequest {}

/// The recent chat history.
#[derive(Debug)]
pub struct RecentChatsEvent {
    pub chats: Vec<ChatEvent>,
}

/// Request to delete a chat message.
#[derive(Debug)]
pub struct DeleteChatRequest {
    pub chat_id: String,
}

/// Broadcast that a chat message was deleted.
#[derive(Debug)]
pub struct DeleteChatEvent {
    pub chat_id: String,
}

/// Waiting-room notification toward the host.
#[derive(Debug)]
pub struct WaitingRoomEvent {
    pub user_id: String,
    pub display_name: String,
    pub status: String,
}

/// A host action on a participant ("approve", "kick", "mute", ...).
#[derive(Debug)]
pub struct AdminActionRequest {
    pub target_user_id: String,
    pub action: String,
}

/// Outcome of a host action, delivered to the affected participant.
#[derive(Debug)]
pub struct AdminActionEvent {
    pub action: String,
    pub reason: String,
}

/// A signaling message tunneled from a client toward the media unit.
#[derive(Debug)]
pub struct SignalRequest {
    pub signal: Option<crate::signal_request::Signal>,
}

/// A signaling message tunneled from the media unit toward a client.
#[derive(Debug)]
pub struct SignalEvent {
    pub signal: Option<crate::signal_event::Signal>,
}

/// Full room state pushed to a participant.
#[derive(Debug)]
pub struct RoomStateEvent {
    pub participants: Vec<ParticipantInfo>,
    pub waiting_users: Vec<ParticipantInfo>,
}

/// One participant's descriptive state.
#[derive(Debug)]
pub struct ParticipantInfo {
    pub id: String,
    pub display_name: String,
    pub is_host: bool,
    pub is_audio_enabled: bool,
    pub is_video_enabled: bool,
    pub is_screen_sharing: bool,
    pub is_hand_raised: bool,
}

/// An error surfaced to a client.
#[derive(Debug)]
pub struct ErrorEvent {
    pub code: String,
    pub message: String,
    pub fatal: bool,
}

/// A source track became visible to a subscriber: who publishes it, on
/// which stream, and of which kind ("audio" or "video").
#[derive(Debug)]
pub struct TrackAddedEvent {
    pub user_id: String,
    pub stream_id: String,
    pub track_kind: String,
}

impl Clone for TrackAddedEvent {
    fn clone(&self) -> (r: Self)
        ensures
            r == *self,
    {
        TrackAddedEvent {
            user_id: self.user_id.clone(),
            stream_id: self.stream_id.clone(),
            track_kind: self.track_kind.clone(),
        }
    }
}

} // verus!
