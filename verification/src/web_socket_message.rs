use vstd::prelude::*;

use crate::signaling::{
    AdminActionEvent, AdminActionRequest, ChatEvent, ChatRequest, DeleteChatEvent,
    DeleteChatRequest, ErrorEvent, GetRecentChatsRequest, HandUpdateEvent, JoinRequest,
    JoinResponse, MediaStateEvent, RecentChatsEvent, ReconnectRequest,
    RequestScreenSharePermission, RoomStateEvent, ScreenShareEvent, ScreenSharePermissionEvent,
    ScreenShareRequest, SignalEvent, SignalRequest, ToggleHandRequest, ToggleMediaRequest,
    TrackAddedEvent, WaitingRoomEvent,
};

verus! {

/// The payload variants of the signaling envelope.
#[derive(Debug)]
pub enum Payload {
    Join(JoinRequest),
    JoinResponse(JoinResponse),
    Reconnect(ReconnectRequest),
    ToggleMedia(ToggleMediaRequest),
    MediaStateChanged(MediaStateEvent),
    ScreenShare(ScreenShareRequest),
    ScreenShareChanged(ScreenShareEvent),
    RequestScreenSharePermission(RequestScreenSharePermission),
    ScreenSharePermissionEvent(ScreenSharePermissionEvent),
    Chat(ChatRequest),
    ChatEvent(ChatEvent),
    GetRecentChats(GetRecentChatsRequest),
    RecentChats(RecentChatsEvent),
    DeleteChat(DeleteChatRequest),
    DeleteChatEvent(DeleteChatEvent),
    ToggleHand(ToggleHandRequest),
    HandUpdate(HandUpdateEvent),
    WaitingRoomNotification(WaitingRoomEvent),
    AdminAction(AdminActionRequest),
    AdminEvent(AdminActionEvent),
    Signal(SignalRequest),
    SignalEvent(SignalEvent),
    RoomState(RoomStateEvent),
    Error(ErrorEvent),
    TrackAdded(TrackAddedEvent),
}

} // verus!
