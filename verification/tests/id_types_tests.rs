use sfu::{RoomId, StreamId, TrackId, UserId};

#[test]
fn test_room_id_conversion() {
    let id_str = "room-123";
    let id: RoomId = RoomId::from(id_str);
    assert_eq!(id.as_str(), id_str);

    let id_string = String::from("room-456");
    let id2: RoomId = RoomId::from(id_string.clone());
    assert_eq!(id2.as_str(), "room-456");
}

#[test]
fn test_user_id_conversion() {
    let id = UserId::from("user-1");
    assert_eq!(id.text(), "user-1");
}

#[test]
fn test_stream_id_conversion() {
    let id = StreamId::from("stream-1");
    assert_eq!(id.as_str(), "stream-1");
}

#[test]
fn test_track_id_conversion() {
    let id = TrackId::from("track-1");
    assert_eq!(id.as_str(), "track-1");
}

#[test]
fn test_display_trait() {
    let id = RoomId::from("room-string");
    assert_eq!(id.text(), "room-string");
}

#[test]
fn test_id_equality_and_clone() {
    let a = UserId::from("u");
    let b = UserId::from(String::from("u"));
    let c = UserId::from("v");
    assert!(a == b);
    assert!(a != c);
    let d = a.clone();
    assert!(d == a);
}
