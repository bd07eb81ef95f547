use sfu::{
    CodecCapability, RoomId, RtpHeader, RtpPacket, Sfu, SfuError, SfuEvent,
    SignalAction, SignalPayload, StreamId, TrackId, TrackKind, UserId,
};

fn vp8_capability() -> CodecCapability {
    CodecCapability {
        mime_type: String::from("video/VP8"),
        clock_rate: 90000,
        channels: 0,
        sdp_fmtp_line: String::new(),
    }
}

fn video_packet(seq: u16, payload: Vec<u8>) -> RtpPacket {
    RtpPacket {
        header: RtpHeader {
            marker: false,
            payload_type: 96,
            sequence_number: seq,
            timestamp: 0,
            ssrc: 111,
        },
        payload: bytes::Bytes::from(payload),
    }
}

#[test]
fn test_create_session_rejects_empty_ids() {
    let mut sfu = Sfu::new();
    let r = sfu.create_session(RoomId::from(""), UserId::from("u"));
    assert!(matches!(r, Err(SfuError::InvalidArgument(_))));
    let r = sfu.create_session(RoomId::from("r"), UserId::from(""));
    assert!(matches!(r, Err(SfuError::InvalidArgument(_))));
    assert_eq!(sfu.metrics.active_peers, 0);
}

#[test]
fn test_create_session_registers_peer_and_room() {
    let mut sfu = Sfu::new();
    let plan = sfu
        .create_session(RoomId::from("r1"), UserId::from("u1"))
        .expect("valid identifiers");
    assert!(plan.subscriptions.is_empty());
    assert_eq!(sfu.peers.len(), 1);
    assert_eq!(sfu.metrics.active_peers, 1);
    assert_eq!(sfu.metrics.active_rooms, 1);

    // A second member of the same room does not create a new room.
    sfu.create_session(RoomId::from("r1"), UserId::from("u2")).unwrap();
    assert_eq!(sfu.metrics.active_peers, 2);
    assert_eq!(sfu.metrics.active_rooms, 1);
    assert_eq!(sfu.rooms.get_users(&RoomId::from("r1")).len(), 2);
}

#[test]
fn test_handle_signal_requires_session() {
    let mut sfu = Sfu::new();
    let r = sfu.handle_signal(
        &RoomId::from("r"),
        &UserId::from("u"),
        SignalPayload::SdpAnswer(String::from("v=0")),
    );
    assert!(matches!(r, Err(SfuError::NotFound(_))));

    sfu.create_session(RoomId::from("r"), UserId::from("u")).unwrap();
    let r = sfu.handle_signal(
        &RoomId::from("r"),
        &UserId::from("u"),
        SignalPayload::SdpAnswer(String::from("v=0")),
    );
    assert!(matches!(r, Ok(SignalAction::ApplyRemoteAnswer(s)) if s == "v=0"));
    let r = sfu.handle_signal(
        &RoomId::from("r"),
        &UserId::from("u"),
        SignalPayload::IceCandidate(String::from("{}")),
    );
    assert!(matches!(r, Ok(SignalAction::AddIceCandidate(_))));
    let r = sfu.handle_signal(
        &RoomId::from("r"),
        &UserId::from("u"),
        SignalPayload::SdpOffer(String::from("v=0 offer")),
    );
    assert!(matches!(r, Ok(SignalAction::ApplyRemoteOffer(_))));
}

#[test]
fn test_emit_sdp_answer_rewrites_dtls_role() {
    let mut sfu = Sfu::new();
    let room = RoomId::from("r");
    let user = UserId::from("u");
    sfu.create_session(room.clone(), user.clone()).unwrap();
    let mut rx = sfu.listen_events(&room, &user).unwrap();

    sfu.emit_sdp_answer(&room, &user, "v=0\r\na=setup:active\r\n").unwrap();
    match rx.try_recv().expect("listener receives the answer") {
        SfuEvent::SdpAnswer(sdp) => assert_eq!(sdp, "v=0\r\na=setup:passive\r\n"),
        other => panic!("unexpected event {:?}", other),
    }
}

#[test]
fn test_subscribe_logic() {
    let mut sfu = Sfu::new();
    let room = RoomId::from("room1");
    let user_a = UserId::from("userA");
    let stream = StreamId::from("stream1");
    let track = TrackId::from("track1");

    // A broadcaster exists for user A's track.
    let targets = sfu.on_source_track(
        room.clone(),
        user_a.clone(),
        stream.clone(),
        track.clone(),
        TrackKind::Video,
        vp8_capability(),
        111,
    );
    assert!(targets.is_empty());

    // New peer B joins and subscribes to the existing track.
    let user_b = UserId::from("userB");
    let plan = sfu.create_session(room.clone(), user_b.clone()).unwrap();
    assert_eq!(plan.subscriptions.len(), 1);
    assert_eq!(plan.subscriptions[0].source_user.as_str(), "userA");
    assert_eq!(plan.subscriptions[0].stream.as_str(), "stream1");
    assert_eq!(plan.subscriptions[0].kind, TrackKind::Video);

    let (_rx, pli) = sfu
        .complete_subscription(&room, &user_b, &user_a, &stream, &track, 222, 96)
        .unwrap();
    assert!(pli.is_some(), "video subscriptions prime a keyframe request");

    // B's subscription map now lists A's stream, visible through the
    // initial snapshot of a fresh listener.
    let mut events = sfu.listen_events(&room, &user_b).unwrap();
    match events.try_recv().expect("initial track snapshot") {
        SfuEvent::TrackAdded(e) => {
            assert_eq!(e.user_id, "userA");
            assert_eq!(e.stream_id, "stream1");
            assert_eq!(e.track_kind, "video");
        },
        other => panic!("unexpected event {:?}", other),
    }
}

#[test]
fn test_listen_events_requires_session() {
    let mut sfu = Sfu::new();
    let r = sfu.listen_events(&RoomId::from("r"), &UserId::from("u"));
    assert!(matches!(r, Err(SfuError::NotFound(_))));
}

#[test]
fn test_delete_session_cleans_up() {
    let mut sfu = Sfu::new();
    let room = RoomId::from("r");
    let a = UserId::from("a");
    let b = UserId::from("b");
    sfu.create_session(room.clone(), a.clone()).unwrap();
    sfu.create_session(room.clone(), b.clone()).unwrap();
    sfu.on_source_track(
        room.clone(),
        a.clone(),
        StreamId::from("s"),
        TrackId::from("t"),
        TrackKind::Video,
        vp8_capability(),
        111,
    );
    assert_eq!(sfu.tracks.len(), 1);

    assert!(sfu.delete_session(&room, &a));
    assert_eq!(sfu.peers.len(), 1);
    assert_eq!(sfu.tracks.len(), 0, "the publisher's tracks go with its session");
    assert_eq!(sfu.metrics.active_peers, 1);
    assert_eq!(sfu.metrics.active_rooms, 1, "the room still holds b");

    assert!(!sfu.delete_session(&room, &a), "second delete is a no-op");

    assert!(sfu.delete_session(&room, &b));
    assert_eq!(sfu.metrics.active_peers, 0);
    assert_eq!(sfu.metrics.active_rooms, 0, "the emptied room is gone");
}

#[test]
fn test_shutdown_drains_everything() {
    let mut sfu = Sfu::new();
    sfu.create_session(RoomId::from("r1"), UserId::from("a")).unwrap();
    sfu.create_session(RoomId::from("r2"), UserId::from("b")).unwrap();
    let keys = sfu.shutdown();
    assert_eq!(keys.len(), 2);
    assert_eq!(keys[0].room.as_str(), "r1");
    assert_eq!(keys[0].user.as_str(), "a");
    assert_eq!(keys[1].room.as_str(), "r2");
    assert_eq!(keys[1].user.as_str(), "b");
    assert!(sfu.peers.is_empty());
    assert!(sfu.tracks.is_empty());
    assert_eq!(sfu.metrics.active_peers, 0);
    assert_eq!(sfu.metrics.active_rooms, 0);
}

#[test]
fn test_end_to_end_fanout() {
    let mut sfu = Sfu::new();
    let room = RoomId::from("R");
    let a = UserId::from("A");
    let b = UserId::from("B");
    let stream = StreamId::from("streamA");
    let track = TrackId::from("track0");

    // Peers A and B join room R in that order; B attaches a listener.
    sfu.create_session(room.clone(), a.clone()).unwrap();
    sfu.create_session(room.clone(), b.clone()).unwrap();
    let mut events_b = sfu.listen_events(&room, &b).unwrap();

    // A publishes a video track: B is the one peer to notify.
    let targets = sfu.on_source_track(
        room.clone(),
        a.clone(),
        stream.clone(),
        track.clone(),
        TrackKind::Video,
        vp8_capability(),
        111,
    );
    assert_eq!(targets.len(), 1);
    assert_eq!(targets[0].as_str(), "B");

    // B subscribes; the broadcaster has exactly one writer.
    let (mut rx_b, pli) = sfu
        .complete_subscription(&room, &b, &a, &stream, &track, 2222, 96)
        .unwrap();
    assert!(pli.is_some());
    assert_eq!(sfu.tracks.len(), 1);
    assert_eq!(sfu.tracks[0].broadcaster.writers.len(), 1);

    // The renegotiation toward B: a track notification, then the offer.
    sfu.emit_track_added(&room, &b, &a, &stream, TrackKind::Video).unwrap();
    sfu.emit_renegotiate_offer(&room, &b, String::from("v=0 renegotiated")).unwrap();
    match events_b.try_recv().expect("track event first") {
        SfuEvent::TrackAdded(e) => {
            assert_eq!(e.user_id, "A");
            assert_eq!(e.stream_id, "streamA");
            assert_eq!(e.track_kind, "video");
        },
        other => panic!("unexpected event {:?}", other),
    }
    match events_b.try_recv().expect("offer follows the track event") {
        SfuEvent::RenegotiateSdpOffer(sdp) => assert_eq!(sdp, "v=0 renegotiated"),
        other => panic!("unexpected event {:?}", other),
    }

    // Every packet of A's source is delivered to B's queue or counted.
    for seq in 0..10u16 {
        let found = sfu.process_track_packet(
            &room,
            &a,
            &stream,
            &track,
            &video_packet(seq, vec![0x10, 0x01]),
            1_000,
        );
        assert!(found);
    }
    let delivered = sfu.metrics.packets_forwarded_video;
    let dropped =
        sfu.metrics.packets_dropped_buffer_full + sfu.metrics.packets_dropped_channel_closed;
    assert_eq!(delivered + dropped, 10, "no packet silently vanishes");
    for seq in 0..delivered {
        let got = rx_b.try_recv().expect("delivered packets are in B's queue");
        assert_eq!(got.header.ssrc, 2222);
        assert_eq!(got.header.sequence_number, seq as u16);
    }

    // Deleting A's session removes its track; B's writer queue closes with
    // its broadcaster, so the writer task would exit.
    assert!(sfu.delete_session(&room, &a));
    assert!(!sfu.process_track_packet(
        &room,
        &a,
        &stream,
        &track,
        &video_packet(99, vec![0x10]),
        2_000
    ));
    assert!(rx_b.try_recv().is_err(), "the queue is drained and closed");
}
