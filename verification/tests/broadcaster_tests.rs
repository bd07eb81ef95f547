use sfu::{
    register_metrics, CodecCapability, RtpHeader, RtpPacket, TrackBroadcaster,
    TrackKind,
};

fn vp8_capability() -> CodecCapability {
    CodecCapability {
        mime_type: String::from("video/VP8"),
        clock_rate: 90000,
        channels: 0,
        sdp_fmtp_line: String::new(),
    }
}

fn test_packet(ssrc: u32, payload: Vec<u8>) -> RtpPacket {
    RtpPacket {
        header: RtpHeader {
            marker: false,
            payload_type: 96,
            sequence_number: 1,
            timestamp: 0,
            ssrc,
        },
        payload: bytes::Bytes::from(payload),
    }
}

#[test]
fn test_broadcaster_add_writer() {
    let mut broadcaster = TrackBroadcaster::new(TrackKind::Video, vp8_capability(), 12345);
    let mut metrics = register_metrics();
    let (_rx, pli) = broadcaster.add_writer(12345, 96, &mut metrics);
    assert_eq!(broadcaster.writers.len(), 1);
    assert!(pli.is_some(), "adding a writer immediately requests a keyframe");
    assert_eq!(metrics.keyframes_requested, 1);
}

#[test]
fn test_request_keyframe_no_panic() {
    let broadcaster = TrackBroadcaster::new(TrackKind::Video, vp8_capability(), 12345);
    let mut metrics = register_metrics();
    let pli = broadcaster.request_keyframe(&mut metrics);
    let pli = pli.expect("video tracks request keyframes");
    assert_eq!(pli.sender_ssrc, 0);
    assert_eq!(pli.media_ssrc, 12345);
    assert_eq!(metrics.keyframes_requested, 1);
}

#[test]
fn test_request_keyframe_audio_is_noop() {
    let capability = CodecCapability {
        mime_type: String::from("audio/opus"),
        clock_rate: 48000,
        channels: 2,
        sdp_fmtp_line: String::new(),
    };
    let broadcaster = TrackBroadcaster::new(TrackKind::Audio, capability, 777);
    let mut metrics = register_metrics();
    assert!(broadcaster.request_keyframe(&mut metrics).is_none());
    assert_eq!(metrics.keyframes_requested, 0);
}

#[test]
fn test_zombie_writer_memory_leak() {
    // 1. Setup: create a broadcaster and add a writer (subscriber).
    let mut broadcaster = TrackBroadcaster::new(TrackKind::Video, vp8_capability(), 12345);
    let mut metrics = register_metrics();
    let (rx, _pli) = broadcaster.add_writer(111, 96, &mut metrics);
    assert_eq!(broadcaster.writers.len(), 1, "Should have 1 writer after adding");

    // 2. Simulate disconnect: drop the consumer half of the writer's queue.
    drop(rx);

    // 3. Broadcast 50 packets.
    for _ in 0..50 {
        let packet = test_packet(12345, vec![1, 2, 3]);
        broadcaster.broadcast(&packet, &mut metrics);
    }

    // 4. The zombie writer is swept, and the drops were counted.
    let count = broadcaster.writers.len();
    assert_eq!(
        count, 0,
        "Zombie writer should be removed after channel closes. Found {} writers",
        count
    );
    assert!(metrics.packets_dropped_channel_closed >= 1);
    assert_eq!(metrics.packets_forwarded_video, 0);
}

#[test]
fn test_fanout_delivers_rewritten_packets() {
    let mut broadcaster = TrackBroadcaster::new(TrackKind::Video, vp8_capability(), 12345);
    let mut metrics = register_metrics();
    let (mut rx_a, _) = broadcaster.add_writer(1001, 0, &mut metrics);
    let (mut rx_b, _) = broadcaster.add_writer(1002, 102, &mut metrics);

    let packet = test_packet(12345, vec![0x10, 0xAA]);
    broadcaster.broadcast(&packet, &mut metrics);

    let got_a = rx_a.try_recv().expect("first subscriber receives the packet");
    assert_eq!(got_a.header.ssrc, 1001);
    assert_eq!(got_a.header.payload_type, 96, "payload type zero leaves the source value");
    assert_eq!(&got_a.payload[..], &[0x10, 0xAA]);

    let got_b = rx_b.try_recv().expect("second subscriber receives the packet");
    assert_eq!(got_b.header.ssrc, 1002);
    assert_eq!(got_b.header.payload_type, 102);
    assert_eq!(&got_b.payload[..], &[0x10, 0xAA]);

    assert_eq!(metrics.packets_forwarded_video, 2);
    assert_eq!(metrics.packets_dropped_buffer_full, 0);
    assert_eq!(metrics.packets_dropped_channel_closed, 0);
    assert_eq!(broadcaster.writers.len(), 2);
}

#[test]
fn test_slow_subscriber_does_not_block_others() {
    let mut broadcaster = TrackBroadcaster::new(TrackKind::Video, vp8_capability(), 12345);
    let mut metrics = register_metrics();
    // The slow subscriber never drains its queue (capacity 128).
    let (_rx_slow, _) = broadcaster.add_writer(2001, 0, &mut metrics);
    let (mut rx_fast, _) = broadcaster.add_writer(2002, 0, &mut metrics);

    for seq in 0..130u16 {
        let mut packet = test_packet(12345, vec![0x10]);
        packet.header.sequence_number = seq;
        broadcaster.broadcast(&packet, &mut metrics);
        // The fast subscriber drains every packet at once.
        let got = rx_fast.try_recv().expect("fast subscriber keeps receiving");
        assert_eq!(got.header.sequence_number, seq);
    }

    // The slow subscriber's queue filled at 128 and dropped the rest; the
    // fast one never lost a packet, and nobody was removed from the list.
    assert_eq!(metrics.packets_dropped_buffer_full, 2);
    assert_eq!(metrics.packets_forwarded_video, 128 + 130);
    assert_eq!(broadcaster.writers.len(), 2);
}

#[test]
fn test_keyframe_marking_and_retry_decision() {
    let mut broadcaster = TrackBroadcaster::new(TrackKind::Video, vp8_capability(), 12345);
    let mut metrics = register_metrics();
    assert_eq!(broadcaster.last_keyframe_ts, 0);

    // A delta frame does not move the keyframe clock.
    let delta = test_packet(12345, vec![0x11, 0x01]);
    broadcaster.process_source_packet(&delta, 1_000, &mut metrics);
    assert_eq!(broadcaster.last_keyframe_ts, 0);

    // A keyframe does, before the fan-out returns.
    let key = test_packet(12345, vec![0x10, 0x01]);
    broadcaster.process_source_packet(&key, 2_000, &mut metrics);
    assert_eq!(broadcaster.last_keyframe_ts, 2_000);

    // Retry is due only when no keyframe arrived since the schedule began.
    assert!(!broadcaster.pli_retry_due(1_500));
    assert!(broadcaster.pli_retry_due(2_500));
}
