use sfu::{
    codec_from_mime, detect_keyframe, detect_keyframe_mime, rewrite_for_writer,
    RtpHeader, RtpPacket, VideoCodec,
};

#[test]
fn test_vp8_keyframe_detection() {
    let key = bytes::Bytes::from(vec![0x10, 0x01, 0x02, 0x03]);
    assert!(detect_keyframe_mime("video/vp8", &key));

    let delta = bytes::Bytes::from(vec![0x11, 0x01, 0x02, 0x03]);
    assert!(!detect_keyframe_mime("video/vp8", &delta));

    let empty = bytes::Bytes::from(vec![]);
    assert!(!detect_keyframe_mime("video/vp8", &empty));

    // The same payloads on an audio track never count as keyframes.
    let key = bytes::Bytes::from(vec![0x10, 0x01, 0x02, 0x03]);
    assert!(!detect_keyframe_mime("audio/opus", &key));
    let delta = bytes::Bytes::from(vec![0x11, 0x01, 0x02, 0x03]);
    assert!(!detect_keyframe_mime("audio/opus", &delta));
}

#[test]
fn test_h264_keyframe_detection() {
    // NAL type 5 (IDR)
    let idr = bytes::Bytes::from(vec![0x65, 0x00]);
    assert!(detect_keyframe_mime("video/h264", &idr));

    // NAL type 1 (non-IDR slice)
    let slice = bytes::Bytes::from(vec![0x61, 0x00]);
    assert!(!detect_keyframe_mime("video/h264", &slice));

    // FU-A (28) with start bit set and inner type 5
    let fua_start_idr = bytes::Bytes::from(vec![0x7C, 0x85]);
    assert!(detect_keyframe_mime("video/h264", &fua_start_idr));

    // FU-A with start bit clear and inner type 5
    let fua_mid_idr = bytes::Bytes::from(vec![0x7C, 0x05]);
    assert!(!detect_keyframe_mime("video/h264", &fua_mid_idr));
}

#[test]
fn test_codec_from_mime_case_insensitive() {
    assert_eq!(codec_from_mime("video/VP8"), VideoCodec::Vp8);
    assert_eq!(codec_from_mime("video/vp8"), VideoCodec::Vp8);
    assert_eq!(codec_from_mime("video/H264"), VideoCodec::H264);
    assert_eq!(codec_from_mime("video/h264"), VideoCodec::H264);
    assert_eq!(codec_from_mime("audio/opus"), VideoCodec::Other);
    assert_eq!(codec_from_mime(""), VideoCodec::Other);
}

#[test]
fn test_detect_keyframe_unknown_codec() {
    let key = bytes::Bytes::from(vec![0x10]);
    assert!(!detect_keyframe(VideoCodec::Other, &key));
}

#[test]
fn test_rewrite_for_writer_header_rules() {
    let packet = RtpPacket {
        header: RtpHeader {
            marker: true,
            payload_type: 96,
            sequence_number: 42,
            timestamp: 1234,
            ssrc: 111,
        },
        payload: bytes::Bytes::from(vec![9, 8, 7]),
    };

    let rewritten = rewrite_for_writer(&packet, 222, 102);
    assert_eq!(rewritten.header.ssrc, 222);
    assert_eq!(rewritten.header.payload_type, 102);
    assert_eq!(rewritten.header.sequence_number, 42);
    assert_eq!(rewritten.header.timestamp, 1234);
    assert!(rewritten.header.marker);
    // The payload buffer carries the same bytes (shared, not copied).
    assert_eq!(&rewritten.payload[..], &[9, 8, 7]);

    // Payload type zero means "leave the source payload type unchanged".
    let kept = rewrite_for_writer(&packet, 333, 0);
    assert_eq!(kept.header.ssrc, 333);
    assert_eq!(kept.header.payload_type, 96);

    // The source packet itself is untouched.
    assert_eq!(packet.header.ssrc, 111);
    assert_eq!(packet.header.payload_type, 96);
}
