use sfu::{BundlePolicy, MediaSetup, TrackKind};

#[test]
fn test_rtc_config_defaults() {
    let config = MediaSetup::get_rtc_config(None);
    assert_eq!(config.bundle_policy, BundlePolicy::MaxBundle);
    assert_eq!(config.stun_urls, vec!["stun:stun.l.google.com:19302".to_string()]);

    let custom = MediaSetup::get_rtc_config(Some(String::from("stun:stun.example.org:3478")));
    assert_eq!(custom.stun_urls, vec!["stun:stun.example.org:3478".to_string()]);
}

#[test]
fn test_registered_codecs() {
    let codecs = MediaSetup::registered_codecs();
    assert_eq!(codecs.len(), 3);

    assert_eq!(codecs[0].kind, TrackKind::Audio);
    assert_eq!(codecs[0].capability.mime_type, "audio/opus");
    assert_eq!(codecs[0].capability.clock_rate, 48000);
    assert_eq!(codecs[0].capability.channels, 2);
    assert_eq!(codecs[0].capability.sdp_fmtp_line, "minptime=10;useinbandfec=1");
    assert_eq!(codecs[0].payload_type, 111);

    assert_eq!(codecs[1].kind, TrackKind::Video);
    assert_eq!(codecs[1].capability.mime_type, "video/VP8");
    assert_eq!(codecs[1].payload_type, 96);

    assert_eq!(codecs[2].kind, TrackKind::Video);
    assert_eq!(codecs[2].capability.mime_type, "video/H264");
    assert_eq!(
        codecs[2].capability.sdp_fmtp_line,
        "level-asymmetry-allowed=1;packetization-mode=1;profile-level-id=42e01f"
    );
    assert_eq!(codecs[2].payload_type, 102);
}

#[test]
fn test_header_extensions() {
    let uris = MediaSetup::header_extension_uris();
    assert_eq!(uris.len(), 9);
    assert_eq!(uris[0], "urn:ietf:params:rtp-hdrext:sdes:mid");
    assert_eq!(uris[1], "urn:ietf:params:rtp-hdrext:sdes:rtp-stream-id");
    assert!(uris.contains(&"urn:3gpp:video-orientation".to_string()));
}
