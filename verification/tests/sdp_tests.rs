use sfu::rewrite_setup_active;

#[test]
fn test_rewrite_setup_active_single() {
    let sdp = "v=0\r\na=setup:active\r\na=mid:0\r\n";
    let out = rewrite_setup_active(sdp);
    assert_eq!(out, "v=0\r\na=setup:passive\r\na=mid:0\r\n");
}

#[test]
fn test_rewrite_setup_active_all_occurrences() {
    let sdp = "a=setup:active\r\nm=audio\r\na=setup:active\r\n";
    let out = rewrite_setup_active(sdp);
    assert_eq!(out, "a=setup:passive\r\nm=audio\r\na=setup:passive\r\n");
}

#[test]
fn test_rewrite_setup_leaves_other_text_alone() {
    let sdp = "v=0\r\na=setup:passive\r\na=setup:actpass\r\n";
    let out = rewrite_setup_active(sdp);
    assert_eq!(out, sdp);

    assert_eq!(rewrite_setup_active(""), "");
    assert_eq!(rewrite_setup_active("a=setup:activ"), "a=setup:activ");
}
