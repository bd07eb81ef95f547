use sfu::register_metrics;

#[test]
fn test_metrics_initialization() {
    let mut metrics = register_metrics();
    metrics.inc_active_rooms();
    assert_eq!(metrics.active_rooms, 1);
}

#[test]
fn test_metrics_counters_move_independently() {
    let mut metrics = register_metrics();
    assert_eq!(metrics.active_peers, 0);
    metrics.inc_active_peers();
    metrics.inc_active_peers();
    metrics.dec_active_peers();
    assert_eq!(metrics.active_peers, 1);
    assert_eq!(metrics.active_rooms, 0);

    metrics.count_forwarded(true);
    metrics.count_forwarded(false);
    metrics.count_forwarded(true);
    assert_eq!(metrics.packets_forwarded_video, 2);
    assert_eq!(metrics.packets_forwarded_audio, 1);

    metrics.count_dropped_buffer_full();
    metrics.count_dropped_channel_closed();
    assert_eq!(metrics.packets_dropped_buffer_full, 1);
    assert_eq!(metrics.packets_dropped_channel_closed, 1);

    metrics.dec_active_rooms();
    assert_eq!(metrics.active_rooms, 0, "gauges never go below zero");
}
