use tachyon::acceptor::{connection_settings, listener_settings};

#[test]
fn listener_is_set_up_for_throughput() {
    let settings = listener_settings(8080);
    assert_eq!(settings.port, 8080);
    assert!(settings.reuse_address);
    assert_eq!(settings.send_buffer_size, 256 * 1024);
    assert_eq!(settings.recv_buffer_size, 256 * 1024);
    assert_eq!(settings.backlog, 65535);
}

#[test]
fn connections_are_kept_alive() {
    let settings = connection_settings();
    assert!(settings.no_delay);
    assert_eq!(settings.keepalive_idle_secs, 60);
    assert_eq!(settings.keepalive_interval_secs, 10);
    assert!(settings.keep_alive);
    assert!(settings.pipeline_flush);
    assert_eq!(settings.max_buffer_size, 128 * 1024);
}
