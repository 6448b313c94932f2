use hardware_comm::device::{
    get_default_serial_port, is_absolute_path, redis_unix_url, reset_frames, wake_frame,
};

#[test]
fn wake_frame_is_crlf() {
    assert_eq!(wake_frame(), vec![0x0d, 0x0a]);
}

#[test]
fn reset_frames_are_preserved_verbatim_in_order() {
    let frames = reset_frames();
    assert_eq!(frames.len(), 4);
    assert_eq!(frames[0], b"\x01\x3f\x2c\x32\x33\x32\x2c\x30\x2c\x31\x34\x2c\x30\x2c\x31\x2c\x0d\x0a");
    assert_eq!(frames[1], b"\x01\x3f\x2c\x32\x33\x32\x2c\x30\x2c\x32\x34\x2c\x30\x2c\x0d\x0a");
    assert_eq!(frames[2], b"\x01\x3f\x2c\x32\x33\x32\x2c\x30\x2c\x39\x2c\x30\x2c\x0d\x0a");
    assert_eq!(frames[3], b"\x01\x3f\x2c\x32\x33\x32\x2c\x30\x2c\x31\x34\x2c\x31\x2c\x30\x0d\x0a");
}

#[test]
fn default_serial_port_path() {
    assert_eq!(get_default_serial_port(), "/dev/ttyUSB0");
}

#[test]
fn absolute_path_detection() {
    assert!(is_absolute_path("/tmp/redis.sock"));
    assert!(!is_absolute_path("redis.sock"));
    assert!(!is_absolute_path(""));
}

#[test]
fn socket_path_becomes_unix_url() {
    assert_eq!(redis_unix_url("/tmp/redis.sock"), "unix:///tmp/redis.sock");
}
