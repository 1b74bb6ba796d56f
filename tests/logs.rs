use function_runner::LogStream;

#[test]
fn test_bounded_log() {
    let mut bounded_log = LogStream::default();
    let log = b"hello world";
    bounded_log.append(log);
    assert_eq!(Some("hello world"), bounded_log.last_message());
}

#[test]
fn test_display() {
    let mut logs = LogStream::default();
    assert_eq!(String::new(), logs.to_string());

    logs.append(b"hello");
    logs.append(b"world");

    assert_eq!("helloworld", logs.to_string());
}

#[test]
fn log_stream_replaces_invalid_utf8_and_counts_bytes() {
    let mut logs = LogStream::new();
    assert_eq!(logs.last(), None);
    let n = logs.append(&[0x61, 0xff, 0x62]);
    assert_eq!(logs.last_message(), Some("a\u{fffd}b"));
    assert_eq!(n, 5);
    logs.append(b"cd");
    assert_eq!(logs.byte_size(), 7);
    assert_eq!(logs.last().map(|s| s.as_str()), Some("cd"));
}
