use rftp::utils::{bitrate_to_string, bytes_to_string, duration_to_string, ErrorKind};

#[test]
fn test_duration() {
    assert_eq!(duration_to_string(12), "00:12".to_string());
    assert_eq!(duration_to_string(123), "02:03".to_string());
    assert_eq!(duration_to_string(2 * 60 * 60 + 40 * 60 + 59), "2:40:59".to_string());
}

#[test]
fn test_bitrate() {
    assert_eq!(bitrate_to_string(4), "4 bit/s".to_string());
    assert_eq!(bitrate_to_string(1e3 as u64), "1.0 Kbit/s".to_string());
    assert_eq!(bitrate_to_string(3e6 as u64), "3.0 Mbit/s".to_string());
    assert_eq!(bitrate_to_string(7e9 as u64), "7.0 Gbit/s".to_string());
}

#[test]
fn test_bytes() {
    assert_eq!(bytes_to_string(849), "849 B".to_string());
    assert_eq!(bytes_to_string(3e3 as u64), "3.0 KB".to_string());
    assert_eq!(bytes_to_string(6e6 as u64), "6.0 MB".to_string());
    assert_eq!(bytes_to_string(2e9 as u64), "2.0 GB".to_string());
}

#[test]
fn test_duration_edges() {
    assert_eq!(duration_to_string(0), "00:00".to_string());
    assert_eq!(duration_to_string(59), "00:59".to_string());
    assert_eq!(duration_to_string(60), "01:00".to_string());
    assert_eq!(duration_to_string(3600), "1:00:00".to_string());
}

#[test]
fn test_bytes_rounding() {
    assert_eq!(bytes_to_string(999), "999 B".to_string());
    assert_eq!(bytes_to_string(1000), "1.0 KB".to_string());
    assert_eq!(bytes_to_string(6912), "6.9 KB".to_string());
    assert_eq!(bytes_to_string(9876), "9.9 KB".to_string());
    assert_eq!(bytes_to_string(123_000_000), "123.0 MB".to_string());
    assert_eq!(bytes_to_string(30_000), "30.0 KB".to_string());
}

#[test]
fn test_bitrate_rounding() {
    assert_eq!(bitrate_to_string(131_072), "131.1 Kbit/s".to_string());
    assert_eq!(bitrate_to_string(999), "999 bit/s".to_string());
    assert_eq!(bitrate_to_string(1_550), "1.6 Kbit/s".to_string());
}

#[test]
fn test_error_messages() {
    assert_eq!(
        ErrorKind::InvalidPortNumber.message(),
        "unable to parse port number".to_string()
    );
    assert_eq!(
        ErrorKind::MismatchedFingerprint.message(),
        "possible person in the middle attack".to_string()
    );
    assert_eq!(
        ErrorKind::UserAuthenticationError("alice".to_string()).message(),
        "unable to authenticate session for alice".to_string()
    );
    assert_eq!(
        ErrorKind::HostAuthenticationError("example.com".to_string(), 2222).message(),
        "the authenticity of example.com:2222 cannot be established".to_string()
    );
    assert_eq!(
        ErrorKind::LocalFileExists("/tmp/x".to_string()).message(),
        "local file /tmp/x already exists".to_string()
    );
    assert_eq!(
        ErrorKind::RemoteFileExists("dir/y".to_string()).message(),
        "remote file dir/y already exists".to_string()
    );
    assert_eq!(
        ErrorKind::CannotUploadParent("..".to_string()).message(),
        "cannot upload parent directory ..".to_string()
    );
    assert_eq!(
        ErrorKind::CannotDownloadParent("..".to_string()).message(),
        "cannot download parent directory ..".to_string()
    );
    assert_eq!(
        ErrorKind::Ssh2ChannelClosed(-1).message(),
        "channel closed with exit status -1".to_string()
    );
    assert_eq!(
        ErrorKind::Ssh2ChannelClosed(127).message(),
        "channel closed with exit status 127".to_string()
    );
}
