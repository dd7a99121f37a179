use ios_remote::usb::lockdown::{
    body_length, device_info_from_values, lockdown_frame, parse_ios_major, service_from_reply, StartServiceReply,
};

#[test]
fn parses_common_ios_versions() {
    let cases = [
        ("16.7.10", Some(16)),
        ("17.0", Some(17)),
        ("18", Some(18)),
        ("26.4.1", Some(26)),
        ("17.0b3", Some(17)),
        ("", None),
        ("unknown", None),
        ("UNKNOWN", None),
        ("garbage", None),
        ("  17.5  ", Some(17)),
    ];
    for (input, want) in cases {
        assert_eq!(parse_ios_major(input), want, "input={input:?}");
    }
}

#[test]
fn lockdown_frame_prefixes_big_endian_length() {
    let msg = lockdown_frame(&[7, 8, 9]);
    assert_eq!(msg, vec![0, 0, 0, 3, 7, 8, 9]);
    let big = vec![0u8; 0x0102];
    let m = lockdown_frame(&big);
    assert_eq!(&m[..4], &[0, 0, 1, 2]);
    assert_eq!(m.len(), 4 + 0x0102);
}

#[test]
fn body_length_accepts_only_one_byte_to_a_million() {
    assert_eq!(body_length(&[0, 0, 0, 0]), Err(0));
    assert_eq!(body_length(&[0, 0, 0, 1]), Ok(1));
    assert_eq!(body_length(&[0, 0x0F, 0x42, 0x40]), Ok(1_000_000));
    assert_eq!(body_length(&[0, 0x0F, 0x42, 0x41]), Err(1_000_001));
    let framed = lockdown_frame(&[1, 2, 3, 4, 5]);
    assert_eq!(body_length(&framed), Ok(5));
}

#[test]
fn device_info_fills_defaults() {
    let d = device_info_from_values(None, Some("iPhone15,4".to_string()), None, None);
    assert_eq!(d.name, "iPhone");
    assert_eq!(d.model, "iPhone15,4");
    assert_eq!(d.ios_version, "unknown");
    assert_eq!(d.udid, "unknown");
}

#[test]
fn start_service_rejection_reports_fields() {
    let reply = StartServiceReply {
        error: Some("InvalidService".to_string()),
        error_string: None,
        domain: Some("com.apple".to_string()),
        port: Some(1234),
        enable_ssl: Some(true),
    };
    let err = service_from_reply("com.apple.mobile.screenshotr", &reply).err().unwrap();
    assert_eq!(
        err,
        "StartService 'com.apple.mobile.screenshotr' failed: Error=InvalidService ErrorString=<none> (Domain=com.apple)"
    );
}

#[test]
fn start_service_success_reads_port_and_ssl() {
    let reply = StartServiceReply { error: None, error_string: None, domain: None, port: Some(62078), enable_ssl: None };
    let info = service_from_reply("svc", &reply).unwrap();
    assert_eq!(info.port, 62078);
    assert!(!info.enable_ssl);
    let wide = StartServiceReply { error: None, error_string: None, domain: None, port: Some(65536 + 5), enable_ssl: Some(true) };
    let info = service_from_reply("svc", &wide).unwrap();
    assert_eq!(info.port, 5);
    assert!(info.enable_ssl);
}
