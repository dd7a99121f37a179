use image::ImageEncoder;
use ios_remote::usb::screen_capture::{decode_png_to_rgba, message_length, rgb_to_rgba};
use ios_remote::usb::usbmuxd::{
    body_len, connect_request, connect_result, decode_header, device_from_properties, encode_header, frame_plist,
    htons, list_devices_request, plist_xml, MuxHeader,
};
use ios_remote::usb::usbmuxd::UsbDevice;
use ios_remote::usb::{pick_device, stall_check, stall_warning, PickError, Reconnect, StallWarning};
use ios_remote::usb::lockdown::DeviceInfo;

#[test]
fn header_roundtrips_little_endian() {
    let h = MuxHeader { length: 0x0102_0304, version: 1, msg_type: 8, tag: 0xA0B0_C0D0 };
    let b = encode_header(&h);
    assert_eq!(b, vec![4, 3, 2, 1, 1, 0, 0, 0, 8, 0, 0, 0, 0xD0, 0xC0, 0xB0, 0xA0]);
    assert_eq!(decode_header(&b), h);
}

#[test]
fn framed_plist_counts_the_header() {
    let msg = frame_plist(b"<plist/>", 7);
    assert_eq!(&msg[..16], &[24, 0, 0, 0, 1, 0, 0, 0, 8, 0, 0, 0, 7, 0, 0, 0]);
    assert_eq!(&msg[16..], b"<plist/>");
    let h = decode_header(&msg);
    assert_eq!(body_len(&h), 8);
    assert_eq!(body_len(&MuxHeader { length: 3, version: 1, msg_type: 8, tag: 0 }), 0);
}

#[test]
fn htons_swaps_bytes() {
    assert_eq!(htons(62078), 0x7EF2);
    assert_eq!(htons(0x1234), 0x3412);
    assert_eq!(htons(htons(27015) as u16), 27015);
}

#[test]
fn plist_xml_lists_string_entries() {
    let xml = plist_xml(&[("MessageType", "ListDevices"), ("ProgName", "ios-remote")]);
    assert!(xml.starts_with("<?xml version=\"1.0\" encoding=\"UTF-8\"?>\n<!DOCTYPE plist"));
    assert!(xml.contains("<dict>\n    <key>MessageType</key><string>ListDevices</string>\n    <key>ProgName</key><string>ios-remote</string>\n</dict>\n</plist>"));
    assert!(xml.ends_with("</dict>\n</plist>"));
    assert!(list_devices_request().contains("<key>ClientVersionString</key><string>ios-remote</string>"));
}

#[test]
fn connect_request_uses_network_byte_order() {
    let xml = connect_request(5, 62078);
    assert!(xml.contains("<key>MessageType</key><string>Connect</string>"));
    assert!(xml.contains("<key>DeviceID</key><integer>5</integer>\n"));
    assert!(xml.contains("<key>PortNumber</key><integer>32498</integer>\n"));
}

#[test]
fn device_properties_default_sensibly() {
    let d = device_from_properties(None, None, None);
    assert_eq!((d.device_id, d.udid.as_str(), d.connection_type.as_str()), (0, "unknown", "USB"));
    let d = device_from_properties(Some((1u64 << 32) + 3), Some("UDID".to_string()), Some("Network".to_string()));
    assert_eq!((d.device_id, d.udid.as_str(), d.connection_type.as_str()), (3, "UDID", "Network"));
}

#[test]
fn connect_result_reads_the_number() {
    assert_eq!(connect_result(Some(0)), Ok(()));
    assert_eq!(connect_result(Some(3)), Err(3));
    assert_eq!(connect_result(None), Err(999));
}

fn dev(udid: &str) -> UsbDevice {
    UsbDevice { device_id: 1, udid: udid.to_string(), connection_type: "USB".to_string() }
}

#[test]
fn pick_device_prefers_the_requested_udid() {
    let devices = vec![dev("A"), dev("B"), dev("B")];
    assert_eq!(pick_device(&devices, &None), Ok(0));
    assert_eq!(pick_device(&devices, &Some("B".to_string())), Ok(1));
    assert_eq!(pick_device(&devices, &Some("C".to_string())), Err(PickError::NotConnected));
    assert_eq!(pick_device(&[], &None), Err(PickError::NoDevice));
}

#[test]
fn backoff_doubles_up_to_sixteen_seconds() {
    let mut r = Reconnect::new();
    let waits: Vec<u64> = (0..7).map(|_| r.after_session(false)).collect();
    assert_eq!(waits, vec![1, 2, 4, 8, 16, 16, 16]);
    assert_eq!(r.after_session(true), 1);
    assert_eq!(r.after_session(false), 2);
}

#[test]
fn stall_warning_flags_new_ios() {
    let info = |v: &str| DeviceInfo {
        name: "n".to_string(),
        model: "m".to_string(),
        ios_version: v.to_string(),
        udid: "u".to_string(),
    };
    assert_eq!(stall_warning(None), StallWarning::NeverSeen);
    assert_eq!(stall_warning(Some(&info("17.2"))), StallWarning::UnsupportedIos);
    assert_eq!(stall_warning(Some(&info("16.7"))), StallWarning::LastSeen);
    assert_eq!(stall_warning(Some(&info("unknown"))), StallWarning::LastSeen);
    assert_eq!(stall_check(None, 5), (false, Some(5)));
    assert_eq!(stall_check(Some(5), 30_000_005), (false, Some(5)));
    assert_eq!(stall_check(Some(5), 30_000_006), (true, Some(30_000_006)));
}

#[test]
fn screenshot_messages_are_capped() {
    assert_eq!(message_length(&[0, 0, 0, 0]), Ok(0));
    assert_eq!(message_length(&[0x02, 0xFA, 0xF0, 0x80]), Ok(50_000_000));
    assert_eq!(message_length(&[0x02, 0xFA, 0xF0, 0x81]), Err(50_000_001));
}

#[test]
fn rgb_pixels_gain_an_opaque_alpha() {
    assert_eq!(rgb_to_rgba(&[1, 2, 3, 4, 5, 6]), vec![1, 2, 3, 255, 4, 5, 6, 255]);
    assert_eq!(rgb_to_rgba(&[1, 2, 3, 4]), vec![1, 2, 3, 255, 4, 255]);
}

#[test]
fn png_screenshots_decode_to_rgba() {
    let mut png = Vec::new();
    image::codecs::png::PngEncoder::new(&mut png)
        .write_image(&[10, 20, 30, 40, 50, 60], 2, 1, image::ExtendedColorType::Rgb8)
        .unwrap();
    let (rgba, w, h) = decode_png_to_rgba(&png).unwrap();
    assert_eq!((w, h), (2, 1));
    assert_eq!(rgba, vec![10, 20, 30, 255, 40, 50, 60, 255]);
    assert!(decode_png_to_rgba(&[1, 2, 3]).is_err());
}
