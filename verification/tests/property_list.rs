use ios_remote::usb::lockdown::{
    get_value_request, lockdown_message, lockdown_reply, reply_value, service_from_reply, start_service_reply,
    start_service_request,
};
use ios_remote::usb::property_list::{lookup, position, text_of, PlistOut, PlistValue};
use ios_remote::usb::screen_capture::{dl_message, screenshot_from_reply, screenshot_request, version_exchange};
use ios_remote::usb::usbmuxd::{connect_outcome, devices_from_reply, usbmuxd_reply};

const HEAD: &str = "<?xml version=\"1.0\" encoding=\"UTF-8\"?>\n<!DOCTYPE plist PUBLIC \"-//Apple//DTD PLIST 1.0//EN\" \"http://www.apple.com/DTDs/PropertyList-1.0.dtd\">\n<plist version=\"1.0\">\n";

fn doc(inner: &str) -> Vec<u8> {
    format!("{HEAD}{inner}\n</plist>").into_bytes()
}

fn binary(v: &plist::Value) -> Vec<u8> {
    let mut out = Vec::new();
    v.to_writer_binary(&mut out).unwrap();
    out
}

#[test]
fn device_list_reply_yields_devices_in_order() {
    let body = doc(
        "<dict><key>DeviceList</key><array>\
         <dict><key>DeviceID</key><integer>7</integer><key>Properties</key><dict>\
           <key>DeviceID</key><integer>7</integer><key>SerialNumber</key><string>00008110-AAA</string>\
           <key>ConnectionType</key><string>USB</string></dict></dict>\
         <dict><key>MessageType</key><string>Attached</string></dict>\
         <dict><key>Properties</key><dict><key>DeviceID</key><integer>9</integer>\
           <key>ConnectionType</key><string>Network</string></dict></dict>\
         </array></dict>",
    );
    let reply = usbmuxd_reply(&body);
    let devices = devices_from_reply(&reply);
    assert_eq!(devices.len(), 2);
    assert_eq!((devices[0].device_id, devices[0].udid.as_str(), devices[0].connection_type.as_str()), (7, "00008110-AAA", "USB"));
    assert_eq!((devices[1].device_id, devices[1].udid.as_str(), devices[1].connection_type.as_str()), (9, "unknown", "Network"));
}

#[test]
fn replies_without_a_device_list_have_no_devices() {
    assert!(devices_from_reply(&usbmuxd_reply(&doc("<dict><key>Number</key><integer>0</integer></dict>"))).is_empty());
    assert!(usbmuxd_reply(b"").is_empty());
    assert!(usbmuxd_reply(b"not a property list").is_empty());
    assert!(usbmuxd_reply(&doc("<array><string>x</string></array>")).is_empty());
}

#[test]
fn connect_reply_number_decides_the_tunnel() {
    assert_eq!(connect_outcome(&usbmuxd_reply(&doc("<dict><key>Number</key><integer>0</integer></dict>"))), Ok(()));
    assert_eq!(connect_outcome(&usbmuxd_reply(&doc("<dict><key>Number</key><integer>3</integer></dict>"))), Err(3));
    assert_eq!(connect_outcome(&usbmuxd_reply(&doc("<dict><key>MessageType</key><string>Result</string></dict>"))), Err(999));
}

#[test]
fn lookups_find_the_first_entry_under_a_key() {
    let d = vec![
        ("A".to_string(), PlistValue::Integer(Some(1))),
        ("B".to_string(), PlistValue::String("b".to_string())),
    ];
    assert!(matches!(lookup(&d, "A"), Some(PlistValue::Integer(Some(1)))));
    assert_eq!(position(&d, "B"), Some(1));
    assert_eq!(position(&d, "C"), None);
    assert_eq!(text_of(lookup(&d, "B")), Some("b".to_string()));
    assert_eq!(text_of(lookup(&d, "A")), None);
}

#[test]
fn get_value_request_is_a_length_prefixed_xml_dictionary() {
    let msg = lockdown_message(&get_value_request(Some("com.apple.disk_usage"), "DeviceName")).unwrap();
    let len = u32::from_be_bytes([msg[0], msg[1], msg[2], msg[3]]) as usize;
    assert_eq!(len, msg.len() - 4);
    let text = String::from_utf8(msg[4..].to_vec()).unwrap();
    assert!(text.starts_with("<?xml"));
    let back = lockdown_reply(&msg[4..]).unwrap();
    let keys: Vec<&str> = back.iter().map(|(k, _)| k.as_str()).collect();
    assert_eq!(keys, vec!["Request", "Key", "Domain"]);
    assert_eq!(text_of(lookup(&back, "Request")), Some("GetValue".to_string()));
    assert_eq!(text_of(lookup(&back, "Key")), Some("DeviceName".to_string()));
    let plain = lockdown_reply(&lockdown_message(&get_value_request(None, "ProductType")).unwrap()[4..]).unwrap();
    assert_eq!(plain.len(), 2);
}

#[test]
fn start_service_request_names_the_service() {
    let msg = lockdown_message(&start_service_request("com.apple.mobile.screenshotr")).unwrap();
    let back = lockdown_reply(&msg[4..]).unwrap();
    assert_eq!(text_of(lookup(&back, "Request")), Some("StartService".to_string()));
    assert_eq!(text_of(lookup(&back, "Service")), Some("com.apple.mobile.screenshotr".to_string()));
}

#[test]
fn lockdown_reply_refuses_garbage() {
    let e = lockdown_reply(b"\x00\x01").unwrap_err();
    assert!(e.starts_with("Plist parse error: "), "{e}");
    assert!(lockdown_reply(&doc("<string>x</string>")).unwrap().is_empty());
}

#[test]
fn get_value_reply_value_or_empty_string() {
    let reply = lockdown_reply(&doc("<dict><key>Key</key><string>DeviceName</string><key>Value</key><string>Kim's iPhone</string></dict>")).unwrap();
    match reply_value(reply) {
        PlistValue::String(s) => assert_eq!(s, "Kim's iPhone"),
        other => panic!("unexpected {other:?}"),
    }
    let missing = lockdown_reply(&doc("<dict><key>Key</key><string>DeviceName</string></dict>")).unwrap();
    match reply_value(missing) {
        PlistValue::String(s) => assert_eq!(s, ""),
        other => panic!("unexpected {other:?}"),
    }
}

#[test]
fn start_service_reply_fields_decide_the_outcome() {
    let ok = lockdown_reply(&doc("<dict><key>Port</key><integer>49152</integer><key>EnableServiceSSL</key><true/></dict>")).unwrap();
    let info = service_from_reply("svc", &start_service_reply(&ok)).unwrap();
    assert_eq!((info.port, info.enable_ssl), (49152, true));
    let refused = lockdown_reply(&doc("<dict><key>Error</key><string>InvalidService</string></dict>")).unwrap();
    assert_eq!(
        service_from_reply("svc", &start_service_reply(&refused)).unwrap_err(),
        "StartService 'svc' failed: Error=InvalidService ErrorString=<none> (Domain=<none>)"
    );
}

#[test]
fn device_link_messages_are_binary_property_lists() {
    let msg = dl_message(&version_exchange()).unwrap();
    let len = u32::from_be_bytes([msg[0], msg[1], msg[2], msg[3]]) as usize;
    assert_eq!(len, msg.len() - 4);
    assert!(msg[4..].starts_with(b"bplist00"));
    let v = plist::Value::from_reader(std::io::Cursor::new(&msg[4..])).unwrap();
    let a = v.as_array().unwrap();
    assert_eq!(a[0].as_string(), Some("DLMessageVersionExchange"));
    assert_eq!(a[1].as_string(), Some("DLVersionsOk"));
    assert_eq!(a[2].as_unsigned_integer(), Some(300));
    let req = dl_message(&screenshot_request()).unwrap();
    let v = plist::Value::from_reader(std::io::Cursor::new(&req[4..])).unwrap();
    let a = v.as_array().unwrap();
    assert_eq!(a[0].as_string(), Some("DLMessageProcessMessage"));
    let d = a[1].as_dictionary().unwrap();
    assert_eq!(d.get("MessageType").and_then(|x| x.as_string()), Some("ScreenShotRequest"));
    assert!(matches!(screenshot_request(), PlistOut::Array(_)));
}

#[test]
fn screenshot_reply_yields_the_first_screenshot_data() {
    let mut with_data = plist::Dictionary::new();
    with_data.insert("MessageType".to_string(), plist::Value::String("ScreenShotReply".to_string()));
    with_data.insert("ScreenShotData".to_string(), plist::Value::Data(vec![0x89, b'P', b'N', b'G']));
    let reply = plist::Value::Array(vec![
        plist::Value::String("DLMessageProcessMessage".to_string()),
        plist::Value::Dictionary(with_data),
    ]);
    assert_eq!(screenshot_from_reply(&binary(&reply)), Ok(vec![0x89, b'P', b'N', b'G']));
    let empty = plist::Value::Array(vec![plist::Value::String("DLMessageProcessMessage".to_string())]);
    assert_eq!(screenshot_from_reply(&binary(&empty)), Err("No ScreenShotData in response".to_string()));
    assert_eq!(
        screenshot_from_reply(&binary(&plist::Value::String("x".to_string()))),
        Err("No ScreenShotData in response".to_string())
    );
    assert!(screenshot_from_reply(b"garbage").is_err());
}
