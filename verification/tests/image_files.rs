use ios_remote::features::frame::Frame;
use ios_remote::features::screenshot::encode_png;
use ios_remote::features::template_match::load_template;
use ios_remote::features::watermark::watermark_image;
use ios_remote::usb::lockdown::reply_to_xml;

fn png_of(w: u32, h: u32, px: [u8; 4]) -> Vec<u8> {
    let frame = Frame { width: w, height: h, rgba: px.repeat((w * h) as usize), timestamp_us: 0, h264_nalu: None };
    encode_png(&frame).unwrap()
}

#[test]
fn a_png_template_decodes_to_its_pixels() {
    let png = png_of(3, 2, [10, 20, 30, 255]);
    let (px, w, h) = load_template(&png, "png").unwrap();
    assert_eq!((w, h), (3, 2));
    assert_eq!(px, [10u8, 20, 30, 255].repeat(6));
    let (px2, _, _) = load_template(&png, "PNG").unwrap();
    assert_eq!(px2, px);
}

#[test]
fn a_template_with_an_unknown_extension_is_refused() {
    let png = png_of(2, 2, [1, 2, 3, 255]);
    let err = load_template(&png, "txt").unwrap_err();
    assert!(err.starts_with("Failed to load template: "));
    let err = load_template(b"not an image", "png").unwrap_err();
    assert!(err.starts_with("Failed to load template: "));
}

#[test]
fn a_png_watermark_decodes_to_its_pixels() {
    let png = png_of(2, 1, [200, 100, 50, 128]);
    let (px, w, h) = watermark_image(&png, "png").unwrap();
    assert_eq!((w, h), (2, 1));
    assert_eq!(px, vec![200, 100, 50, 128, 200, 100, 50, 128]);
    assert!(watermark_image(&png, "").unwrap_err().starts_with("Failed to load watermark: "));
}

#[test]
fn a_binary_reply_reads_back_as_xml() {
    let mut dict = plist::Dictionary::new();
    dict.insert("Port".to_string(), plist::Value::Integer(62078.into()));
    dict.insert("Request".to_string(), plist::Value::String("StartService".to_string()));
    let mut binary = Vec::new();
    plist::Value::Dictionary(dict).to_writer_binary(&mut binary).unwrap();
    let xml = String::from_utf8(reply_to_xml(&binary).unwrap()).unwrap();
    assert!(xml.starts_with("<?xml"));
    assert!(xml.contains("<key>Port</key>"));
    assert!(xml.contains("<integer>62078</integer>"));
    assert!(xml.contains("<string>StartService</string>"));
    assert!(reply_to_xml(b"garbage").is_none());
}
