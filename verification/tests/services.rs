use ios_remote::synthetic::subtitle_pump::subtitle_line;
use ios_remote::system::startup::BatteryWidget;
use ios_remote::features::sharing::{NotificationForwarder, Service};
use ios_remote::features::webhook::{event_label, WebhookConfig, WebhookEvent, WebhookManager};
use ios_remote::idevice::file_transfer::{download_file, list_files, upload_file};
use ios_remote::idevice::syslog::{get_crash_logs, stream_syslog};
use ios_remote::system::installer::generate_nsis_script;
use ios_remote::system::tray::TrayIcon;

#[test]
fn webhooks_receive_only_subscribed_events() {
    let mut m = WebhookManager::new();
    m.add(WebhookConfig { url: "http://a".to_string(), events: vec![WebhookEvent::Connected], enabled: true });
    m.add(WebhookConfig {
        url: "http://b".to_string(),
        events: vec![WebhookEvent::Connected, WebhookEvent::QrDetected],
        enabled: false,
    });
    m.add(WebhookConfig {
        url: "http://c".to_string(),
        events: vec![WebhookEvent::QrDetected, WebhookEvent::Connected],
        enabled: true,
    });
    assert_eq!(m.targets(WebhookEvent::Connected), vec!["http://a".to_string(), "http://c".to_string()]);
    assert_eq!(m.targets(WebhookEvent::QrDetected), vec!["http://c".to_string()]);
    assert!(m.targets(WebhookEvent::MacroCompleted).is_empty());
    assert_eq!(event_label(WebhookEvent::RecordingStarted), "RecordingStarted");
}

#[test]
fn notifications_go_to_configured_services() {
    let f = NotificationForwarder::with_services(
        Some("https://discord/x".to_string()),
        None,
        Some("TOKEN".to_string()),
        Some("42".to_string()),
    );
    let out = f.forward("Title", "Body");
    assert_eq!(out.len(), 2);
    assert!(matches!(out[0].service, Service::Discord));
    assert_eq!(out[0].url, "https://discord/x");
    assert_eq!(out[0].text, "**Title**\nBody");
    match &out[1].service {
        Service::Telegram { chat_id } => assert_eq!(chat_id, "42"),
        _ => panic!("telegram expected"),
    }
    assert_eq!(out[1].url, "https://api.telegram.org/botTOKEN/sendMessage");
    assert_eq!(out[1].text, "Title\nBody");
    let slack_only = NotificationForwarder::with_services(None, Some("https://slack/y".to_string()), Some("T".to_string()), None);
    let out = slack_only.forward("T", "M");
    assert_eq!(out.len(), 1);
    assert_eq!(out[0].text, "*T*\nM");
}

#[test]
fn tray_shows_messages_only_while_visible() {
    let mut t = TrayIcon::new();
    assert!(!t.is_visible());
    assert!(!t.notify("a", "b"));
    t.show();
    assert!(t.update_tooltip("streaming"));
    assert!(t.notify("a", "b"));
    t.hide_icon();
    assert!(!t.update_tooltip("x"));
}

#[test]
fn installer_script_names_this_version() {
    let s = generate_nsis_script();
    assert!(s.contains("Name \"ios-remote 0.8.0\""));
    assert!(s.contains("OutFile \"ios-remote-0.8.0-setup.exe\""));
    assert!(s.contains("\"DisplayVersion\" \"0.8.0\""));
    assert!(s.contains("Section \"Uninstall\""));
}

#[test]
fn device_services_report_not_enabled() {
    assert_eq!(list_files("/").err().unwrap(), "idevice AFC not yet enabled");
    assert!(download_file("/a", "b").is_err());
    assert!(upload_file("b", "/a").is_err());
    assert_eq!(stream_syslog(), Err("idevice syslog relay not yet enabled".to_string()));
    assert_eq!(get_crash_logs(), Err("idevice crash log retrieval not yet enabled".to_string()));
}

#[test]
fn battery_tooltip_shows_level_and_charging() {
    let mut b = BatteryWidget::new();
    assert_eq!(b.tooltip(), "iPhone \u{1F50B} 0%");
    b.update(85, true);
    assert_eq!(b.tooltip(), "iPhone \u{26A1} 85%");
}

#[test]
fn subtitles_rotate_through_six_lines() {
    assert_eq!(subtitle_line(0), "WELCOME TO IOS REMOTE SYNTHETIC MODE");
    assert_eq!(subtitle_line(5), "DASHBOARD AT HTTP LOCALHOST 8080");
    assert_eq!(subtitle_line(6), subtitle_line(0));
    assert_eq!(subtitle_line(13), "NO IPHONE REQUIRED FOR THIS DEMO");
}
