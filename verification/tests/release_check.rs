use ios_remote::system::updater::{release_status_error, release_version, update_for_release};

#[test]
fn release_status_maps_to_messages() {
    assert_eq!(release_status_error(200), None);
    assert_eq!(release_status_error(404).as_deref(), Some("no published GitHub release found"));
    assert_eq!(release_status_error(403).as_deref(), Some("GitHub API rate limit reached \u{2014} try again later"));
    assert_eq!(release_status_error(429).as_deref(), Some("GitHub API rate limit reached \u{2014} try again later"));
    assert_eq!(release_status_error(500).as_deref(), Some("GitHub API returned HTTP 500"));
}

#[test]
fn release_tags_lose_leading_vs() {
    assert_eq!(release_version("v1.2.3"), "1.2.3");
    assert_eq!(release_version("vv0.9"), "0.9");
    assert_eq!(release_version("2.0"), "2.0");
    assert_eq!(release_version(""), "");
}

#[test]
fn newer_release_is_offered() {
    let u = update_for_release("v0.9.0", "https://example/r".to_string(), Some("notes".to_string())).unwrap();
    assert_eq!((u.current.as_str(), u.latest.as_str()), ("0.8.0", "0.9.0"));
    assert_eq!((u.url.as_str(), u.changelog.as_str()), ("https://example/r", "notes"));
    let no_notes = update_for_release("1.0", "u".to_string(), None).unwrap();
    assert_eq!(no_notes.changelog, "");
}

#[test]
fn same_or_older_release_is_not_offered() {
    assert!(update_for_release("v0.8.0", "u".to_string(), None).is_none());
    assert!(update_for_release("v0.7.9", "u".to_string(), None).is_none());
}
