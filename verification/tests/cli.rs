use ios_remote::cli::{mask_token, usable_cli_token};

#[test]
fn mask_short_token_is_fully_starred() {
    assert_eq!(mask_token(""), "");
    assert_eq!(mask_token("abcd"), "****");
    assert_eq!(mask_token("12345678"), "********");
}

#[test]
fn mask_long_token_keeps_head_and_tail() {
    let m = mask_token("ABCD1234567890wxyz");
    assert!(m.starts_with("ABCD"), "got {m:?}");
    assert!(m.ends_with("wxyz"), "got {m:?}");
    assert!(!m.contains("1234567890"));
}

#[test]
fn mask_nine_characters_exactly() {
    assert_eq!(mask_token("123456789"), "1234\u{2026}6789");
}

#[test]
fn blank_cli_token_falls_back() {
    assert!(!usable_cli_token(&None));
    assert!(!usable_cli_token(&Some("   ".to_string())));
    assert!(usable_cli_token(&Some(" abc ".to_string())));
}
