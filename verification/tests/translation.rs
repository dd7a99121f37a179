use ios_remote::features::translation::{lines, pair_lines, parse_translation, TranslationOverlay};

#[test]
fn success_returns_translated_text() {
    assert_eq!(
        parse_translation(200, r#"{"translatedText":"こんにちは"}"#).unwrap(),
        "こんにちは"
    );
}

#[test]
fn missing_key_error_is_not_mistaken_for_a_translation() {
    let err = parse_translation(
        400,
        r#"{"error":"Visit https://portal.libretranslate.com to get an API key"}"#,
    )
    .unwrap_err();
    assert!(err.contains("400") && err.contains("API key"), "{err}");
}

#[test]
fn ok_status_without_field_is_an_error() {
    assert!(parse_translation(200, r#"{"unexpected":true}"#).is_err());
}

#[test]
fn non_json_error_body_is_trimmed() {
    assert_eq!(
        parse_translation(502, "  bad gateway \n").unwrap_err(),
        "translation API error 502: bad gateway (set LIBRETRANSLATE_URL / LIBRETRANSLATE_API_KEY)"
    );
}

#[test]
fn lines_split_like_str_lines() {
    for s in ["", "a", "a\n", "a\r\nb", "a\n\nb\r", "\n", "x\ry\nz"] {
        let want: Vec<String> = s.lines().map(str::to_string).collect();
        assert_eq!(lines(s), want, "input={s:?}");
    }
}

#[test]
fn lines_are_paired_up_to_the_shorter_side() {
    let p = pair_lines("hello\nworld\nextra", "bonjour\nmonde");
    assert_eq!(p, vec![("hello".to_string(), "bonjour".to_string()), ("world".to_string(), "monde".to_string())]);
    let t = TranslationOverlay::new("en", "ja");
    assert_eq!((t.source_lang.as_str(), t.target_lang.as_str(), t.enabled), ("en", "ja", false));
}
