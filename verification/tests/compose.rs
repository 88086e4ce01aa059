use obsclip::compose::compose_payload;

#[test]
fn empty_and_whitespace_are_none() {
    assert_eq!(compose_payload(""), None);
    assert_eq!(compose_payload("   \n\t  "), None);
}

#[test]
fn trims_and_keeps_inner_newlines() {
    assert_eq!(
        compose_payload("  hello\nworld  \n"),
        Some("hello\nworld".to_string())
    );
}

#[test]
fn unicode_white_space_is_trimmed() {
    assert_eq!(compose_payload("\u{3000}\u{a0} note \u{2029}"), Some("note".to_string()));
    assert_eq!(compose_payload("\u{85}\u{1680}\u{202f}"), None);
}

#[test]
fn payload_of_payload_is_the_same() {
    let once = compose_payload(" \t a b \r\n").unwrap();
    assert_eq!(compose_payload(&once), Some(once.clone()));
}
