use obsclip::clip::formatter::{
    format_image_link, format_image_link_with_annotation, format_image_link_with_ocr,
    format_text, format_text_with_annotation,
};
use obsclip::config::TextFormat;

#[test]
fn timestamped_single_line() {
    let out = format_text(TextFormat::Timestamped, "hello", "14:32");
    assert_eq!(out, "- 14:32 — hello");
}

#[test]
fn blockquote_multiline() {
    let out = format_text(TextFormat::Blockquote, "line1\nline2", "14:32");
    assert_eq!(out, "> line1\n> line2");
}

#[test]
fn checkbox_format() {
    let out = format_text(TextFormat::Checkbox, "task", "09:00");
    assert_eq!(out, "- [ ] task");
}

#[test]
fn timestamped_with_annotation() {
    let out = format_text_with_annotation(
        TextFormat::Timestamped,
        "hello",
        "14:32",
        Some("extra context"),
    );
    assert_eq!(out, "- 14:32 — hello — extra context");
}

#[test]
fn blockquote_with_annotation() {
    let out = format_text_with_annotation(
        TextFormat::Blockquote,
        "line1",
        "14:32",
        Some("note"),
    );
    assert_eq!(out, "> line1\n> note");
}

#[test]
fn image_link_with_ocr_single_line() {
    let out = format_image_link_with_ocr("14:32", "clip.png", Some("hello"), None);
    assert_eq!(out, "- 14:32 — ![[clip.png]]\n  hello");
}

#[test]
fn image_link_with_ocr_multiline() {
    let out = format_image_link_with_ocr("14:32", "clip.png", Some("line one\nline two"), None);
    assert_eq!(out, "- 14:32 — ![[clip.png]]\n  line one\n  line two");
}

#[test]
fn image_link_with_ocr_and_annotation() {
    let out = format_image_link_with_ocr("14:32", "clip.png", Some("text"), Some("note"));
    assert_eq!(out, "- 14:32 — ![[clip.png]] — note\n  text");
}

#[test]
fn image_link_without_ocr_text() {
    let out = format_image_link_with_ocr("14:32", "clip.png", None, None);
    assert_eq!(out, "- 14:32 — ![[clip.png]]");
}

#[test]
fn timestamped_multiline_indents_continuation() {
    let out = format_text(TextFormat::Timestamped, "First line\nSecond line", "11:24");
    assert_eq!(out, "- 11:24 — First line\n  Second line");
}

#[test]
fn timestamped_multiline_with_note_goes_on_first_line() {
    let out = format_text_with_annotation(TextFormat::Timestamped, "a\r\nb", "08:00", Some("n"));
    assert_eq!(out, "- 08:00 — a — n\n  b");
}

#[test]
fn bullet_with_note_and_crlf_lines() {
    let out = format_text_with_annotation(TextFormat::Bullet, "x\r\ny\n", "08:00", Some("z"));
    assert_eq!(out, "- x\n- y\n- z");
    let out = format_text_with_annotation(TextFormat::Checkbox, "x", "08:00", Some("z"));
    assert_eq!(out, "- [ ] x\n- [ ] z");
}

#[test]
fn empty_note_is_ignored() {
    let out = format_text_with_annotation(TextFormat::Bullet, "x", "08:00", Some(""));
    assert_eq!(out, "- x");
}

#[test]
fn single_line_with_trailing_newline_keeps_text() {
    let out = format_text(TextFormat::Timestamped, "hello\n", "14:32");
    assert_eq!(out, "- 14:32 — hello\n");
}

#[test]
fn empty_text_in_prefixed_formats_is_empty() {
    assert_eq!(format_text(TextFormat::Blockquote, "", "14:32"), "");
    assert_eq!(format_text(TextFormat::Timestamped, "", "14:32"), "- 14:32 — ");
}

#[test]
fn image_link_is_timestamped_wikilink() {
    assert_eq!(format_image_link("14:32", "clip-2026-06-29-143052.png"), "- 14:32 — ![[clip-2026-06-29-143052.png]]");
    assert_eq!(
        format_image_link_with_annotation("14:32", "a.png", Some("follow up")),
        "- 14:32 — ![[a.png]] — follow up"
    );
}

#[test]
fn image_link_with_empty_ocr_text_has_no_lines() {
    let out = format_image_link_with_ocr("14:32", "clip.png", Some(""), Some("note"));
    assert_eq!(out, "- 14:32 — ![[clip.png]] — note");
}
