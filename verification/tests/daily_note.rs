use obsclip::date::CalendarDate;
use obsclip::vault::daily_note::{daily_note_path, initial_note_content};
use obsclip::vault::obsidian::VaultSettings;
use obsclip::vault::template::{apply_template, apply_template_for_date, replace_date_format_vars};
use std::path::PathBuf;

#[test]
fn builds_daily_note_relative_path() {
    let settings = VaultSettings {
        date_format: "YYYY-MM-DD".into(),
        folder: "Daily".into(),
        template: None,
        attachment_folder: "attachments".into(),
    };
    let d = CalendarDate::from_ymd_opt(2026, 6, 29).unwrap();
    let path = daily_note_path(&settings, d);
    assert_eq!(PathBuf::from(path), PathBuf::from("Daily/2026-06-29.md"));
}

#[test]
fn apply_template_substitutes_core_variables() {
    let content = "# {{title}}\n{{date}} at {{time}}";
    let out = apply_template(content, "2026-06-29", "09:15");
    assert_eq!(out, "# 2026-06-29\n2026-06-29 at 09:15");
}

#[test]
fn daily_note_in_vault_root_when_folder_empty() {
    let settings = VaultSettings {
        date_format: "YYYY/MM/DD".into(),
        folder: "".into(),
        template: None,
        attachment_folder: "attachments".into(),
    };
    let d = CalendarDate::from_ymd_opt(2026, 6, 29).unwrap();
    assert_eq!(daily_note_path(&settings, d), "2026/06/29.md");
}

#[test]
fn date_variable_uses_the_title_date() {
    let out = apply_template("{{date:dddd}} {{date:YYYY}}!", "2026-06-30", "09:15");
    assert_eq!(out, "Tuesday 2026!");
}

#[test]
fn unclosed_date_variable_is_left_alone() {
    let d = CalendarDate::from_ymd_opt(2026, 6, 29).unwrap();
    assert_eq!(replace_date_format_vars("a {{date:YYYY}} b {{date:MM", d), "a 2026 b {{date:MM");
    assert_eq!(
        apply_template_for_date("{{date:DD}}/{{time}}/<% tp %>", "x", "10:00", d),
        "29/10:00/<% tp %>"
    );
}

#[test]
fn new_note_without_template_gets_heading() {
    assert_eq!(initial_note_content(None, "2026-06-29", "09:15"), "# 2026-06-29\n");
    assert_eq!(
        initial_note_content(Some("{{title}} {{date:M}}"), "2026-06-29", "09:15"),
        "2026-06-29 6"
    );
}
