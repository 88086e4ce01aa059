use obsclip::json::JsonValue;
use obsclip::vault::obsidian::{normalize_attachment_path, validate_obsidian_vault_path, VaultSettings};

fn s(v: &str) -> JsonValue {
    JsonValue::String(v.to_string())
}

fn obj(members: Vec<(&str, JsonValue)>) -> JsonValue {
    JsonValue::Object(members.into_iter().map(|(k, v)| (k.to_string(), v)).collect())
}

#[test]
fn loads_daily_notes_and_attachment_settings() {
    let daily = obj(vec![
        ("folder", s("Daily")),
        ("format", s("YYYY-MM-DD")),
        ("template", s("Templates/Daily")),
    ]);
    let app = obj(vec![("attachmentFolderPath", s("./attachments"))]);
    let settings = VaultSettings::from_config(&daily, Some(&app));
    assert_eq!(settings.date_format, "YYYY-MM-DD");
    assert_eq!(settings.folder, "Daily");
    assert_eq!(settings.template, Some("Templates/Daily".into()));
    assert_eq!(settings.attachment_folder, "attachments");
}

#[test]
fn validate_accepts_obsidian_vault() {
    assert!(validate_obsidian_vault_path(true, true).is_ok());
}

#[test]
fn validate_rejects_non_vault_folder() {
    let error = validate_obsidian_vault_path(true, false).unwrap_err();
    assert!(error.contains("not an Obsidian vault"));
}

#[test]
fn validate_rejects_missing_folder() {
    assert_eq!(validate_obsidian_vault_path(false, false).unwrap_err(), "Vault folder not found.");
}

#[test]
fn missing_settings_take_defaults() {
    let daily = obj(vec![("format", JsonValue::Null), ("template", JsonValue::Number(Some(3)))]);
    let settings = VaultSettings::from_config(&daily, None);
    assert_eq!(settings.date_format, "YYYY-MM-DD");
    assert_eq!(settings.folder, "");
    assert_eq!(settings.template, None);
    assert_eq!(settings.attachment_folder, "attachments");
    let app = obj(vec![]);
    let settings = VaultSettings::from_config(&JsonValue::Array(vec![]), Some(&app));
    assert_eq!(settings.attachment_folder, "attachments");
}

#[test]
fn attachment_path_is_made_relative() {
    assert_eq!(normalize_attachment_path("././/files"), "files");
    assert_eq!(normalize_attachment_path("/abs/dir"), "abs/dir");
    assert_eq!(normalize_attachment_path("a/./b"), "a/./b");
    assert_eq!(normalize_attachment_path("."), ".");
}

#[test]
fn settings_from_config_text() {
    let daily = r#"{"format": "YYYY/MM/DD", "folder": "Daily", "template": "Templates/Daily Note"}"#;
    let s = VaultSettings::from_config_text(daily, Some(r#"{"attachmentFolderPath": "./attachments/img"}"#)).unwrap();
    assert_eq!(s.date_format, "YYYY/MM/DD");
    assert_eq!(s.folder, "Daily");
    assert_eq!(s.template.as_deref(), Some("Templates/Daily Note"));
    assert_eq!(s.attachment_folder, "attachments/img");
    let s = VaultSettings::from_config_text("{}", None).unwrap();
    assert_eq!(s.date_format, "YYYY-MM-DD");
    assert_eq!(s.folder, "");
    assert_eq!(s.template, None);
    assert_eq!(s.attachment_folder, "attachments");
    let s = VaultSettings::from_config_text("{}", Some("{}")).unwrap();
    assert_eq!(s.attachment_folder, "attachments");
}

#[test]
fn config_text_that_is_not_json_is_refused() {
    assert!(VaultSettings::from_config_text("{", None).is_err());
    assert!(VaultSettings::from_config_text("{}", Some("[1,")).is_err());
    assert!(VaultSettings::from_config_text("nope", Some("{}")).unwrap_err().len() > 0);
}
