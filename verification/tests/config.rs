use obsclip::config::{
    check_config_for_save, default_annotation_prompt, default_image_ocr, default_ocr_languages,
    default_write_shortcut, shortcut_changed, AppConfig, TextFormat,
};
use obsclip::toast::{toast_position, TOAST_DEFAULT_HEIGHT, TOAST_DEFAULT_WIDTH};

#[test]
fn default_config_values() {
    let cfg = AppConfig::default();
    assert_eq!(cfg.vault_path, None);
    assert_eq!(cfg.shortcut, "CommandOrControl+Shift+KeyV");
    assert_eq!(cfg.write_shortcut, "CommandOrControl+Shift+KeyN");
    assert_eq!(cfg.text_format, TextFormat::Timestamped);
    assert!(cfg.annotation_prompt);
    assert!(cfg.image_ocr);
    assert_eq!(cfg.ocr_languages, vec!["eng".to_string()]);
    assert!(!cfg.write_shortcut_conflicts_with_clip());
    assert!(check_config_for_save(&cfg).is_ok());
}

#[test]
fn missing_fields_defaults() {
    assert!(default_annotation_prompt());
    assert!(default_image_ocr());
    assert_eq!(default_ocr_languages(), vec!["eng".to_string()]);
    assert_eq!(default_write_shortcut(), "CommandOrControl+Shift+KeyN");
}

#[test]
fn save_checks() {
    let mut cfg = AppConfig::default();
    cfg.write_shortcut = cfg.shortcut.clone();
    assert!(cfg.write_shortcut_conflicts_with_clip());
    assert_eq!(check_config_for_save(&cfg).unwrap_err(), "Clip and write shortcuts must be different.");
    cfg.ocr_languages = vec!["a".into(), "b".into(), "c".into()];
    assert_eq!(check_config_for_save(&cfg).unwrap_err(), "Select at most two languages.");
    assert!(shortcut_changed("A", "B"));
    assert!(!shortcut_changed("A", "A"));
}

#[test]
fn toast_sits_at_bottom_right() {
    assert_eq!(toast_position(0, 0, 1920, 1080, TOAST_DEFAULT_WIDTH, TOAST_DEFAULT_HEIGHT), (1584, 1008));
    assert_eq!(toast_position(-1920, 100, 1920, 1080, 300, 60), (-316, 1104));
}
