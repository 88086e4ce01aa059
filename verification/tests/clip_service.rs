use obsclip::clip::service::{
    after_pack_check, after_recognition, clip_action, clip_append_text, clip_input_from_config, note_append_text,
    pack_toast, plan_image_ocr, ClipAction, HealthUpdate, OcrPlan, PackCheck,
};
use obsclip::clipboard::{classify_clipboard, ClipboardContent};
use obsclip::config::{AppConfig, TextFormat};
use obsclip::ocr::health::{OcrHealth, OcrHealthState};
use obsclip::ocr::recognize::{recognized_text, rgba_to_rgb, tessdata_path_for, OcrError};

fn strings(v: &[&str]) -> Vec<String> {
    v.iter().map(|s| s.to_string()).collect()
}

#[test]
fn ocr_plan_cases() {
    assert_eq!(plan_image_ocr(false, &strings(&["eng"])), OcrPlan::Skip { health: HealthUpdate::Unchanged });
    assert_eq!(
        plan_image_ocr(true, &[]),
        OcrPlan::Skip {
            health: HealthUpdate::Report {
                message: "No OCR languages enabled.".into(),
                fix: "Enable at least one OCR language in Settings.".into(),
            },
        }
    );
    assert_eq!(
        plan_image_ocr(true, &strings(&["a", "b", "c"])),
        OcrPlan::Skip {
            health: HealthUpdate::Report {
                message: "Select at most two languages.".into(),
                fix: "Select at most two languages.".into(),
            },
        }
    );
    assert_eq!(plan_image_ocr(true, &strings(&["eng", "vie"])), OcrPlan::CheckPacks);
}

#[test]
fn pack_check_cases() {
    assert_eq!(
        after_pack_check(&strings(&["eng", "vie"]), &strings(&["vie"])),
        PackCheck::Missing {
            health: HealthUpdate::Report {
                message: "Missing language pack: vie".into(),
                fix: "Download the vie language pack in Settings.".into(),
            },
        }
    );
    assert_eq!(
        after_pack_check(&strings(&["eng", "vie"]), &[]),
        PackCheck::Recognize { lang: "eng+vie".into() }
    );
}

#[test]
fn recognition_outcomes() {
    let ok = after_recognition(Ok("text".into()));
    assert_eq!(ok.ocr_text, Some("text".to_string()));
    assert!(!ok.toast);
    assert_eq!(ok.health, HealthUpdate::Clear);
    let empty = after_recognition(Ok("".into()));
    assert_eq!(empty.ocr_text, None);
    assert_eq!(empty.health, HealthUpdate::Clear);
    let err = after_recognition(Err(OcrError::Engine("init".into())));
    assert_eq!(err.ocr_text, None);
    assert!(err.toast);
    assert_eq!(
        err.health,
        HealthUpdate::Report {
            message: "OCR failed: tesseract failed: init".into(),
            fix: "Try clipping again. If it persists, restart Obsclip.".into(),
        }
    );
}

#[test]
fn health_state_follows_updates() {
    let mut h = OcrHealthState::new();
    assert_eq!(h.snapshot(), OcrHealth::default());
    h.set_error("m".into(), "f".into());
    assert_eq!(h.snapshot(), OcrHealth { message: Some("m".into()), fix: Some("f".into()) });
    h.apply(HealthUpdate::Unchanged);
    assert_eq!(h.snapshot().message, Some("m".to_string()));
    h.apply(HealthUpdate::Clear);
    assert_eq!(h.snapshot(), OcrHealth { message: None, fix: None });
    h.apply(HealthUpdate::Report { message: "a".into(), fix: "b".into() });
    assert_eq!(h.snapshot().fix, Some("b".to_string()));
    h.clear();
    assert_eq!(h.snapshot(), OcrHealth::default());
}

#[test]
fn rgba_is_converted_or_rejected() {
    let rgba = vec![1, 2, 3, 4, 5, 6, 7, 8, 9];
    assert_eq!(rgba_to_rgb(&rgba, 2, 1).unwrap(), vec![1, 2, 3, 5, 6, 7]);
    assert_eq!(rgba_to_rgb(&rgba, 0, 5).unwrap(), Vec::<u8>::new());
    let err = rgba_to_rgb(&rgba, 3, 1).unwrap_err();
    assert_eq!(err.message(), "tesseract failed: RGBA buffer too small: got 9, expected 12");
    assert_eq!(recognized_text("\n hi there \n\n"), "hi there");
    assert_eq!(tessdata_path_for("/app/obsclip"), "/app/obsclip/tessdata");
}

#[test]
fn appended_entry_is_separated_by_a_blank_line() {
    assert_eq!(note_append_text("- 14:32 — hello world"), "\n\n- 14:32 — hello world");
}

#[test]
fn clipboard_classification() {
    let c = classify_clipboard(Some((vec![1, 2, 3, 4], 1, 1)), Some("text".into()));
    assert!(matches!(c, ClipboardContent::Image { width: 1, height: 1, .. }));
    assert!(matches!(classify_clipboard(None, Some(" \n ".into())), ClipboardContent::Empty));
    assert!(matches!(classify_clipboard(None, Some(" a ".into())), ClipboardContent::Text(ref t) if t == " a "));
    assert!(matches!(classify_clipboard(None, None), ClipboardContent::Empty));
}

#[test]
fn clip_input_copies_the_settings() {
    let mut cfg = AppConfig::default();
    cfg.vault_path = Some("/v".into());
    cfg.image_ocr = false;
    let input = clip_input_from_config(
        &cfg,
        ClipboardContent::Empty,
        "/o.json".into(),
        "/t".into(),
        "/p".into(),
        "/e".into(),
    );
    assert_eq!(input.vault_override, Some("/v".to_string()));
    assert!(!input.image_ocr);
    assert_eq!(input.ocr_languages, vec!["eng".to_string()]);
    assert_eq!(input.annotation, None);
    assert_eq!(input.obsidian_json, "/o.json");
}

#[test]
fn clip_action_for_each_content() {
    assert_eq!(clip_action(&ClipboardContent::Text("hi".into())), ClipAction::WriteText);
    assert_eq!(
        clip_action(&ClipboardContent::Image { rgba: vec![0, 0, 0, 255], width: 1, height: 1 }),
        ClipAction::SaveImage
    );
    assert_eq!(clip_action(&ClipboardContent::Empty), ClipAction::Refuse);
}

#[test]
fn toast_only_for_a_missing_pack() {
    let langs = strings(&["eng", "vie"]);
    assert!(pack_toast(&after_pack_check(&langs, &strings(&["vie"]))));
    assert!(!pack_toast(&after_pack_check(&langs, &[])));
}

#[test]
fn text_appended_by_a_clip() {
    let c = ClipboardContent::Text("a\nb".into());
    assert_eq!(clip_append_text(&c, TextFormat::Bullet, "09:00", "", None, None).unwrap(), "\n\n- a\n- b");
    assert_eq!(
        clip_append_text(&c, TextFormat::Timestamped, "09:00", "", None, Some("note")).unwrap(),
        "\n\n- 09:00 — a — note\n  b"
    );
    let img = ClipboardContent::Image { rgba: vec![0, 0, 0, 255], width: 1, height: 1 };
    assert_eq!(
        clip_append_text(&img, TextFormat::Bullet, "09:00", "x.png", Some("l1\nl2"), Some("n")).unwrap(),
        "\n\n- 09:00 — ![[x.png]] — n\n  l1\n  l2"
    );
    assert_eq!(clip_append_text(&ClipboardContent::Empty, TextFormat::Bullet, "09:00", "", None, None), None);
}
