use obsclip::ocr::languages::{
    build_lang_string, check_removable, language_sort_key, language_status, list_languages,
    missing_enabled_languages, needs_download, traineddata_path, validate_ocr_languages,
    LanguageStatus, ManifestEntry,
};

fn entry(code: &str, name: &str) -> ManifestEntry {
    ManifestEntry { code: code.into(), name: name.into() }
}

#[test]
fn build_lang_string_joins_with_plus() {
    assert_eq!(build_lang_string(&["eng".into(), "vie".into()]), "eng+vie");
}

#[test]
fn validate_ocr_languages_rejects_more_than_two() {
    let err = validate_ocr_languages(&["eng".into(), "vie".into(), "deu".into()]);
    assert!(err.is_err());
}

#[test]
fn list_languages_sorts_bundled_and_installed_first() {
    let manifest = vec![entry("deu", "German"), entry("eng", "English"), entry("vie", "Vietnamese")];
    let installed = vec![true, true, false];
    let entries = list_languages(&manifest, &installed, &["eng".into()]);
    assert_eq!(entries[0].code, "eng");
    assert_eq!(entries[0].status, LanguageStatus::Bundled);
    assert_eq!(entries[1].code, "deu");
    assert_eq!(entries[1].status, LanguageStatus::Installed);
    assert_eq!(entries[2].code, "vie");
    assert_eq!(entries[2].status, LanguageStatus::NotDownloaded);
}

#[test]
fn list_is_by_lowercased_name_and_stable() {
    let manifest = vec![
        entry("b", "beta"),
        entry("a", "Alpha"),
        entry("c", "ALPHA"),
        entry("d", "gamma"),
    ];
    let installed = vec![false, false, false, true];
    let entries = list_languages(&manifest, &installed, &["c".into(), "x".into()]);
    let codes: Vec<&str> = entries.iter().map(|e| e.code.as_str()).collect();
    assert_eq!(codes, vec!["d", "a", "c", "b"]);
    assert!(entries[2].enabled);
    assert!(!entries[1].enabled);
}

#[test]
fn lang_string_edge_cases() {
    assert_eq!(build_lang_string(&[]), "");
    assert_eq!(build_lang_string(&["eng".into()]), "eng");
    assert!(validate_ocr_languages(&["eng".into(), "vie".into()]).is_ok());
    assert_eq!(
        validate_ocr_languages(&["a".into(), "b".into(), "c".into()]).unwrap_err(),
        "Select at most two languages."
    );
}

#[test]
fn status_and_key() {
    assert_eq!(language_status("eng", false), LanguageStatus::Bundled);
    assert_eq!(language_status("vie", true), LanguageStatus::Installed);
    assert_eq!(language_status("vie", false), LanguageStatus::NotDownloaded);
    assert_eq!(language_sort_key(&LanguageStatus::Installed, "ÉTÉ Big"), (1, "été big".to_string()));
}

#[test]
fn missing_and_paths() {
    let enabled = vec!["eng".to_string(), "vie".to_string()];
    assert_eq!(missing_enabled_languages(&enabled, &[true, false]), vec!["vie".to_string()]);
    assert_eq!(traineddata_path("/t", "vie"), "/t/vie.traineddata");
    assert!(!needs_download("eng"));
    assert!(needs_download("vie"));
    assert_eq!(check_removable("eng").unwrap_err(), "English cannot be removed.");
    assert!(check_removable("vie").is_ok());
}
