use obsclip::platform::{
    obsclip_config_dir, obsclip_config_dir_in, obsclip_config_path, obsclip_config_path_in,
    obsidian_config_path, obsidian_config_path_in, pick_bundled_eng, tessdata_dir,
    tessdata_dir_in, tessdata_prefix,
};

#[test]
fn obsidian_config_path_ends_with_obsidian_json() {
    let path = obsidian_config_path().unwrap();
    assert!(path.ends_with("obsidian.json"));
}

#[test]
fn obsclip_config_dir_is_named_obsclip() {
    let path = obsclip_config_dir().unwrap();
    assert!(path.contains("obsclip"));
}

#[test]
fn paths_under_the_config_folder() {
    assert_eq!(obsidian_config_path_in("/cfg"), "/cfg/obsidian/obsidian.json");
    let dir = obsclip_config_dir().unwrap();
    assert_eq!(obsclip_config_path().unwrap(), format!("{dir}/config.json"));
    assert_eq!(tessdata_dir().unwrap(), format!("{dir}/tessdata"));
    assert_eq!(tessdata_prefix().unwrap(), dir);
}

#[test]
fn bundled_english_is_the_first_present_candidate() {
    let c = vec!["a".to_string(), "b".to_string(), "c".to_string()];
    assert_eq!(pick_bundled_eng(&c, &[false, true, true]), "b");
    assert_eq!(pick_bundled_eng(&c, &[false, false, false]), "resources/tessdata/eng.traineddata");
}

#[test]
fn application_paths_under_a_given_config_folder() {
    assert_eq!(obsclip_config_dir_in("/cfg"), "/cfg/obsclip");
    assert_eq!(obsclip_config_dir_in("/cfg/"), "/cfg/obsclip");
    assert_eq!(obsclip_config_path_in("/cfg"), "/cfg/obsclip/config.json");
    assert_eq!(tessdata_dir_in("/cfg"), "/cfg/obsclip/tessdata");
    assert_eq!(obsidian_config_path_in("/cfg/"), "/cfg/obsidian/obsidian.json");
}
