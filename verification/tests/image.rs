use obsclip::clip::image::{attachment_dir, clip_image_filename};
use std::path::PathBuf;

#[test]
fn clip_image_filename_pattern() {
    let name = clip_image_filename("2026-06-29", "143052");
    assert_eq!(name, "clip-2026-06-29-143052.png");
}

#[test]
fn attachment_dir_joins_vault() {
    let vault = PathBuf::from("/vault");
    let dir = attachment_dir(vault.to_str().unwrap(), "attachments");
    assert_eq!(PathBuf::from(dir), PathBuf::from("/vault/attachments"));
}

#[test]
fn attachment_dir_keeps_single_separator_and_absolute_folder() {
    assert_eq!(attachment_dir("/vault/", "a"), "/vault/a");
    assert_eq!(attachment_dir("/vault", "/abs"), "/abs");
    assert_eq!(attachment_dir("", "a"), "a");
}
