//! User settings: text format, shortcuts, vault override and OCR choices.
use vstd::prelude::*;
use crate::ocr::languages::validate_ocr_languages;

verus! {

/// How clipped text is laid out in the daily note.
#[derive(Debug, Clone, Copy, PartialEq, Eq, Structural)]
pub enum TextFormat {
    Timestamped,
    Blockquote,
    Bullet,
    Checkbox,
}

/// The application's settings, saved as `config.json`.
#[derive(Debug, PartialEq)]
pub struct AppConfig {
    /// Vault folder chosen in the settings; `None` follows Obsidian.
    pub vault_path: Option<String>,
    /// Global shortcut of the clipboard clip.
    pub shortcut: String,
    pub text_format: TextFormat,
    /// Whether to ask for a note before each clip.
    pub annotation_prompt: bool,
    /// Whether to extract text from clipped images.
    pub image_ocr: bool,
    /// OCR language codes in use, at most two.
    pub ocr_languages: Vec<String>,
    /// Global shortcut of the compose window.
    pub write_shortcut: String,
}

/// The default clip shortcut.
pub open spec fn default_shortcut_text() -> Seq<char> {
    "CommandOrControl+Shift+KeyV"@
}

/// The default write shortcut.
pub open spec fn default_write_shortcut_text() -> Seq<char> {
    "CommandOrControl+Shift+KeyN"@
}

/// A missing `annotation_prompt` reads as on.
pub fn default_annotation_prompt() -> (r: bool)
    ensures
        r,
{
    true
}

/// A missing `image_ocr` reads as on.
pub fn default_image_ocr() -> (r: bool)
    ensures
        r,
{
    true
}

/// A missing `ocr_languages` reads as English only.
pub fn default_ocr_languages() -> (r: Vec<String>)
    ensures
        r@.len() == 1,
        r@[0]@ == "eng"@,
{
    let mut v: Vec<String> = Vec::new();
    v.push("eng".to_owned());
    v
}

/// A missing `write_shortcut` reads as `CommandOrControl+Shift+KeyN`.
pub fn default_write_shortcut() -> (r: String)
    ensures
        r@ == default_write_shortcut_text(),
{
    "CommandOrControl+Shift+KeyN".to_owned()
}

/// The settings before the user changes any.
pub open spec fn is_default_config(c: AppConfig) -> bool {
    &&& c.vault_path is None
    &&& c.shortcut@ == default_shortcut_text()
    &&& c.text_format == TextFormat::Timestamped
    &&& c.annotation_prompt
    &&& c.image_ocr
    &&& c.ocr_languages@.len() == 1
    &&& c.ocr_languages@[0]@ == "eng"@
    &&& c.write_shortcut@ == default_write_shortcut_text()
}

impl Default for AppConfig {
    fn default() -> (r: Self)
        ensures
            is_default_config(r),
    {
        AppConfig {
            vault_path: None,
            shortcut: "CommandOrControl+Shift+KeyV".to_owned(),
            text_format: TextFormat::Timestamped,
            annotation_prompt: default_annotation_prompt(),
            image_ocr: default_image_ocr(),
            ocr_languages: default_ocr_languages(),
            write_shortcut: default_write_shortcut(),
        }
    }
}

/// Message when both shortcuts are the same.
pub open spec fn shortcut_collision_message() -> Seq<char> {
    "Clip and write shortcuts must be different."@
}

impl AppConfig {
    /// Whether the write shortcut is the same as the clip shortcut.
    pub fn write_shortcut_conflicts_with_clip(&self) -> (r: bool)
        ensures
            r == (self.shortcut@ == self.write_shortcut@),
    {
        self.shortcut == self.write_shortcut
    }
}

/// The default settings can be saved: their two shortcuts differ.
pub proof fn lemma_default_shortcuts_differ(c: AppConfig)
    requires
        is_default_config(c),
    ensures
        c.shortcut@ != c.write_shortcut@,
{
    reveal_strlit("CommandOrControl+Shift+KeyV");
    reveal_strlit("CommandOrControl+Shift+KeyN");
    assert(c.shortcut@[26] != c.write_shortcut@[26]);
}

/// Whether settings may be saved: at most two OCR languages, and different
/// clip and write shortcuts; the first failing rule gives the message.
pub fn check_config_for_save(config: &AppConfig) -> (r: Result<(), String>)
    ensures
        r is Ok <==> config.ocr_languages@.len() <= 2 && config.shortcut@ != config.write_shortcut@,
        config.ocr_languages@.len() > 2 ==> (r matches Err(e) && e@ == crate::ocr::languages::too_many_languages_message()),
        config.ocr_languages@.len() <= 2 && config.shortcut@ == config.write_shortcut@ ==> (r matches Err(e) && e@ == shortcut_collision_message()),
{
    validate_ocr_languages(config.ocr_languages.as_slice())?;
    if config.write_shortcut_conflicts_with_clip() {
        return Err("Clip and write shortcuts must be different.".to_owned());
    }
    Ok(())
}

/// Whether a global shortcut has to be registered anew: only when it changed.
pub fn shortcut_changed(old_shortcut: &str, new_shortcut: &str) -> (r: bool)
    ensures
        r == (old_shortcut@ != new_shortcut@),
{
    old_shortcut.to_owned() != new_shortcut.to_owned()
}

} // verus!
