//! The decisions of a clip: what goes into the note, whether and how OCR
//! runs on an image, and what the OCR health and the toast are told.
use vstd::prelude::*;
use crate::clipboard::ClipboardContent;
use crate::clip::formatter::{
    annotated, format_image_link_with_ocr, format_text_with_annotation, image_line, ocr_lines,
    opt_view, text_block,
};
use crate::config::{AppConfig, TextFormat};
use crate::ocr::health::OcrHealthState;
use crate::ocr::languages::{build_lang_string, lang_string, validate_ocr_languages, too_many_languages_message};
use crate::ocr::recognize::{ocr_error_message, OcrError};
use crate::text::{push_str, str_chars, string_from_chars};

verus! {

/// Everything a clip needs besides the file system.
#[derive(Debug)]
pub struct ClipInput {
    pub content: ClipboardContent,
    /// Vault folder from the settings; `None` follows Obsidian.
    pub vault_override: Option<String>,
    pub text_format: TextFormat,
    /// Path of Obsidian's `obsidian.json`.
    pub obsidian_json: String,
    /// The note typed in the dialog, if any.
    pub annotation: Option<String>,
    pub image_ocr: bool,
    pub ocr_languages: Vec<String>,
    /// Folder of the OCR language packs.
    pub tessdata_dir: String,
    /// Folder above the language packs, as the engine wants it.
    pub tessdata_prefix: String,
    /// The English pack shipped with the application.
    pub bundled_eng: String,
}

/// How a clip went, beyond success: whether the OCR failure toast is due.
#[derive(Debug, PartialEq, Eq)]
pub struct ClipOutcome {
    pub ocr_toast: bool,
}

/// What the OCR health report is told after a clip.
#[derive(Debug, PartialEq, Eq)]
pub enum HealthUpdate {
    Unchanged,
    Clear,
    Report { message: String, fix: String },
}

/// The report after an update, from the report before.
pub open spec fn health_after(before: (Option<Seq<char>>, Option<Seq<char>>), u: HealthUpdate) -> (Option<Seq<char>>, Option<Seq<char>>) {
    match u {
        HealthUpdate::Unchanged => before,
        HealthUpdate::Clear => (None, None),
        HealthUpdate::Report { message, fix } => (Some(message@), Some(fix@)),
    }
}

impl OcrHealthState {
    /// Apply what a clip found out.
    pub fn apply(&mut self, update: HealthUpdate)
        ensures
            final(self).current() == health_after(old(self).current(), update),
    {
        match update {
            HealthUpdate::Unchanged => {},
            HealthUpdate::Clear => self.clear(),
            HealthUpdate::Report { message, fix } => self.set_error(message, fix),
        }
    }
}

/// The first step of OCR on a clipped image.
#[derive(Debug, PartialEq, Eq)]
pub enum OcrPlan {
    /// No OCR this time; the health report is told this.
    Skip { health: HealthUpdate },
    /// Check that the packs of the enabled languages are present.
    CheckPacks,
}

/// Message and fix when OCR is on but no language is enabled.
pub open spec fn no_language_report() -> (Seq<char>, Seq<char>) {
    ("No OCR languages enabled."@, "Enable at least one OCR language in Settings."@)
}

/// Whether to run OCR on a clipped image: not when it is off (the report is
/// left alone), nor when no language is enabled or more than two are (the
/// report says why); otherwise check the language packs.
pub fn plan_image_ocr(image_ocr: bool, languages: &[String]) -> (r: OcrPlan)
    ensures
        !image_ocr ==> r == (OcrPlan::Skip { health: HealthUpdate::Unchanged }),
        image_ocr && languages@.len() == 0 ==> (r matches OcrPlan::Skip { health: HealthUpdate::Report { message, fix } }
            && (message@, fix@) == no_language_report()),
        image_ocr && languages@.len() > 2 ==> (r matches OcrPlan::Skip { health: HealthUpdate::Report { message, fix } }
            && message@ == too_many_languages_message() && fix@ == too_many_languages_message()),
        image_ocr && 1 <= languages@.len() <= 2 ==> r is CheckPacks,
{
    if !image_ocr {
        return OcrPlan::Skip { health: HealthUpdate::Unchanged };
    }
    if languages.len() == 0 {
        return OcrPlan::Skip {
            health: HealthUpdate::Report {
                message: "No OCR languages enabled.".to_owned(),
                fix: "Enable at least one OCR language in Settings.".to_owned(),
            },
        };
    }
    match validate_ocr_languages(languages) {
        Err(msg) => OcrPlan::Skip { health: HealthUpdate::Report { message: msg.clone(), fix: msg } },
        Ok(()) => OcrPlan::CheckPacks,
    }
}

/// The second step: recognize, or report a missing pack.
#[derive(Debug, PartialEq, Eq)]
pub enum PackCheck {
    /// A pack is missing: no OCR, the toast is due, the report says which.
    Missing { health: HealthUpdate },
    /// Run the engine with this language string.
    Recognize { lang: String },
}

/// Message and fix for a missing language pack.
pub open spec fn missing_pack_report(lang: Seq<char>) -> (Seq<char>, Seq<char>) {
    ("Missing language pack: "@ + lang, "Download the "@ + lang + " language pack in Settings."@)
}

/// After the pack check: report the first missing pack, or recognize with
/// the enabled languages joined by `+`.
pub fn after_pack_check(languages: &[String], missing: &[String]) -> (r: PackCheck)
    ensures
        missing@.len() > 0 ==> (r matches PackCheck::Missing { health: HealthUpdate::Report { message, fix } }
            && (message@, fix@) == missing_pack_report(missing@[0]@)),
        missing@.len() == 0 ==> (r matches PackCheck::Recognize { lang } && lang@ == lang_string(languages@)),
{
    if missing.len() > 0 {
        let lang = missing[0].as_str();
        let mut m: Vec<char> = str_chars("Missing language pack: ");
        push_str(&mut m, lang);
        let mut f: Vec<char> = str_chars("Download the ");
        push_str(&mut f, lang);
        push_str(&mut f, " language pack in Settings.");
        return PackCheck::Missing {
            health: HealthUpdate::Report {
                message: string_from_chars(m.as_slice()),
                fix: string_from_chars(f.as_slice()),
            },
        };
    }
    PackCheck::Recognize { lang: build_lang_string(languages) }
}

/// Whether the OCR failure toast is due after the pack check: when a pack is missing.
pub fn pack_toast(c: &PackCheck) -> (t: bool)
    ensures
        t == (c is Missing),
{
    match c {
        PackCheck::Missing { .. } => true,
        PackCheck::Recognize { .. } => false,
    }
}

/// What a clip does with the clipboard's content.
#[derive(Debug, Clone, Copy, PartialEq, Eq, Structural)]
pub enum ClipAction {
    /// Append a text entry.
    WriteText,
    /// Save the image and append a link to it.
    SaveImage,
    /// Nothing to clip: the clip fails.
    Refuse,
}

/// The action for the clipboard's content: text is written, an image is
/// saved and linked, an empty clipboard is refused.
pub fn clip_action(content: &ClipboardContent) -> (r: ClipAction)
    ensures
        content is Text <==> r is WriteText,
        content is Image <==> r is SaveImage,
        content is Empty <==> r is Refuse,
{
    match content {
        ClipboardContent::Text(_) => ClipAction::WriteText,
        ClipboardContent::Image { .. } => ClipAction::SaveImage,
        ClipboardContent::Empty => ClipAction::Refuse,
    }
}

/// What the engine's answer leads to.
#[derive(Debug, PartialEq, Eq)]
pub struct OcrOutcome {
    /// Text to put under the image, when there is some.
    pub ocr_text: Option<String>,
    /// Whether the failure toast is due.
    pub toast: bool,
    pub health: HealthUpdate,
}

/// The fix suggested when the engine fails.
pub open spec fn engine_failure_fix() -> Seq<char> {
    "Try clipping again. If it persists, restart Obsclip."@
}

/// After recognition: text found goes under the image and clears the report;
/// no text clears the report too; a failure leaves the image alone, makes the
/// toast due and reports the error.
pub fn after_recognition(result: Result<String, OcrError>) -> (r: OcrOutcome)
    ensures
        match result {
            Ok(t) => {
                &&& r.health == HealthUpdate::Clear
                &&& !r.toast
                &&& if t@.len() == 0 { r.ocr_text is None } else { r.ocr_text matches Some(s) && s@ == t@ }
            },
            Err(e) => {
                &&& r.ocr_text is None
                &&& r.toast
                &&& r.health matches HealthUpdate::Report { message, fix }
                &&& message@ == "OCR failed: "@ + ocr_error_message(e)
                &&& fix@ == engine_failure_fix()
            },
        },
{
    match result {
        Ok(text) => {
            if text.as_str().is_empty() {
                OcrOutcome { ocr_text: None, toast: false, health: HealthUpdate::Clear }
            } else {
                OcrOutcome { ocr_text: Some(text), toast: false, health: HealthUpdate::Clear }
            }
        },
        Err(e) => {
            let mut m: Vec<char> = str_chars("OCR failed: ");
            push_str(&mut m, e.message().as_str());
            OcrOutcome {
                ocr_text: None,
                toast: true,
                health: HealthUpdate::Report {
                    message: string_from_chars(m.as_slice()),
                    fix: "Try clipping again. If it persists, restart Obsclip.".to_owned(),
                },
            }
        },
    }
}

/// What is written to the end of the note for an entry: a blank line, then the entry.
pub open spec fn appended_entry(block: Seq<char>) -> Seq<char> {
    "\n\n"@ + block
}

/// The text appended to the daily note for an entry.
pub fn note_append_text(block: &str) -> (r: String)
    ensures
        r@ == appended_entry(block@),
{
    let mut out: Vec<char> = str_chars("\n\n");
    push_str(&mut out, block);
    string_from_chars(out.as_slice())
}

/// What a clip appends to the daily note: a blank line, then the entry; the
/// entry is the text in the chosen format with the note, or the image link
/// with the note on its line and the recognized text below it. Nothing for an
/// empty clipboard.
pub open spec fn clip_append(
    content: ClipboardContent,
    format: TextFormat,
    time: Seq<char>,
    image_filename: Seq<char>,
    ocr_text: Option<Seq<char>>,
    annotation: Option<Seq<char>>,
) -> Option<Seq<char>> {
    match content {
        ClipboardContent::Text(t) => Some(appended_entry(annotated(text_block(format, t@, time), format, annotation))),
        ClipboardContent::Image { .. } => Some(appended_entry(
            annotated(image_line(time, image_filename), TextFormat::Timestamped, annotation) + ocr_lines(ocr_text),
        )),
        ClipboardContent::Empty => None,
    }
}

/// The text a clip of `content` at `time` appends to the daily note; for an
/// image, `image_filename` is the saved file and `ocr_text` the recognized
/// text. `None` for an empty clipboard.
pub fn clip_append_text(
    content: &ClipboardContent,
    format: TextFormat,
    time: &str,
    image_filename: &str,
    ocr_text: Option<&str>,
    annotation: Option<&str>,
) -> (r: Option<String>)
    ensures
        match r {
            Some(s) => clip_append(*content, format, time@, image_filename@, opt_view(ocr_text), opt_view(annotation)) == Some(s@),
            None => clip_append(*content, format, time@, image_filename@, opt_view(ocr_text), opt_view(annotation)) is None,
        },
{
    match content {
        ClipboardContent::Text(t) => {
            let block = format_text_with_annotation(format, t.as_str(), time, annotation);
            Some(note_append_text(block.as_str()))
        },
        ClipboardContent::Image { .. } => {
            let block = format_image_link_with_ocr(time, image_filename, ocr_text, annotation);
            Some(note_append_text(block.as_str()))
        },
        ClipboardContent::Empty => None,
    }
}

fn clone_strings(v: &Vec<String>) -> (r: Vec<String>)
    ensures
        r@ == v@,
{
    let mut out: Vec<String> = Vec::new();
    let mut i: usize = 0;
    while i < v.len()
        invariant
            0 <= i <= v@.len(),
            out@ == v@.take(i as int),
        decreases v@.len() - i,
    {
        out.push(v[i].clone());
        i = i + 1;
        assert(out@ =~= v@.take(i as int));
    }
    assert(v@.take(v@.len() as int) =~= v@);
    out
}

/// The clip of `content` as the settings ask for it, without a note.
pub fn clip_input_from_config(
    config: &AppConfig,
    content: ClipboardContent,
    obsidian_json: String,
    tessdata_dir: String,
    tessdata_prefix: String,
    bundled_eng: String,
) -> (r: ClipInput)
    ensures
        r.content == content,
        r.vault_override == config.vault_path,
        r.text_format == config.text_format,
        r.obsidian_json == obsidian_json,
        r.annotation is None,
        r.image_ocr == config.image_ocr,
        r.ocr_languages@ == config.ocr_languages@,
        r.tessdata_dir == tessdata_dir,
        r.tessdata_prefix == tessdata_prefix,
        r.bundled_eng == bundled_eng,
{
    let vault_override = match &config.vault_path {
        Some(p) => Some(p.clone()),
        None => None,
    };
    ClipInput {
        content,
        vault_override,
        text_format: config.text_format,
        obsidian_json,
        annotation: None,
        image_ocr: config.image_ocr,
        ocr_languages: clone_strings(&config.ocr_languages),
        tessdata_dir,
        tessdata_prefix,
        bundled_eng,
    }
}

} // verus!
