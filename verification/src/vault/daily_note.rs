//! Where today's daily note lives and what a new one starts with.
use vstd::prelude::*;
use crate::date::{chrono_parsed_date, is_valid_date, CalendarDate};
use crate::path::{join_path, joined};
use crate::text::{push_str, str_chars, string_from_chars};
use crate::vault::date_format::{format_obsidian_date, obsidian_date};
use crate::vault::obsidian::VaultSettings;
use crate::vault::template::{apply_template, template_applied, title_date_pattern};

verus! {

/// The note path relative to the vault: `{folder}/{name}.md`, or `{name}.md`
/// when the folder is empty, the name being the date under the vault's
/// daily-note date pattern.
pub open spec fn daily_note_rel_path(date_format: Seq<char>, folder: Seq<char>, date: (int, int, int)) -> Seq<char> {
    let file = obsidian_date(date_format, date) + ".md"@;
    if folder.len() == 0 {
        file
    } else {
        joined(folder, file)
    }
}

/// A daily note is a markdown file: its path ends with the formatted date and `.md`.
pub proof fn lemma_daily_note_is_markdown(date_format: Seq<char>, folder: Seq<char>, date: (int, int, int))
    ensures
        ({
            let p = daily_note_rel_path(date_format, folder, date);
            let file = obsidian_date(date_format, date) + ".md"@;
            p.len() >= file.len() && p.skip(p.len() - file.len()) == file
        }),
{
    let file = obsidian_date(date_format, date) + ".md"@;
    let p = daily_note_rel_path(date_format, folder, date);
    if folder.len() == 0 || (file.len() > 0 && file[0] == '/') {
        assert(p.skip(p.len() - file.len()) =~= file);
    } else if folder.last() == '/' {
        assert((folder + file).skip(folder.len() as int) =~= file);
    } else {
        assert((folder + seq!['/'] + file).skip((folder.len() + 1) as int) =~= file);
    }
}

/// The daily note sits in the daily-notes folder whatever the date pattern:
/// with no folder the path is the formatted name plus `.md`; with a folder it
/// is the folder, a `/` unless the folder already ends with one, then that
/// file name (a file name that starts with `/` stands alone, as `Path::join`
/// has it).
pub proof fn lemma_daily_note_in_folder(date_format: Seq<char>, folder: Seq<char>, date: (int, int, int))
    ensures
        ({
            let p = daily_note_rel_path(date_format, folder, date);
            let name = obsidian_date(date_format, date);
            let file = name + seq!['.', 'm', 'd'];
            &&& folder.len() == 0 ==> p == file
            &&& (folder.len() > 0 && folder.last() != '/' && !(name.len() > 0 && name[0] == '/'))
                ==> p == folder + seq!['/'] + file
            &&& (folder.len() > 0 && folder.last() == '/' && !(name.len() > 0 && name[0] == '/'))
                ==> p == folder + file
            &&& (folder.len() > 0 && p != file) ==> p.take(folder.len() as int) == folder
        }),
{
    reveal_strlit(".md");
    let name = obsidian_date(date_format, date);
    let file = name + seq!['.', 'm', 'd'];
    assert(".md"@ =~= seq!['.', 'm', 'd']);
    assert(obsidian_date(date_format, date) + ".md"@ =~= file);
    if name.len() == 0 {
        assert(file[0] == '.');
    } else {
        assert(file[0] == name[0]);
    }
    let p = daily_note_rel_path(date_format, folder, date);
    if folder.len() > 0 && p != file {
        if folder.last() == '/' {
            assert((folder + file).take(folder.len() as int) =~= folder);
        } else {
            assert((folder + seq!['/'] + file).take(folder.len() as int) =~= folder);
        }
    }
}

/// The path, relative to the vault, of the daily note for `date`.
pub fn daily_note_path(settings: &VaultSettings, date: CalendarDate) -> (r: String)
    ensures
        r@ == daily_note_rel_path(settings.date_format@, settings.folder@, date@),
{
    let stem = format_obsidian_date(settings.date_format.as_str(), date);
    let mut file = str_chars(stem.as_str());
    push_str(&mut file, ".md");
    let file = string_from_chars(file.as_slice());
    if settings.folder.as_str().is_empty() {
        file
    } else {
        join_path(settings.folder.as_str(), file.as_str())
    }
}

/// The heading a new daily note starts with when no template applies.
pub open spec fn default_note(stem: Seq<char>) -> Seq<char> {
    "# "@ + stem + "\n"@
}

/// The content of a new daily note named `stem` created at `time`: the
/// template filled in when the template file was found (`template` holds
/// its text), else a `# {stem}` heading line.
pub fn initial_note_content(template: Option<&str>, stem: &str, time: &str) -> (r: String)
    ensures
        template is None ==> r@ == default_note(stem@),
        template matches Some(raw) ==> exists|d: (int, int, int)| {
            &&& is_valid_date(d.0, d.1, d.2)
            &&& r@ == template_applied(raw@, stem@, time@, d)
            &&& (chrono_parsed_date(stem@, title_date_pattern()) matches Some(p) ==> d == p)
        },
{
    match template {
        Some(raw) => apply_template(raw, stem, time),
        None => {
            let mut out: Vec<char> = Vec::new();
            push_str(&mut out, "# ");
            push_str(&mut out, stem);
            push_str(&mut out, "\n");
            string_from_chars(out.as_slice())
        },
    }
}

} // verus!
