//! Obsidian's per-vault settings: daily notes and attachments.
use vstd::prelude::*;
use crate::json::{get_str, json_as_str, json_get, json_text_value, parse_json_text, JsonValue};

verus! {

/// The daily-notes and attachment settings of a vault.
#[derive(Debug, Clone, PartialEq, Eq)]
pub struct VaultSettings {
    /// Date pattern of daily-note names, such as `YYYY-MM-DD`.
    pub date_format: String,
    /// Folder of daily notes relative to the vault; empty for the vault root.
    pub folder: String,
    /// Template note for new daily notes, relative to the vault, without `.md`.
    pub template: Option<String>,
    /// Folder where attachments are saved, relative to the vault.
    pub attachment_folder: String,
}

/// `s` with leading copies of `prefix` removed, as `str::trim_start_matches` does.
pub open spec fn strip_prefixes(s: Seq<char>, prefix: Seq<char>) -> Seq<char>
    decreases s.len(),
{
    if prefix.len() > 0 && prefix.len() <= s.len() && s.take(prefix.len() as int) == prefix {
        strip_prefixes(s.skip(prefix.len() as int), prefix)
    } else {
        s
    }
}

/// An attachment folder as a path relative to the vault: leading `./` and
/// then leading `/` removed.
pub open spec fn normalized_attachment(raw: Seq<char>) -> Seq<char> {
    strip_prefixes(strip_prefixes(raw, seq!['.', '/']), seq!['/'])
}

proof fn lemma_strip_slashes(s: Seq<char>)
    ensures
        strip_prefixes(s, seq!['/']).len() > 0 ==> strip_prefixes(s, seq!['/'])[0] != '/',
    decreases s.len(),
{
    if s.len() >= 1 && s.take(1) == seq!['/'] {
        lemma_strip_slashes(s.skip(1));
    } else if s.len() >= 1 {
        assert(s.take(1) =~= seq![s[0]]);
    }
}

/// An attachment folder is always relative: it never starts with `/`.
pub proof fn lemma_attachment_folder_relative(raw: Seq<char>)
    ensures
        normalized_attachment(raw).len() > 0 ==> normalized_attachment(raw)[0] != '/',
{
    lemma_strip_slashes(strip_prefixes(raw, seq!['.', '/']));
}

/// The string text of an optional JSON value, or `default`.
pub open spec fn str_or(v: Option<Seq<char>>, default: Seq<char>) -> Seq<char> {
    match v {
        Some(s) => s,
        None => default,
    }
}

/// The settings read from the parsed `daily-notes.json` and, when the vault
/// has one, the parsed `app.json`: `format` (default `YYYY-MM-DD`), `folder`
/// (default empty), `template` (absent by default), and the normalized
/// `attachmentFolderPath` (default `attachments`).
pub open spec fn settings_from_config(daily: JsonValue, app: Option<JsonValue>) -> (Seq<char>, Seq<char>, Option<Seq<char>>, Seq<char>) {
    (
        str_or(json_as_str(json_get(daily, "format"@)), "YYYY-MM-DD"@),
        str_or(json_as_str(json_get(daily, "folder"@)), seq![]),
        json_as_str(json_get(daily, "template"@)),
        match app {
            Some(a) => normalized_attachment(str_or(json_as_str(json_get(a, "attachmentFolderPath"@)), "attachments"@)),
            None => "attachments"@,
        },
    )
}

/// The view of settings.
pub open spec fn settings_view(s: VaultSettings) -> (Seq<char>, Seq<char>, Option<Seq<char>>, Seq<char>) {
    (
        s.date_format@,
        s.folder@,
        match s.template {
            Some(t) => Some(t@),
            None => None,
        },
        s.attachment_folder@,
    )
}

fn count_prefixes(s: &Vec<char>, prefix: &Vec<char>, from: usize) -> (k: usize)
    requires
        from <= s@.len(),
        prefix@.len() > 0,
    ensures
        from <= k <= s@.len(),
        strip_prefixes(s@.skip(from as int), prefix@) == s@.skip(k as int),
{
    let n = s.len();
    let p = prefix.len();
    let mut k = from;
    assert(s@.skip(from as int) =~= s@.skip(k as int));
    loop
        invariant_except_break
            n == s@.len(),
            p == prefix@.len(),
            p > 0,
            from <= k <= n,
            strip_prefixes(s@.skip(from as int), prefix@) == strip_prefixes(s@.skip(k as int), prefix@),
        ensures
            from <= k <= n,
            strip_prefixes(s@.skip(from as int), prefix@) == s@.skip(k as int),
        decreases n - k,
    {
        let ghost t = s@.skip(k as int);
        if p <= n - k {
            let mut j: usize = 0;
            let mut all = true;
            while j < p
                invariant
                    n == s@.len(),
                    p == prefix@.len(),
                    k + p <= n,
                    0 <= j <= p,
                    all == (forall|i: int| 0 <= i < j ==> s@[k + i] == prefix@[i]),
                decreases p - j,
            {
                if s[k + j] != prefix[j] {
                    all = false;
                }
                j = j + 1;
            }
            if all {
                assert(t.take(p as int) =~= prefix@);
                assert(t.skip(p as int) =~= s@.skip((k + p) as int));
                k = k + p;
            } else {
                assert(t.take(p as int) != prefix@) by {
                    let i = choose|i: int| 0 <= i < p && s@[k + i] != prefix@[i];
                    assert(t.take(p as int)[i] == s@[k + i]);
                }
                break;
            }
        } else {
            break;
        }
    }
    k
}

/// An attachment folder from `app.json` as a path relative to the vault:
/// leading `./` and then leading `/` removed.
pub fn normalize_attachment_path(raw: &str) -> (r: String)
    ensures
        r@ == normalized_attachment(raw@),
{
    let s = crate::text::str_chars(raw);
    let mut dot_slash: Vec<char> = Vec::new();
    dot_slash.push('.');
    dot_slash.push('/');
    let mut slash: Vec<char> = Vec::new();
    slash.push('/');
    assert(s@.skip(0) =~= s@);
    assert(dot_slash@ =~= seq!['.', '/']);
    assert(slash@ =~= seq!['/']);
    let k1 = count_prefixes(&s, &dot_slash, 0);
    let k2 = count_prefixes(&s, &slash, k1);
    let rest = crate::text::chars_range(&s, k2, s.len());
    assert(rest@ =~= s@.skip(k2 as int));
    crate::text::string_from_chars(rest.as_slice())
}

impl VaultSettings {
    /// The settings of a vault, from its parsed `.obsidian/daily-notes.json`
    /// and, when the vault has one, its parsed `.obsidian/app.json`.
    pub fn from_config(daily: &JsonValue, app: Option<&JsonValue>) -> (r: VaultSettings)
        ensures
            settings_view(r) == settings_from_config(*daily, match app {
                Some(a) => Some(*a),
                None => None,
            }),
    {
        let date_format = match get_str(daily, "format") {
            Some(s) => s.clone(),
            None => "YYYY-MM-DD".to_owned(),
        };
        let folder = match get_str(daily, "folder") {
            Some(s) => s.clone(),
            None => "".to_owned(),
        };
        proof {
            reveal_strlit("");
        }
        let template = match get_str(daily, "template") {
            Some(s) => Some(s.clone()),
            None => None,
        };
        let attachment_folder = match app {
            Some(a) => match get_str(a, "attachmentFolderPath") {
                Some(s) => normalize_attachment_path(s.as_str()),
                None => normalize_attachment_path("attachments"),
            },
            None => "attachments".to_owned(),
        };
        VaultSettings { date_format, folder, template, attachment_folder }
    }
}

impl VaultSettings {
    /// The settings of a vault from the text of its `.obsidian/daily-notes.json`
    /// and, when the vault has one, of its `.obsidian/app.json`: the parser's
    /// message when `daily-notes.json` is not JSON, else when `app.json` is not.
    pub fn from_config_text(daily: &str, app: Option<&str>) -> (r: Result<VaultSettings, String>)
        ensures
            match json_text_value(daily@) {
                Err(m) => r matches Err(e) && e@ == m,
                Ok(d) => match app {
                    None => r matches Ok(s) && settings_view(s) == settings_from_config(d, None),
                    Some(a) => match json_text_value(a@) {
                        Err(m) => r matches Err(e) && e@ == m,
                        Ok(av) => r matches Ok(s) && settings_view(s) == settings_from_config(d, Some(av)),
                    },
                },
            },
    {
        let d = match parse_json_text(daily) {
            Ok(d) => d,
            Err(m) => {
                return Err(m);
            },
        };
        match app {
            None => Ok(VaultSettings::from_config(&d, None)),
            Some(a) => match parse_json_text(a) {
                Ok(av) => Ok(VaultSettings::from_config(&d, Some(&av))),
                Err(m) => Err(m),
            },
        }
    }
}

/// Message when the chosen vault folder does not exist.
pub open spec fn vault_folder_missing_message() -> Seq<char> {
    "Vault folder not found."@
}

/// Message when the chosen folder has no `.obsidian` directory.
pub open spec fn not_a_vault_message() -> Seq<char> {
    "This folder is not an Obsidian vault. Choose a folder that contains a .obsidian directory."@
}

/// Whether a folder can serve as the vault, given whether it is a directory
/// and whether it holds a `.obsidian` directory.
pub fn validate_obsidian_vault_path(folder_is_dir: bool, obsidian_dir_is_dir: bool) -> (r: Result<(), String>)
    ensures
        !folder_is_dir ==> (r matches Err(e) && e@ == vault_folder_missing_message()),
        folder_is_dir && !obsidian_dir_is_dir ==> (r matches Err(e) && e@ == not_a_vault_message()),
        folder_is_dir && obsidian_dir_is_dir ==> r is Ok,
{
    if !folder_is_dir {
        return Err("Vault folder not found.".to_owned());
    }
    if !obsidian_dir_is_dir {
        return Err(
            "This folder is not an Obsidian vault. Choose a folder that contains a .obsidian directory.".to_owned(),
        );
    }
    Ok(())
}

} // verus!
