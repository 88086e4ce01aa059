//! Which vault a clip goes to: the override from the settings, else the one
//! Obsidian's own `obsidian.json` points at.
use vstd::prelude::*;
use crate::json::{
    get, get_bool, get_i64, get_str, json_as_bool, json_as_i64, json_as_object, json_as_str,
    json_get, json_text_value, member_lookup, parse_json_text, JsonValue, lookup_member,
};
use crate::vault::obsidian::validate_obsidian_vault_path;

verus! {

/// Why no vault could be resolved.
#[derive(Debug, PartialEq, Eq)]
pub enum VaultError {
    /// `obsidian.json` does not exist at the given path.
    NotFound(String),
    /// `obsidian.json` names no usable vault.
    NoLastOpen,
    /// `obsidian.json` is not valid JSON; the parser's message.
    InvalidJson(String),
    /// Reading `obsidian.json` failed; the system's message.
    Io(String),
}

/// What the settings window shows: the vault in use, or why there is none.
#[derive(Debug, PartialEq, Eq)]
pub struct ResolvedVault {
    pub path: Option<String>,
    pub error: Option<String>,
}

/// The text an error is shown with.
pub open spec fn vault_error_message(e: VaultError) -> Seq<char> {
    match e {
        VaultError::NotFound(p) => "obsidian config not found: "@ + p@,
        VaultError::NoLastOpen => "no last_open vault in obsidian.json"@,
        VaultError::InvalidJson(m) => "invalid obsidian.json: "@ + m@,
        VaultError::Io(m) => "io error: "@ + m@,
    }
}

impl VaultError {
    /// The text this error is shown with.
    pub fn message(&self) -> (r: String)
        ensures
            r@ == vault_error_message(*self),
    {
        match self {
            VaultError::NotFound(p) => {
                let mut s = "obsidian config not found: ".to_owned();
                s.append(p.as_str());
                s
            },
            VaultError::NoLastOpen => "no last_open vault in obsidian.json".to_owned(),
            VaultError::InvalidJson(m) => {
                let mut s = "invalid obsidian.json: ".to_owned();
                s.append(m.as_str());
                s
            },
            VaultError::Io(m) => {
                let mut s = "io error: ".to_owned();
                s.append(m.as_str());
                s
            },
        }
    }
}

/// The `path` string of a vault entry.
pub open spec fn entry_path(entry: JsonValue) -> Option<Seq<char>> {
    json_as_str(json_get(entry, "path"@))
}

/// Whether a vault entry is marked `"open": true`.
pub open spec fn entry_is_open(entry: JsonValue) -> bool {
    json_as_bool(json_get(entry, "open"@)) == Some(true)
}

/// The `ts` of a vault entry, 0 when it has none.
pub open spec fn entry_ts(entry: JsonValue) -> i64 {
    match json_as_i64(json_get(entry, "ts"@)) {
        Some(t) => t,
        None => 0,
    }
}

/// The entries marked open, in order.
pub open spec fn open_entries(vaults: Seq<(String, JsonValue)>) -> Seq<(String, JsonValue)>
    decreases vaults.len(),
{
    if vaults.len() == 0 {
        seq![]
    } else {
        let rest = open_entries(vaults.drop_last());
        if entry_is_open(vaults.last().1) {
            rest.push(vaults.last())
        } else {
            rest
        }
    }
}

/// Entry `i` is the most recently used vault with a path: no entry with a
/// path has a larger `ts`, and none after it has the same `ts`.
pub open spec fn is_most_recent(vaults: Seq<(String, JsonValue)>, i: int) -> bool {
    &&& 0 <= i < vaults.len()
    &&& entry_path(vaults[i].1) is Some
    &&& forall|j: int| 0 <= j < vaults.len() && (#[trigger] entry_path(vaults[j].1)) is Some
        ==> entry_ts(vaults[j].1) <= entry_ts(vaults[i].1)
    &&& forall|j: int| i < j < vaults.len() && (#[trigger] entry_path(vaults[j].1)) is Some
        ==> entry_ts(vaults[j].1) < entry_ts(vaults[i].1)
}

/// The path of the most recently used vault, when some vault has a path.
pub open spec fn most_recent_path(vaults: Seq<(String, JsonValue)>) -> Option<Seq<char>> {
    if exists|i: int| is_most_recent(vaults, i) {
        entry_path(vaults[choose|i: int| is_most_recent(vaults, i)].1)
    } else {
        None
    }
}

/// The vault `obsidian.json` names, in this order: the `last_open` vault, the
/// only vault marked open, the only vault listed, the most recently used one.
pub open spec fn selected_vault(root: JsonValue) -> Option<Seq<char>> {
    match json_as_object(json_get(root, "vaults"@)) {
        None => None,
        Some(vaults) => {
            let last = match json_as_str(json_get(root, "last_open"@)) {
                Some(id) => match member_lookup(vaults, id) {
                    Some(e) => entry_path(e),
                    None => None,
                },
                None => None,
            };
            let opens = open_entries(vaults);
            if last is Some {
                last
            } else if opens.len() == 1 && entry_path(opens[0].1) is Some {
                entry_path(opens[0].1)
            } else if vaults.len() == 1 && entry_path(vaults[0].1) is Some {
                entry_path(vaults[0].1)
            } else {
                most_recent_path(vaults)
            }
        },
    }
}

/// At most one entry is the most recent one.
pub proof fn lemma_most_recent_unique(vaults: Seq<(String, JsonValue)>, i: int, k: int)
    requires
        is_most_recent(vaults, i),
        is_most_recent(vaults, k),
    ensures
        i == k,
{
    if i < k {
        assert(entry_path(vaults[k].1) is Some);
        assert(entry_path(vaults[i].1) is Some);
    } else if k < i {
        assert(entry_path(vaults[i].1) is Some);
        assert(entry_path(vaults[k].1) is Some);
    }
}

fn path_of(entry: &JsonValue) -> (r: Option<String>)
    ensures
        entry_path(*entry) == match r {
            Some(s) => Some(s@),
            None => None::<Seq<char>>,
        },
{
    match get_str(entry, "path") {
        Some(s) => Some(s.clone()),
        None => None,
    }
}

fn most_recent(vaults: &Vec<(String, JsonValue)>) -> (r: Option<String>)
    ensures
        most_recent_path(vaults@) == match r {
            Some(s) => Some(s@),
            None => None::<Seq<char>>,
        },
{
    let ghost vs = vaults@;
    let mut best: Option<usize> = None;
    let mut best_ts: i64 = 0;
    let mut i: usize = 0;
    while i < vaults.len()
        invariant
            vs == vaults@,
            0 <= i <= vs.len(),
            best matches Some(b) ==> {
                &&& is_most_recent(vs.take(i as int), b as int)
                &&& best_ts == entry_ts(vs[b as int].1)
            },
            best is None ==> forall|j: int| 0 <= j < i ==> (#[trigger] entry_path(vs[j].1)) is None,
        decreases vs.len() - i,
    {
        let ghost prev = vs.take(i as int);
        let ghost next = vs.take(i as int + 1);
        assert forall|j: int| 0 <= j < i implies next[j] == prev[j] && next[j] == vs[j] by {}
        assert(next[i as int] == vs[i as int]);
        let entry = &vaults[i].1;
        let has_path = get_str(entry, "path").is_some();
        let ts = match get_i64(entry, "ts") {
            Some(t) => t,
            None => 0,
        };
        if has_path {
            let replace = match best {
                None => true,
                Some(_) => ts >= best_ts,
            };
            if replace {
                proof {
                    assert forall|j: int| 0 <= j < next.len() && (#[trigger] entry_path(next[j].1)) is Some
                        implies entry_ts(next[j].1) <= entry_ts(next[i as int].1) by {
                        if j < i {
                            assert(entry_path(prev[j].1) is Some);
                        }
                    }
                }
                best = Some(i);
                best_ts = ts;
            } else {
                proof {
                    let b = best.unwrap() as int;
                    assert forall|j: int| 0 <= j < next.len() && (#[trigger] entry_path(next[j].1)) is Some
                        implies entry_ts(next[j].1) <= entry_ts(next[b].1) by {
                        if j < i {
                            assert(entry_path(prev[j].1) is Some);
                        }
                    }
                    assert forall|j: int| b < j < next.len() && (#[trigger] entry_path(next[j].1)) is Some
                        implies entry_ts(next[j].1) < entry_ts(next[b].1) by {
                        if j < i {
                            assert(entry_path(prev[j].1) is Some);
                        }
                    }
                }
            }
        } else {
            proof {
                if best is Some {
                    let b = best.unwrap() as int;
                    assert forall|j: int| 0 <= j < next.len() && (#[trigger] entry_path(next[j].1)) is Some
                        implies entry_ts(next[j].1) <= entry_ts(next[b].1) by {
                        if j < i {
                            assert(entry_path(prev[j].1) is Some);
                        }
                    }
                    assert forall|j: int| b < j < next.len() && (#[trigger] entry_path(next[j].1)) is Some
                        implies entry_ts(next[j].1) < entry_ts(next[b].1) by {
                        if j < i {
                            assert(entry_path(prev[j].1) is Some);
                        }
                    }
                }
            }
        }
        i = i + 1;
    }
    assert(vs.take(vs.len() as int) =~= vs);
    match best {
        Some(b) => {
            proof {
                let c = choose|c: int| is_most_recent(vs, c);
                lemma_most_recent_unique(vs, c, b as int);
            }
            path_of(&vaults[b].1)
        },
        None => {
            assert(!exists|c: int| is_most_recent(vs, c)) by {
                if exists|c: int| is_most_recent(vs, c) {
                    let c = choose|c: int| is_most_recent(vs, c);
                    assert(entry_path(vs[c].1) is Some);
                }
            }
            None
        },
    }
}

/// The number of open entries and, when there is exactly one, its path.
fn single_open(vaults: &Vec<(String, JsonValue)>) -> (r: (usize, Option<String>))
    ensures
        r.0 == open_entries(vaults@).len() || (r.0 >= 2 && open_entries(vaults@).len() >= 2),
        r.0 == 1 ==> entry_path(open_entries(vaults@)[0].1) == match r.1 {
            Some(s) => Some(s@),
            None => None::<Seq<char>>,
        },
{
    let ghost vs = vaults@;
    let mut count: usize = 0;
    let mut first: usize = 0;
    let mut i: usize = 0;
    while i < vaults.len()
        invariant
            vs == vaults@,
            0 <= i <= vs.len(),
            count <= 2,
            count == open_entries(vs.take(i as int)).len() || (count == 2 && open_entries(vs.take(i as int)).len() >= 2),
            count >= 1 ==> first < vs.len() && open_entries(vs.take(i as int))[0] == vs[first as int],
        decreases vs.len() - i,
    {
        let ghost prev = vs.take(i as int);
        let ghost next = vs.take(i as int + 1);
        assert(next.drop_last() =~= prev);
        assert(next.last() == vs[i as int]);
        if get_bool(&vaults[i].1, "open") == Some(true) {
            if count == 0 {
                first = i;
            }
            if count < 2 {
                count = count + 1;
            }
        }
        i = i + 1;
    }
    assert(vs.take(vs.len() as int) =~= vs);
    if count == 1 {
        (count, path_of(&vaults[first].1))
    } else {
        (count, None)
    }
}

/// The vault that `obsidian.json`'s parsed content names: the `last_open`
/// vault if it is listed with a path; else the only vault marked open; else
/// the only vault listed; else the one with the largest `ts` (the last such
/// one in the listing); an error when none of these has a path.
pub fn resolve_vault_from_obsidian_json(root: &JsonValue) -> (r: Result<String, VaultError>)
    ensures
        selected_vault(*root) is None <==> r is Err,
        r matches Ok(p) ==> selected_vault(*root) == Some(p@),
        r matches Err(e) ==> e == VaultError::NoLastOpen,
{
    let vaults = match get(root, "vaults") {
        Some(JsonValue::Object(m)) => m,
        _ => {
            return Err(VaultError::NoLastOpen);
        },
    };
    if let Some(last_open) = get_str(root, "last_open") {
        if let Some(entry) = lookup_member(vaults, last_open.as_str()) {
            if let Some(p) = path_of(entry) {
                return Ok(p);
            }
        }
    }
    let (count, open_path) = single_open(vaults);
    if count == 1 {
        if let Some(p) = open_path {
            return Ok(p);
        }
    }
    if vaults.len() == 1 {
        if let Some(p) = path_of(&vaults[0].1) {
            return Ok(p);
        }
    }
    match most_recent(vaults) {
        Some(p) => Ok(p),
        None => Err(VaultError::NoLastOpen),
    }
}


/// The result of a resolution, with the path as text.
pub open spec fn result_view(r: Result<String, VaultError>) -> Result<Seq<char>, VaultError> {
    match r {
        Ok(p) => Ok(p@),
        Err(e) => Err(e),
    }
}

/// The vault that a reading of `obsidian.json` leads to: the vault it names,
/// `NoLastOpen` when it names none, or the error the reading ended in.
pub open spec fn vault_from_reading(reading: Result<JsonValue, VaultError>) -> Result<Seq<char>, VaultError> {
    match reading {
        Ok(root) => match selected_vault(root) {
            Some(p) => Ok(p),
            None => Err(VaultError::NoLastOpen),
        },
        Err(e) => Err(e),
    }
}

/// The vault to use: the override from the settings when it is set and is an
/// Obsidian vault (a folder holding a `.obsidian` folder), else the one that
/// `obsidian.json` leads to.
pub open spec fn chosen_vault(
    override_path: Option<Seq<char>>,
    override_is_dir: bool,
    override_has_obsidian_dir: bool,
    reading: Result<JsonValue, VaultError>,
) -> Result<Seq<char>, VaultError> {
    match override_path {
        Some(p) => if override_is_dir && override_has_obsidian_dir {
            Ok(p)
        } else {
            vault_from_reading(reading)
        },
        None => vault_from_reading(reading),
    }
}

/// A manual vault path that is not an Obsidian vault is skipped: the result
/// is the one without an override.
pub proof fn lemma_invalid_override_is_skipped(
    p: Seq<char>,
    override_is_dir: bool,
    override_has_obsidian_dir: bool,
    reading: Result<JsonValue, VaultError>,
)
    requires
        !(override_is_dir && override_has_obsidian_dir),
    ensures
        chosen_vault(Some(p), override_is_dir, override_has_obsidian_dir, reading)
            == chosen_vault(None, override_is_dir, override_has_obsidian_dir, reading),
{
}

/// `obsidian.json`'s text parsed: the document, or `InvalidJson` with the
/// parser's message when it is not JSON.
pub fn read_obsidian_text(text: &str) -> (r: Result<JsonValue, VaultError>)
    ensures
        match json_text_value(text@) {
            Ok(root) => r == Ok::<JsonValue, VaultError>(root),
            Err(m) => r matches Err(VaultError::InvalidJson(s)) && s@ == m,
        },
{
    match parse_json_text(text) {
        Ok(root) => Ok(root),
        Err(m) => Err(VaultError::InvalidJson(m)),
    }
}

/// The vault that `obsidian.json`'s text names: `InvalidJson` with the
/// parser's message when it is not JSON, else as the parsed document names it.
pub fn vault_from_obsidian_text(text: &str) -> (r: Result<String, VaultError>)
    ensures
        match json_text_value(text@) {
            Ok(root) => result_view(r) == vault_from_reading(Ok(root)),
            Err(m) => r matches Err(VaultError::InvalidJson(s)) && s@ == m,
        },
{
    match read_obsidian_text(text) {
        Ok(root) => resolve_vault_from_obsidian_json(&root),
        Err(e) => Err(e),
    }
}

/// The vault to use: the override when it is set and is an Obsidian vault,
/// else the one named by `obsidian.json`. `override_is_dir` and
/// `override_has_obsidian_dir` say whether the override is a folder and
/// whether it holds `.obsidian`. The reading of `obsidian.json` (needed only
/// when the override is not used) is passed in as `obsidian_json`: its parsed
/// content or why it could not be read.
pub fn resolve_vault(
    override_path: Option<&str>,
    override_is_dir: bool,
    override_has_obsidian_dir: bool,
    obsidian_json: Option<Result<JsonValue, VaultError>>,
) -> (r: Result<String, VaultError>)
    requires
        (override_path is Some && override_is_dir && override_has_obsidian_dir) || obsidian_json is Some,
    ensures
        match obsidian_json {
            Some(reading) => result_view(r) == chosen_vault(
                opt_str_view(override_path), override_is_dir, override_has_obsidian_dir, reading),
            None => override_path matches Some(p) && (r matches Ok(q) && q@ == p@),
        },
{
    if let Some(p) = override_path {
        if validate_obsidian_vault_path(override_is_dir, override_has_obsidian_dir).is_ok() {
            return Ok(p.to_owned());
        }
    }
    match obsidian_json {
        Some(Ok(root)) => resolve_vault_from_obsidian_json(&root),
        Some(Err(e)) => Err(e),
        None => Err(VaultError::NoLastOpen),
    }
}

/// The view of an optional string slice.
pub open spec fn opt_str_view(o: Option<&str>) -> Option<Seq<char>> {
    match o {
        Some(s) => Some(s@),
        None => None,
    }
}

/// The settings window's view of a vault resolution, given whether the
/// resolved folder is a directory and whether it holds `.obsidian`.
pub open spec fn effective_vault(resolved: Result<String, VaultError>, folder_is_dir: bool, obsidian_dir_is_dir: bool) -> (Option<Seq<char>>, Option<Seq<char>>) {
    match resolved {
        Ok(path) => if !folder_is_dir {
            (None, Some("Vault folder not found: "@ + path@))
        } else if !obsidian_dir_is_dir {
            (None, Some(crate::vault::obsidian::not_a_vault_message()))
        } else {
            (Some(path@), None)
        },
        Err(e) => (None, Some(vault_error_message(e))),
    }
}

/// The view of a `ResolvedVault`.
pub open spec fn resolved_view(r: ResolvedVault) -> (Option<Seq<char>>, Option<Seq<char>>) {
    (
        match r.path {
            Some(p) => Some(p@),
            None => None,
        },
        match r.error {
            Some(e) => Some(e@),
            None => None,
        },
    )
}

/// What the settings window shows for a vault resolution: the path when the
/// folder exists and is an Obsidian vault, otherwise the reason.
pub fn resolve_effective_vault(resolved: Result<String, VaultError>, folder_is_dir: bool, obsidian_dir_is_dir: bool) -> (r: ResolvedVault)
    ensures
        resolved_view(r) == effective_vault(resolved, folder_is_dir, obsidian_dir_is_dir),
{
    match resolved {
        Ok(path) => {
            if !folder_is_dir {
                let mut msg = "Vault folder not found: ".to_owned();
                msg.append(path.as_str());
                return ResolvedVault { path: None, error: Some(msg) };
            }
            match validate_obsidian_vault_path(folder_is_dir, obsidian_dir_is_dir) {
                Err(error) => ResolvedVault { path: None, error: Some(error) },
                Ok(()) => ResolvedVault { path: Some(path), error: None },
            }
        },
        Err(error) => ResolvedVault { path: None, error: Some(error.message()) },
    }
}

} // verus!
