//! Where Obsidian's and this application's files live.
use vstd::prelude::*;
use crate::path::{join_path, joined};

verus! {

/// The user's configuration folder as `dirs::config_dir` gives it
/// (`~/Library/Application Support` on macOS, the roaming AppData folder on
/// Windows, `$XDG_CONFIG_HOME` or `~/.config` elsewhere), `None` when it
/// cannot be found or is not valid Unicode. Which folder it is depends on the
/// machine and is not stated.
#[verifier::external_body]
fn config_root() -> (r: Option<String>) {
    match dirs::config_dir() {
        Some(p) => p.into_os_string().into_string().ok(),
        None => None,
    }
}

/// `obsidian/obsidian.json` under a configuration folder.
pub open spec fn obsidian_config_in(root: Seq<char>) -> Seq<char> {
    joined(joined(root, "obsidian"@), "obsidian.json"@)
}

/// `obsclip` under a configuration folder.
pub open spec fn obsclip_dir_in(root: Seq<char>) -> Seq<char> {
    joined(root, "obsclip"@)
}

/// `obsclip/config.json` under a configuration folder.
pub open spec fn obsclip_config_in(root: Seq<char>) -> Seq<char> {
    joined(obsclip_dir_in(root), "config.json"@)
}

/// `obsclip/tessdata` under a configuration folder.
pub open spec fn tessdata_in(root: Seq<char>) -> Seq<char> {
    joined(obsclip_dir_in(root), "tessdata"@)
}

/// Under one configuration folder, this application's files sit in its own
/// folder, which ends in `obsclip`: `config.json` and `tessdata` inside it,
/// the folder itself as the engine's prefix; Obsidian's `obsidian.json` sits
/// in a sibling folder `obsidian`.
pub proof fn lemma_paths_share_one_folder(root: Seq<char>)
    ensures
        obsclip_config_in(root) == joined(obsclip_dir_in(root), "config.json"@),
        tessdata_in(root) == joined(obsclip_dir_in(root), "tessdata"@),
        obsclip_dir_in(root) == joined(root, "obsclip"@),
        obsidian_config_in(root) == joined(joined(root, "obsidian"@), "obsidian.json"@),
        ({
            let dir = obsclip_dir_in(root);
            dir.len() >= 7 && dir.skip(dir.len() - 7) == "obsclip"@
        }),
{
    reveal_strlit("obsclip");
    let dir = obsclip_dir_in(root);
    assert(dir.skip(dir.len() - 7) =~= "obsclip"@);
}

/// Obsidian's global `obsidian.json` under the configuration folder `root`.
pub fn obsidian_config_path_in(root: &str) -> (r: String)
    ensures
        r@ == obsidian_config_in(root@),
{
    let dir = join_path(root, "obsidian");
    join_path(dir.as_str(), "obsidian.json")
}

/// This application's folder under the configuration folder `root`.
pub fn obsclip_config_dir_in(root: &str) -> (r: String)
    ensures
        r@ == obsclip_dir_in(root@),
{
    join_path(root, "obsclip")
}

/// This application's `config.json` under the configuration folder `root`.
pub fn obsclip_config_path_in(root: &str) -> (r: String)
    ensures
        r@ == obsclip_config_in(root@),
{
    let dir = obsclip_config_dir_in(root);
    join_path(dir.as_str(), "config.json")
}

/// The folder of the OCR language packs under the configuration folder `root`.
pub fn tessdata_dir_in(root: &str) -> (r: String)
    ensures
        r@ == tessdata_in(root@),
{
    let dir = obsclip_config_dir_in(root);
    join_path(dir.as_str(), "tessdata")
}

/// Obsidian's global `obsidian.json` under the user's configuration folder;
/// `None` when `dirs::config_dir` knows no such folder, which depends on the
/// machine and is not stated.
pub fn obsidian_config_path() -> (r: Option<String>)
    ensures
        r matches Some(p) ==> exists|root: Seq<char>| p@ == obsidian_config_in(root),
{
    match config_root() {
        Some(root) => Some(obsidian_config_path_in(root.as_str())),
        None => None,
    }
}

/// This application's folder under the user's configuration folder; `None`
/// when `dirs::config_dir` knows no such folder (not stated when).
pub fn obsclip_config_dir() -> (r: Option<String>)
    ensures
        r matches Some(p) ==> exists|root: Seq<char>| p@ == obsclip_dir_in(root),
{
    match config_root() {
        Some(root) => Some(obsclip_config_dir_in(root.as_str())),
        None => None,
    }
}

/// This application's `config.json`; `None` when `dirs::config_dir` knows no
/// configuration folder (not stated when).
pub fn obsclip_config_path() -> (r: Option<String>)
    ensures
        r matches Some(p) ==> exists|root: Seq<char>| p@ == obsclip_config_in(root),
{
    match config_root() {
        Some(root) => Some(obsclip_config_path_in(root.as_str())),
        None => None,
    }
}

/// The folder of the OCR language packs; `None` when `dirs::config_dir` knows
/// no configuration folder (not stated when).
pub fn tessdata_dir() -> (r: Option<String>)
    ensures
        r matches Some(p) ==> exists|root: Seq<char>| p@ == tessdata_in(root),
{
    match config_root() {
        Some(root) => Some(tessdata_dir_in(root.as_str())),
        None => None,
    }
}

/// The folder above the language packs, which the OCR engine is given: this
/// application's folder; `None` when `dirs::config_dir` knows no
/// configuration folder (not stated when).
pub fn tessdata_prefix() -> (r: Option<String>)
    ensures
        r matches Some(p) ==> exists|root: Seq<char>| p@ == obsclip_dir_in(root),
{
    obsclip_config_dir()
}

/// Where the bundled English pack is looked for when none of the places
/// next to the executable has it.
pub open spec fn bundled_eng_fallback() -> Seq<char> {
    "resources/tessdata/eng.traineddata"@
}

/// The first of `candidates` that exists (`present` says which do), else the fallback path.
pub fn pick_bundled_eng(candidates: &[String], present: &[bool]) -> (r: String)
    requires
        present@.len() == candidates@.len(),
    ensures
        (exists|i: int| 0 <= i < present@.len() && present@[i]) ==> exists|i: int| {
            &&& 0 <= i < present@.len()
            &&& present@[i]
            &&& (forall|j: int| 0 <= j < i ==> !present@[j])
            &&& r@ == candidates@[i]@
        },
        (forall|i: int| 0 <= i < present@.len() ==> !present@[i]) ==> r@ == bundled_eng_fallback(),
{
    let mut i: usize = 0;
    while i < candidates.len()
        invariant
            present@.len() == candidates@.len(),
            0 <= i <= candidates@.len(),
            forall|j: int| 0 <= j < i ==> !present@[j],
        decreases candidates@.len() - i,
    {
        if present[i] {
            return candidates[i].clone();
        }
        i = i + 1;
    }
    "resources/tessdata/eng.traineddata".to_owned()
}

} // verus!
