//! OCR language packs: the lists, their order in the settings and the
//! rules on how many can be enabled.
use vstd::prelude::*;
use crate::path::{join_path, joined};
use crate::text::{push_str, str_chars, string_from_chars};

verus! {

/// Where a language pack stands.
#[derive(Debug, Clone, Copy, PartialEq, Eq, Structural)]
pub enum LanguageStatus {
    /// English, shipped with the application.
    Bundled,
    /// Downloaded into the tessdata folder.
    Installed,
    /// Not present.
    NotDownloaded,
}

/// One row of the language list in the settings.
#[derive(Debug, PartialEq, Eq)]
pub struct LanguageEntry {
    pub code: String,
    pub name: String,
    pub status: LanguageStatus,
    pub enabled: bool,
}

/// One language of the catalog shipped with the application.
#[derive(Debug, PartialEq, Eq)]
pub struct ManifestEntry {
    pub code: String,
    pub name: String,
}

/// The language string handed to Tesseract: the codes joined by `+`.
pub open spec fn lang_string(codes: Seq<String>) -> Seq<char>
    decreases codes.len(),
{
    if codes.len() == 0 {
        seq![]
    } else if codes.len() == 1 {
        codes[0]@
    } else {
        lang_string(codes.drop_last()) + "+"@ + codes.last()@
    }
}

/// The Tesseract language string for the enabled codes, such as `eng+vie`.
pub fn build_lang_string(codes: &[String]) -> (r: String)
    ensures
        r@ == lang_string(codes@),
{
    let mut out: Vec<char> = Vec::new();
    let mut i: usize = 0;
    while i < codes.len()
        invariant
            0 <= i <= codes@.len(),
            out@ == lang_string(codes@.take(i as int)),
        decreases codes@.len() - i,
    {
        let ghost taken = codes@.take(i as int + 1);
        assert(taken.drop_last() =~= codes@.take(i as int));
        if i > 0 {
            push_str(&mut out, "+");
        }
        push_str(&mut out, codes[i].as_str());
        i = i + 1;
        proof {
            if i == 1 {
                assert(out@ =~= lang_string(taken));
            } else {
                assert(out@ =~= lang_string(taken));
            }
        }
    }
    assert(codes@.take(codes@.len() as int) =~= codes@);
    string_from_chars(out.as_slice())
}

/// The most languages that can be enabled at once.
pub const MAX_OCR_LANGUAGES: usize = 2;

/// Message when more languages are enabled than allowed.
pub open spec fn too_many_languages_message() -> Seq<char> {
    "Select at most two languages."@
}

/// Accepts at most two enabled languages.
pub fn validate_ocr_languages(codes: &[String]) -> (r: Result<(), String>)
    ensures
        r is Ok <==> codes@.len() <= 2,
        r matches Err(e) ==> e@ == too_many_languages_message(),
{
    if codes.len() > MAX_OCR_LANGUAGES {
        return Err("Select at most two languages.".to_owned());
    }
    Ok(())
}

/// The file of a language pack: `{code}.traineddata` in the tessdata folder.
pub open spec fn traineddata_file(tessdata_dir: Seq<char>, code: Seq<char>) -> Seq<char> {
    joined(tessdata_dir, code + ".traineddata"@)
}

/// The file of the language pack `code` in `tessdata_dir`.
pub fn traineddata_path(tessdata_dir: &str, code: &str) -> (r: String)
    ensures
        r@ == traineddata_file(tessdata_dir@, code@),
{
    let mut f: Vec<char> = str_chars(code);
    push_str(&mut f, ".traineddata");
    let f = string_from_chars(f.as_slice());
    join_path(tessdata_dir, f.as_str())
}

fn str_equal(a: &str, b: &str) -> (r: bool)
    ensures
        r == (a@ == b@),
{
    a.to_owned() == b.to_owned()
}

/// The status of a language: English is bundled; others are installed when
/// their pack file is present.
pub open spec fn status_of(code: Seq<char>, installed: bool) -> LanguageStatus {
    if code == "eng"@ {
        LanguageStatus::Bundled
    } else if installed {
        LanguageStatus::Installed
    } else {
        LanguageStatus::NotDownloaded
    }
}

/// The status of language `code`, given whether its pack file is present.
pub fn language_status(code: &str, installed: bool) -> (r: LanguageStatus)
    ensures
        r == status_of(code@, installed),
{
    if str_equal(code, "eng") {
        LanguageStatus::Bundled
    } else if installed {
        LanguageStatus::Installed
    } else {
        LanguageStatus::NotDownloaded
    }
}

/// `s` in lower case, as `str::to_lowercase` gives it (Unicode lower-case mapping).
pub uninterp spec fn lowercase(s: Seq<char>) -> Seq<char>;

/// std's `str::to_lowercase`; the result is named by `lowercase`.
#[verifier::external_body]
pub(crate) fn to_lowercase(s: &str) -> (r: String)
    ensures
        r@ == lowercase(s@),
{
    s.to_lowercase()
}

/// The rank of a status in the list: bundled, then installed, then the rest.
pub open spec fn status_rank(status: LanguageStatus) -> int {
    match status {
        LanguageStatus::Bundled => 0,
        LanguageStatus::Installed => 1,
        LanguageStatus::NotDownloaded => 2,
    }
}

/// The sort key of a list row: its status rank and its lower-cased name.
pub fn language_sort_key(status: &LanguageStatus, name: &str) -> (r: (u8, String))
    ensures
        r.0 == status_rank(*status),
        r.1@ == lowercase(name@),
{
    let rank: u8 = match status {
        LanguageStatus::Bundled => 0,
        LanguageStatus::Installed => 1,
        LanguageStatus::NotDownloaded => 2,
    };
    (rank, to_lowercase(name))
}

/// Lexicographic order of character sequences by code point, the order of `String`.
pub open spec fn seq_lt(a: Seq<char>, b: Seq<char>) -> bool
    decreases a.len(),
{
    if a.len() == 0 {
        b.len() > 0
    } else if b.len() == 0 {
        false
    } else if a[0] != b[0] {
        a[0] < b[0]
    } else {
        seq_lt(a.drop_first(), b.drop_first())
    }
}

/// The order of sort keys: by rank, then by name.
pub open spec fn key_lt(x: (int, Seq<char>), y: (int, Seq<char>)) -> bool {
    x.0 < y.0 || (x.0 == y.0 && seq_lt(x.1, y.1))
}

/// Row `a` comes before row `b` in a stable sort by `keys`: a smaller key,
/// or an equal key and an earlier place in the catalog.
pub open spec fn precedes(keys: Seq<(int, Seq<char>)>, a: int, b: int) -> bool {
    key_lt(keys[a], keys[b]) || (keys[a] == keys[b] && a < b)
}

/// `order` lists the indices of `keys` as a stable sort by key puts them.
pub open spec fn is_stable_order(keys: Seq<(int, Seq<char>)>, order: Seq<int>) -> bool {
    &&& order.len() == keys.len()
    &&& forall|k: int| 0 <= k < order.len() ==> 0 <= #[trigger] order[k] < keys.len()
    &&& forall|a: int, b: int| 0 <= a < b < order.len() ==> precedes(keys, #[trigger] order[a], #[trigger] order[b])
}

/// `seq_lt` is irreflexive.
pub proof fn lemma_seq_lt_irreflexive(a: Seq<char>)
    ensures
        !seq_lt(a, a),
    decreases a.len(),
{
    if a.len() > 0 {
        lemma_seq_lt_irreflexive(a.drop_first());
    }
}

/// `seq_lt` is transitive.
pub proof fn lemma_seq_lt_transitive(a: Seq<char>, b: Seq<char>, c: Seq<char>)
    requires
        seq_lt(a, b),
        seq_lt(b, c),
    ensures
        seq_lt(a, c),
    decreases a.len(),
{
    if a.len() > 0 && b.len() > 0 && c.len() > 0 && a[0] == b[0] && b[0] == c[0] {
        lemma_seq_lt_transitive(a.drop_first(), b.drop_first(), c.drop_first());
    }
}

/// `seq_lt` is total on distinct sequences.
pub proof fn lemma_seq_lt_total(a: Seq<char>, b: Seq<char>)
    ensures
        a == b || seq_lt(a, b) || seq_lt(b, a),
    decreases a.len(),
{
    if a.len() > 0 && b.len() > 0 && a[0] == b[0] {
        lemma_seq_lt_total(a.drop_first(), b.drop_first());
        if a.drop_first() == b.drop_first() {
            assert(a =~= seq![a[0]] + a.drop_first());
            assert(b =~= seq![b[0]] + b.drop_first());
        }
    } else if a.len() == 0 && b.len() == 0 {
        assert(a =~= b);
    }
}

proof fn lemma_precedes_transitive(keys: Seq<(int, Seq<char>)>, a: int, b: int, c: int)
    requires
        precedes(keys, a, b),
        precedes(keys, b, c),
    ensures
        precedes(keys, a, c),
{
    if key_lt(keys[a], keys[b]) && key_lt(keys[b], keys[c]) {
        if keys[a].0 == keys[b].0 && keys[b].0 == keys[c].0 {
            lemma_seq_lt_transitive(keys[a].1, keys[b].1, keys[c].1);
        }
    }
}

proof fn lemma_precedes_total(keys: Seq<(int, Seq<char>)>, a: int, b: int)
    requires
        a != b,
    ensures
        precedes(keys, a, b) || precedes(keys, b, a),
{
    lemma_seq_lt_total(keys[a].1, keys[b].1);
    if keys[a].0 == keys[b].0 && keys[a].1 == keys[b].1 {
        assert(keys[a] == keys[b]);
    }
}

proof fn lemma_precedes_irreflexive(keys: Seq<(int, Seq<char>)>, a: int)
    ensures
        !precedes(keys, a, a),
{
    lemma_seq_lt_irreflexive(keys[a].1);
}

proof fn lemma_order_covers(keys: Seq<(int, Seq<char>)>, order: Seq<int>, x: int)
    requires
        is_stable_order(keys, order),
        0 <= x < keys.len(),
    ensures
        exists|p: int| 0 <= p < order.len() && order[p] == x,
{
    assert(order.no_duplicates()) by {
        assert forall|a: int, b: int| 0 <= a < order.len() && 0 <= b < order.len() && a != b implies order[a] != order[b] by {
            if a < b {
                assert(precedes(keys, order[a], order[b]));
                if order[a] == order[b] {
                    lemma_precedes_irreflexive(keys, order[a]);
                }
            } else {
                assert(precedes(keys, order[b], order[a]));
                if order[a] == order[b] {
                    lemma_precedes_irreflexive(keys, order[a]);
                }
            }
        }
    }
    order.unique_seq_to_set();
    vstd::seq_lib::seq_to_set_is_finite(order);
    vstd::set_lib::lemma_int_range(0, keys.len() as int);
    let range = vstd::set_lib::set_int_range(0, keys.len() as int);
    assert(order.to_set().subset_of(range)) by {
        assert forall|v: int| order.to_set().contains(v) implies range.contains(v) by {
            let p = choose|p: int| 0 <= p < order.len() && order[p] == v;
        }
    }
    vstd::set_lib::lemma_subset_equality(order.to_set(), range);
    assert(range.contains(x));
    assert(order.to_set().contains(x));
}

/// In a stable order the status groups follow each other: bundled rows,
/// then installed rows, then the rest.
pub proof fn lemma_status_groups_in_order(keys: Seq<(int, Seq<char>)>, order: Seq<int>, a: int, b: int)
    requires
        is_stable_order(keys, order),
        0 <= a < b < order.len(),
    ensures
        keys[order[a]].0 <= keys[order[b]].0,
{
    assert(precedes(keys, order[a], order[b]));
}

/// A stable order by key is unique: the language list's order is fully
/// determined by the rows' keys and catalog places.
pub proof fn lemma_stable_order_unique(keys: Seq<(int, Seq<char>)>, o1: Seq<int>, o2: Seq<int>)
    requires
        is_stable_order(keys, o1),
        is_stable_order(keys, o2),
    ensures
        o1 == o2,
{
    assert forall|k: int| 0 <= k < o1.len() implies o1[k] == o2[k] by {
        lemma_stable_order_prefix(keys, o1, o2, k);
    }
    assert(o1 =~= o2);
}

proof fn lemma_stable_order_prefix(keys: Seq<(int, Seq<char>)>, o1: Seq<int>, o2: Seq<int>, k: int)
    requires
        is_stable_order(keys, o1),
        is_stable_order(keys, o2),
        0 <= k < o1.len(),
    ensures
        o1[k] == o2[k],
    decreases k,
{
    assert forall|j: int| 0 <= j < k implies o1[j] == o2[j] by {
        lemma_stable_order_prefix(keys, o1, o2, j);
    }
    let a = o1[k];
    let b = o2[k];
    if a != b {
        lemma_precedes_total(keys, a, b);
        lemma_order_covers(keys, o2, a);
        lemma_order_covers(keys, o1, b);
        let p = choose|p: int| 0 <= p < o2.len() && o2[p] == a;
        let q = choose|q: int| 0 <= q < o1.len() && o1[q] == b;
        if p < k {
            assert(o1[p] == o2[p]);
            assert(precedes(keys, o1[p], o1[k]));
            lemma_precedes_irreflexive(keys, a);
        }
        if q < k {
            assert(o2[q] == o1[q]);
            assert(precedes(keys, o2[q], o2[k]));
            lemma_precedes_irreflexive(keys, b);
        }
        assert(p > k && q > k);
        assert(precedes(keys, o2[k], o2[p]));
        assert(precedes(keys, o1[k], o1[q]));
        lemma_precedes_transitive(keys, a, b, a);
        lemma_precedes_irreflexive(keys, a);
    }
}

/// Whether `a` comes before `b` in code-point order.
pub fn chars_less(a: &Vec<char>, b: &Vec<char>) -> (r: bool)
    ensures
        r == seq_lt(a@, b@),
{
    let mut i: usize = 0;
    assert(a@.skip(0) =~= a@);
    assert(b@.skip(0) =~= b@);
    while i < a.len() && i < b.len() && a[i] == b[i]
        invariant
            0 <= i <= a@.len(),
            i <= b@.len(),
            seq_lt(a@, b@) == seq_lt(a@.skip(i as int), b@.skip(i as int)),
        decreases a@.len() - i,
    {
        assert(a@.skip(i as int).drop_first() =~= a@.skip(i + 1));
        assert(b@.skip(i as int).drop_first() =~= b@.skip(i + 1));
        i = i + 1;
    }
    if i == a.len() {
        i < b.len()
    } else if i == b.len() {
        false
    } else {
        assert(a@.skip(i as int)[0] == a@[i as int]);
        assert(b@.skip(i as int)[0] == b@[i as int]);
        a[i] < b[i]
    }
}

fn key_less(ranks: &Vec<u8>, names: &Vec<Vec<char>>, x: usize, y: usize) -> (r: bool)
    requires
        x < ranks@.len(),
        y < ranks@.len(),
        ranks@.len() == names@.len(),
    ensures
        r == key_lt((ranks@[x as int] as int, names@[x as int]@), (ranks@[y as int] as int, names@[y as int]@)),
{
    ranks[x] < ranks[y] || (ranks[x] == ranks[y] && chars_less(&names[x], &names[y]))
}

/// The stable order of indices `0..n` by the keys given as ranks and names.
fn stable_order(ranks: &Vec<u8>, names: &Vec<Vec<char>>) -> (order: Vec<usize>)
    requires
        ranks@.len() == names@.len(),
    ensures
        is_stable_order(
            Seq::new(ranks@.len(), |i: int| (ranks@[i] as int, names@[i]@)),
            order@.map_values(|k: usize| k as int),
        ),
{
    let n = ranks.len();
    let ghost keys = Seq::new(ranks@.len(), |i: int| (ranks@[i] as int, names@[i]@));
    let mut order: Vec<usize> = Vec::new();
    let mut i: usize = 0;
    while i < n
        invariant
            n == ranks@.len(),
            n == names@.len(),
            keys == Seq::new(ranks@.len(), |i: int| (ranks@[i] as int, names@[i]@)),
            0 <= i <= n,
            order@.len() == i,
            forall|k: int| 0 <= k < i ==> 0 <= #[trigger] order@[k] < i,
            forall|a: int, b: int| 0 <= a < b < i ==> precedes(keys, #[trigger] order@[a] as int, #[trigger] order@[b] as int),
        decreases n - i,
    {
        let mut j: usize = i;
        while j > 0 && key_less(ranks, names, i, order[j - 1])
            invariant
                n == ranks@.len(),
                n == names@.len(),
                keys == Seq::new(ranks@.len(), |i: int| (ranks@[i] as int, names@[i]@)),
                i < n,
                0 <= j <= i,
                order@.len() == i,
                forall|k: int| 0 <= k < i ==> 0 <= #[trigger] order@[k] < i,
                forall|q: int| j <= q < i ==> key_lt(keys[i as int], keys[#[trigger] order@[q] as int]),
            decreases j,
        {
            j = j - 1;
        }
        let ghost old_order = order@;
        order.insert(j, i);
        proof {
            assert forall|k: int| 0 <= k < i + 1 implies 0 <= #[trigger] order@[k] < i + 1 by {
                if k < j {
                    assert(order@[k] == old_order[k]);
                } else if k > j {
                    assert(order@[k] == old_order[k - 1]);
                }
            }
            assert forall|a: int, b: int| 0 <= a < b < i + 1 implies precedes(keys, #[trigger] order@[a] as int, #[trigger] order@[b] as int) by {
                let oa = order@[a] as int;
                let ob = order@[b] as int;
                if a < j && b < j {
                    assert(oa == old_order[a] && ob == old_order[b]);
                } else if a > j && b > j {
                    assert(oa == old_order[a - 1] && ob == old_order[b - 1]);
                } else if a < j && b > j {
                    assert(oa == old_order[a] && ob == old_order[b - 1]);
                } else if a == j {
                    assert(oa == i);
                    assert(ob == old_order[b - 1]);
                    assert(key_lt(keys[i as int], keys[ob]));
                } else {
                    assert(b == j && a < j);
                    assert(ob == i);
                    assert(oa == old_order[a]);
                    let prev = old_order[j - 1] as int;
                    assert(!key_lt(keys[i as int], keys[prev]));
                    assert(prev < i);
                    lemma_precedes_total(keys, i as int, prev);
                    if key_lt(keys[i as int], keys[prev]) {
                    } else if keys[i as int] == keys[prev] {
                    } else {
                        assert(!precedes(keys, i as int, prev));
                    }
                    assert(precedes(keys, prev, i as int));
                    if a < j - 1 {
                        assert(precedes(keys, oa, prev));
                        lemma_precedes_transitive(keys, oa, prev, i as int);
                    }
                }
            }
        }
        i = i + 1;
    }
    proof {
        let ov = order@.map_values(|k: usize| k as int);
        assert forall|k: int| 0 <= k < ov.len() implies 0 <= #[trigger] ov[k] < keys.len() by {
            assert(ov[k] == order@[k] as int);
        }
        assert forall|a: int, b: int| 0 <= a < b < ov.len() implies precedes(keys, #[trigger] ov[a], #[trigger] ov[b]) by {
            assert(ov[a] == order@[a] as int);
            assert(ov[b] == order@[b] as int);
        }
    }
    order
}

/// Whether `code` is among the enabled codes.
pub open spec fn is_enabled(enabled: Seq<String>, code: Seq<char>) -> bool {
    exists|j: int| 0 <= j < enabled.len() && (#[trigger] enabled[j])@ == code
}

fn contains_code(enabled: &[String], code: &String) -> (r: bool)
    ensures
        r == is_enabled(enabled@, code@),
        r <==> exists|j: int| 0 <= j < enabled@.len() && enabled@[j]@ == code@,
{
    let mut j: usize = 0;
    while j < enabled.len()
        invariant
            0 <= j <= enabled@.len(),
            forall|k: int| 0 <= k < j ==> (#[trigger] enabled@[k])@ != code@,
        decreases enabled@.len() - j,
    {
        if enabled[j] == *code {
            return true;
        }
        j = j + 1;
    }
    false
}

/// The view of a list row.
pub open spec fn entry_view(e: LanguageEntry) -> (Seq<char>, Seq<char>, LanguageStatus, bool) {
    (e.code@, e.name@, e.status, e.enabled)
}

/// The row for a catalog language.
pub open spec fn row_of(m: ManifestEntry, installed: bool, enabled: Seq<String>) -> (Seq<char>, Seq<char>, LanguageStatus, bool) {
    (m.code@, m.name@, status_of(m.code@, installed), is_enabled(enabled, m.code@))
}

/// The sort keys of the catalog rows.
pub open spec fn catalog_keys(manifest: Seq<ManifestEntry>, installed: Seq<bool>) -> Seq<(int, Seq<char>)> {
    Seq::new(manifest.len(), |i: int| (status_rank(status_of(manifest[i].code@, installed[i])), lowercase(manifest[i].name@)))
}

/// The settings' language list: one row per catalog language, with its
/// status (English bundled; others installed or not, by `installed`, which
/// says for each catalog language whether its pack file is present) and
/// whether it is enabled; bundled first, then installed, then the rest, each
/// group by lower-cased name, ties in catalog order.
pub fn list_languages(manifest: &[ManifestEntry], installed: &[bool], enabled: &[String]) -> (r: Vec<LanguageEntry>)
    requires
        installed@.len() == manifest@.len(),
    ensures
        r@.len() == manifest@.len(),
        exists|order: Seq<int>| {
            &&& is_stable_order(catalog_keys(manifest@, installed@), order)
            &&& forall|k: int| 0 <= k < r@.len() ==> #[trigger] entry_view(r@[k]) == row_of(manifest@[order[k]], installed@[order[k]], enabled@)
        },
        forall|k: int| 0 <= k < r@.len() ==> ((#[trigger] r@[k]).enabled
            <==> exists|j: int| 0 <= j < enabled@.len() && enabled@[j]@ == r@[k].code@),
{
    let n = manifest.len();
    let mut ranks: Vec<u8> = Vec::new();
    let mut names: Vec<Vec<char>> = Vec::new();
    let ghost keys = catalog_keys(manifest@, installed@);
    let mut i: usize = 0;
    while i < n
        invariant
            n == manifest@.len(),
            n == installed@.len(),
            keys == catalog_keys(manifest@, installed@),
            0 <= i <= n,
            ranks@.len() == i,
            names@.len() == i,
            forall|k: int| 0 <= k < i ==> (#[trigger] ranks@[k] as int, names@[k]@) == keys[k],
        decreases n - i,
    {
        let status = language_status(manifest[i].code.as_str(), installed[i]);
        let (rank, lname) = language_sort_key(&status, manifest[i].name.as_str());
        ranks.push(rank);
        names.push(str_chars(lname.as_str()));
        i = i + 1;
    }
    let order = stable_order(&ranks, &names);
    proof {
        assert(Seq::new(ranks@.len(), |i: int| (ranks@[i] as int, names@[i]@)) =~= keys);
    }
    let ghost ov = order@.map_values(|k: usize| k as int);
    let mut out: Vec<LanguageEntry> = Vec::new();
    let mut k: usize = 0;
    while k < n
        invariant
            n == manifest@.len(),
            n == installed@.len(),
            order@.len() == n,
            ov == order@.map_values(|k: usize| k as int),
            is_stable_order(keys, ov),
            keys == catalog_keys(manifest@, installed@),
            0 <= k <= n,
            out@.len() == k,
            forall|q: int| 0 <= q < k ==> #[trigger] entry_view(out@[q]) == row_of(manifest@[ov[q]], installed@[ov[q]], enabled@),
            forall|q: int| 0 <= q < k ==> ((#[trigger] out@[q]).enabled
                <==> exists|j: int| 0 <= j < enabled@.len() && enabled@[j]@ == out@[q].code@),
        decreases n - k,
    {
        assert(ov[k as int] == order@[k as int] as int);
        let o = order[k];
        let m = &manifest[o];
        let e = LanguageEntry {
            code: m.code.clone(),
            name: m.name.clone(),
            status: language_status(m.code.as_str(), installed[o]),
            enabled: contains_code(enabled, &m.code),
        };
        out.push(e);
        k = k + 1;
    }
    out
}

/// The enabled languages whose pack is missing, in order.
pub open spec fn missing_languages(enabled: Seq<String>, installed: Seq<bool>) -> Seq<Seq<char>>
    decreases enabled.len(),
{
    if enabled.len() == 0 || installed.len() < enabled.len() {
        seq![]
    } else {
        let rest = missing_languages(enabled.drop_last(), installed.drop_last());
        if installed.last() {
            rest
        } else {
            rest.push(enabled.last()@)
        }
    }
}

/// The enabled codes whose pack file is missing (`installed` says, for each
/// enabled code, whether its pack file is present), in order.
pub fn missing_enabled_languages(enabled: &[String], installed: &[bool]) -> (r: Vec<String>)
    requires
        installed@.len() == enabled@.len(),
    ensures
        r@.map_values(|s: String| s@) == missing_languages(enabled@, installed@),
{
    let n = enabled.len();
    let mut out: Vec<String> = Vec::new();
    let mut i: usize = 0;
    while i < n
        invariant
            n == enabled@.len(),
            n == installed@.len(),
            0 <= i <= n,
            out@.map_values(|s: String| s@) == missing_languages(enabled@.take(i as int), installed@.take(i as int)),
        decreases n - i,
    {
        let ghost e2 = enabled@.take(i as int + 1);
        let ghost i2 = installed@.take(i as int + 1);
        assert(e2.drop_last() =~= enabled@.take(i as int));
        assert(i2.drop_last() =~= installed@.take(i as int));
        if !installed[i] {
            let ghost before = out@;
            out.push(enabled[i].clone());
            assert(out@.map_values(|s: String| s@) =~= before.map_values(|s: String| s@).push(enabled@[i as int]@));
        }
        i = i + 1;
    }
    assert(enabled@.take(n as int) =~= enabled@);
    assert(installed@.take(n as int) =~= installed@);
    out
}

/// Whether a language pack has to be fetched: every one but the bundled English.
pub fn needs_download(code: &str) -> (r: bool)
    ensures
        r == (code@ != "eng"@),
{
    !str_equal(code, "eng")
}

/// Message when removing English is asked for.
pub open spec fn english_removal_message() -> Seq<char> {
    "English cannot be removed."@
}

/// Whether a language pack may be removed: every one but English.
pub fn check_removable(code: &str) -> (r: Result<(), String>)
    ensures
        r is Ok <==> code@ != "eng"@,
        r matches Err(e) ==> e@ == english_removal_message(),
{
    if str_equal(code, "eng") {
        return Err("English cannot be removed.".to_owned());
    }
    Ok(())
}

} // verus!
