//! Saved settings, named presets and the list of models in a folder.
use crate::order::{
    lemma_sorted_by_key, lemma_sorted_is_fixed, sort_by_key, sorted_by_key, keys_ordered, SortKey,
};
use crate::text::{chars_of, contains_str, has_substring, lowercase, to_lowercase, trim_chars, trim_string};
use vstd::prelude::*;
use vstd::string::*;

verus! {

/// A model file found in the models folder.
#[derive(Debug, Clone)]
pub struct ModelEntry {
    pub path: String,
    pub filename: String,
    pub size_mb: u64,
    pub author: String,
}

/// The settings kept between runs; unset fields keep their defaults.
#[derive(Debug, Clone)]
pub struct SavedConfig {
    pub models_folder: Option<String>,
    pub last_model: Option<String>,
    pub ctx_size: Option<u64>,
    pub gpu_layers: Option<u64>,
    pub threads: Option<usize>,
    pub threads_batch: Option<usize>,
    pub batch_size: Option<u64>,
    pub cache_type_k: Option<String>,
    pub flash_attn: Option<String>,
    pub port: Option<u16>,
    pub mlock: Option<bool>,
    pub auto_launch: Option<bool>,
    pub dark_mode: Option<bool>,
}

/// Whether no saved setting is set.
pub open spec fn saved_is_empty(c: SavedConfig) -> bool {
    &&& c.models_folder is None
    &&& c.last_model is None
    &&& c.ctx_size is None
    &&& c.gpu_layers is None
    &&& c.threads is None
    &&& c.threads_batch is None
    &&& c.batch_size is None
    &&& c.cache_type_k is None
    &&& c.flash_attn is None
    &&& c.port is None
    &&& c.mlock is None
    &&& c.auto_launch is None
    &&& c.dark_mode is None
}

impl Default for SavedConfig {
    fn default() -> (r: Self)
        ensures
            saved_is_empty(r),
    {
        SavedConfig {
            models_folder: None,
            last_model: None,
            ctx_size: None,
            gpu_layers: None,
            threads: None,
            threads_batch: None,
            batch_size: None,
            cache_type_k: None,
            flash_attn: None,
            port: None,
            mlock: None,
            auto_launch: None,
            dark_mode: None,
        }
    }
}

/// A named set of launch settings; unset fields leave a setting as it is.
#[derive(Debug, Clone)]
pub struct NamedPreset {
    pub name: String,
    pub model_path: Option<String>,
    pub ctx_size: Option<u64>,
    pub gpu_layers: Option<u64>,
    pub threads: Option<usize>,
    pub threads_batch: Option<usize>,
    pub batch_size: Option<u64>,
    pub cache_type_k: Option<String>,
    pub flash_attn: Option<String>,
    pub port: Option<u16>,
    pub mlock: Option<bool>,
}

impl SortKey for NamedPreset {
    open spec fn sort_key(&self) -> Seq<char> {
        lowercase(self.name@)
    }

    fn key_chars(&self) -> (k: Vec<char>) {
        let lower = to_lowercase(self.name.as_str());
        chars_of(lower.as_str())
    }
}

impl SortKey for ModelEntry {
    open spec fn sort_key(&self) -> Seq<char> {
        lowercase(self.filename@)
    }

    fn key_chars(&self) -> (k: Vec<char>) {
        let lower = to_lowercase(self.filename.as_str());
        chars_of(lower.as_str())
    }
}

/// Sorts presets by their lowercased names, keeping the order of equal ones.
pub fn sort_presets(presets: &mut Vec<NamedPreset>)
    ensures
        final(presets)@ == sorted_by_key(old(presets)@),
{
    sort_by_key(presets);
}

/// Trims a preset's name; a preset whose name is then empty is dropped.
pub fn normalize_preset(preset: NamedPreset) -> (r: Option<NamedPreset>)
    ensures
        match r {
            Some(p) => {
                &&& trim_chars(preset.name@).len() > 0
                &&& p.name@ == trim_chars(preset.name@)
                &&& p == (NamedPreset { name: p.name, ..preset })
            },
            None => trim_chars(preset.name@).len() == 0,
        },
{
    let mut preset = preset;
    let trimmed = trim_string(preset.name.as_str());
    if trimmed.as_str().is_empty() {
        None
    } else {
        preset.name = trimmed;
        Some(preset)
    }
}

/// Whether `p` is kept by [`normalize_presets`] in the form `q`.
pub open spec fn normalizes_to(p: NamedPreset, q: NamedPreset) -> bool {
    &&& trim_chars(p.name@).len() > 0
    &&& q.name@ == trim_chars(p.name@)
    &&& q == (NamedPreset { name: q.name, ..p })
}

/// The presets that [`normalize_presets`] keeps: those whose trimmed name
/// is not empty, in order.
pub open spec fn kept_count(s: Seq<NamedPreset>) -> nat
    decreases s.len(),
{
    if s.len() == 0 {
        0
    } else {
        kept_count(s.drop_last()) + if trim_chars(s.last().name@).len() > 0 {
            1nat
        } else {
            0nat
        }
    }
}

/// Whether `out` is `s` with the empty-named presets dropped and the other
/// names trimmed, in order.
pub open spec fn normalized_list(s: Seq<NamedPreset>, out: Seq<NamedPreset>) -> bool
    decreases s.len(),
{
    if s.len() == 0 {
        out.len() == 0
    } else if trim_chars(s.last().name@).len() > 0 {
        out.len() > 0 && normalizes_to(s.last(), out.last()) && normalized_list(
            s.drop_last(),
            out.drop_last(),
        )
    } else {
        normalized_list(s.drop_last(), out)
    }
}

/// The error given when a file holds no usable preset.
pub open spec fn no_presets_message() -> Seq<char> {
    "No valid presets found in the selected file."@
}

/// Normalizes the presets read from a preset file, dropping those without
/// a name; fails when none is left.
pub fn normalize_presets(presets: Vec<NamedPreset>) -> (r: Result<Vec<NamedPreset>, String>)
    ensures
        match r {
            Ok(v) => v@.len() > 0 && normalized_list(presets@, v@),
            Err(e) => e@ == no_presets_message() && kept_count(presets@) == 0,
        },
{
    let mut items = presets;
    let ghost orig = items@;
    let total = items.len();
    let mut out: Vec<NamedPreset> = Vec::new();
    let mut done: usize = 0;
    assert(orig.take(0) =~= Seq::<NamedPreset>::empty());
    assert(orig.skip(0) =~= orig);
    while items.len() > 0
        invariant
            items@ == orig.skip(done as int),
            done + items@.len() == orig.len(),
            orig.len() == total,
            normalized_list(orig.take(done as int), out@),
            out@.len() == kept_count(orig.take(done as int)),
        decreases items.len(),
    {
        let p = items.remove(0);
        let ghost taken = orig.take(done + 1);
        assert(taken.drop_last() =~= orig.take(done as int));
        assert(taken.last() == p);
        assert(items@ =~= orig.skip(done + 1));
        let ghost before = out@;
        match normalize_preset(p) {
            Some(q) => {
                out.push(q);
                assert(out@.drop_last() =~= before);
            },
            None => {},
        }
        done = done + 1;
    }
    assert(orig.take(done as int) =~= orig);
    if out.len() == 0 {
        proof {
            reveal_strlit("No valid presets found in the selected file.");
        }
        Err(String::from_str("No valid presets found in the selected file."))
    } else {
        Ok(out)
    }
}

/// The index of the first preset named `name`.
pub open spec fn position_named(s: Seq<NamedPreset>, name: Seq<char>) -> Option<nat>
    decreases s.len(),
{
    if s.len() == 0 {
        None
    } else if s[0].name@ == name {
        Some(0)
    } else {
        match position_named(s.drop_first(), name) {
            Some(i) => Some(i + 1),
            None => None,
        }
    }
}

/// One imported preset merged in: it replaces the first preset of the same
/// name, or is appended. The flag says whether it replaced one.
pub open spec fn merge_one(s: Seq<NamedPreset>, p: NamedPreset) -> (Seq<NamedPreset>, bool) {
    match position_named(s, p.name@) {
        Some(i) => (s.update(i as int, p), true),
        None => (s.push(p), false),
    }
}

/// All imported presets merged in, in order.
pub open spec fn merged(s: Seq<NamedPreset>, imported: Seq<NamedPreset>) -> Seq<NamedPreset>
    decreases imported.len(),
{
    if imported.len() == 0 {
        s
    } else {
        merge_one(merged(s, imported.drop_last()), imported.last()).0
    }
}

/// How many imported presets replaced one of the same name.
pub open spec fn replaced_count(s: Seq<NamedPreset>, imported: Seq<NamedPreset>) -> nat
    decreases imported.len(),
{
    if imported.len() == 0 {
        0
    } else {
        replaced_count(s, imported.drop_last()) + if merge_one(
            merged(s, imported.drop_last()),
            imported.last(),
        ).1 {
            1nat
        } else {
            0nat
        }
    }
}

proof fn lemma_position_named(s: Seq<NamedPreset>, name: Seq<char>)
    ensures
        match position_named(s, name) {
            Some(i) => {
                &&& i < s.len()
                &&& s[i as int].name@ == name
                &&& forall|k: int| 0 <= k < i ==> (#[trigger] s[k]).name@ != name
            },
            None => forall|k: int| 0 <= k < s.len() ==> (#[trigger] s[k]).name@ != name,
        },
    decreases s.len(),
{
    if s.len() > 0 && s[0].name@ != name {
        lemma_position_named(s.drop_first(), name);
        match position_named(s.drop_first(), name) {
            Some(i) => {
                assert forall|k: int| 0 <= k < i + 1 implies (#[trigger] s[k]).name@ != name by {
                    if k > 0 {
                        assert(s[k] == s.drop_first()[k - 1]);
                    }
                }
            },
            None => {
                assert forall|k: int| 0 <= k < s.len() implies (#[trigger] s[k]).name@ != name by {
                    if k > 0 {
                        assert(s[k] == s.drop_first()[k - 1]);
                    }
                }
            },
        }
    }
}

fn find_named(presets: &Vec<NamedPreset>, name: &String) -> (r: Option<usize>)
    ensures
        match position_named(presets@, name@) {
            Some(i) => r == Some(i as usize),
            None => r is None,
        },
{
    let mut i: usize = 0;
    assert(presets@.skip(0) =~= presets@);
    while i < presets.len()
        invariant
            i <= presets@.len(),
            position_named(presets@, name@) == match position_named(
                presets@.skip(i as int),
                name@,
            ) {
                Some(j) => Some((j + i) as nat),
                None => None::<nat>,
            },
        decreases presets.len() - i,
    {
        assert(presets@.skip(i as int)[0] == presets@[i as int]);
        if presets[i].name == *name {
            return Some(i);
        }
        assert(presets@.skip(i as int).drop_first() =~= presets@.skip(i + 1));
        i = i + 1;
    }
    None
}

/// Merges imported presets into the list: each one replaces the first
/// preset with the same name, or is added; the list is then sorted by
/// lowercased name. Returns the numbers added and replaced.
pub fn merge_presets(existing: &mut Vec<NamedPreset>, imported: Vec<NamedPreset>) -> (r: (
    usize,
    usize,
))
    requires
        old(existing)@.len() + imported@.len() <= usize::MAX,
    ensures
        final(existing)@ == sorted_by_key(merged(old(existing)@, imported@)),
        r.1 == replaced_count(old(existing)@, imported@),
        r.0 + r.1 == imported@.len(),
{
    let ghost start = existing@;
    let ghost orig = imported@;
    let mut items = imported;
    let total = items.len();
    let mut added: usize = 0;
    let mut replaced: usize = 0;
    let mut done: usize = 0;
    assert(orig.take(0) =~= Seq::<NamedPreset>::empty());
    assert(orig.skip(0) =~= orig);
    while items.len() > 0
        invariant
            items@ == orig.skip(done as int),
            done + items@.len() == orig.len(),
            orig.len() == total,
            start.len() + total <= usize::MAX,
            existing@ == merged(start, orig.take(done as int)),
            existing@.len() <= start.len() + done,
            replaced == replaced_count(start, orig.take(done as int)),
            added + replaced == done,
        decreases items.len(),
    {
        let p = items.remove(0);
        let ghost taken = orig.take(done + 1);
        assert(taken.drop_last() =~= orig.take(done as int));
        assert(taken.last() == p);
        assert(items@ =~= orig.skip(done + 1));
        proof {
            lemma_position_named(existing@, p.name@);
        }
        match find_named(existing, &p.name) {
            Some(i) => {
                existing.set(i, p);
                replaced = replaced + 1;
            },
            None => {
                existing.push(p);
                added = added + 1;
            },
        }
        done = done + 1;
    }
    assert(orig.take(done as int) =~= orig);
    sort_presets(existing);
    (added, replaced)
}

proof fn lemma_merge_one_contains(s: Seq<NamedPreset>, p: NamedPreset, x: NamedPreset)
    ensures
        merge_one(s, p).0.contains(p),
        s.contains(x) && x.name@ != p.name@ ==> merge_one(s, p).0.contains(x),
{
    lemma_position_named(s, p.name@);
    let t = merge_one(s, p).0;
    match position_named(s, p.name@) {
        Some(i) => {
            assert(t[i as int] == p);
            if s.contains(x) && x.name@ != p.name@ {
                let k = choose|k: int| 0 <= k < s.len() && s[k] == x;
                assert(k != i);
                assert(t[k] == x);
            }
        },
        None => {
            assert(t[s.len() as int] == p);
            if s.contains(x) {
                let k = choose|k: int| 0 <= k < s.len() && s[k] == x;
                assert(t[k] == x);
            }
        },
    }
}

proof fn lemma_merged_contains(s: Seq<NamedPreset>, imported: Seq<NamedPreset>, x: NamedPreset)
    requires
        s.contains(x) || exists|j: int| 0 <= j < imported.len() && imported[j] == x,
        forall|j: int|
            0 <= j < imported.len() && imported[j] != x ==> (#[trigger] imported[j]).name@
                != x.name@ || (exists|j2: int| j < j2 < imported.len() && imported[j2] == x),
    ensures
        merged(s, imported).contains(x),
    decreases imported.len(),
{
    if imported.len() > 0 {
        let rest = imported.drop_last();
        let last = imported.last();
        if last == x {
            lemma_merge_one_contains(merged(s, rest), last, x);
        } else {
            assert(last.name@ != x.name@) by {
                assert(imported[imported.len() - 1] == last);
            }
            assert(s.contains(x) || exists|j: int| 0 <= j < rest.len() && rest[j] == x) by {
                if !s.contains(x) {
                    let j = choose|j: int| 0 <= j < imported.len() && imported[j] == x;
                    assert(j < imported.len() - 1);
                    assert(rest[j] == x);
                }
            }
            assert forall|j: int|
                0 <= j < rest.len() && rest[j] != x implies (#[trigger] rest[j]).name@
                != x.name@ || (exists|j2: int| j < j2 < rest.len() && rest[j2] == x) by {
                assert(rest[j] == imported[j]);
                if rest[j].name@ == x.name@ {
                    let j2 = choose|j2: int| j < j2 < imported.len() && imported[j2] == x;
                    assert(j2 < imported.len() - 1);
                    assert(rest[j2] == x);
                }
            }
            lemma_merged_contains(s, rest, x);
            lemma_merge_one_contains(merged(s, rest), last, x);
        }
    }
}

/// After a merge, the list holds the last imported preset of each name, and
/// every existing preset whose name no imported preset has; it is sorted
/// by lowercased name.
pub proof fn law_merge_keeps_presets(
    existing: Seq<NamedPreset>,
    imported: Seq<NamedPreset>,
    j: int,
    x: NamedPreset,
)
    ensures
        0 <= j < imported.len() && (forall|j2: int|
            j < j2 < imported.len() ==> (#[trigger] imported[j2]).name@ != imported[j].name@)
            ==> sorted_by_key(merged(existing, imported)).contains(imported[j]),
        existing.contains(x) && (forall|k: int|
            0 <= k < imported.len() ==> (#[trigger] imported[k]).name@ != x.name@)
            ==> sorted_by_key(merged(existing, imported)).contains(x),
        keys_ordered(sorted_by_key(merged(existing, imported))),
        sorted_by_key(merged(existing, imported)).len() == merged(existing, imported).len(),
{
    let m = merged(existing, imported);
    lemma_sorted_by_key(m);
    if 0 <= j < imported.len() && (forall|j2: int|
        j < j2 < imported.len() ==> (#[trigger] imported[j2]).name@ != imported[j].name@) {
        let x = imported[j];
        assert forall|k: int|
            0 <= k < imported.len() && imported[k] != x implies (#[trigger] imported[k]).name@
            != x.name@ || (exists|j2: int| k < j2 < imported.len() && imported[j2] == x) by {
            if imported[k].name@ == x.name@ {
                if k < j {
                    assert(imported[j] == x);
                } else {
                    assert(k != j);
                }
            }
        }
        lemma_merged_contains(existing, imported, x);
        vstd::seq_lib::to_multiset_contains(m, x);
        vstd::seq_lib::to_multiset_contains(sorted_by_key(m), x);
    }
    if existing.contains(x) && (forall|k: int|
        0 <= k < imported.len() ==> (#[trigger] imported[k]).name@ != x.name@) {
        lemma_merged_contains(existing, imported, x);
        vstd::seq_lib::to_multiset_contains(m, x);
        vstd::seq_lib::to_multiset_contains(sorted_by_key(m), x);
    }
}

/// Whether no two presets of `s` share a name.
pub open spec fn distinct_names(s: Seq<NamedPreset>) -> bool {
    forall|i: int, j: int| 0 <= i < j < s.len() ==> (#[trigger] s[i]).name@ != (#[trigger] s[j]).name@
}

/// The last preset of `imported` named `name`, if any.
pub open spec fn last_named(imported: Seq<NamedPreset>, name: Seq<char>) -> Option<NamedPreset>
    decreases imported.len(),
{
    if imported.len() == 0 {
        None
    } else if imported.last().name@ == name {
        Some(imported.last())
    } else {
        last_named(imported.drop_last(), name)
    }
}

proof fn lemma_last_named(imported: Seq<NamedPreset>, name: Seq<char>, j: int)
    ensures
        last_named(imported, name) matches Some(p) ==> p.name@ == name,
        0 <= j < imported.len() && imported[j].name@ == name ==> last_named(imported, name) is Some,
    decreases imported.len(),
{
    if imported.len() > 0 {
        lemma_last_named(imported.drop_last(), name, j);
        if 0 <= j < imported.len() - 1 {
            assert(imported.drop_last()[j] == imported[j]);
        }
    }
}

proof fn lemma_merged_has_last(s: Seq<NamedPreset>, imported: Seq<NamedPreset>, name: Seq<char>)
    ensures
        last_named(imported, name) matches Some(p) ==> merged(s, imported).contains(p),
    decreases imported.len(),
{
    if imported.len() > 0 {
        let rest = imported.drop_last();
        lemma_merged_has_last(s, rest, name);
        lemma_last_named(rest, name, 0);
        if let Some(p) = last_named(imported, name) {
            lemma_merge_one_contains(merged(s, rest), imported.last(), p);
        }
    }
}

proof fn lemma_merged_distinct(s: Seq<NamedPreset>, imported: Seq<NamedPreset>)
    requires
        distinct_names(s),
    ensures
        distinct_names(merged(s, imported)),
    decreases imported.len(),
{
    if imported.len() > 0 {
        let m = merged(s, imported.drop_last());
        let p = imported.last();
        lemma_merged_distinct(s, imported.drop_last());
        lemma_position_named(m, p.name@);
        let t = merge_one(m, p).0;
        assert forall|i: int, j: int| 0 <= i < j < t.len() implies (#[trigger] t[i]).name@
            != (#[trigger] t[j]).name@ by {
            match position_named(m, p.name@) {
                Some(k) => {
                    assert(t[i].name@ == m[i].name@);
                    assert(t[j].name@ == m[j].name@);
                },
                None => {
                    if j == m.len() {
                        assert(t[i] == m[i]);
                    } else {
                        assert(t[i] == m[i] && t[j] == m[j]);
                    }
                },
            }
        }
    }
}

/// Merging into a list with distinct names that has every imported name:
/// each preset is replaced by the last imported one of its name, and every
/// imported preset counts as a replacement.
proof fn lemma_merge_present(s: Seq<NamedPreset>, imported: Seq<NamedPreset>)
    requires
        distinct_names(s),
        forall|j: int|
            0 <= j < imported.len() ==> exists|k: int|
                0 <= k < s.len() && (#[trigger] s[k]).name@ == (#[trigger] imported[j]).name@,
    ensures
        merged(s, imported).len() == s.len(),
        forall|k: int|
            0 <= k < s.len() ==> (#[trigger] merged(s, imported)[k]) == match last_named(
                imported,
                s[k].name@,
            ) {
                Some(p) => p,
                None => s[k],
            },
        replaced_count(s, imported) == imported.len(),
    decreases imported.len(),
{
    if imported.len() > 0 {
        let rest = imported.drop_last();
        let p = imported.last();
        assert forall|j: int| 0 <= j < rest.len() implies exists|k: int|
            0 <= k < s.len() && (#[trigger] s[k]).name@ == (#[trigger] rest[j]).name@ by {
            assert(rest[j] == imported[j]);
        }
        lemma_merge_present(s, rest);
        let m = merged(s, rest);
        assert(forall|k: int| 0 <= k < s.len() ==> (#[trigger] m[k]).name@ == s[k].name@) by {
            assert forall|k: int| 0 <= k < s.len() implies (#[trigger] m[k]).name@ == s[k].name@ by {
                lemma_last_named(rest, s[k].name@, 0);
            }
        }
        assert(imported[imported.len() - 1] == p);
        let k0 = choose|k: int| 0 <= k < s.len() && (#[trigger] s[k]).name@ == imported[imported.len() - 1].name@;
        lemma_position_named(m, p.name@);
        match position_named(m, p.name@) {
            Some(i) => {
                if i != k0 {
                    if i < k0 {
                        assert(s[i as int].name@ != s[k0].name@);
                    } else {
                        assert(s[k0].name@ != s[i as int].name@);
                    }
                }
                assert forall|k: int| 0 <= k < s.len() implies (#[trigger] merged(s, imported)[k])
                    == match last_named(imported, s[k].name@) {
                    Some(q) => q,
                    None => s[k],
                } by {
                    if k != k0 {
                        if k < k0 {
                            assert(s[k].name@ != s[k0].name@);
                        } else {
                            assert(s[k0].name@ != s[k].name@);
                        }
                    }
                }
            },
            None => {
                assert(m[k0].name@ == s[k0].name@);
            },
        }
    }
}

proof fn lemma_sorted_contains(m: Seq<NamedPreset>, x: NamedPreset)
    ensures
        sorted_by_key(m).contains(x) <==> m.contains(x),
{
    lemma_sorted_by_key(m);
    vstd::seq_lib::to_multiset_contains(m, x);
    vstd::seq_lib::to_multiset_contains(sorted_by_key(m), x);
}

proof fn lemma_sorted_distinct(m: Seq<NamedPreset>)
    requires
        distinct_names(m),
    ensures
        distinct_names(sorted_by_key(m)),
{
    let s = sorted_by_key(m);
    lemma_sorted_by_key(m);
    assert(m.no_duplicates()) by {
        assert forall|i: int, j: int| 0 <= i < m.len() && 0 <= j < m.len() && i != j implies m[i]
            != m[j] by {
            if i < j {
                assert(m[i].name@ != m[j].name@);
            } else {
                assert(m[j].name@ != m[i].name@);
            }
        }
    }
    m.lemma_multiset_has_no_duplicates();
    s.lemma_multiset_has_no_duplicates_conv();
    assert forall|a: int, b: int| 0 <= a < b < s.len() implies (#[trigger] s[a]).name@
        != (#[trigger] s[b]).name@ by {
        lemma_sorted_contains(m, s[a]);
        lemma_sorted_contains(m, s[b]);
        assert(s.contains(s[a]));
        assert(s.contains(s[b]));
        let ia = choose|i: int| 0 <= i < m.len() && m[i] == s[a];
        let ib = choose|i: int| 0 <= i < m.len() && m[i] == s[b];
        assert(s[a] != s[b]);
        if ia < ib {
            assert(m[ia].name@ != m[ib].name@);
        } else {
            assert(m[ib].name@ != m[ia].name@);
        }
    }
}

proof fn lemma_merged_len(s: Seq<NamedPreset>, imported: Seq<NamedPreset>)
    ensures
        merged(s, imported).len() <= s.len() + imported.len(),
        sorted_by_key(merged(s, imported)).len() == merged(s, imported).len(),
    decreases imported.len(),
{
    lemma_sorted_by_key(merged(s, imported));
    if imported.len() > 0 {
        lemma_merged_len(s, imported.drop_last());
        lemma_position_named(merged(s, imported.drop_last()), imported.last().name@);
    }
}

/// Merging the same import a second time changes nothing: where the list
/// had no two presets of one name, the second merge replaces one preset per
/// imported preset, adds none, and leaves the list as the first merge made it.
pub proof fn law_merge_twice_changes_nothing(existing: Seq<NamedPreset>, imported: Seq<NamedPreset>)
    requires
        distinct_names(existing),
    ensures
        ({
            let once = sorted_by_key(merged(existing, imported));
            &&& sorted_by_key(merged(once, imported)) == once
            &&& replaced_count(once, imported) == imported.len()
            &&& once.len() <= existing.len() + imported.len()
        }),
{
    lemma_merged_len(existing, imported);
    let m = merged(existing, imported);
    let s = sorted_by_key(m);
    lemma_merged_distinct(existing, imported);
    lemma_sorted_distinct(m);
    lemma_sorted_by_key(m);
    assert forall|j: int| 0 <= j < imported.len() implies exists|k: int|
        0 <= k < s.len() && (#[trigger] s[k]).name@ == (#[trigger] imported[j]).name@ by {
        let name = imported[j].name@;
        lemma_last_named(imported, name, j);
        let p = last_named(imported, name)->0;
        lemma_merged_has_last(existing, imported, name);
        lemma_sorted_contains(m, p);
        let k = choose|k: int| 0 <= k < s.len() && s[k] == p;
        assert(s[k].name@ == name);
    }
    lemma_merge_present(s, imported);
    assert forall|k: int| 0 <= k < s.len() implies (#[trigger] merged(s, imported)[k]) == s[k] by {
        let name = s[k].name@;
        lemma_last_named(imported, name, 0);
        if let Some(p) = last_named(imported, name) {
            lemma_merged_has_last(existing, imported, name);
            lemma_sorted_contains(m, p);
            let kp = choose|i: int| 0 <= i < s.len() && s[i] == p;
            if kp != k {
                if kp < k {
                    assert(s[kp].name@ != s[k].name@);
                } else {
                    assert(s[k].name@ != s[kp].name@);
                }
            }
        }
    }
    assert(merged(s, imported) =~= s);
    lemma_sorted_is_fixed(s);
}

/// Finds the first preset named `name`.
pub fn find_preset(presets: &Vec<NamedPreset>, name: &String) -> (r: Option<usize>)
    ensures
        match position_named(presets@, name@) {
            Some(i) => r == Some(i as usize),
            None => r is None,
        },
{
    find_named(presets, name)
}

/// The presets not named `name`, in order.
pub open spec fn without_name(s: Seq<NamedPreset>, name: Seq<char>) -> Seq<NamedPreset>
    decreases s.len(),
{
    if s.len() == 0 {
        s
    } else if s.last().name@ == name {
        without_name(s.drop_last(), name)
    } else {
        without_name(s.drop_last(), name).push(s.last())
    }
}

proof fn lemma_without_name(s: Seq<NamedPreset>, name: Seq<char>)
    ensures
        forall|i: int| 0 <= i < without_name(s, name).len() ==> (#[trigger] without_name(s, name)[i]).name@ != name,
        forall|x: NamedPreset| #[trigger] without_name(s, name).contains(x) ==> s.contains(x),
        forall|x: NamedPreset| s.contains(x) && x.name@ != name ==> #[trigger] without_name(s, name).contains(x),
        without_name(s, name).len() <= s.len(),
    decreases s.len(),
{
    if s.len() > 0 {
        let r = without_name(s.drop_last(), name);
        lemma_without_name(s.drop_last(), name);
        assert forall|x: NamedPreset| #[trigger] without_name(s, name).contains(x) implies s.contains(x) by {
            let t = without_name(s, name);
            let i = choose|i: int| 0 <= i < t.len() && t[i] == x;
            if i < r.len() {
                assert(r.contains(x));
                let k = choose|k: int| 0 <= k < s.drop_last().len() && s.drop_last()[k] == x;
                assert(s[k] == x);
            } else {
                assert(s[s.len() - 1] == x);
            }
        }
        assert forall|x: NamedPreset| s.contains(x) && x.name@ != name implies #[trigger] without_name(s, name).contains(x) by {
            let t = without_name(s, name);
            let k = choose|k: int| 0 <= k < s.len() && s[k] == x;
            if k < s.len() - 1 {
                assert(s.drop_last()[k] == x);
                assert(s.drop_last().contains(x));
                assert(r.contains(x));
                let i = choose|i: int| 0 <= i < r.len() && r[i] == x;
                assert(t[i] == r[i]);
                assert(t[i] == x);
            } else {
                assert(t[t.len() - 1] == x);
            }
        }
    }
}

fn remove_named(presets: Vec<NamedPreset>, name: &String) -> (r: Vec<NamedPreset>)
    ensures
        r@ == without_name(presets@, name@),
{
    let mut items = presets;
    let ghost orig = items@;
    let total = items.len();
    let mut out: Vec<NamedPreset> = Vec::new();
    let mut done: usize = 0;
    assert(orig.take(0) =~= Seq::<NamedPreset>::empty());
    assert(orig.skip(0) =~= orig);
    while items.len() > 0
        invariant
            items@ == orig.skip(done as int),
            done + items@.len() == orig.len(),
            orig.len() == total,
            out@ == without_name(orig.take(done as int), name@),
        decreases items.len(),
    {
        let p = items.remove(0);
        assert(orig.take(done + 1).drop_last() =~= orig.take(done as int));
        assert(orig.take(done + 1).last() == p);
        assert(items@ =~= orig.skip(done + 1));
        if p.name != *name {
            out.push(p);
        }
        done = done + 1;
    }
    assert(orig.take(done as int) =~= orig);
    out
}

/// Saves a preset: drops the presets with its name, adds it, and sorts the
/// list by lowercased name.
pub fn upsert_preset(presets: &mut Vec<NamedPreset>, preset: NamedPreset)
    ensures
        final(presets)@ == sorted_by_key(without_name(old(presets)@, preset.name@).push(preset)),
{
    let mut items: Vec<NamedPreset> = Vec::new();
    std::mem::swap(&mut items, presets);
    let name = preset.name.clone();
    let mut kept = remove_named(items, &name);
    kept.push(preset);
    sort_presets(&mut kept);
    *presets = kept;
}

/// Deletes every preset named `name`, keeping the order of the others.
pub fn delete_presets_named(presets: &mut Vec<NamedPreset>, name: &String)
    ensures
        final(presets)@ == without_name(old(presets)@, name@),
{
    let mut items: Vec<NamedPreset> = Vec::new();
    std::mem::swap(&mut items, presets);
    *presets = remove_named(items, name);
}

/// After saving a preset, it is in the list and no other preset has its
/// name; every other preset with another name is kept; the list is sorted.
pub proof fn law_upsert_replaces_by_name(s: Seq<NamedPreset>, p: NamedPreset, x: NamedPreset)
    ensures
        sorted_by_key(without_name(s, p.name@).push(p)).contains(p),
        forall|i: int|
            0 <= i < sorted_by_key(without_name(s, p.name@).push(p)).len() && (#[trigger] sorted_by_key(
                without_name(s, p.name@).push(p),
            )[i]).name@ == p.name@ ==> sorted_by_key(without_name(s, p.name@).push(p))[i] == p,
        s.contains(x) && x.name@ != p.name@ ==> sorted_by_key(without_name(s, p.name@).push(p)).contains(x),
        keys_ordered(sorted_by_key(without_name(s, p.name@).push(p))),
{
    let w = without_name(s, p.name@);
    let u = w.push(p);
    let t = sorted_by_key(u);
    lemma_without_name(s, p.name@);
    lemma_sorted_by_key(u);
    assert(u[w.len() as int] == p);
    vstd::seq_lib::to_multiset_contains(u, p);
    vstd::seq_lib::to_multiset_contains(t, p);
    assert forall|i: int| 0 <= i < t.len() && (#[trigger] t[i]).name@ == p.name@ implies t[i] == p by {
        let y = t[i];
        vstd::seq_lib::to_multiset_contains(t, y);
        vstd::seq_lib::to_multiset_contains(u, y);
        let k = choose|k: int| 0 <= k < u.len() && u[k] == y;
        if k < w.len() {
            assert(w[k] == y);
        }
    }
    if s.contains(x) && x.name@ != p.name@ {
        assert(w.contains(x));
        let k = choose|k: int| 0 <= k < w.len() && w[k] == x;
        assert(u[k] == x);
        vstd::seq_lib::to_multiset_contains(u, x);
        vstd::seq_lib::to_multiset_contains(t, x);
    }
}

/// After deleting by name, no preset has that name and every other preset
/// is kept.
pub proof fn law_delete_removes_name(s: Seq<NamedPreset>, name: Seq<char>, x: NamedPreset)
    ensures
        forall|i: int| 0 <= i < without_name(s, name).len() ==> (#[trigger] without_name(s, name)[i]).name@ != name,
        s.contains(x) && x.name@ != name ==> without_name(s, name).contains(x),
{
    lemma_without_name(s, name);
}

/// A file met while walking the models folder, as the file system gives it.
pub struct FoundFile {
    /// The full path, lossily decoded.
    pub path: String,
    /// The extension, lossily decoded, if the path has one.
    pub extension: Option<String>,
    /// The file name, if the path has one that is valid Unicode.
    pub file_name: Option<String>,
    /// The file size in whole MiB (0 when it could not be read).
    pub size_mb: u64,
    /// The first component of the path below the folder, lossily decoded.
    pub first_component: Option<String>,
    /// Whether the folder joined with that component is the file itself.
    pub component_is_file: bool,
}

/// Whether an extension is `gguf` in any ASCII case.
pub open spec fn is_gguf_extension(e: Seq<char>) -> bool {
    &&& e.len() == 4
    &&& (e[0] == 'g' || e[0] == 'G')
    &&& (e[1] == 'g' || e[1] == 'G')
    &&& (e[2] == 'u' || e[2] == 'U')
    &&& (e[3] == 'f' || e[3] == 'F')
}

fn gguf_extension(e: &String) -> (r: bool)
    ensures
        r == is_gguf_extension(e@),
{
    let c = chars_of(e.as_str());
    c.len() == 4 && (c[0] == 'g' || c[0] == 'G') && (c[1] == 'g' || c[1] == 'G') && (c[2] == 'u'
        || c[2] == 'U') && (c[3] == 'f' || c[3] == 'F')
}

/// The file name shown for a file: its name, or `unknown`.
pub open spec fn shown_name(f: FoundFile) -> Seq<char> {
    match f.file_name {
        Some(n) => n@,
        None => "unknown"@,
    }
}

/// Whether a found file is listed as a model: a `.gguf` file (any case)
/// whose lowercased name does not contain `mmproj`.
pub open spec fn is_listed_model(f: FoundFile) -> bool {
    &&& f.extension is Some
    &&& is_gguf_extension(f.extension->0@)
    &&& !has_substring(lowercase(shown_name(f)), "mmproj"@)
}

/// The author shown for a model: the first folder below the models folder,
/// unless the file lies directly in it.
pub open spec fn shown_author(f: FoundFile) -> Seq<char> {
    match f.first_component {
        Some(a) => if a@ != "."@ && a@.len() > 0 && !f.component_is_file {
            a@
        } else {
            Seq::empty()
        },
        None => Seq::empty(),
    }
}

/// Whether `e` is the entry listed for `f`.
pub open spec fn entry_for(f: FoundFile, e: ModelEntry) -> bool {
    &&& e.path@ == f.path@
    &&& e.filename@ == shown_name(f)
    &&& e.size_mb == f.size_mb
    &&& e.author@ == shown_author(f)
}

/// Whether `out` lists, in order, the model entries of the listed files of
/// `files`.
pub open spec fn listed_entries(files: Seq<FoundFile>, out: Seq<ModelEntry>) -> bool
    decreases files.len(),
{
    if files.len() == 0 {
        out.len() == 0
    } else if is_listed_model(files.last()) {
        out.len() > 0 && entry_for(files.last(), out.last()) && listed_entries(
            files.drop_last(),
            out.drop_last(),
        )
    } else {
        listed_entries(files.drop_last(), out)
    }
}

fn model_entry(f: FoundFile) -> (r: Option<ModelEntry>)
    ensures
        match r {
            Some(e) => is_listed_model(f) && entry_for(f, e),
            None => !is_listed_model(f),
        },
{
    let is_gguf = match &f.extension {
        Some(e) => gguf_extension(e),
        None => false,
    };
    if !is_gguf {
        return None;
    }
    let filename = match f.file_name {
        Some(n) => n,
        None => String::from_str("unknown"),
    };
    let lower = to_lowercase(filename.as_str());
    if contains_str(lower.as_str(), "mmproj") {
        return None;
    }
    let author = match f.first_component {
        Some(a) => if !crate::text::str_equals(a.as_str(), ".") && !a.as_str().is_empty()
            && !f.component_is_file {
            a
        } else {
            String::new()
        },
        None => String::new(),
    };
    Some(ModelEntry { path: f.path, filename, size_mb: f.size_mb, author })
}

/// The models in a folder, from the files found below it: the `.gguf` files
/// that are not multimodal projectors, sorted by lowercased file name.
pub fn scan_models_folder(files: Vec<FoundFile>) -> (r: Vec<ModelEntry>)
    ensures
        exists|unsorted: Seq<ModelEntry>| listed_entries(files@, unsorted) && r@ == sorted_by_key(
            unsorted,
        ),
{
    let mut items = files;
    let ghost orig = items@;
    let total = items.len();
    let mut out: Vec<ModelEntry> = Vec::new();
    let mut done: usize = 0;
    assert(orig.take(0) =~= Seq::<FoundFile>::empty());
    assert(orig.skip(0) =~= orig);
    while items.len() > 0
        invariant
            items@ == orig.skip(done as int),
            done + items@.len() == orig.len(),
            orig.len() == total,
            listed_entries(orig.take(done as int), out@),
            out@.len() <= done,
        decreases items.len(),
    {
        let f = items.remove(0);
        assert(orig.take(done + 1).drop_last() =~= orig.take(done as int));
        assert(orig.take(done + 1).last() == f);
        assert(items@ =~= orig.skip(done + 1));
        let ghost before = out@;
        match model_entry(f) {
            Some(e) => {
                out.push(e);
                assert(out@.drop_last() =~= before);
            },
            None => {},
        }
        done = done + 1;
    }
    assert(orig.take(done as int) =~= orig);
    let ghost unsorted = out@;
    sort_by_key(&mut out);
    out
}

} // verus!
