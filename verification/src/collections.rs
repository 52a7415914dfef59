//! Insertion-ordered maps (`indexmap::IndexMap`) used by the library, with
//! the contracts of the operations that the library calls.
//!
//! The entries of each map are modelled as a sequence of (key text, value)
//! pairs in insertion order.

use crate::diff::{DiffView, RepoDiff};
use crate::mainconfig::MainConfig;
use crate::repo::Repo;
use crate::repo::RepoView;
use crate::repofile::{entries_view, RawEntry, RawEntryView, RepoFile, RepoFileView, SectionBlock, SectionBlockView};
use crate::text::strings_view;
use crate::types::RepoId;
use indexmap::IndexMap;
use vstd::prelude::*;

verus! {

/// `indexmap::IndexMap`: a hash map that keeps its entries in insertion order.
#[verifier::external_type_specification]
#[verifier::external_body]
#[verifier::reject_recursive_types(K)]
#[verifier::reject_recursive_types(V)]
#[verifier::reject_recursive_types(S)]
pub struct ExIndexMap<K, V, S>(IndexMap<K, V, S>);

/// Position of the first entry whose key is `k`.
pub open spec fn key_index<V>(e: Seq<(Seq<char>, V)>, k: Seq<char>) -> Option<int>
    decreases e.len(),
{
    if e.len() == 0 {
        None
    } else if e[0].0 == k {
        Some(0)
    } else {
        match key_index(e.drop_first(), k) {
            Some(i) => Some(i + 1),
            None => None,
        }
    }
}

/// The entries after inserting `v` under `k`.
pub open spec fn map_insert<V>(e: Seq<(Seq<char>, V)>, k: Seq<char>, v: V) -> Seq<(Seq<char>, V)> {
    match key_index(e, k) {
        Some(i) => e.update(i, (e[i].0, v)),
        None => e.push((k, v)),
    }
}

/// The entries after removing the one under `k`.
pub open spec fn map_remove<V>(e: Seq<(Seq<char>, V)>, k: Seq<char>) -> Seq<(Seq<char>, V)> {
    match key_index(e, k) {
        Some(i) => e.remove(i),
        None => e,
    }
}

/// The value stored under `k`, if any.
pub open spec fn map_get<V>(e: Seq<(Seq<char>, V)>, k: Seq<char>) -> Option<V> {
    match key_index(e, k) {
        Some(i) => Some(e[i].1),
        None => None,
    }
}

/// No key occurs twice.
pub open spec fn keys_unique<V>(e: Seq<(Seq<char>, V)>) -> bool {
    forall|i: int, j: int| 0 <= i < j < e.len() ==> e[i].0 != e[j].0
}

pub proof fn lemma_key_index<V>(e: Seq<(Seq<char>, V)>, k: Seq<char>)
    ensures
        key_index(e, k) matches Some(i) ==> 0 <= i < e.len() && e[i].0 == k && forall|j: int|
            0 <= j < i ==> e[j].0 != k,
        key_index(e, k) is None ==> forall|j: int| 0 <= j < e.len() ==> e[j].0 != k,
    decreases e.len(),
{
    if e.len() > 0 {
        lemma_key_index(e.drop_first(), k);
        if e[0].0 != k {
            assert forall|j: int| 0 < j < e.len() implies e[j] == e.drop_first()[j - 1] by {}
        }
    }
}

pub proof fn lemma_key_index_at<V>(e: Seq<(Seq<char>, V)>, k: Seq<char>, i: int)
    requires
        0 <= i < e.len(),
        e[i].0 == k,
        forall|j: int| 0 <= j < i ==> e[j].0 != k,
    ensures
        key_index(e, k) == Some(i),
    decreases e.len(),
{
    if i > 0 {
        lemma_key_index_at(e.drop_first(), k, i - 1);
    }
}

pub proof fn lemma_key_index_none<V>(e: Seq<(Seq<char>, V)>, k: Seq<char>)
    requires
        forall|j: int| 0 <= j < e.len() ==> e[j].0 != k,
    ensures
        key_index(e, k) is None,
    decreases e.len(),
{
    if e.len() > 0 {
        lemma_key_index_none(e.drop_first(), k);
    }
}

/// Inserting keeps the keys unique.
pub proof fn lemma_insert_unique<V>(e: Seq<(Seq<char>, V)>, k: Seq<char>, v: V)
    requires
        keys_unique(e),
    ensures
        keys_unique(map_insert(e, k, v)),
        key_index(map_insert(e, k, v), k) is Some,
        map_get(map_insert(e, k, v), k) == Some(v),
{
    lemma_key_index(e, k);
    let r = map_insert(e, k, v);
    match key_index(e, k) {
        Some(i) => {
            assert(r[i].0 == k);
            lemma_key_index_at(r, k, i);
        },
        None => {
            lemma_key_index_at(r, k, e.len() as int);
        },
    }
}

/// The entries of a map built from distinct keys by insertion.
pub proof fn lemma_insert_other<V>(e: Seq<(Seq<char>, V)>, k: Seq<char>, v: V, k2: Seq<char>)
    requires
        k2 != k,
    ensures
        map_get(map_insert(e, k, v), k2) == map_get(e, k2),
        (key_index(map_insert(e, k, v), k2) is Some) == (key_index(e, k2) is Some),
{
    lemma_key_index(e, k);
    lemma_key_index(e, k2);
    let r = map_insert(e, k, v);
    match key_index(e, k2) {
        Some(j) => {
            lemma_key_index_at(r, k2, j);
        },
        None => {
            assert forall|j: int| 0 <= j < r.len() implies r[j].0 != k2 by {}
            lemma_key_index_none(r, k2);
        },
    }
}

/// Removing keeps the keys unique and drops exactly the key.
pub proof fn lemma_remove_props<V>(e: Seq<(Seq<char>, V)>, k: Seq<char>)
    requires
        keys_unique(e),
    ensures
        keys_unique(map_remove(e, k)),
        key_index(map_remove(e, k), k) is None,
        forall|k2: Seq<char>| k2 != k ==> #[trigger] map_get(map_remove(e, k), k2) == map_get(e, k2),
{
    lemma_key_index(e, k);
    let r = map_remove(e, k);
    match key_index(e, k) {
        Some(i) => {
            assert forall|j: int| 0 <= j < r.len() implies r[j].0 != k by {
                if j < i {
                } else {
                    assert(r[j] == e[j + 1]);
                }
            }
            lemma_key_index_none(r, k);
            assert forall|k2: Seq<char>| k2 != k implies #[trigger] map_get(r, k2) == map_get(e, k2) by {
                lemma_key_index(e, k2);
                match key_index(e, k2) {
                    Some(j) => {
                        if j < i {
                            lemma_key_index_at(r, k2, j);
                        } else {
                            assert(j != i);
                            assert(r[j - 1] == e[j]);
                            assert forall|x: int| 0 <= x < j - 1 implies r[x].0 != k2 by {
                                if x >= i {
                                    assert(r[x] == e[x + 1]);
                                }
                            }
                            lemma_key_index_at(r, k2, j - 1);
                        }
                    },
                    None => {
                        assert forall|x: int| 0 <= x < r.len() implies r[x].0 != k2 by {
                            if x >= i {
                                assert(r[x] == e[x + 1]);
                            }
                        }
                        lemma_key_index_none(r, k2);
                    },
                }
            }
        },
        None => {
            lemma_key_index_none(r, k);
        },
    }
}

// ---------------------------------------------------------------------------
// Maps from names to lists of texts (unknown options, section header comments)
// ---------------------------------------------------------------------------

/// The entries of an `IndexMap<String, Vec<String>>`, in order: each key's text and its value.
pub uninterp spec fn string_list_entries(m: IndexMap<String, Vec<String>>) -> Seq<(Seq<char>, Seq<Seq<char>>)>;

/// `IndexMap::new`: an empty map.
#[verifier::external_body]
pub(crate) fn string_lists_new() -> (m: IndexMap<String, Vec<String>>)
    ensures
        string_list_entries(m) == Seq::<(Seq<char>, Seq<Seq<char>>)>::empty(),
{
    IndexMap::new()
}

/// `IndexMap::len`: the number of entries.
#[verifier::external_body]
pub(crate) fn string_lists_len(m: &IndexMap<String, Vec<String>>) -> (n: usize)
    ensures
        n == string_list_entries(*m).len(),
{
    m.len()
}

/// `IndexMap::get`: the value stored under the key, if any.
#[verifier::external_body]
pub(crate) fn string_lists_get<'a>(m: &'a IndexMap<String, Vec<String>>, k: &str) -> (r: Option<&'a Vec<String>>)
    ensures
        r is Some <==> key_index(string_list_entries(*m), k@) is Some,
        r matches Some(v) ==> strings_view((*v)@) == string_list_entries(*m)[key_index(string_list_entries(*m), k@)->0].1,
{
    m.get(k)
}

/// `IndexMap::contains_key`: whether the key has an entry.
#[verifier::external_body]
pub(crate) fn string_lists_contains(m: &IndexMap<String, Vec<String>>, k: &str) -> (r: bool)
    ensures
        r == (key_index(string_list_entries(*m), k@) is Some),
{
    m.contains_key(k)
}

/// `IndexMap::insert`: an existing key keeps its place and gets the new
/// value; a new key is appended last.
#[verifier::external_body]
pub(crate) fn string_lists_insert(m: &mut IndexMap<String, Vec<String>>, k: String, v: Vec<String>)
    ensures
        string_list_entries(*final(m)) == map_insert(string_list_entries(*old(m)), k@, strings_view((v)@)),
{
    m.insert(k, v);
}

/// `IndexMap::get_index`: the key and value of the entry at a position.
#[verifier::external_body]
pub(crate) fn string_lists_get_index<'a>(m: &'a IndexMap<String, Vec<String>>, i: usize) -> (r: Option<(&'a String, &'a Vec<String>)>)
    ensures
        r is Some <==> i < string_list_entries(*m).len(),
        r matches Some(p) ==> p.0@ == string_list_entries(*m)[i as int].0 && strings_view((*p.1)@) == string_list_entries(*m)[i as int].1,
{
    m.get_index(i)
}

/// `Clone::clone`: a map with the same entries.
#[verifier::external_body]
pub(crate) fn string_lists_clone(m: &IndexMap<String, Vec<String>>) -> (r: IndexMap<String, Vec<String>>)
    ensures
        string_list_entries(r) == string_list_entries(*m),
{
    m.clone()
}

// ---------------------------------------------------------------------------
// Maps from option names to inline comments
// ---------------------------------------------------------------------------

/// The entries of an `IndexMap<String, String>`, in order: each key's text and its value.
pub uninterp spec fn comment_entries(m: IndexMap<String, String>) -> Seq<(Seq<char>, Seq<char>)>;

/// `IndexMap::new`: an empty map.
#[verifier::external_body]
pub(crate) fn comments_new() -> (m: IndexMap<String, String>)
    ensures
        comment_entries(m) == Seq::<(Seq<char>, Seq<char>)>::empty(),
{
    IndexMap::new()
}

/// `IndexMap::len`: the number of entries.
#[verifier::external_body]
pub(crate) fn comments_len(m: &IndexMap<String, String>) -> (n: usize)
    ensures
        n == comment_entries(*m).len(),
{
    m.len()
}

/// `IndexMap::contains_key`: whether the key has an entry.
#[verifier::external_body]
pub(crate) fn comments_contains(m: &IndexMap<String, String>, k: &str) -> (r: bool)
    ensures
        r == (key_index(comment_entries(*m), k@) is Some),
{
    m.contains_key(k)
}

/// `IndexMap::insert`: an existing key keeps its place and gets the new
/// value; a new key is appended last.
#[verifier::external_body]
pub(crate) fn comments_insert(m: &mut IndexMap<String, String>, k: String, v: String)
    ensures
        comment_entries(*final(m)) == map_insert(comment_entries(*old(m)), k@, (v)@),
{
    m.insert(k, v);
}

/// `IndexMap::get_index`: the key and value of the entry at a position.
#[verifier::external_body]
pub(crate) fn comments_get_index<'a>(m: &'a IndexMap<String, String>, i: usize) -> (r: Option<(&'a String, &'a String)>)
    ensures
        r is Some <==> i < comment_entries(*m).len(),
        r matches Some(p) ==> p.0@ == comment_entries(*m)[i as int].0 && (*p.1)@ == comment_entries(*m)[i as int].1,
{
    m.get_index(i)
}

/// `Clone::clone`: a map with the same entries.
#[verifier::external_body]
pub(crate) fn comments_clone(m: &IndexMap<String, String>) -> (r: IndexMap<String, String>)
    ensures
        comment_entries(r) == comment_entries(*m),
{
    m.clone()
}

// ---------------------------------------------------------------------------
// Maps from section names to their raw entries (used while parsing)
// ---------------------------------------------------------------------------

/// The entries of an `IndexMap<String, Vec<RawEntry>>`, in order: each key's text and its value.
pub uninterp spec fn section_entries(m: IndexMap<String, Vec<RawEntry>>) -> Seq<(Seq<char>, Seq<RawEntryView>)>;

/// `IndexMap::new`: an empty map.
#[verifier::external_body]
pub(crate) fn sections_new() -> (m: IndexMap<String, Vec<RawEntry>>)
    ensures
        section_entries(m) == Seq::<(Seq<char>, Seq<RawEntryView>)>::empty(),
{
    IndexMap::new()
}

/// `IndexMap::len`: the number of entries.
#[verifier::external_body]
pub(crate) fn sections_len(m: &IndexMap<String, Vec<RawEntry>>) -> (n: usize)
    ensures
        n == section_entries(*m).len(),
{
    m.len()
}

/// `IndexMap::insert`: an existing key keeps its place and gets the new
/// value; a new key is appended last.
#[verifier::external_body]
pub(crate) fn sections_insert(m: &mut IndexMap<String, Vec<RawEntry>>, k: String, v: Vec<RawEntry>)
    ensures
        section_entries(*final(m)) == map_insert(section_entries(*old(m)), k@, entries_view((v)@)),
{
    m.insert(k, v);
}

/// `IndexMap::get_index`: the key and value of the entry at a position.
#[verifier::external_body]
pub(crate) fn sections_get_index<'a>(m: &'a IndexMap<String, Vec<RawEntry>>, i: usize) -> (r: Option<(&'a String, &'a Vec<RawEntry>)>)
    ensures
        r is Some <==> i < section_entries(*m).len(),
        r matches Some(p) ==> p.0@ == section_entries(*m)[i as int].0 && entries_view((*p.1)@) == section_entries(*m)[i as int].1,
{
    m.get_index(i)
}

// ---------------------------------------------------------------------------
// Maps from repository IDs to repository sections
// ---------------------------------------------------------------------------

/// The entries of an `IndexMap<RepoId, SectionBlock<Repo>>`, in order: each key's text and its value.
pub uninterp spec fn repo_block_entries(m: IndexMap<RepoId, SectionBlock<Repo>>) -> Seq<(Seq<char>, SectionBlockView<RepoView>)>;

/// `IndexMap::new`: an empty map.
#[verifier::external_body]
pub(crate) fn repo_blocks_new() -> (m: IndexMap<RepoId, SectionBlock<Repo>>)
    ensures
        repo_block_entries(m) == Seq::<(Seq<char>, SectionBlockView<RepoView>)>::empty(),
{
    IndexMap::new()
}

/// `IndexMap::len`: the number of entries.
#[verifier::external_body]
pub(crate) fn repo_blocks_len(m: &IndexMap<RepoId, SectionBlock<Repo>>) -> (n: usize)
    ensures
        n == repo_block_entries(*m).len(),
{
    m.len()
}

/// `IndexMap::get`: the value stored under the key, if any.
#[verifier::external_body]
pub(crate) fn repo_blocks_get<'a>(m: &'a IndexMap<RepoId, SectionBlock<Repo>>, k: &RepoId) -> (r: Option<&'a SectionBlock<Repo>>)
    ensures
        r is Some <==> key_index(repo_block_entries(*m), k@) is Some,
        r matches Some(v) ==> (*v)@ == repo_block_entries(*m)[key_index(repo_block_entries(*m), k@)->0].1,
{
    m.get(k)
}

/// `IndexMap::contains_key`: whether the key has an entry.
#[verifier::external_body]
pub(crate) fn repo_blocks_contains(m: &IndexMap<RepoId, SectionBlock<Repo>>, k: &RepoId) -> (r: bool)
    ensures
        r == (key_index(repo_block_entries(*m), k@) is Some),
{
    m.contains_key(k)
}

/// `IndexMap::insert`: an existing key keeps its place and gets the new
/// value; a new key is appended last.
#[verifier::external_body]
pub(crate) fn repo_blocks_insert(m: &mut IndexMap<RepoId, SectionBlock<Repo>>, k: RepoId, v: SectionBlock<Repo>)
    ensures
        repo_block_entries(*final(m)) == map_insert(repo_block_entries(*old(m)), k@, (v)@),
{
    m.insert(k, v);
}

/// `IndexMap::shift_remove`: remove the key's entry, keeping the order of
/// the others, and return its value.
#[verifier::external_body]
pub(crate) fn repo_blocks_shift_remove(m: &mut IndexMap<RepoId, SectionBlock<Repo>>, k: &RepoId) -> (r: Option<SectionBlock<Repo>>)
    ensures
        repo_block_entries(*final(m)) == map_remove(repo_block_entries(*old(m)), k@),
        r is Some <==> key_index(repo_block_entries(*old(m)), k@) is Some,
        r matches Some(v) ==> (v)@ == repo_block_entries(*old(m))[key_index(repo_block_entries(*old(m)), k@)->0].1,
{
    m.shift_remove(k)
}

/// `IndexMap::get_index`: the key and value of the entry at a position.
#[verifier::external_body]
pub(crate) fn repo_blocks_get_index<'a>(m: &'a IndexMap<RepoId, SectionBlock<Repo>>, i: usize) -> (r: Option<(&'a RepoId, &'a SectionBlock<Repo>)>)
    ensures
        r is Some <==> i < repo_block_entries(*m).len(),
        r matches Some(p) ==> p.0@ == repo_block_entries(*m)[i as int].0 && (*p.1)@ == repo_block_entries(*m)[i as int].1,
{
    m.get_index(i)
}

/// `IndexMap::get_mut`: a mutable reference to the key's value; writes
/// through it change that entry's value only.
#[verifier::external_body]
pub(crate) fn repo_blocks_get_mut<'a>(m: &'a mut IndexMap<RepoId, SectionBlock<Repo>>, k: &RepoId) -> (r: Option<&'a mut SectionBlock<Repo>>)
    ensures
        r is Some <==> key_index(repo_block_entries(*old(m)), k@) is Some,
        r is None ==> repo_block_entries(*final(m)) == repo_block_entries(*old(m)),
        r matches Some(v) ==> ({
            let i = key_index(repo_block_entries(*old(m)), k@)->0;
            &&& (*v)@ == repo_block_entries(*old(m))[i].1
            &&& repo_block_entries(*final(m)) == repo_block_entries(*old(m)).update(i, (repo_block_entries(*old(m))[i].0, (*final(v))@))
        }),
{
    m.get_mut(k)
}

/// `Clone::clone`: a map with the same entries.
#[verifier::external_body]
pub(crate) fn repo_blocks_clone(m: &IndexMap<RepoId, SectionBlock<Repo>>) -> (r: IndexMap<RepoId, SectionBlock<Repo>>)
    ensures
        repo_block_entries(r) == repo_block_entries(*m),
{
    m.clone()
}

// ---------------------------------------------------------------------------
// Maps from repository IDs to their field-level differences
// ---------------------------------------------------------------------------

/// The entries of an `IndexMap<RepoId, RepoDiff>`, in order: each key's text and its value.
pub uninterp spec fn repo_diff_entries(m: IndexMap<RepoId, RepoDiff>) -> Seq<(Seq<char>, DiffView)>;

/// `IndexMap::new`: an empty map.
#[verifier::external_body]
pub(crate) fn repo_diffs_new() -> (m: IndexMap<RepoId, RepoDiff>)
    ensures
        repo_diff_entries(m) == Seq::<(Seq<char>, DiffView)>::empty(),
{
    IndexMap::new()
}

/// `IndexMap::len`: the number of entries.
#[verifier::external_body]
pub(crate) fn repo_diffs_len(m: &IndexMap<RepoId, RepoDiff>) -> (n: usize)
    ensures
        n == repo_diff_entries(*m).len(),
{
    m.len()
}

/// `IndexMap::insert`: an existing key keeps its place and gets the new
/// value; a new key is appended last.
#[verifier::external_body]
pub(crate) fn repo_diffs_insert(m: &mut IndexMap<RepoId, RepoDiff>, k: RepoId, v: RepoDiff)
    ensures
        repo_diff_entries(*final(m)) == map_insert(repo_diff_entries(*old(m)), k@, (v)@),
{
    m.insert(k, v);
}

/// `Clone::clone`: a map with the same entries.
#[verifier::external_body]
pub(crate) fn repo_diffs_clone(m: &IndexMap<RepoId, RepoDiff>) -> (r: IndexMap<RepoId, RepoDiff>)
    ensures
        repo_diff_entries(r) == repo_diff_entries(*m),
{
    m.clone()
}

// ---------------------------------------------------------------------------
// Maps from file names to parsed files
// ---------------------------------------------------------------------------

/// The entries of an `IndexMap<String, RepoFile>`, in order: each key's text and its value.
pub uninterp spec fn file_entries(m: IndexMap<String, RepoFile>) -> Seq<(Seq<char>, RepoFileView)>;

/// `IndexMap::new`: an empty map.
#[verifier::external_body]
pub(crate) fn files_new() -> (m: IndexMap<String, RepoFile>)
    ensures
        file_entries(m) == Seq::<(Seq<char>, RepoFileView)>::empty(),
{
    IndexMap::new()
}

/// `IndexMap::len`: the number of entries.
#[verifier::external_body]
pub(crate) fn files_len(m: &IndexMap<String, RepoFile>) -> (n: usize)
    ensures
        n == file_entries(*m).len(),
{
    m.len()
}

/// `IndexMap::get`: the value stored under the key, if any.
#[verifier::external_body]
pub(crate) fn files_get<'a>(m: &'a IndexMap<String, RepoFile>, k: &str) -> (r: Option<&'a RepoFile>)
    ensures
        r is Some <==> key_index(file_entries(*m), k@) is Some,
        r matches Some(v) ==> (*v)@ == file_entries(*m)[key_index(file_entries(*m), k@)->0].1,
{
    m.get(k)
}

/// `IndexMap::contains_key`: whether the key has an entry.
#[verifier::external_body]
pub(crate) fn files_contains(m: &IndexMap<String, RepoFile>, k: &str) -> (r: bool)
    ensures
        r == (key_index(file_entries(*m), k@) is Some),
{
    m.contains_key(k)
}

/// `IndexMap::insert`: an existing key keeps its place and gets the new
/// value; a new key is appended last.
#[verifier::external_body]
pub(crate) fn files_insert(m: &mut IndexMap<String, RepoFile>, k: String, v: RepoFile)
    ensures
        file_entries(*final(m)) == map_insert(file_entries(*old(m)), k@, (v)@),
{
    m.insert(k, v);
}

/// `IndexMap::shift_remove`: remove the key's entry, keeping the order of
/// the others, and return its value.
#[verifier::external_body]
pub(crate) fn files_shift_remove(m: &mut IndexMap<String, RepoFile>, k: &str) -> (r: Option<RepoFile>)
    ensures
        file_entries(*final(m)) == map_remove(file_entries(*old(m)), k@),
        r is Some <==> key_index(file_entries(*old(m)), k@) is Some,
        r matches Some(v) ==> (v)@ == file_entries(*old(m))[key_index(file_entries(*old(m)), k@)->0].1,
{
    m.shift_remove(k)
}

/// `IndexMap::get_index`: the key and value of the entry at a position.
#[verifier::external_body]
pub(crate) fn files_get_index<'a>(m: &'a IndexMap<String, RepoFile>, i: usize) -> (r: Option<(&'a String, &'a RepoFile)>)
    ensures
        r is Some <==> i < file_entries(*m).len(),
        r matches Some(p) ==> p.0@ == file_entries(*m)[i as int].0 && (*p.1)@ == file_entries(*m)[i as int].1,
{
    m.get_index(i)
}

/// `IndexMap::get_mut`: a mutable reference to the key's value; writes
/// through it change that entry's value only.
#[verifier::external_body]
pub(crate) fn files_get_mut<'a>(m: &'a mut IndexMap<String, RepoFile>, k: &str) -> (r: Option<&'a mut RepoFile>)
    ensures
        r is Some <==> key_index(file_entries(*old(m)), k@) is Some,
        r is None ==> file_entries(*final(m)) == file_entries(*old(m)),
        r matches Some(v) ==> ({
            let i = key_index(file_entries(*old(m)), k@)->0;
            &&& (*v)@ == file_entries(*old(m))[i].1
            &&& file_entries(*final(m)) == file_entries(*old(m)).update(i, (file_entries(*old(m))[i].0, (*final(v))@))
        }),
{
    m.get_mut(k)
}

} // verus!
