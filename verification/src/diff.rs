//! Field-level differences between repositories, `[main]` sections and
//! whole files.

use crate::collections::{
    key_index, map_get, map_insert, repo_block_entries, repo_blocks_contains, repo_blocks_get,
    repo_blocks_get_index, repo_blocks_len, repo_diff_entries, repo_diffs_insert, repo_diffs_new,
};
use crate::mainconfig::{MainConfig, MainConfigView};
use crate::repo::{Repo, RepoView};
use crate::repofile::{RepoFile, RepoFileView};
use crate::text::{copy_string, decimal_text, int_text, owned, push_char, push_str, spec_decimal, spec_int_text, str_eq, strings_view};
use crate::types::{spec_dnf_bool_text, urls_view, DnfBool, RepoId, Url};
use indexmap::IndexMap;
use vstd::prelude::*;

verus! {

/// Per-repository field-level diff between two `Repo` values.
#[derive(Debug)]
pub struct RepoDiff {
    pub changed: Vec<(String, String, String)>,
    pub added: Vec<(String, String)>,
    pub removed: Vec<(String, String)>,
    pub has_changes: bool,
}

/// The plain-value model of a [`RepoDiff`] or [`ConfigDiff`].
#[verifier::ext_equal]
pub struct DiffView {
    pub changed: Seq<(Seq<char>, Seq<char>, Seq<char>)>,
    pub added: Seq<(Seq<char>, Seq<char>)>,
    pub removed: Seq<(Seq<char>, Seq<char>)>,
    pub has_changes: bool,
}

pub open spec fn triples_view(v: Seq<(String, String, String)>) -> Seq<(Seq<char>, Seq<char>, Seq<char>)> {
    v.map_values(|t: (String, String, String)| (t.0@, t.1@, t.2@))
}

pub open spec fn pairs_view(v: Seq<(String, String)>) -> Seq<(Seq<char>, Seq<char>)> {
    v.map_values(|t: (String, String)| (t.0@, t.1@))
}

impl View for RepoDiff {
    type V = DiffView;

    open spec fn view(&self) -> DiffView {
        DiffView {
            changed: triples_view(self.changed@),
            added: pairs_view(self.added@),
            removed: pairs_view(self.removed@),
            has_changes: self.has_changes,
        }
    }
}

fn copy_triples(v: &Vec<(String, String, String)>) -> (r: Vec<(String, String, String)>)
    ensures
        triples_view(r@) == triples_view(v@),
{
    let mut r: Vec<(String, String, String)> = Vec::new();
    let mut i: usize = 0;
    while i < v.len()
        invariant
            i <= v@.len(),
            r@.len() == i,
            forall|k: int|
                0 <= k < i ==> (#[trigger] r@[k]).0@ == v@[k].0@ && r@[k].1@ == v@[k].1@
                    && r@[k].2@ == v@[k].2@,
        decreases v@.len() - i,
    {
        let t = &v[i];
        r.push((copy_string(&t.0), copy_string(&t.1), copy_string(&t.2)));
        i = i + 1;
    }
    assert(triples_view(r@) =~= triples_view(v@));
    r
}

fn copy_pairs(v: &Vec<(String, String)>) -> (r: Vec<(String, String)>)
    ensures
        pairs_view(r@) == pairs_view(v@),
{
    let mut r: Vec<(String, String)> = Vec::new();
    let mut i: usize = 0;
    while i < v.len()
        invariant
            i <= v@.len(),
            r@.len() == i,
            forall|k: int| 0 <= k < i ==> (#[trigger] r@[k]).0@ == v@[k].0@ && r@[k].1@ == v@[k].1@,
        decreases v@.len() - i,
    {
        let t = &v[i];
        r.push((copy_string(&t.0), copy_string(&t.1)));
        i = i + 1;
    }
    assert(pairs_view(r@) =~= pairs_view(v@));
    r
}

impl Clone for RepoDiff {
    fn clone(&self) -> (r: RepoDiff)
        ensures
            r@ == self@,
    {
        RepoDiff {
            changed: copy_triples(&self.changed),
            added: copy_pairs(&self.added),
            removed: copy_pairs(&self.removed),
            has_changes: self.has_changes,
        }
    }
}


/// Field-level diff between two `[main]` sections.
#[derive(Debug)]
pub struct ConfigDiff {
    pub changed: Vec<(String, String, String)>,
    pub added: Vec<(String, String)>,
    pub removed: Vec<(String, String)>,
    pub has_changes: bool,
}

impl View for ConfigDiff {
    type V = DiffView;

    open spec fn view(&self) -> DiffView {
        DiffView {
            changed: triples_view(self.changed@),
            added: pairs_view(self.added@),
            removed: pairs_view(self.removed@),
            has_changes: self.has_changes,
        }
    }
}

impl Clone for ConfigDiff {
    fn clone(&self) -> (r: ConfigDiff)
        ensures
            r@ == self@,
    {
        ConfigDiff {
            changed: copy_triples(&self.changed),
            added: copy_pairs(&self.added),
            removed: copy_pairs(&self.removed),
            has_changes: self.has_changes,
        }
    }
}

/// Result of comparing two whole files.
#[derive(Debug)]
pub struct FileDiff {
    pub main_changes: Option<ConfigDiff>,
    pub repos_added: Vec<RepoId>,
    pub repos_removed: Vec<RepoId>,
    pub repos_modified: IndexMap<RepoId, RepoDiff>,
    pub repos_unchanged: Vec<RepoId>,
    pub has_changes: bool,
}

impl Clone for FileDiff {
    fn clone(&self) -> (r: FileDiff)
        ensures
            r@ == self@,
    {
        FileDiff {
            main_changes: match &self.main_changes {
                Some(c) => Some(c.clone()),
                None => None,
            },
            repos_added: copy_ids(&self.repos_added),
            repos_removed: copy_ids(&self.repos_removed),
            repos_modified: crate::collections::repo_diffs_clone(&self.repos_modified),
            repos_unchanged: copy_ids(&self.repos_unchanged),
            has_changes: self.has_changes,
        }
    }
}

/// Copy a list of repository IDs.
fn copy_ids(v: &Vec<RepoId>) -> (r: Vec<RepoId>)
    ensures
        ids_view(r@) == ids_view(v@),
{
    let mut r: Vec<RepoId> = Vec::new();
    let mut i: usize = 0;
    while i < v.len()
        invariant
            i <= v@.len(),
            r@.len() == i,
            forall|k: int| 0 <= k < i ==> #[trigger] r@[k]@ == v@[k]@,
        decreases v@.len() - i,
    {
        r.push(v[i].clone());
        i = i + 1;
    }
    assert(ids_view(r@) =~= ids_view(v@));
    r
}

/// The plain-value model of a [`FileDiff`].
#[verifier::ext_equal]
pub struct FileDiffView {
    pub main_changes: Option<DiffView>,
    pub repos_added: Seq<Seq<char>>,
    pub repos_removed: Seq<Seq<char>>,
    pub repos_modified: Seq<(Seq<char>, DiffView)>,
    pub repos_unchanged: Seq<Seq<char>>,
    pub has_changes: bool,
}

/// The texts of a list of repository IDs.
pub open spec fn ids_view(v: Seq<RepoId>) -> Seq<Seq<char>> {
    v.map_values(|id: RepoId| id@)
}

impl View for FileDiff {
    type V = FileDiffView;

    open spec fn view(&self) -> FileDiffView {
        FileDiffView {
            main_changes: match self.main_changes {
                Some(c) => Some(c@),
                None => None,
            },
            repos_added: ids_view(self.repos_added@),
            repos_removed: ids_view(self.repos_removed@),
            repos_modified: repo_diff_entries(self.repos_modified),
            repos_unchanged: ids_view(self.repos_unchanged@),
            has_changes: self.has_changes,
        }
    }
}

/// A diff with no entries.
pub open spec fn empty_diff() -> DiffView {
    DiffView { changed: seq![], added: seq![], removed: seq![], has_changes: false }
}

/// The diff after comparing one field: a value only in `b` is added, one
/// only in `a` removed, two different values changed.
pub open spec fn diff_step(d: DiffView, key: Seq<char>, a: Option<Seq<char>>, b: Option<Seq<char>>) -> DiffView {
    match a {
        None => match b {
            Some(nv) => DiffView { added: d.added.push((key, nv)), ..d },
            None => d,
        },
        Some(ov) => match b {
            None => DiffView { removed: d.removed.push((key, ov)), ..d },
            Some(nv) => if ov != nv {
                DiffView { changed: d.changed.push((key, ov, nv)), ..d }
            } else {
                d
            },
        },
    }
}

/// The diff with its flag set to whether it has any entry.
pub open spec fn with_flag(d: DiffView) -> DiffView {
    DiffView { has_changes: d.changed.len() > 0 || d.added.len() > 0 || d.removed.len() > 0, ..d }
}

/// The separator of list values in a diff.
pub open spec fn list_sep() -> Seq<char> {
    seq![',', ' ']
}

/// Texts joined with `, `.
pub open spec fn join_texts(v: Seq<Seq<char>>) -> Seq<char>
    decreases v.len(),
{
    if v.len() == 0 {
        seq![]
    } else if v.len() == 1 {
        v[0]
    } else {
        join_texts(v.drop_last()) + list_sep() + v.last()
    }
}

/// A list value as compared: none when empty, else its items joined.
pub open spec fn list_value(v: Seq<Seq<char>>) -> Option<Seq<char>> {
    if v.len() == 0 {
        None
    } else {
        Some(join_texts(v))
    }
}

/// A boolean option as compared: its canonical text.
pub open spec fn bool_value(b: Option<DnfBool>) -> Option<Seq<char>> {
    match b {
        Some(x) => Some(spec_dnf_bool_text(x)),
        None => None,
    }
}

/// The field-level diff of two repositories (name, baseurl, enabled,
/// gpgcheck, priority, gpgkey).
pub open spec fn spec_diff_repos(a: RepoView, b: RepoView) -> DiffView {
    let d1 = diff_step(empty_diff(), "name"@, a.name, b.name);
    let d2 = diff_step(d1, "baseurl"@, list_value(a.baseurl), list_value(b.baseurl));
    let d3 = diff_step(d2, "enabled"@, bool_value(a.enabled), bool_value(b.enabled));
    let d4 = diff_step(d3, "gpgcheck"@, bool_value(a.gpgcheck), bool_value(b.gpgcheck));
    let d5 = diff_step(
        d4,
        "priority"@,
        match a.priority {
            Some(p) => Some(spec_int_text(p as int)),
            None => None,
        },
        match b.priority {
            Some(p) => Some(spec_int_text(p as int)),
            None => None,
        },
    );
    let d6 = diff_step(d5, "gpgkey"@, list_value(a.gpgkey), list_value(b.gpgkey));
    with_flag(d6)
}

/// The field-level diff of two `[main]` sections (debuglevel, best).
pub open spec fn spec_diff_main(a: MainConfigView, b: MainConfigView) -> DiffView {
    let d1 = diff_step(
        empty_diff(),
        "debuglevel"@,
        match a.debuglevel {
            Some(v) => Some(spec_decimal(v as nat)),
            None => None,
        },
        match b.debuglevel {
            Some(v) => Some(spec_decimal(v as nat)),
            None => None,
        },
    );
    let d2 = diff_step(d1, "best"@, bool_value(a.best), bool_value(b.best));
    with_flag(d2)
}

/// The repositories of `bs` sorted by how they compare with `ar`: added
/// (not in `ar`), modified (with their diff) and unchanged.
pub open spec fn classify_repos(
    ar: Seq<(Seq<char>, crate::repofile::SectionBlockView<RepoView>)>,
    bs: Seq<(Seq<char>, crate::repofile::SectionBlockView<RepoView>)>,
) -> (Seq<Seq<char>>, Seq<(Seq<char>, DiffView)>, Seq<Seq<char>>)
    decreases bs.len(),
{
    if bs.len() == 0 {
        (seq![], seq![], seq![])
    } else {
        let acc = classify_repos(ar, bs.drop_last());
        let id = bs.last().0;
        match map_get(ar, id) {
            None => (acc.0.push(id), acc.1, acc.2),
            Some(ba) => {
                let rd = spec_diff_repos(ba.data, bs.last().1.data);
                if rd.has_changes {
                    (acc.0, map_insert(acc.1, id, rd), acc.2)
                } else {
                    (acc.0, acc.1, acc.2.push(id))
                }
            },
        }
    }
}

/// The IDs of `ar` that `br` lacks, in order.
pub open spec fn removed_repos(
    ar: Seq<(Seq<char>, crate::repofile::SectionBlockView<RepoView>)>,
    br: Seq<(Seq<char>, crate::repofile::SectionBlockView<RepoView>)>,
) -> Seq<Seq<char>>
    decreases ar.len(),
{
    if ar.len() == 0 {
        seq![]
    } else {
        let acc = removed_repos(ar.drop_last(), br);
        if map_get(br, ar.last().0) is None {
            acc.push(ar.last().0)
        } else {
            acc
        }
    }
}

/// How the `[main]` sections compare: the diff kept when it has changes,
/// and whether the sections differ at all (one present, one absent, or a
/// diff with changes).
pub open spec fn main_comparison(a: RepoFileView, b: RepoFileView) -> (Option<DiffView>, bool) {
    match a.main {
        Some(am) => match b.main {
            Some(bm) => {
                let cd = spec_diff_main(am.data, bm.data);
                if cd.has_changes {
                    (Some(cd), true)
                } else {
                    (None, false)
                }
            },
            None => (None, true),
        },
        None => match b.main {
            Some(_) => (None, true),
            None => (None, false),
        },
    }
}

/// The diff of two whole files.
pub open spec fn spec_diff_files(a: RepoFileView, b: RepoFileView) -> FileDiffView {
    let m = main_comparison(a, b);
    let c = classify_repos(a.repos, b.repos);
    let removed = removed_repos(a.repos, b.repos);
    FileDiffView {
        main_changes: m.0,
        repos_added: c.0,
        repos_removed: removed,
        repos_modified: c.1,
        repos_unchanged: c.2,
        has_changes: m.1 || c.0.len() > 0 || c.1.len() > 0 || removed.len() > 0,
    }
}

/// Record how one field compares (see [`diff_step`]).
fn diff_opt(diff: &mut RepoDiff, key: &str, a: Option<String>, b: Option<String>)
    ensures
        final(diff)@ == diff_step(old(diff)@, key@, crate::types::opt_view(a), crate::types::opt_view(b)),
{
    let ghost d = diff@;
    match a {
        None => match b {
            Some(nv) => {
                diff.added.push((owned(key), nv));
                assert(pairs_view(diff.added@) =~= d.added.push((key@, nv@)));
            },
            None => {},
        },
        Some(ov) => match b {
            None => {
                diff.removed.push((owned(key), ov));
                assert(pairs_view(diff.removed@) =~= d.removed.push((key@, ov@)));
            },
            Some(nv) => {
                if !str_eq(ov.as_str(), nv.as_str()) {
                    let ghost (o, n) = (ov@, nv@);
                    diff.changed.push((owned(key), ov, nv));
                    assert(triples_view(diff.changed@) =~= d.changed.push((key@, o, n)));
                }
            },
        },
    }
}

/// Record how one `[main]` field compares (see [`diff_step`]).
fn diff_opt_cfg(diff: &mut ConfigDiff, key: &str, a: Option<String>, b: Option<String>)
    ensures
        final(diff)@ == diff_step(old(diff)@, key@, crate::types::opt_view(a), crate::types::opt_view(b)),
{
    let ghost d = diff@;
    match a {
        None => match b {
            Some(nv) => {
                diff.added.push((owned(key), nv));
                assert(pairs_view(diff.added@) =~= d.added.push((key@, nv@)));
            },
            None => {},
        },
        Some(ov) => match b {
            None => {
                diff.removed.push((owned(key), ov));
                assert(pairs_view(diff.removed@) =~= d.removed.push((key@, ov@)));
            },
            Some(nv) => {
                if !str_eq(ov.as_str(), nv.as_str()) {
                    let ghost (o, n) = (ov@, nv@);
                    diff.changed.push((owned(key), ov, nv));
                    assert(triples_view(diff.changed@) =~= d.changed.push((key@, o, n)));
                }
            },
        },
    }
}

/// Texts joined with `, `.
fn join_strings(v: &Vec<String>) -> (r: String)
    ensures
        r@ == join_texts(strings_view(v@)),
{
    let ghost sv = strings_view(v@);
    let mut r = String::new();
    let mut i: usize = 0;
    while i < v.len()
        invariant
            i <= v@.len(),
            sv == strings_view(v@),
            r@ == join_texts(sv.subrange(0, i as int)),
        decreases v@.len() - i,
    {
        if i > 0 {
            push_char(&mut r, ',');
            push_char(&mut r, ' ');
        }
        push_str(&mut r, v[i].as_str());
        proof {
            let next = sv.subrange(0, i + 1);
            assert(next.drop_last() =~= sv.subrange(0, i as int));
            if i == 0 {
                assert(r@ =~= next[0]);
            } else {
                assert(r@ =~= join_texts(next.drop_last()) + list_sep() + next.last());
            }
        }
        i = i + 1;
    }
    assert(sv.subrange(0, v@.len() as int) =~= sv);
    r
}

/// URLs joined with `, `.
fn join_urls(v: &Vec<Url>) -> (r: String)
    ensures
        r@ == join_texts(urls_view(v@)),
{
    let ghost sv = urls_view(v@);
    let mut r = String::new();
    let mut i: usize = 0;
    while i < v.len()
        invariant
            i <= v@.len(),
            sv == urls_view(v@),
            r@ == join_texts(sv.subrange(0, i as int)),
        decreases v@.len() - i,
    {
        if i > 0 {
            push_char(&mut r, ',');
            push_char(&mut r, ' ');
        }
        push_str(&mut r, v[i].as_str());
        proof {
            let next = sv.subrange(0, i + 1);
            assert(next.drop_last() =~= sv.subrange(0, i as int));
            if i == 0 {
                assert(r@ =~= next[0]);
            } else {
                assert(r@ =~= join_texts(next.drop_last()) + list_sep() + next.last());
            }
        }
        i = i + 1;
    }
    assert(sv.subrange(0, v@.len() as int) =~= sv);
    r
}

fn bool_text(b: Option<DnfBool>) -> (r: Option<String>)
    ensures
        crate::types::opt_view(r) == bool_value(b),
{
    match b {
        Some(x) => Some(x.to_string()),
        None => None,
    }
}

/// Compare two repositories field by field: name, baseurl, enabled,
/// gpgcheck, priority and gpgkey (lists compared as their items joined
/// with `, `); `has_changes` tells whether any entry was recorded.
pub fn diff_repos(a: &Repo, b: &Repo) -> (r: RepoDiff)
    ensures
        r@ == spec_diff_repos(a@, b@),
{
    let mut diff = RepoDiff { changed: Vec::new(), added: Vec::new(), removed: Vec::new(), has_changes: false };
    assert(diff@ =~= empty_diff());
    let an = match &a.name {
        Some(n) => Some(owned(n.as_ref())),
        None => None,
    };
    let bn = match &b.name {
        Some(n) => Some(owned(n.as_ref())),
        None => None,
    };
    diff_opt(&mut diff, "name", an, bn);
    let au = if a.baseurl.len() == 0 { None } else { Some(join_urls(&a.baseurl)) };
    let bu = if b.baseurl.len() == 0 { None } else { Some(join_urls(&b.baseurl)) };
    diff_opt(&mut diff, "baseurl", au, bu);
    diff_opt(&mut diff, "enabled", bool_text(a.enabled), bool_text(b.enabled));
    diff_opt(&mut diff, "gpgcheck", bool_text(a.gpgcheck), bool_text(b.gpgcheck));
    let ap = match a.priority {
        Some(p) => Some(int_text(p.into_inner() as i64)),
        None => None,
    };
    let bp = match b.priority {
        Some(p) => Some(int_text(p.into_inner() as i64)),
        None => None,
    };
    diff_opt(&mut diff, "priority", ap, bp);
    let ak = if a.gpgkey.len() == 0 { None } else { Some(join_strings(&a.gpgkey)) };
    let bk = if b.gpgkey.len() == 0 { None } else { Some(join_strings(&b.gpgkey)) };
    diff_opt(&mut diff, "gpgkey", ak, bk);
    diff.has_changes = diff.changed.len() > 0 || diff.added.len() > 0 || diff.removed.len() > 0;
    diff
}

/// Compare two `[main]` sections field by field (debuglevel, best).
pub fn diff_main(a: &MainConfig, b: &MainConfig) -> (r: ConfigDiff)
    ensures
        r@ == spec_diff_main(a@, b@),
{
    let mut diff = ConfigDiff { changed: Vec::new(), added: Vec::new(), removed: Vec::new(), has_changes: false };
    assert(diff@ =~= empty_diff());
    let ad = match a.debuglevel {
        Some(d) => Some(decimal_text(d.into_inner() as u64)),
        None => None,
    };
    let bd = match b.debuglevel {
        Some(d) => Some(decimal_text(d.into_inner() as u64)),
        None => None,
    };
    diff_opt_cfg(&mut diff, "debuglevel", ad, bd);
    diff_opt_cfg(&mut diff, "best", bool_text(a.best), bool_text(b.best));
    diff.has_changes = diff.changed.len() > 0 || diff.added.len() > 0 || diff.removed.len() > 0;
    diff
}

/// Compare two files: the `[main]` sections, then each repository of `b`
/// (added, modified or unchanged), then those of `a` missing from `b`.
pub fn diff_files(a: &RepoFile, b: &RepoFile) -> (r: FileDiff)
    ensures
        r@ == spec_diff_files(a@, b@),
{
    let ghost av = a@;
    let ghost bv = b@;
    let (main_changes, main_differs) = match &a.main {
        Some(am) => match &b.main {
            Some(bm) => {
                let cd = diff_main(&am.data, &bm.data);
                if cd.has_changes {
                    (Some(cd), true)
                } else {
                    (None, false)
                }
            },
            None => (None, true),
        },
        None => match &b.main {
            Some(_) => (None, true),
            None => (None, false),
        },
    };
    let mut added: Vec<RepoId> = Vec::new();
    let mut modified: IndexMap<RepoId, RepoDiff> = repo_diffs_new();
    let mut unchanged: Vec<RepoId> = Vec::new();
    let nb = repo_blocks_len(&b.repos);
    let mut i: usize = 0;
    while i < nb
        invariant
            i <= nb == bv.repos.len(),
            av == a@,
            bv == b@,
            classify_repos(av.repos, bv.repos.subrange(0, i as int)) == (
                ids_view(added@),
                repo_diff_entries(modified),
                ids_view(unchanged@),
            ),
        decreases nb - i,
    {
        proof {
            assert(bv.repos.subrange(0, i + 1).drop_last() =~= bv.repos.subrange(0, i as int));
        }
        match repo_blocks_get_index(&b.repos, i) {
            Some((id, bb)) => {
                match repo_blocks_get(&a.repos, id) {
                    None => {
                        let ghost old_added = added@;
                        added.push(id.clone());
                        assert(ids_view(added@) =~= ids_view(old_added).push(id@));
                    },
                    Some(ba) => {
                        let rd = diff_repos(&ba.data, &bb.data);
                        if rd.has_changes {
                            repo_diffs_insert(&mut modified, id.clone(), rd);
                        } else {
                            let ghost old_unchanged = unchanged@;
                            unchanged.push(id.clone());
                            assert(ids_view(unchanged@) =~= ids_view(old_unchanged).push(id@));
                        }
                    },
                }
            },
            None => {},
        }
        i = i + 1;
    }
    assert(bv.repos.subrange(0, nb as int) =~= bv.repos);
    let mut removed: Vec<RepoId> = Vec::new();
    let na = repo_blocks_len(&a.repos);
    let mut k: usize = 0;
    while k < na
        invariant
            k <= na == av.repos.len(),
            av == a@,
            bv == b@,
            removed_repos(av.repos.subrange(0, k as int), bv.repos) == ids_view(removed@),
        decreases na - k,
    {
        proof {
            assert(av.repos.subrange(0, k + 1).drop_last() =~= av.repos.subrange(0, k as int));
        }
        match repo_blocks_get_index(&a.repos, k) {
            Some((id, _)) => {
                if !repo_blocks_contains(&b.repos, id) {
                    let ghost old_removed = removed@;
                    removed.push(id.clone());
                    assert(ids_view(removed@) =~= ids_view(old_removed).push(id@));
                }
            },
            None => {},
        }
        k = k + 1;
    }
    assert(av.repos.subrange(0, na as int) =~= av.repos);
    let has_changes = main_differs || added.len() > 0 || repo_diffs_len_nonzero(&modified) || removed.len() > 0;
    let r = FileDiff {
        main_changes: main_changes,
        repos_added: added,
        repos_removed: removed,
        repos_modified: modified,
        repos_unchanged: unchanged,
        has_changes: has_changes,
    };
    assert(r@ =~= spec_diff_files(av, bv));
    r
}

/// Whether a map of repository diffs has an entry.
fn repo_diffs_len_nonzero(m: &IndexMap<RepoId, RepoDiff>) -> (r: bool)
    ensures
        r == (repo_diff_entries(*m).len() > 0),
{
    crate::collections::repo_diffs_len(m) > 0
}

} // verus!
