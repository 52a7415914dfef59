//! A directory of `.repo` files, such as `/etc/yum.repos.d/`.
//!
//! A [`ReposDir`] holds the parsed files of a directory by file name, in
//! file-name order, and answers questions across them. Reading and writing
//! the files on disk is left to the caller: [`repo_file_names`] picks and
//! orders the names to read, [`ReposDir::from_loaded`] parses what was
//! read, and [`ReposDir::render_all`] gives the texts to write.

use crate::collections::{
    file_entries, files_contains, files_get, files_get_index, files_get_mut, files_insert,
    files_len, files_new, files_shift_remove, key_index, lemma_key_index, lemma_key_index_at,
    map_get, map_insert, map_remove,
};
use crate::parse::spec_parse;
use crate::render::spec_render;
use crate::repo::{Repo, RepoView};
use crate::repofile::{empty_file_view, RepoFile, RepoFileView, SectionBlockView};
use crate::text::{copy_string, owned, push_str, str_eq, strings_view};
use crate::types::RepoId;
use crate::validate::{
    empty_report, issues_view, spec_validate_repo, IssueLevel, IssueLocation, IssueView,
    LocationView, ReportView, ValidationIssue, ValidationReport,
};
use indexmap::IndexMap;
use vstd::prelude::*;

verus! {

// ============================================================================
// Choosing the files to read
// ============================================================================

/// A file name that ends in `.repo`.
pub open spec fn is_repo_file_name(s: Seq<char>) -> bool {
    s.len() >= 5 && s.subrange(s.len() - 5, s.len() as int) == seq!['.', 'r', 'e', 'p', 'o']
}

/// Lexicographic order of texts by character.
pub open spec fn text_lt(a: Seq<char>, b: Seq<char>) -> bool
    decreases a.len(),
{
    if a.len() == 0 {
        b.len() > 0
    } else if b.len() == 0 {
        false
    } else if a[0] != b[0] {
        (a[0] as u32) < (b[0] as u32)
    } else {
        text_lt(a.drop_first(), b.drop_first())
    }
}

proof fn lemma_text_lt_asym(a: Seq<char>, b: Seq<char>)
    requires
        text_lt(a, b),
    ensures
        !text_lt(b, a),
    decreases a.len(),
{
    if a.len() > 0 && b.len() > 0 && a[0] == b[0] {
        lemma_text_lt_asym(a.drop_first(), b.drop_first());
    }
}

/// The texts at `i` and `i + 1` are in order.
pub open spec fn in_order_at(s: Seq<Seq<char>>, i: int) -> bool {
    !text_lt(s[i + 1], s[i])
}

/// Each text is at most the next one.
pub open spec fn texts_sorted(s: Seq<Seq<char>>) -> bool {
    forall|i: int| 0 <= i < s.len() - 1 ==> #[trigger] in_order_at(s, i)
}

/// The names of `s` that end in `.repo`, in order.
pub open spec fn repo_names(s: Seq<Seq<char>>) -> Seq<Seq<char>>
    decreases s.len(),
{
    if s.len() == 0 {
        seq![]
    } else if is_repo_file_name(s.last()) {
        repo_names(s.drop_last()).push(s.last())
    } else {
        repo_names(s.drop_last())
    }
}

fn ends_with_repo(s: &String) -> (r: bool)
    ensures
        r == is_repo_file_name(s@),
{
    let c = crate::text::chars_of(s.as_str());
    let n = c.len();
    if n < 5 {
        return false;
    }
    let r = c[n - 5] == '.' && c[n - 4] == 'r' && c[n - 3] == 'e' && c[n - 2] == 'p' && c[n - 1]
        == 'o';
    assert(r == (c@.subrange(n - 5, n as int) =~= seq!['.', 'r', 'e', 'p', 'o']));
    r
}

/// Compare two texts character by character.
fn text_less(a: &String, b: &String) -> (r: bool)
    ensures
        r == text_lt(a@, b@),
{
    let x = crate::text::chars_of(a.as_str());
    let y = crate::text::chars_of(b.as_str());
    let mut i: usize = 0;
    assert(x@.subrange(0, x@.len() as int) =~= x@);
    assert(y@.subrange(0, y@.len() as int) =~= y@);
    while i < x.len() && i < y.len() && x[i] == y[i]
        invariant
            i <= x@.len(),
            i <= y@.len(),
            text_lt(a@, b@) == text_lt(x@.subrange(i as int, x@.len() as int), y@.subrange(
                i as int,
                y@.len() as int,
            )),
            x@ == a@,
            y@ == b@,
        decreases x@.len() - i,
    {
        assert(x@.subrange(i + 1, x@.len() as int) =~= x@.subrange(i as int, x@.len() as int).drop_first());
        assert(y@.subrange(i + 1, y@.len() as int) =~= y@.subrange(i as int, y@.len() as int).drop_first());
        i = i + 1;
    }
    if i == x.len() {
        i < y.len()
    } else if i == y.len() {
        false
    } else {
        (x[i] as u32) < (y[i] as u32)
    }
}

/// The names that end in `.repo`, in character order: the files of a
/// directory listing that are read.
pub fn repo_file_names(names: &Vec<String>) -> (r: Vec<String>)
    ensures
        texts_sorted(strings_view(r@)),
        strings_view(r@).to_multiset() == repo_names(strings_view(names@)).to_multiset(),
{
    let ghost nv = strings_view(names@);
    let mut r: Vec<String> = Vec::new();
    let mut i: usize = 0;
    assert(nv.subrange(0, 0) =~= Seq::<Seq<char>>::empty());
    assert(strings_view(r@) =~= Seq::<Seq<char>>::empty());
    while i < names.len()
        invariant
            i <= names@.len(),
            nv == strings_view(names@),
            texts_sorted(strings_view(r@)),
            strings_view(r@).to_multiset() == repo_names(nv.subrange(0, i as int)).to_multiset(),
        decreases names@.len() - i,
    {
        let ghost prefix = nv.subrange(0, i as int);
        proof {
            assert(nv.subrange(0, i + 1).drop_last() =~= prefix);
        }
        if ends_with_repo(&names[i]) {
            let x = copy_string(&names[i]);
            let mut p: usize = 0;
            while p < r.len() && !text_less(&x, &r[p])
                invariant
                    p <= r@.len(),
                    forall|k: int| 0 <= k < p ==> !text_lt(x@, #[trigger] strings_view(r@)[k]),
                decreases r@.len() - p,
            {
                p = p + 1;
            }
            let ghost old_v = strings_view(r@);
            r.insert(p, x);
            proof {
                let v = strings_view(r@);
                assert(v =~= old_v.insert(p as int, x@));
                assert forall|k: int| 0 <= k < v.len() - 1 implies #[trigger] in_order_at(v, k) by {
                    if k < p as int - 1 {
                        assert(in_order_at(old_v, k));
                    } else if k == p as int - 1 {
                        assert(!text_lt(x@, old_v[k]));
                    } else if k == p as int {
                        assert(text_lt(x@, old_v[p as int]));
                        lemma_text_lt_asym(x@, old_v[p as int]);
                    } else {
                        assert(in_order_at(old_v, k - 1));
                    }
                }
                vstd::seq_lib::to_multiset_insert(old_v, p as int, x@);
                vstd::seq_lib::to_multiset_build(repo_names(prefix), x@);
                assert(nv.subrange(0, i + 1).last() == x@);
            }
        } else {
            assert(nv.subrange(0, i + 1).last() == names@[i as int]@);
        }
        i = i + 1;
    }
    assert(nv.subrange(0, names@.len() as int) =~= nv);
    r
}

// ============================================================================
// The directory
// ============================================================================

/// The parsed `.repo` files of a directory, by file name.
#[derive(Debug)]
pub struct ReposDir {
    path: String,
    files: IndexMap<String, RepoFile>,
}

/// The plain-value model of a [`ReposDir`].
#[verifier::ext_equal]
pub struct ReposDirView {
    pub path: Seq<char>,
    pub files: Seq<(Seq<char>, RepoFileView)>,
}

impl View for ReposDir {
    type V = ReposDirView;

    closed spec fn view(&self) -> ReposDirView {
        ReposDirView { path: self.path@, files: file_entries(self.files) }
    }
}

/// The files kept from what was read: each text that parses, under its
/// name, in order.
pub open spec fn loaded_files(loaded: Seq<(Seq<char>, Seq<char>)>) -> Seq<(Seq<char>, RepoFileView)>
    decreases loaded.len(),
{
    if loaded.len() == 0 {
        seq![]
    } else {
        let acc = loaded_files(loaded.drop_last());
        match spec_parse(loaded.last().1) {
            Ok(f) => map_insert(acc, loaded.last().0, f),
            Err(_) => acc,
        }
    }
}

/// Each repository of the directory with its file name and ID, file by
/// file and in order within each file.
pub open spec fn dir_repos(files: Seq<(Seq<char>, RepoFileView)>) -> Seq<(Seq<char>, Seq<char>, RepoView)>
    decreases files.len(),
{
    if files.len() == 0 {
        seq![]
    } else {
        dir_repos(files.drop_last()) + file_repos(files.last().0, files.last().1.repos)
    }
}

/// The repositories of one file with its name and their IDs.
pub open spec fn file_repos(name: Seq<char>, rs: Seq<(Seq<char>, SectionBlockView<RepoView>)>) -> Seq<
    (Seq<char>, Seq<char>, RepoView),
> {
    rs.map_values(|p: (Seq<char>, SectionBlockView<RepoView>)| (name, p.0, p.1.data))
}

/// The file name of the first repository with this ID, if any.
pub open spec fn first_with_id(flat: Seq<(Seq<char>, Seq<char>, RepoView)>, id: Seq<char>) -> Option<
    Seq<char>,
>
    decreases flat.len(),
{
    if flat.len() == 0 {
        None
    } else if flat[0].1 == id {
        Some(flat[0].0)
    } else {
        first_with_id(flat.drop_first(), id)
    }
}

proof fn lemma_first_with_id_at(flat: Seq<(Seq<char>, Seq<char>, RepoView)>, id: Seq<char>, j: int)
    requires
        0 <= j <= flat.len(),
        forall|k: int| 0 <= k < j ==> (#[trigger] flat[k]).1 != id,
    ensures
        j < flat.len() && flat[j].1 == id ==> first_with_id(flat, id) == Some(flat[j].0),
        j == flat.len() ==> first_with_id(flat, id) is None,
    decreases j,
{
    if j > 0 {
        let t = flat.drop_first();
        assert forall|k: int| 0 <= k < j - 1 implies (#[trigger] t[k]).1 != id by {
            assert(t[k] == flat[k + 1]);
        }
        lemma_first_with_id_at(t, id, j - 1);
        assert(flat[0].1 != id);
    }
}

/// The finding about a repository ID that an earlier file already uses.
pub open spec fn duplicate_issue(fname: Seq<char>, id: Seq<char>, existing: Seq<char>) -> IssueView {
    IssueView {
        level: IssueLevel::Error,
        location: LocationView::File(fname),
        field: None,
        message: "duplicate repo ID '"@ + id + "' already defined in '"@ + existing + "'"@,
    }
}

/// The report on the repositories of a directory, in order: a duplicate
/// ID is an error naming the first file that has it; each repository's own
/// findings follow.
pub open spec fn dir_report(flat: Seq<(Seq<char>, Seq<char>, RepoView)>) -> ReportView
    decreases flat.len(),
{
    if flat.len() == 0 {
        empty_report()
    } else {
        let acc = dir_report(flat.drop_last());
        let last = flat.last();
        let own = spec_validate_repo(last.2);
        let dup: Seq<IssueView> = match first_with_id(flat.drop_last(), last.1) {
            Some(e) => seq![duplicate_issue(last.0, last.1, e)],
            None => seq![],
        };
        ReportView { errors: acc.errors + dup + own.errors, warnings: acc.warnings + own.warnings }
    }
}


proof fn lemma_first_with_id_some(flat: Seq<(Seq<char>, Seq<char>, RepoView)>, id: Seq<char>, i: int)
    requires
        0 <= i < flat.len(),
        flat[i].1 == id,
    ensures
        first_with_id(flat, id) is Some,
    decreases i,
{
    if flat[0].1 != id {
        assert(flat.drop_first()[i - 1] == flat[i]);
        lemma_first_with_id_some(flat.drop_first(), id, i - 1);
    }
}

proof fn lemma_report_errors_grow(flat: Seq<(Seq<char>, Seq<char>, RepoView)>, n: int)
    requires
        0 <= n <= flat.len(),
    ensures
        dir_report(flat.subrange(0, n)).errors.len() <= dir_report(flat).errors.len(),
    decreases flat.len() - n,
{
    if n < flat.len() {
        let next = flat.subrange(0, n + 1);
        assert(next.drop_last() =~= flat.subrange(0, n));
        lemma_report_errors_grow(flat, n + 1);
    } else {
        assert(flat.subrange(0, n) =~= flat);
    }
}

/// Two repositories of a directory that share an ID make its report fail.
pub proof fn lemma_duplicate_id_fails(files: Seq<(Seq<char>, RepoFileView)>, i: int, j: int)
    requires
        0 <= i < j < dir_repos(files).len(),
        dir_repos(files)[i].1 == dir_repos(files)[j].1,
    ensures
        dir_report(dir_repos(files)).errors.len() > 0,
{
    let flat = dir_repos(files);
    let pre = flat.subrange(0, j + 1);
    assert(pre.drop_last() =~= flat.subrange(0, j));
    assert(flat.subrange(0, j)[i] == flat[i]);
    lemma_first_with_id_some(flat.subrange(0, j), flat[j].1, i);
    assert(pre.last() == flat[j]);
    lemma_report_errors_grow(flat, j + 1);
}

proof fn lemma_insert_absent<V>(e: Seq<(Seq<char>, V)>, k: Seq<char>, a: V, b: V)
    requires
        key_index(e, k) is None,
    ensures
        key_index(map_insert(e, k, a), k) == Some(e.len() as int),
        map_insert(e, k, a).update(e.len() as int, (k, b)) == map_insert(e, k, b),
{
    lemma_key_index(e, k);
    lemma_key_index_at(map_insert(e, k, a), k, e.len() as int);
    assert(map_insert(e, k, a).update(e.len() as int, (k, b)) =~= map_insert(e, k, b));
}

impl ReposDir {
    /// A directory at `path` holding the files that were read from it:
    /// each `(name, text)` whose text parses is kept under its name.
    pub fn from_loaded(path: &str, loaded: Vec<(String, String)>) -> (r: ReposDir)
        ensures
            r@.path == path@,
            r@.files == loaded_files(loaded@.map_values(|p: (String, String)| (p.0@, p.1@))),
    {
        let ghost lv = loaded@.map_values(|p: (String, String)| (p.0@, p.1@));
        let mut files = files_new();
        let mut i: usize = 0;
        while i < loaded.len()
            invariant
                i <= loaded@.len(),
                lv == loaded@.map_values(|p: (String, String)| (p.0@, p.1@)),
                file_entries(files) == loaded_files(lv.subrange(0, i as int)),
            decreases loaded@.len() - i,
        {
            proof {
                assert(lv.subrange(0, i + 1).drop_last() =~= lv.subrange(0, i as int));
            }
            let (name, text) = &loaded[i];
            match RepoFile::parse(text.as_str()) {
                Ok(rf) => {
                    files_insert(&mut files, copy_string(name), rf);
                },
                Err(_) => {},
            }
            i = i + 1;
        }
        assert(lv.subrange(0, loaded@.len() as int) =~= lv);
        ReposDir { path: owned(path), files: files }
    }

    /// The directory's path.
    pub fn path(&self) -> (r: &str)
        ensures
            r@ == self@.path,
    {
        self.path.as_str()
    }

    /// The text of each file as rendered, with its name, in order: what
    /// saving all files writes.
    pub fn render_all(&self) -> (r: Vec<(String, String)>)
        ensures
            r@.len() == self@.files.len(),
            forall|i: int|
                0 <= i < r@.len() ==> (#[trigger] r@[i]).0@ == self@.files[i].0 && r@[i].1@
                    == spec_render(self@.files[i].1),
    {
        let n = files_len(&self.files);
        let mut r: Vec<(String, String)> = Vec::new();
        let mut i: usize = 0;
        while i < n
            invariant
                i <= n == self@.files.len(),
                r@.len() == i,
                forall|k: int|
                    0 <= k < i ==> (#[trigger] r@[k]).0@ == self@.files[k].0 && r@[k].1@
                        == spec_render(self@.files[k].1),
            decreases n - i,
        {
            match files_get_index(&self.files, i) {
                Some((name, rf)) => {
                    r.push((copy_string(name), rf.render()));
                },
                None => {
                    return r;
                },
            }
            i = i + 1;
        }
        r
    }

    /// The rendered text of the named file, if the directory holds it:
    /// what saving that file writes.
    pub fn rendered(&self, filename: &str) -> (r: Option<String>)
        ensures
            match r {
                Some(t) => map_get(self@.files, filename@) matches Some(f) && t@ == spec_render(f),
                None => map_get(self@.files, filename@) is None,
            },
    {
        match files_get(&self.files, filename) {
            Some(rf) => Some(rf.render()),
            None => None,
        }
    }

    /// The file names, in order.
    pub fn file_names(&self) -> (r: Vec<&str>)
        ensures
            r@.len() == self@.files.len(),
            forall|i: int| 0 <= i < r@.len() ==> (#[trigger] r@[i])@ == self@.files[i].0,
    {
        let n = files_len(&self.files);
        let mut r: Vec<&str> = Vec::new();
        let mut i: usize = 0;
        while i < n
            invariant
                i <= n == self@.files.len(),
                r@.len() == i,
                forall|k: int| 0 <= k < i ==> (#[trigger] r@[k])@ == self@.files[k].0,
            decreases n - i,
        {
            match files_get_index(&self.files, i) {
                Some((name, _)) => {
                    r.push(name.as_str());
                },
                None => {
                    return r;
                },
            }
            i = i + 1;
        }
        r
    }

    /// The named file, if present.
    pub fn get_file(&self, filename: &str) -> (r: Option<&RepoFile>)
        ensures
            match r {
                Some(f) => map_get(self@.files, filename@) == Some(f@),
                None => map_get(self@.files, filename@) is None,
            },
    {
        files_get(&self.files, filename)
    }

    /// A mutable reference to the named file, if present; what is written
    /// through it becomes that file.
    pub fn get_file_mut(&mut self, filename: &str) -> (r: Option<&mut RepoFile>)
        ensures
            match r {
                Some(f) => {
                    &&& map_get(old(self)@.files, filename@) == Some((*f)@)
                    &&& final(self)@ == (ReposDirView {
                        files: map_insert(old(self)@.files, filename@, (*final(f))@),
                        ..old(self)@
                    })
                },
                None => map_get(old(self)@.files, filename@) is None && final(self)@ == old(self)@,
            },
    {
        files_get_mut(&mut self.files, filename)
    }

    /// Store a file under a name, replacing the file of that name in place
    /// or appending it.
    pub fn set_file(&mut self, filename: &str, file: RepoFile)
        ensures
            final(self)@ == (ReposDirView {
                files: map_insert(old(self)@.files, filename@, file@),
                ..old(self)@
            }),
    {
        files_insert(&mut self.files, owned(filename), file);
    }

    /// Forget the named file and return it; the others keep their order.
    /// (Deleting it from disk is the caller's part.)
    pub fn remove_file(&mut self, filename: &str) -> (r: Option<RepoFile>)
        ensures
            final(self)@ == (ReposDirView { files: map_remove(old(self)@.files, filename@), ..old(self)@ }),
            match r {
                Some(f) => map_get(old(self)@.files, filename@) == Some(f@),
                None => map_get(old(self)@.files, filename@) is None,
            },
    {
        files_shift_remove(&mut self.files, filename)
    }

    /// The named file, created empty at the end if absent; what is written
    /// through the reference becomes that file.
    pub fn create_file(&mut self, filename: &str) -> (r: &mut RepoFile)
        ensures
            (*r)@ == (match map_get(old(self)@.files, filename@) {
                Some(f) => f,
                None => empty_file_view(),
            }),
            final(self)@ == (ReposDirView {
                files: map_insert(old(self)@.files, filename@, (*final(r))@),
                ..old(self)@
            }),
    {
        let ghost f0 = self@.files;
        if !files_contains(&self.files, filename) {
            files_insert(&mut self.files, owned(filename), RepoFile::new());
            proof {
                lemma_insert_absent(f0, filename@, empty_file_view(), empty_file_view());
            }
        }
        let ghost f1 = self@.files;
        match files_get_mut(&mut self.files, filename) {
            Some(f) => {
                proof {
                    if key_index(f0, filename@) is None {
                        assert forall|v: RepoFileView| #[trigger] f1.update(f0.len() as int, (filename@, v))
                            == map_insert(f0, filename@, v) by {
                            lemma_insert_absent(f0, filename@, empty_file_view(), v);
                        }
                    }
                }
                f
            },
            None => {
                proof {
                    lemma_insert_absent(f0, filename@, empty_file_view(), empty_file_view());
                }
                vstd::pervasive::unreached()
            },
        }
    }

    /// Each repository with the name of its file, file by file.
    pub fn all_repos(&self) -> (r: Vec<(&str, &Repo)>)
        ensures
            r@.len() == dir_repos(self@.files).len(),
            forall|i: int|
                0 <= i < r@.len() ==> (#[trigger] r@[i]).0@ == dir_repos(self@.files)[i].0 && r@[i].1@
                    == dir_repos(self@.files)[i].2,
    {
        let flat = self.flat_repos();
        let mut r: Vec<(&str, &Repo)> = Vec::new();
        let mut i: usize = 0;
        while i < flat.len()
            invariant
                i <= flat@.len(),
                flat@.len() == dir_repos(self@.files).len(),
                forall|k: int|
                    0 <= k < flat@.len() ==> (#[trigger] flat@[k]).0@ == dir_repos(self@.files)[k].0
                        && flat@[k].1@ == dir_repos(self@.files)[k].1 && flat@[k].2@ == dir_repos(
                        self@.files,
                    )[k].2,
                r@.len() == i,
                forall|k: int|
                    0 <= k < i ==> (#[trigger] r@[k]).0@ == dir_repos(self@.files)[k].0 && r@[k].1@
                        == dir_repos(self@.files)[k].2,
            decreases flat@.len() - i,
        {
            let (name, _, repo) = flat[i];
            r.push((name, repo));
            i = i + 1;
        }
        r
    }

    /// Each repository with the name of its file, file by file (the same
    /// list as [`all_repos`](ReposDir::all_repos)).
    pub fn iter_repos(&self) -> (r: Vec<(&str, &Repo)>)
        ensures
            r@.len() == dir_repos(self@.files).len(),
            forall|i: int|
                0 <= i < r@.len() ==> (#[trigger] r@[i]).0@ == dir_repos(self@.files)[i].0 && r@[i].1@
                    == dir_repos(self@.files)[i].2,
    {
        self.all_repos()
    }

    /// Each repository with its file name and ID, file by file.
    fn flat_repos(&self) -> (r: Vec<(&str, &RepoId, &Repo)>)
        ensures
            r@.len() == dir_repos(self@.files).len(),
            forall|i: int|
                0 <= i < r@.len() ==> (#[trigger] r@[i]).0@ == dir_repos(self@.files)[i].0 && r@[i].1@
                    == dir_repos(self@.files)[i].1 && r@[i].2@ == dir_repos(self@.files)[i].2,
    {
        let ghost fs = self@.files;
        let n = files_len(&self.files);
        let mut r: Vec<(&str, &RepoId, &Repo)> = Vec::new();
        let mut i: usize = 0;
        while i < n
            invariant
                i <= n == fs.len(),
                fs == self@.files,
                r@.len() == dir_repos(fs.subrange(0, i as int)).len(),
                forall|k: int|
                    0 <= k < r@.len() ==> (#[trigger] r@[k]).0@ == dir_repos(fs.subrange(0, i as int))[k].0
                        && r@[k].1@ == dir_repos(fs.subrange(0, i as int))[k].1 && r@[k].2@
                        == dir_repos(fs.subrange(0, i as int))[k].2,
            decreases n - i,
        {
            let ghost before = dir_repos(fs.subrange(0, i as int));
            proof {
                assert(fs.subrange(0, i + 1).drop_last() =~= fs.subrange(0, i as int));
            }
            match files_get_index(&self.files, i) {
                Some((name, rf)) => {
                    let blocks = rf.iter();
                    let ghost add = file_repos(fs[i as int].0, fs[i as int].1.repos);
                    let mut j: usize = 0;
                    while j < blocks.len()
                        invariant
                            j <= blocks@.len() == add.len(),
                            name@ == fs[i as int].0,
                            add == file_repos(fs[i as int].0, fs[i as int].1.repos),
                            forall|k: int|
                                0 <= k < blocks@.len() ==> (#[trigger] blocks@[k]).0@ == rf@.repos[k].0
                                    && blocks@[k].1@ == rf@.repos[k].1,
                            rf@ == fs[i as int].1,
                            r@.len() == before.len() + j,
                            forall|k: int|
                                0 <= k < r@.len() ==> (#[trigger] r@[k]).0@ == (before + add)[k].0
                                    && r@[k].1@ == (before + add)[k].1 && r@[k].2@ == (before
                                    + add)[k].2,
                        decreases blocks@.len() - j,
                    {
                        let (id, b) = blocks[j];
                        r.push((name.as_str(), id, &b.data));
                        j = j + 1;
                    }
                },
                None => {
                    proof {
                        assert(false);
                    }
                },
            }
            i = i + 1;
        }
        assert(fs.subrange(0, n as int) =~= fs);
        r
    }

    /// The first file that holds a repository with this ID, and that
    /// repository.
    pub fn find_repo(&self, id: &RepoId) -> (r: Option<(&str, &Repo)>)
        ensures
            match r {
                Some(p) => exists|k: int|
                    0 <= k < self@.files.len() && self@.files[k].0 == p.0@ && (#[trigger] map_get(
                        self@.files[k].1.repos,
                        id@,
                    )) is Some && map_get(self@.files[k].1.repos, id@)->0.data == p.1@ && forall|
                        j: int,
                    | 0 <= j < k ==> map_get(#[trigger] self@.files[j].1.repos, id@) is None,
                None => forall|k: int|
                    0 <= k < self@.files.len() ==> map_get(#[trigger] self@.files[k].1.repos, id@) is None,
            },
    {
        let n = files_len(&self.files);
        let mut i: usize = 0;
        while i < n
            invariant
                i <= n == self@.files.len(),
                forall|j: int| 0 <= j < i ==> map_get(#[trigger] self@.files[j].1.repos, id@) is None,
            decreases n - i,
        {
            match files_get_index(&self.files, i) {
                Some((name, rf)) => {
                    match rf.get(id) {
                        Some(b) => {
                            assert(map_get(self@.files[i as int].1.repos, id@) is Some);
                            return Some((name.as_str(), &b.data));
                        },
                        None => {},
                    }
                },
                None => {},
            }
            i = i + 1;
        }
        None
    }

    /// The name of the first file that holds a repository with this ID.
    pub fn file_for_repo(&self, id: &RepoId) -> (r: Option<&str>)
        ensures
            match r {
                Some(name) => exists|k: int|
                    0 <= k < self@.files.len() && self@.files[k].0 == name@ && (#[trigger] map_get(
                        self@.files[k].1.repos,
                        id@,
                    )) is Some && forall|j: int|
                        0 <= j < k ==> map_get(#[trigger] self@.files[j].1.repos, id@) is None,
                None => forall|k: int|
                    0 <= k < self@.files.len() ==> map_get(#[trigger] self@.files[k].1.repos, id@) is None,
            },
    {
        let n = files_len(&self.files);
        let mut i: usize = 0;
        while i < n
            invariant
                i <= n == self@.files.len(),
                forall|j: int| 0 <= j < i ==> map_get(#[trigger] self@.files[j].1.repos, id@) is None,
            decreases n - i,
        {
            match files_get_index(&self.files, i) {
                Some((name, rf)) => {
                    if rf.contains(id) {
                        assert(map_get(self@.files[i as int].1.repos, id@) is Some);
                        return Some(name.as_str());
                    }
                },
                None => {},
            }
            i = i + 1;
        }
        None
    }

    /// The number of repositories over all files.
    pub fn repo_count(&self) -> (r: usize)
        ensures
            r == dir_repos(self@.files).len(),
    {
        self.flat_repos().len()
    }

    /// Check every repository of the directory: an error for each
    /// repository whose ID an earlier one already has (naming the file
    /// where it first appears), then the repository's own findings.
    pub fn validate(&self) -> (r: ValidationReport)
        ensures
            r@ == dir_report(dir_repos(self@.files)),
    {
        let flat = self.flat_repos();
        let ghost fl = dir_repos(self@.files);
        let mut report = ValidationReport::new();
        let mut k: usize = 0;
        while k < flat.len()
            invariant
                k <= flat@.len() == fl.len(),
                forall|x: int|
                    0 <= x < flat@.len() ==> (#[trigger] flat@[x]).0@ == fl[x].0 && flat@[x].1@
                        == fl[x].1 && flat@[x].2@ == fl[x].2,
                report@ == dir_report(fl.subrange(0, k as int)),
            decreases flat@.len() - k,
        {
            let ghost prefix = fl.subrange(0, k as int);
            proof {
                assert(fl.subrange(0, k + 1).drop_last() =~= prefix);
            }
            let (fname, id, repo) = flat[k];
            let mut j: usize = 0;
            while j < k && !str_eq(flat[j].1.as_ref(), id.as_ref())
                invariant
                    j <= k < flat@.len() == fl.len(),
                    forall|x: int|
                        0 <= x < flat@.len() ==> (#[trigger] flat@[x]).0@ == fl[x].0 && flat@[x].1@
                            == fl[x].1 && flat@[x].2@ == fl[x].2,
                    id@ == fl[k as int].1,
                    forall|x: int| 0 <= x < j ==> (#[trigger] prefix[x]).1 != id@,
                    prefix == fl.subrange(0, k as int),
                decreases k - j,
            {
                assert(prefix[j as int] == fl[j as int]);
                j = j + 1;
            }
            proof {
                lemma_first_with_id_at(prefix, id@, j as int);
            }
            let ghost e0 = report@.errors;
            if j < k {
                let mut msg = owned("duplicate repo ID '");
                push_str(&mut msg, id.as_ref());
                push_str(&mut msg, "' already defined in '");
                push_str(&mut msg, flat[j].0);
                push_str(&mut msg, "'");
                let ghost ev = report.errors@;
                report.errors.push(
                    ValidationIssue {
                        level: IssueLevel::Error,
                        location: IssueLocation::File(owned(fname)),
                        field: None,
                        message: msg,
                    },
                );
                assert(issues_view(report.errors@) =~= issues_view(ev).push(duplicate_issue(fname@, id@, prefix[j as int].0)));
            }
            let ghost with_dup = report@.errors;
            let mut own = repo.validate();
            let ghost oe = own@;
            report.errors.append(&mut own.errors);
            report.warnings.append(&mut own.warnings);
            proof {
                assert(issues_view(report.errors@) =~= with_dup + oe.errors);
                let want = dir_report(fl.subrange(0, k + 1));
                assert(report@.errors =~= want.errors);
                assert(report@.warnings =~= want.warnings);
            }
            k = k + 1;
        }
        assert(fl.subrange(0, flat@.len() as int) =~= fl);
        report
    }
}

} // verus!
