//! Parsing, rendering and manipulation of `.repo` files.
//!
//! A [`RepoFile`] is a preamble (lines before the first section), an
//! optional `[main]` section and the repository sections in order. Each
//! section keeps its raw entries, comments and blank lines, so that
//! rendering reproduces the parsed text.

use crate::collections::{
    comment_entries, comments_clone, comments_new, map_get, map_insert, map_remove,
    repo_block_entries, repo_blocks_clone, repo_blocks_contains, repo_blocks_get,
    repo_blocks_get_index, repo_blocks_get_mut, repo_blocks_insert, repo_blocks_len,
    repo_blocks_new, repo_blocks_shift_remove,
};
use crate::error::Error;
use crate::mainconfig::{MainConfig, MainConfigView};
use crate::repo::{Repo, RepoView};
use crate::text::{copy_string, copy_strings, owned, strings_view};
use crate::types::{opt_view, RepoId};
use indexmap::IndexMap;
use vstd::prelude::*;

verus! {

/// A section block containing typed data plus formatting metadata.
#[derive(Debug, PartialEq, Eq)]
pub struct SectionBlock<T> {
    /// Comment lines and blank lines preceding the section header.
    pub header_comments: Vec<String>,
    /// The typed section data ([`Repo`] or [`MainConfig`]).
    pub data: T,
    /// Inline comments for specific keys: `key -> comment text`.
    pub item_comments: IndexMap<String, String>,
    /// Ordered list of key names as they appear in the parsed text.
    pub item_order: Vec<String>,
    /// Raw key-value entries preserving comments and ordering.
    pub raw_entries: Vec<RawEntry>,
}

/// A key-value entry as written in the file, with its comments.
#[derive(Debug, PartialEq, Eq)]
pub struct RawEntry {
    /// The option key name.
    pub key: String,
    /// The option value.
    pub value: String,
    /// Optional inline comment after the value (text after `#`).
    pub inline_comment: Option<String>,
    /// Comment lines immediately preceding this entry.
    pub leading_comments: Vec<String>,
}

/// A complete parsed `.repo` file.
#[derive(Debug, PartialEq, Eq)]
pub struct RepoFile {
    /// Lines appearing before the first section header.
    pub preamble: Vec<String>,
    /// The optional `[main]` configuration section.
    pub main: Option<SectionBlock<MainConfig>>,
    /// Repository sections keyed by [`RepoId`].
    pub repos: IndexMap<RepoId, SectionBlock<Repo>>,
}

/// The plain-value model of a [`RawEntry`].
#[verifier::ext_equal]
pub struct RawEntryView {
    pub key: Seq<char>,
    pub value: Seq<char>,
    pub inline_comment: Option<Seq<char>>,
    pub leading_comments: Seq<Seq<char>>,
}

impl View for RawEntry {
    type V = RawEntryView;

    open spec fn view(&self) -> RawEntryView {
        RawEntryView {
            key: self.key@,
            value: self.value@,
            inline_comment: opt_view(self.inline_comment),
            leading_comments: strings_view(self.leading_comments@),
        }
    }
}

/// The models of a list of raw entries.
pub open spec fn entries_view(v: Seq<RawEntry>) -> Seq<RawEntryView> {
    v.map_values(|e: RawEntry| e@)
}

/// The plain-value model of a [`SectionBlock`].
#[verifier::ext_equal]
pub struct SectionBlockView<V> {
    pub header_comments: Seq<Seq<char>>,
    pub data: V,
    pub item_comments: Seq<(Seq<char>, Seq<char>)>,
    pub item_order: Seq<Seq<char>>,
    pub raw_entries: Seq<RawEntryView>,
}

impl<T: View> View for SectionBlock<T> {
    type V = SectionBlockView<T::V>;

    open spec fn view(&self) -> SectionBlockView<T::V> {
        SectionBlockView {
            header_comments: strings_view(self.header_comments@),
            data: self.data@,
            item_comments: comment_entries(self.item_comments),
            item_order: strings_view(self.item_order@),
            raw_entries: entries_view(self.raw_entries@),
        }
    }
}

/// The plain-value model of a [`RepoFile`].
#[verifier::ext_equal]
pub struct RepoFileView {
    pub preamble: Seq<Seq<char>>,
    pub main: Option<SectionBlockView<MainConfigView>>,
    pub repos: Seq<(Seq<char>, SectionBlockView<RepoView>)>,
}

impl View for RepoFile {
    type V = RepoFileView;

    open spec fn view(&self) -> RepoFileView {
        RepoFileView {
            preamble: strings_view(self.preamble@),
            main: opt_view(self.main),
            repos: repo_block_entries(self.repos),
        }
    }
}

impl Clone for RawEntry {
    fn clone(&self) -> (r: RawEntry)
        ensures
            r@ == self@,
    {
        RawEntry {
            key: copy_string(&self.key),
            value: copy_string(&self.value),
            inline_comment: match &self.inline_comment {
                Some(c) => Some(copy_string(c)),
                None => None,
            },
            leading_comments: copy_strings(&self.leading_comments),
        }
    }
}

/// Copy a list of raw entries.
pub fn copy_entries(v: &Vec<RawEntry>) -> (r: Vec<RawEntry>)
    ensures
        entries_view(r@) == entries_view(v@),
{
    let mut r: Vec<RawEntry> = Vec::new();
    let mut i: usize = 0;
    while i < v.len()
        invariant
            i <= v@.len(),
            r@.len() == i,
            forall|k: int| 0 <= k < i ==> #[trigger] r@[k]@ == v@[k]@,
        decreases v@.len() - i,
    {
        r.push(v[i].clone());
        i = i + 1;
    }
    assert(entries_view(r@) =~= entries_view(v@));
    r
}

impl Clone for SectionBlock<Repo> {
    fn clone(&self) -> (r: SectionBlock<Repo>)
        ensures
            r@ == self@,
    {
        SectionBlock {
            header_comments: copy_strings(&self.header_comments),
            data: self.data.duplicate(),
            item_comments: comments_clone(&self.item_comments),
            item_order: copy_strings(&self.item_order),
            raw_entries: copy_entries(&self.raw_entries),
        }
    }
}

impl Clone for SectionBlock<MainConfig> {
    fn clone(&self) -> (r: SectionBlock<MainConfig>)
        ensures
            r@ == self@,
    {
        SectionBlock {
            header_comments: copy_strings(&self.header_comments),
            data: self.data.duplicate(),
            item_comments: comments_clone(&self.item_comments),
            item_order: copy_strings(&self.item_order),
            raw_entries: copy_entries(&self.raw_entries),
        }
    }
}

impl Clone for RepoFile {
    fn clone(&self) -> (r: RepoFile)
        ensures
            r@ == self@,
    {
        RepoFile {
            preamble: copy_strings(&self.preamble),
            main: match &self.main {
                Some(b) => Some(b.clone()),
                None => None,
            },
            repos: repo_blocks_clone(&self.repos),
        }
    }
}

/// A section block holding only its data: no comments and no raw entries.
pub open spec fn bare_block_view<V>(data: V) -> SectionBlockView<V> {
    SectionBlockView {
        header_comments: seq![],
        data: data,
        item_comments: seq![],
        item_order: seq![],
        raw_entries: seq![],
    }
}

/// The section that `set` stores for a repository: the repository with no
/// entries or comments, except that the header comments of the section it
/// replaces are kept.
pub open spec fn set_block_view(repos: Seq<(Seq<char>, SectionBlockView<RepoView>)>, r: RepoView) -> SectionBlockView<RepoView> {
    match map_get(repos, r.id) {
        Some(b) => SectionBlockView { header_comments: b.header_comments, ..bare_block_view(r) },
        None => bare_block_view(r),
    }
}

/// The model of a file with no lines and no sections.
pub open spec fn empty_file_view() -> RepoFileView {
    RepoFileView { preamble: seq![], main: None, repos: seq![] }
}

impl<T> SectionBlock<T> {
    /// A block holding only `data`.
    pub fn bare(data: T) -> (r: SectionBlock<T>)
        ensures
            r.data == data,
            r.header_comments@.len() == 0,
            comment_entries(r.item_comments) == Seq::<(Seq<char>, Seq<char>)>::empty(),
            r.item_order@.len() == 0,
            r.raw_entries@.len() == 0,
    {
        SectionBlock {
            header_comments: Vec::new(),
            data: data,
            item_comments: comments_new(),
            item_order: Vec::new(),
            raw_entries: Vec::new(),
        }
    }
}

impl RepoFile {
    /// An empty file: no preamble and no sections.
    pub fn new() -> (r: RepoFile)
        ensures
            r@ == empty_file_view(),
    {
        let r = RepoFile { preamble: Vec::new(), main: None, repos: repo_blocks_new() };
        assert(r@ =~= empty_file_view());
        r
    }

    /// The section of the repository with this ID, if any.
    pub fn get(&self, id: &RepoId) -> (r: Option<&SectionBlock<Repo>>)
        ensures
            match r {
                Some(b) => map_get(self@.repos, id@) == Some(b@),
                None => map_get(self@.repos, id@) is None,
            },
    {
        repo_blocks_get(&self.repos, id)
    }

    /// A mutable reference to the section of the repository with this ID;
    /// what is written through it becomes that section.
    pub fn get_mut(&mut self, id: &RepoId) -> (r: Option<&mut SectionBlock<Repo>>)
        ensures
            match r {
                Some(b) => {
                    &&& map_get(old(self)@.repos, id@) == Some((*b)@)
                    &&& final(self)@ == (RepoFileView {
                        repos: map_insert(old(self)@.repos, id@, (*final(b))@),
                        ..old(self)@
                    })
                },
                None => map_get(old(self)@.repos, id@) is None && final(self)@ == old(self)@,
            },
    {
        repo_blocks_get_mut(&mut self.repos, id)
    }

    /// Add a repository as a new section (with no comments) at the end.
    ///
    /// Fails with [`Error::DuplicateRepo`] naming the ID, and changes
    /// nothing, when a repository with this ID is already present.
    pub fn add(&mut self, repo: Repo) -> (r: Result<(), Error>)
        ensures
            match r {
                Ok(()) => {
                    &&& map_get(old(self)@.repos, repo@.id) is None
                    &&& final(self)@ == (RepoFileView {
                        repos: map_insert(old(self)@.repos, repo@.id, bare_block_view(repo@)),
                        ..old(self)@
                    })
                },
                Err(e) => {
                    &&& map_get(old(self)@.repos, repo@.id) is Some
                    &&& final(self)@ == old(self)@
                    &&& e matches Error::DuplicateRepo(name) && name@ == repo@.id
                },
            },
    {
        let id = repo.id.clone();
        if repo_blocks_contains(&self.repos, &id) {
            return Err(Error::DuplicateRepo(owned(id.as_ref())));
        }
        let block = SectionBlock::bare(repo);
        assert(strings_view(Seq::<String>::empty()) =~= Seq::<Seq<char>>::empty());
        assert(entries_view(Seq::<RawEntry>::empty()) =~= Seq::<RawEntryView>::empty());
        assert(block@ =~= bare_block_view(block.data@));
        repo_blocks_insert(&mut self.repos, id, block);
        Ok(())
    }

    /// Insert a repository, replacing the section with the same ID in place
    /// (keeping that section's header comments) or appending a section with
    /// no comments.
    pub fn set(&mut self, repo: Repo)
        ensures
            final(self)@ == (RepoFileView {
                repos: map_insert(old(self)@.repos, repo@.id, set_block_view(old(self)@.repos, repo@)),
                ..old(self)@
            }),
    {
        let id = repo.id.clone();
        let kept: Vec<String> = match repo_blocks_get(&self.repos, &id) {
            Some(b) => copy_strings(&b.header_comments),
            None => Vec::new(),
        };
        let mut block = SectionBlock::bare(repo);
        block.header_comments = kept;
        assert(strings_view(Seq::<String>::empty()) =~= Seq::<Seq<char>>::empty());
        assert(entries_view(Seq::<RawEntry>::empty()) =~= Seq::<RawEntryView>::empty());
        assert(block@ =~= set_block_view(self@.repos, block.data@));
        repo_blocks_insert(&mut self.repos, id, block);
    }

    /// Remove the section of the repository with this ID and return it;
    /// the other sections keep their order.
    pub fn remove(&mut self, id: &RepoId) -> (r: Option<SectionBlock<Repo>>)
        ensures
            final(self)@ == (RepoFileView { repos: map_remove(old(self)@.repos, id@), ..old(self)@ }),
            match r {
                Some(b) => map_get(old(self)@.repos, id@) == Some(b@),
                None => map_get(old(self)@.repos, id@) is None,
            },
    {
        repo_blocks_shift_remove(&mut self.repos, id)
    }

    /// Whether a repository with this ID is present.
    pub fn contains(&self, id: &RepoId) -> (r: bool)
        ensures
            r == (map_get(self@.repos, id@) is Some),
    {
        repo_blocks_contains(&self.repos, id)
    }

    /// The number of repository sections.
    pub fn len(&self) -> (r: usize)
        ensures
            r == self@.repos.len(),
    {
        repo_blocks_len(&self.repos)
    }

    /// Whether the file has no repository section.
    pub fn is_empty(&self) -> (r: bool)
        ensures
            r == (self@.repos.len() == 0),
    {
        repo_blocks_len(&self.repos) == 0
    }

    /// The repository sections with their IDs, in order.
    pub fn iter(&self) -> (r: Vec<(&RepoId, &SectionBlock<Repo>)>)
        ensures
            r@.len() == self@.repos.len(),
            forall|i: int|
                0 <= i < r@.len() ==> (#[trigger] r@[i]).0@ == self@.repos[i].0 && r@[i].1@
                    == self@.repos[i].1,
    {
        let n = repo_blocks_len(&self.repos);
        let mut r: Vec<(&RepoId, &SectionBlock<Repo>)> = Vec::new();
        let mut i: usize = 0;
        while i < n
            invariant
                i <= n == self@.repos.len(),
                r@.len() == i,
                forall|k: int|
                    0 <= k < i ==> (#[trigger] r@[k]).0@ == self@.repos[k].0 && r@[k].1@
                        == self@.repos[k].1,
            decreases n - i,
        {
            match repo_blocks_get_index(&self.repos, i) {
                Some(p) => {
                    r.push(p);
                },
                None => {
                    return r;
                },
            }
            i = i + 1;
        }
        r
    }

    /// The repositories, in order.
    pub fn repos(&self) -> (r: Vec<&Repo>)
        ensures
            r@.len() == self@.repos.len(),
            forall|i: int| 0 <= i < r@.len() ==> (#[trigger] r@[i])@ == self@.repos[i].1.data,
    {
        let n = repo_blocks_len(&self.repos);
        let mut r: Vec<&Repo> = Vec::new();
        let mut i: usize = 0;
        while i < n
            invariant
                i <= n == self@.repos.len(),
                r@.len() == i,
                forall|k: int| 0 <= k < i ==> (#[trigger] r@[k])@ == self@.repos[k].1.data,
            decreases n - i,
        {
            match repo_blocks_get_index(&self.repos, i) {
                Some(p) => {
                    r.push(&p.1.data);
                },
                None => {
                    return r;
                },
            }
            i = i + 1;
        }
        r
    }

    /// The repository IDs, in order.
    pub fn repo_ids(&self) -> (r: Vec<&RepoId>)
        ensures
            r@.len() == self@.repos.len(),
            forall|i: int| 0 <= i < r@.len() ==> (#[trigger] r@[i])@ == self@.repos[i].0,
    {
        let n = repo_blocks_len(&self.repos);
        let mut r: Vec<&RepoId> = Vec::new();
        let mut i: usize = 0;
        while i < n
            invariant
                i <= n == self@.repos.len(),
                r@.len() == i,
                forall|k: int| 0 <= k < i ==> (#[trigger] r@[k])@ == self@.repos[k].0,
            decreases n - i,
        {
            match repo_blocks_get_index(&self.repos, i) {
                Some(p) => {
                    r.push(p.0);
                },
                None => {
                    return r;
                },
            }
            i = i + 1;
        }
        r
    }

    /// The `[main]` section, if present.
    pub fn main(&self) -> (r: Option<&SectionBlock<MainConfig>>)
        ensures
            match r {
                Some(b) => self@.main == Some(b@),
                None => self@.main is None,
            },
    {
        match &self.main {
            Some(b) => Some(b),
            None => None,
        }
    }

    /// A mutable reference to the `[main]` section, if present; what is
    /// written through it becomes that section.
    pub fn main_mut(&mut self) -> (r: Option<&mut SectionBlock<MainConfig>>)
        ensures
            match r {
                Some(b) => old(self)@.main == Some((*b)@) && final(self)@ == (RepoFileView {
                    main: Some((*final(b))@),
                    ..old(self)@
                }),
                None => old(self)@.main is None && final(self)@ == old(self)@,
            },
    {
        self.main.as_mut()
    }

    /// Set the `[main]` configuration (with no comments), replacing any
    /// existing section.
    pub fn set_main(&mut self, config: MainConfig)
        ensures
            final(self)@ == (RepoFileView { main: Some(bare_block_view(config@)), ..old(self)@ }),
    {
        self.main = Some(SectionBlock::bare(config));
        assert(strings_view(Seq::<String>::empty()) =~= Seq::<Seq<char>>::empty());
        assert(entries_view(Seq::<RawEntry>::empty()) =~= Seq::<RawEntryView>::empty());
    }

    /// Remove the `[main]` section, if present.
    pub fn remove_main(&mut self)
        ensures
            final(self)@ == (RepoFileView { main: None, ..old(self)@ }),
    {
        self.main = None;
    }
}

impl Default for RepoFile {
    fn default() -> (r: RepoFile)
        ensures
            r@ == empty_file_view(),
    {
        RepoFile::new()
    }
}

impl std::str::FromStr for RepoFile {
    type Err = crate::error::ParseError;

    fn from_str(s: &str) -> (r: Result<RepoFile, crate::error::ParseError>)
        ensures
            match r {
                Ok(rf) => crate::parse::spec_parse(s@) == Ok::<RepoFileView, crate::parse::ParseFailure>(rf@),
                Err(e) => crate::parse::spec_parse(s@) == Err::<RepoFileView, crate::parse::ParseFailure>(crate::parse::failure_of(e)),
            },
    {
        RepoFile::parse(s)
    }
}

} // verus!
