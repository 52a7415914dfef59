//! Rendering a [`RepoFile`] back to `.repo` text.
//!
//! Every stored line is written as it was read (a line feed is added unless
//! the line already ends with one); each raw entry is written as
//! `key=value`, followed by ` #comment` when it had an inline comment.
//! The typed data of a section decides the known options: an option whose
//! written values differ from what the section's entries give is written
//! from the data, one `key=value` line per value, where its first entry
//! stood (its other entries keep only their leading comments), or after
//! the entries when no entry has its key.

use crate::mainconfig::MainConfigView;
use crate::repo::RepoView;
use crate::repofile::{RawEntry, RawEntryView, RepoFile, RepoFileView, SectionBlockView};
use crate::collections::{
    key_index, lemma_key_index, lemma_key_index_at, lemma_key_index_none, map_get,
    repo_blocks_get_index, repo_blocks_len, repo_block_entries,
};
use crate::fieldtext::{changes_view, main_changes, main_changes_exec, repo_changes, repo_changes_exec};
use crate::mainconfig::{empty_main_view, MainConfig};
use crate::repo::{empty_repo_view, Repo};
use crate::sections::{main_from_entries, parse_entries_into_mainconfig, parse_entries_into_repo, repo_from_entries};
use crate::text::{chars_of, push_char, push_str, str_eq, strings_view};
use crate::repofile::entries_view;
use vstd::prelude::*;

verus! {

/// A stored line as written: a line feed is added unless it ends with one.
pub open spec fn render_line(l: Seq<char>) -> Seq<char> {
    if l.len() > 0 && l.last() == '\n' {
        l
    } else {
        l.push('\n')
    }
}

/// Stored lines written one after the other.
pub open spec fn render_lines(ls: Seq<Seq<char>>) -> Seq<char>
    decreases ls.len(),
{
    if ls.len() == 0 {
        seq![]
    } else {
        render_lines(ls.drop_last()) + render_line(ls.last())
    }
}

/// The `key=value` text of an entry, with ` #comment` when it has one.
pub open spec fn entry_text(e: RawEntryView) -> Seq<char> {
    e.key + seq!['='] + e.value + match e.inline_comment {
        Some(c) => seq![' ', '#'] + c,
        None => seq![],
    }
}

/// An entry as written: its leading comment lines, then its own line.
pub open spec fn render_entry(e: RawEntryView) -> Seq<char> {
    render_lines(e.leading_comments) + entry_text(e).push('\n')
}

/// Entries written one after the other.
pub open spec fn render_entries(es: Seq<RawEntryView>) -> Seq<char>
    decreases es.len(),
{
    if es.len() == 0 {
        seq![]
    } else {
        render_entries(es.drop_last()) + render_entry(es.last())
    }
}

/// The header line of a section named `name`, with its line feed.
pub open spec fn header_text(name: Seq<char>) -> Seq<char> {
    seq!['['] + name + seq![']', '\n']
}

/// The name of the `[main]` section.
pub open spec fn main_name() -> Seq<char> {
    seq!['m', 'a', 'i', 'n']
}

/// A section written from its entries alone: header comments, header
/// line, entries.
pub open spec fn render_section<V>(name: Seq<char>, b: SectionBlockView<V>) -> Seq<char> {
    render_lines(b.header_comments) + header_text(name) + render_entries(b.raw_entries)
}

/// The repository sections written in order from their entries alone.
pub open spec fn render_repos(rs: Seq<(Seq<char>, SectionBlockView<RepoView>)>) -> Seq<char>
    decreases rs.len(),
{
    if rs.len() == 0 {
        seq![]
    } else {
        render_repos(rs.drop_last()) + render_section(rs.last().0, rs.last().1)
    }
}

/// The text of a file written from its raw entries alone.
pub open spec fn raw_render(f: RepoFileView) -> Seq<char> {
    render_lines(f.preamble) + match f.main {
        Some(b) => render_section(main_name(), b),
        None => seq![],
    } + render_repos(f.repos)
}


/// Whether some entry has the key.
pub open spec fn key_listed(es: Seq<RawEntryView>, k: Seq<char>) -> bool {
    exists|j: int| 0 <= j < es.len() && es[j].key == k
}

/// One `key=value` line for each value.
pub open spec fn value_lines(k: Seq<char>, vs: Seq<Seq<char>>) -> Seq<char>
    decreases vs.len(),
{
    if vs.len() == 0 {
        seq![]
    } else {
        value_lines(k, vs.drop_last()) + k + seq!['='] + vs.last() + seq!['\n']
    }
}

/// An entry as written against a table of changed options: unchanged
/// options as read; a changed option's values in place of its first entry,
/// and only the leading comments of its later entries.
pub open spec fn typed_entry(
    e: RawEntryView,
    earlier: Seq<RawEntryView>,
    t: Seq<(Seq<char>, Seq<Seq<char>>)>,
) -> Seq<char> {
    match map_get(t, e.key) {
        None => render_entry(e),
        Some(vs) => render_lines(e.leading_comments) + if key_listed(earlier, e.key) {
            Seq::<char>::empty()
        } else {
            value_lines(e.key, vs)
        },
    }
}

/// Entries written one after the other against a table of changed options.
pub open spec fn typed_entries(es: Seq<RawEntryView>, t: Seq<(Seq<char>, Seq<Seq<char>>)>) -> Seq<char>
    decreases es.len(),
{
    if es.len() == 0 {
        seq![]
    } else {
        typed_entries(es.drop_last(), t) + typed_entry(es.last(), es.drop_last(), t)
    }
}

/// The changed options that no entry has, written in table order.
pub open spec fn appended(t: Seq<(Seq<char>, Seq<Seq<char>>)>, es: Seq<RawEntryView>) -> Seq<char>
    decreases t.len(),
{
    if t.len() == 0 {
        seq![]
    } else {
        appended(t.drop_last(), es) + if key_listed(es, t.last().0) {
            Seq::<char>::empty()
        } else {
            value_lines(t.last().0, t.last().1)
        }
    }
}

/// A section as written against a table of changed options.
pub open spec fn typed_section<V>(name: Seq<char>, b: SectionBlockView<V>, t: Seq<(Seq<char>, Seq<Seq<char>>)>) -> Seq<char> {
    render_lines(b.header_comments) + header_text(name) + typed_entries(b.raw_entries, t) + appended(t, b.raw_entries)
}

/// The options of a `[main]` block whose data differs from its entries.
pub open spec fn main_table(b: SectionBlockView<MainConfigView>) -> Seq<(Seq<char>, Seq<Seq<char>>)> {
    main_changes(b.data, main_from_entries(empty_main_view(), b.raw_entries))
}

/// The options of a repository block whose data differs from its entries.
pub open spec fn repo_table(id: Seq<char>, b: SectionBlockView<RepoView>) -> Seq<(Seq<char>, Seq<Seq<char>>)> {
    repo_changes(b.data, repo_from_entries(empty_repo_view(id), b.raw_entries))
}

/// The repository sections written in order from their data and entries.
pub open spec fn typed_repos(rs: Seq<(Seq<char>, SectionBlockView<RepoView>)>) -> Seq<char>
    decreases rs.len(),
{
    if rs.len() == 0 {
        seq![]
    } else {
        typed_repos(rs.drop_last()) + typed_section(rs.last().0, rs.last().1, repo_table(rs.last().0, rs.last().1))
    }
}

/// The text of a file: preamble, `[main]` if present, then the repositories,
/// each section written from its entries and typed data.
pub open spec fn spec_render(f: RepoFileView) -> Seq<char> {
    render_lines(f.preamble) + match f.main {
        Some(b) => typed_section(main_name(), b, main_table(b)),
        None => seq![],
    } + typed_repos(f.repos)
}

/// Against an empty table every entry is written as read.
pub proof fn lemma_typed_entries_plain(es: Seq<RawEntryView>)
    ensures
        typed_entries(es, seq![]) == render_entries(es),
    decreases es.len(),
{
    if es.len() > 0 {
        lemma_typed_entries_plain(es.drop_last());
    }
}

/// Against an empty table a section is written as read.
pub proof fn lemma_typed_section_plain<V>(name: Seq<char>, b: SectionBlockView<V>)
    ensures
        typed_section(name, b, seq![]) == render_section(name, b),
{
    lemma_typed_entries_plain(b.raw_entries);
    assert(appended(Seq::<(Seq<char>, Seq<Seq<char>>)>::empty(), b.raw_entries) == Seq::<char>::empty());
    assert(render_lines(b.header_comments) + header_text(name) + render_entries(b.raw_entries) + Seq::<char>::empty()
        =~= render_section(name, b));
}

/// Append a stored line, adding a line feed unless it ends with one.
fn push_line(out: &mut String, line: &String)
    ensures
        final(out)@ == old(out)@ + render_line(line@),
{
    push_str(out, line.as_str());
    let cs = chars_of(line.as_str());
    if cs.len() > 0 && cs[cs.len() - 1] == '\n' {
    } else {
        push_char(out, '\n');
        assert(old(out)@ + line@ + seq!['\n'] =~= old(out)@ + line@.push('\n'));
    }
}

/// Append stored lines.
fn push_lines(out: &mut String, lines: &Vec<String>)
    ensures
        final(out)@ == old(out)@ + render_lines(strings_view(lines@)),
{
    let ghost ls = strings_view(lines@);
    let mut i: usize = 0;
    while i < lines.len()
        invariant
            i <= lines@.len(),
            ls == strings_view(lines@),
            out@ == old(out)@ + render_lines(ls.subrange(0, i as int)),
        decreases lines@.len() - i,
    {
        push_line(out, &lines[i]);
        proof {
            let next = ls.subrange(0, i + 1);
            assert(next.drop_last() =~= ls.subrange(0, i as int));
            assert(next.last() == lines@[i as int]@);
            assert(out@ =~= old(out)@ + render_lines(next));
        }
        i = i + 1;
    }
    assert(ls.subrange(0, lines@.len() as int) =~= ls);
}

/// Append one entry: its leading comments and its `key=value` line.
fn push_entry(out: &mut String, e: &RawEntry)
    ensures
        final(out)@ == old(out)@ + render_entry(e@),
{
    push_lines(out, &e.leading_comments);
    let ghost mid = out@;
    push_str(out, e.key.as_str());
    push_char(out, '=');
    push_str(out, e.value.as_str());
    match &e.inline_comment {
        Some(c) => {
            push_char(out, ' ');
            push_char(out, '#');
            push_str(out, c.as_str());
        },
        None => {},
    }
    push_char(out, '\n');
    assert(out@ =~= mid + entry_text(e@).push('\n'));
}

/// Append one `key=value` line per value.
fn push_value_lines(out: &mut String, key: &str, vs: &Vec<String>)
    ensures
        final(out)@ == old(out)@ + value_lines(key@, strings_view(vs@)),
{
    let ghost v = strings_view(vs@);
    let mut i: usize = 0;
    while i < vs.len()
        invariant
            i <= vs@.len(),
            v == strings_view(vs@),
            out@ == old(out)@ + value_lines(key@, v.subrange(0, i as int)),
        decreases vs@.len() - i,
    {
        push_str(out, key);
        push_char(out, '=');
        push_str(out, vs[i].as_str());
        push_char(out, '\n');
        proof {
            let next = v.subrange(0, i + 1);
            assert(next.drop_last() =~= v.subrange(0, i as int));
            assert(next.last() == vs@[i as int]@);
            assert(out@ =~= old(out)@ + value_lines(key@, next));
        }
        i = i + 1;
    }
    assert(v.subrange(0, vs@.len() as int) =~= v);
}

/// The position of a key in a table of changed options.
fn find_change(t: &Vec<(String, Vec<String>)>, key: &str) -> (r: Option<usize>)
    ensures
        match r {
            Some(i) => i < t@.len() && key_index(changes_view(t@), key@) == Some(i as int),
            None => key_index(changes_view(t@), key@) is None,
        },
{
    let ghost tv = changes_view(t@);
    let mut i: usize = 0;
    while i < t.len()
        invariant
            i <= t@.len(),
            tv == changes_view(t@),
            forall|j: int| 0 <= j < i ==> tv[j].0 != key@,
        decreases t@.len() - i,
    {
        if str_eq(t[i].0.as_str(), key) {
            proof {
                lemma_key_index_at(tv, key@, i as int);
            }
            return Some(i);
        }
        i = i + 1;
    }
    proof {
        lemma_key_index_none(tv, key@);
    }
    None
}

/// Whether one of the first `n` entries has the key.
fn listed_before(es: &Vec<RawEntry>, n: usize, key: &str) -> (r: bool)
    requires
        n <= es@.len(),
    ensures
        r == key_listed(entries_view(es@).subrange(0, n as int), key@),
{
    let ghost ev = entries_view(es@);
    let ghost pre = ev.subrange(0, n as int);
    let mut j: usize = 0;
    while j < n
        invariant
            j <= n <= es@.len(),
            ev == entries_view(es@),
            pre == ev.subrange(0, n as int),
            forall|k: int| 0 <= k < j ==> ev[k].key != key@,
        decreases n - j,
    {
        if str_eq(es[j].key.as_str(), key) {
            assert(pre[j as int].key == key@);
            return true;
        }
        j = j + 1;
    }
    assert forall|k: int| 0 <= k < pre.len() implies pre[k].key != key@ by {
        assert(pre[k] == ev[k]);
    }
    false
}

/// Append entries against a table of changed options.
fn push_typed_entries(out: &mut String, es: &Vec<RawEntry>, t: &Vec<(String, Vec<String>)>)
    ensures
        final(out)@ == old(out)@ + typed_entries(entries_view(es@), changes_view(t@)),
{
    let ghost v = entries_view(es@);
    let ghost tv = changes_view(t@);
    let mut i: usize = 0;
    while i < es.len()
        invariant
            i <= es@.len(),
            v == entries_view(es@),
            tv == changes_view(t@),
            out@ == old(out)@ + typed_entries(v.subrange(0, i as int), tv),
        decreases es@.len() - i,
    {
        let ghost before = out@;
        let e = &es[i];
        assert(v[i as int] == e@);
        match find_change(t, e.key.as_str()) {
            None => {
                push_entry(out, e);
            },
            Some(k) => {
                assert(map_get(tv, e@.key) == Some(tv[k as int].1));
                assert(tv[k as int].1 == strings_view(t@[k as int].1@));
                push_lines(out, &e.leading_comments);
                if !listed_before(es, i, e.key.as_str()) {
                    push_value_lines(out, e.key.as_str(), &t[k].1);
                }
            },
        }
        proof {
            let next = v.subrange(0, i + 1);
            assert(next.drop_last() =~= v.subrange(0, i as int));
            assert(next.last() == v[i as int]);
            assert(out@ =~= old(out)@ + typed_entries(next, tv));
        }
        i = i + 1;
    }
    assert(v.subrange(0, es@.len() as int) =~= v);
}

/// Append the changed options that no entry has.
fn push_appended(out: &mut String, t: &Vec<(String, Vec<String>)>, es: &Vec<RawEntry>)
    ensures
        final(out)@ == old(out)@ + appended(changes_view(t@), entries_view(es@)),
{
    let ghost v = entries_view(es@);
    let ghost tv = changes_view(t@);
    assert(v.subrange(0, es@.len() as int) =~= v);
    let mut i: usize = 0;
    while i < t.len()
        invariant
            i <= t@.len(),
            v == entries_view(es@),
            v.subrange(0, es@.len() as int) == v,
            tv == changes_view(t@),
            out@ == old(out)@ + appended(tv.subrange(0, i as int), v),
        decreases t@.len() - i,
    {
        assert(tv[i as int] == (t@[i as int].0@, strings_view(t@[i as int].1@)));
        if !listed_before(es, es.len(), t[i].0.as_str()) {
            push_value_lines(out, t[i].0.as_str(), &t[i].1);
        }
        proof {
            let next = tv.subrange(0, i + 1);
            assert(next.drop_last() =~= tv.subrange(0, i as int));
            assert(next.last() == tv[i as int]);
            assert(out@ =~= old(out)@ + appended(next, v));
        }
        i = i + 1;
    }
    assert(tv.subrange(0, t@.len() as int) =~= tv);
}

/// Append a section against a table of changed options.
fn push_typed_section(out: &mut String, name: &str, hc: &Vec<String>, es: &Vec<RawEntry>, t: &Vec<(String, Vec<String>)>)
    ensures
        final(out)@ == old(out)@ + render_lines(strings_view(hc@)) + header_text(name@)
            + typed_entries(entries_view(es@), changes_view(t@)) + appended(changes_view(t@), entries_view(es@)),
{
    push_lines(out, hc);
    let ghost a = out@;
    push_char(out, '[');
    push_str(out, name);
    push_char(out, ']');
    push_char(out, '\n');
    assert(out@ =~= a + header_text(name@));
    push_typed_entries(out, es, t);
    push_appended(out, t, es);
}


/// Append the `[main]` section, written from its entries and typed data.
fn push_main_section(out: &mut String, b: &crate::repofile::SectionBlock<MainConfig>)
    ensures
        final(out)@ == old(out)@ + typed_section(main_name(), b@, main_table(b@)),
{
    let mut fresh = MainConfig::new();
    let _ = parse_entries_into_mainconfig(&mut fresh, &b.raw_entries);
    let t = main_changes_exec(&b.data, &fresh);
    push_typed_section(out, "main", &b.header_comments, &b.raw_entries, &t);
    proof {
        reveal_strlit("main");
    }
    assert(old(out)@ + render_lines(b@.header_comments) + header_text(main_name()) + typed_entries(
        b@.raw_entries,
        main_table(b@),
    ) + appended(main_table(b@), b@.raw_entries) =~= old(out)@ + typed_section(main_name(), b@, main_table(b@)));
}

/// Append a repository section, written from its entries and typed data.
fn push_repo_section(out: &mut String, id: &crate::types::RepoId, b: &crate::repofile::SectionBlock<Repo>)
    ensures
        final(out)@ == old(out)@ + typed_section(id@, b@, repo_table(id@, b@)),
{
    let mut fresh = Repo::new(id.clone());
    let _ = parse_entries_into_repo(&mut fresh, &b.raw_entries);
    let t = repo_changes_exec(&b.data, &fresh);
    push_typed_section(out, id.as_ref(), &b.header_comments, &b.raw_entries, &t);
    assert(old(out)@ + render_lines(b@.header_comments) + header_text(id@) + typed_entries(
        b@.raw_entries,
        repo_table(id@, b@),
    ) + appended(repo_table(id@, b@), b@.raw_entries) =~= old(out)@ + typed_section(id@, b@, repo_table(id@, b@)));
}

impl RepoFile {
    /// Render the file back to `.repo` text: the preamble, the `[main]`
    /// section if present, then the repository sections in order, each
    /// with its header comments and entries. Unknown options, comments and
    /// options whose typed value is what their entries give are written as
    /// read; every other known option is written from the typed data.
    pub fn render(&self) -> (r: String)
        ensures
            r@ == spec_render(self@),
    {
        let mut out = String::new();
        push_lines(&mut out, &self.preamble);
        let ghost after_pre = out@;
        match &self.main {
            Some(b) => {
                push_main_section(&mut out, b);
                assert(out@ =~= after_pre + typed_section(main_name(), b@, main_table(b@)));
            },
            None => {
                assert(out@ =~= after_pre + Seq::<char>::empty());
            },
        }
        let ghost after_main = out@;
        let ghost rs = repo_block_entries(self.repos);
        let n = repo_blocks_len(&self.repos);
        let mut i: usize = 0;
        while i < n
            invariant
                i <= n == rs.len(),
                rs == repo_block_entries(self.repos),
                out@ == after_main + typed_repos(rs.subrange(0, i as int)),
            decreases n - i,
        {
            match repo_blocks_get_index(&self.repos, i) {
                Some((id, b)) => {
                    push_repo_section(&mut out, id, b);
                    proof {
                        let next = rs.subrange(0, i + 1);
                        assert(next.drop_last() =~= rs.subrange(0, i as int));
                        assert(out@ =~= after_main + typed_repos(next));
                    }
                },
                None => {},
            }
            i = i + 1;
        }
        assert(rs.subrange(0, n as int) =~= rs);
        out
    }
}

} // verus!
