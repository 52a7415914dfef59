//! What rendering a section from its typed data amounts to: the section's
//! entries with every changed option's entries replaced by one entry per
//! typed value, and the changed options that no entry has added at the
//! end. Together with the round trip of [`crate::roundtrip`] this gives
//! back, after parsing the rendered text, exactly those entries and the
//! typed data they denote.

use crate::collections::map_get;
use crate::mainconfig::{empty_main_view, MainConfigView};
use crate::parse::{block_of, spec_parse, ParseFailure};
use crate::render::{
    appended, entry_text, header_text, key_listed, main_name, main_table, raw_render,
    render_entries, render_entry, render_lines, render_repos, render_section, repo_table,
    spec_render, typed_entries, typed_entry, typed_repos, typed_section, value_lines,
};
use crate::repo::{empty_repo_view, RepoView};
use crate::repofile::{RawEntryView, RepoFileView, SectionBlockView};
use crate::collections::{key_index, keys_unique, lemma_key_index};
use crate::roundtrip::{
    cr_cleaned, ends_clean, entry_ok, file_lines, file_shape, file_texts, is_comment_text,
    is_preamble_text, is_section_name, lemma_file_lines_clean, lemma_file_texts_index,
    lemma_hoisted_lines, lemma_render_is_joined, lemma_reparse_any, lemma_reread_shape,
    lemma_strip_clean, leading_clean, main_count, no_line_ends_in_cr, reread, same_sections,
    strip_headers, texts_shape,
};
use crate::types::is_valid_repo_id;
use crate::sections::{main_from_entries, repo_from_entries};
use vstd::prelude::*;

verus! {

/// One entry per value, the first carrying the given leading comments.
pub open spec fn value_entries(k: Seq<char>, vs: Seq<Seq<char>>, lc: Seq<Seq<char>>) -> Seq<RawEntryView>
    decreases vs.len(),
{
    if vs.len() == 0 {
        seq![]
    } else {
        value_entries(k, vs.drop_last(), lc).push(RawEntryView {
            key: k,
            value: vs.last(),
            inline_comment: None,
            leading_comments: if vs.len() == 1 { lc } else { seq![] },
        })
    }
}

/// The entries with each changed option's entries replaced by its values.
pub open spec fn rewrite_entries(es: Seq<RawEntryView>, t: Seq<(Seq<char>, Seq<Seq<char>>)>) -> Seq<RawEntryView>
    decreases es.len(),
{
    if es.len() == 0 {
        seq![]
    } else {
        let prev = es.drop_last();
        let e = es.last();
        rewrite_entries(prev, t) + match map_get(t, e.key) {
            None => seq![e],
            Some(vs) => if key_listed(prev, e.key) {
                Seq::<RawEntryView>::empty()
            } else {
                value_entries(e.key, vs, e.leading_comments)
            },
        }
    }
}

/// The entries of the changed options that no entry has, in table order.
pub open spec fn appended_entries(t: Seq<(Seq<char>, Seq<Seq<char>>)>, es: Seq<RawEntryView>) -> Seq<RawEntryView>
    decreases t.len(),
{
    if t.len() == 0 {
        seq![]
    } else {
        appended_entries(t.drop_last(), es) + if key_listed(es, t.last().0) {
            Seq::<RawEntryView>::empty()
        } else {
            value_entries(t.last().0, t.last().1, seq![])
        }
    }
}

/// The entries a section is written as.
pub open spec fn written_entries(es: Seq<RawEntryView>, t: Seq<(Seq<char>, Seq<Seq<char>>)>) -> Seq<RawEntryView> {
    rewrite_entries(es, t) + appended_entries(t, es)
}

/// No comment is written without its entry: the entries of a changed
/// option after its first one, and the entry of an option whose typed value
/// is now empty, have no leading comments.
pub open spec fn comments_kept(es: Seq<RawEntryView>, t: Seq<(Seq<char>, Seq<Seq<char>>)>) -> bool {
    forall|i: int|
        0 <= i < es.len() && (#[trigger] map_get(t, es[i].key)) is Some && (key_listed(es.subrange(0, i), es[i].key)
            || map_get(t, es[i].key)->0.len() == 0) ==> es[i].leading_comments.len() == 0
}

pub proof fn lemma_render_entries_append(a: Seq<RawEntryView>, b: Seq<RawEntryView>)
    ensures
        render_entries(a + b) == render_entries(a) + render_entries(b),
    decreases b.len(),
{
    if b.len() == 0 {
        assert(a + b =~= a);
        assert(render_entries(a) + Seq::<char>::empty() =~= render_entries(a));
    } else {
        assert((a + b).drop_last() =~= a + b.drop_last());
        assert((a + b).last() == b.last());
        lemma_render_entries_append(a, b.drop_last());
        assert(render_entries(a) + render_entries(b.drop_last()) + render_entry(b.last()) =~= render_entries(a)
            + (render_entries(b.drop_last()) + render_entry(b.last())));
    }
}

proof fn lemma_render_one(e: RawEntryView)
    ensures
        render_entries(seq![e]) == render_entry(e),
{
    let s = seq![e];
    assert(s.drop_last() =~= Seq::<RawEntryView>::empty());
    assert(s.last() == e);
    assert(render_entries(Seq::<RawEntryView>::empty()) == Seq::<char>::empty());
    assert(Seq::<char>::empty() + render_entry(e) =~= render_entry(e));
}

proof fn lemma_value_entries(k: Seq<char>, vs: Seq<Seq<char>>, lc: Seq<Seq<char>>)
    requires
        vs.len() > 0 || lc.len() == 0,
    ensures
        render_entries(value_entries(k, vs, lc)) == render_lines(lc) + value_lines(k, vs),
        value_entries(k, vs, lc).len() == vs.len(),
    decreases vs.len(),
{
    if vs.len() == 0 {
        assert(render_lines(lc) == Seq::<char>::empty());
        assert(Seq::<char>::empty() + Seq::<char>::empty() =~= Seq::<char>::empty());
    } else if vs.len() == 1 {
        assert(vs.drop_last() =~= Seq::<Seq<char>>::empty());
        assert(value_entries(k, vs.drop_last(), lc) =~= Seq::<RawEntryView>::empty());
        let e = RawEntryView { key: k, value: vs.last(), inline_comment: None, leading_comments: lc };
        assert(value_entries(k, vs, lc) =~= seq![e]);
        assert(seq![e].drop_last() =~= Seq::<RawEntryView>::empty());
        lemma_render_one(e);
        assert(entry_text(e) =~= k + seq!['='] + vs.last());
        assert(value_lines(k, vs.drop_last()) == Seq::<char>::empty());
        assert(render_entry(e) =~= render_lines(lc) + (Seq::<char>::empty() + k + seq!['='] + vs.last() + seq!['\n']));
    } else {
        lemma_value_entries(k, vs.drop_last(), lc);
        let e = RawEntryView { key: k, value: vs.last(), inline_comment: None, leading_comments: seq![] };
        assert(render_lines(Seq::<Seq<char>>::empty()) == Seq::<char>::empty());
        assert(entry_text(e) =~= k + seq!['='] + vs.last());
        assert(render_entry(e) =~= k + seq!['='] + vs.last() + seq!['\n']);
        assert(value_entries(k, vs, lc).drop_last() == value_entries(k, vs.drop_last(), lc));
        assert(render_lines(lc) + value_lines(k, vs.drop_last()) + render_entry(e) =~= render_lines(lc) + (value_lines(
            k,
            vs.drop_last(),
        ) + k + seq!['='] + vs.last() + seq!['\n']));
    }
}

proof fn lemma_rewrite_render(es: Seq<RawEntryView>, t: Seq<(Seq<char>, Seq<Seq<char>>)>)
    requires
        comments_kept(es, t),
    ensures
        render_entries(rewrite_entries(es, t)) == typed_entries(es, t),
    decreases es.len(),
{
    if es.len() > 0 {
        let prev = es.drop_last();
        let e = es.last();
        let n = es.len() - 1;
        assert forall|i: int|
            0 <= i < prev.len() && (#[trigger] map_get(t, prev[i].key)) is Some && (key_listed(prev.subrange(0, i), prev[i].key)
                || map_get(t, prev[i].key)->0.len() == 0) implies prev[i].leading_comments.len() == 0 by {
            assert(prev[i] == es[i]);
            assert(prev.subrange(0, i) =~= es.subrange(0, i));
        }
        lemma_rewrite_render(prev, t);
        assert(es[n] == e);
        assert(es.subrange(0, n) =~= prev);
        let tail: Seq<RawEntryView> = match map_get(t, e.key) {
            None => seq![e],
            Some(vs) => if key_listed(prev, e.key) {
                Seq::<RawEntryView>::empty()
            } else {
                value_entries(e.key, vs, e.leading_comments)
            },
        };
        lemma_render_entries_append(rewrite_entries(prev, t), tail);
        match map_get(t, e.key) {
            None => {
                assert(seq![e].drop_last() =~= Seq::<RawEntryView>::empty());
                lemma_render_one(e);
            },
            Some(vs) => {
                if key_listed(prev, e.key) {
                    assert(e.leading_comments.len() == 0);
                    assert(e.leading_comments =~= Seq::<Seq<char>>::empty());
                    assert(render_lines(e.leading_comments) == Seq::<char>::empty());
                    assert(render_entries(Seq::<RawEntryView>::empty()) == Seq::<char>::empty());
                    assert(typed_entry(e, prev, t) =~= Seq::<char>::empty());
                } else {
                    if vs.len() == 0 {
                        assert(e.leading_comments.len() == 0);
                    }
                    lemma_value_entries(e.key, vs, e.leading_comments);
                }
            },
        }
        assert(render_entries(rewrite_entries(es, t)) =~= typed_entries(es, t));
    }
}

proof fn lemma_appended_render(t: Seq<(Seq<char>, Seq<Seq<char>>)>, es: Seq<RawEntryView>)
    ensures
        render_entries(appended_entries(t, es)) == appended(t, es),
    decreases t.len(),
{
    if t.len() > 0 {
        lemma_appended_render(t.drop_last(), es);
        let k = t.last().0;
        let vs = t.last().1;
        if key_listed(es, k) {
            lemma_render_entries_append(appended_entries(t.drop_last(), es), Seq::<RawEntryView>::empty());
            assert(appended_entries(t.drop_last(), es) + Seq::<RawEntryView>::empty() =~= appended_entries(
                t.drop_last(),
                es,
            ));
            assert(appended(t.drop_last(), es) + Seq::<char>::empty() =~= appended(t.drop_last(), es));
        } else {
            lemma_value_entries(k, vs, seq![]);
            assert(render_lines(Seq::<Seq<char>>::empty()) == Seq::<char>::empty());
            lemma_render_entries_append(appended_entries(t.drop_last(), es), value_entries(k, vs, seq![]));
            assert(Seq::<char>::empty() + value_lines(k, vs) =~= value_lines(k, vs));
        }
    }
}

/// A section's entries, as written against a table of changed options, are
/// the written entries rendered as read.
pub proof fn lemma_written_entries(es: Seq<RawEntryView>, t: Seq<(Seq<char>, Seq<Seq<char>>)>)
    requires
        comments_kept(es, t),
    ensures
        render_entries(written_entries(es, t)) == typed_entries(es, t) + appended(t, es),
{
    lemma_rewrite_render(es, t);
    lemma_appended_render(t, es);
    lemma_render_entries_append(rewrite_entries(es, t), appended_entries(t, es));
}


// ============================================================================
// The file as written
// ============================================================================

/// A `[main]` block as written: its written entries, and the data they give.
pub open spec fn written_main(b: SectionBlockView<MainConfigView>) -> SectionBlockView<MainConfigView> {
    let es = written_entries(b.raw_entries, main_table(b));
    block_of(b.header_comments, main_from_entries(empty_main_view(), es), es)
}

/// A repository block as written: its written entries, and the data they
/// give.
pub open spec fn written_repo(id: Seq<char>, b: SectionBlockView<RepoView>) -> SectionBlockView<RepoView> {
    let es = written_entries(b.raw_entries, repo_table(id, b));
    block_of(b.header_comments, repo_from_entries(empty_repo_view(id), es), es)
}

/// The file whose sections hold the entries that rendering writes, each
/// with the data those entries give.
pub open spec fn written_file(f: RepoFileView) -> RepoFileView {
    RepoFileView {
        preamble: f.preamble,
        main: match f.main {
            Some(b) => Some(written_main(b)),
            None => None,
        },
        repos: f.repos.map_values(|p: (Seq<char>, SectionBlockView<RepoView>)| (p.0, written_repo(p.0, p.1))),
    }
}

/// No comment of the file is written without its entry.
pub open spec fn file_comments_kept(f: RepoFileView) -> bool {
    &&& (f.main matches Some(b) ==> comments_kept(b.raw_entries, main_table(b)))
    &&& forall|i: int| 0 <= i < f.repos.len() ==> comments_kept(
        #[trigger] f.repos[i].1.raw_entries,
        repo_table(f.repos[i].0, f.repos[i].1),
    )
}

proof fn lemma_written_repos(rs: Seq<(Seq<char>, SectionBlockView<RepoView>)>)
    requires
        forall|i: int| 0 <= i < rs.len() ==> comments_kept(#[trigger] rs[i].1.raw_entries, repo_table(rs[i].0, rs[i].1)),
    ensures
        typed_repos(rs) == render_repos(
            rs.map_values(|p: (Seq<char>, SectionBlockView<RepoView>)| (p.0, written_repo(p.0, p.1))),
        ),
    decreases rs.len(),
{
    let ws = rs.map_values(|p: (Seq<char>, SectionBlockView<RepoView>)| (p.0, written_repo(p.0, p.1)));
    if rs.len() > 0 {
        let d = rs.drop_last();
        assert forall|i: int| 0 <= i < d.len() implies comments_kept(#[trigger] d[i].1.raw_entries, repo_table(d[i].0, d[i].1)) by {
            assert(d[i] == rs[i]);
        }
        lemma_written_repos(d);
        assert(ws.drop_last() =~= d.map_values(|p: (Seq<char>, SectionBlockView<RepoView>)| (p.0, written_repo(p.0, p.1))));
        let last = rs.last();
        assert(comments_kept(rs[rs.len() - 1].1.raw_entries, repo_table(rs[rs.len() - 1].0, rs[rs.len() - 1].1)));
        lemma_written_entries(last.1.raw_entries, repo_table(last.0, last.1));
        assert(ws.last() == (last.0, written_repo(last.0, last.1)));
        assert(render_section(last.0, written_repo(last.0, last.1)) =~= typed_section(last.0, last.1, repo_table(last.0, last.1)));
    } else {
        assert(ws =~= Seq::<(Seq<char>, SectionBlockView<RepoView>)>::empty());
    }
}

/// The rendered text of a file is its written file rendered as read.
pub proof fn lemma_render_is_written(f: RepoFileView)
    requires
        file_comments_kept(f),
    ensures
        spec_render(f) == raw_render(written_file(f)),
{
    lemma_written_repos(f.repos);
    match f.main {
        Some(b) => {
            lemma_written_entries(b.raw_entries, main_table(b));
            assert(render_section(main_name(), written_main(b)) =~= typed_section(main_name(), b, main_table(b)));
        },
        None => {},
    }
}

/// Parsing the rendered text of a file gives back its written file: every
/// section holds its entries with each option whose typed value differs
/// from what the entries give replaced by the typed values (and such
/// options that no entry has added), and the typed data those entries
/// give; only the preamble and header comments may move as in
/// [`crate::roundtrip::lemma_parse_render_same_sections`]. This holds
/// when the written file has the parser's shape (every written value reads
/// back as its own `key=value` line), no written leading comment ends with
/// a carriage return, and no comment would be written without its entry.
pub proof fn lemma_render_reads_back_written(f: RepoFileView)
    requires
        file_comments_kept(f),
        file_shape(written_file(f)),
        leading_clean(written_file(f)),
    ensures
        spec_parse(spec_render(f)) == Ok::<RepoFileView, ParseFailure>(reread(written_file(f))),
        same_sections(written_file(f), reread(written_file(f))),
{
    let w = written_file(f);
    lemma_render_is_written(f);
    lemma_reparse_any(w);
    crate::roundtrip::lemma_render_of_shape(w);
}


// ============================================================================
// When the written file has the parser's shape
// ============================================================================

/// An entry that reads back, with no leading comment ending in a carriage
/// return.
pub open spec fn entry_fine(e: RawEntryView) -> bool {
    &&& entry_ok(e)
    &&& forall|k: int| 0 <= k < e.leading_comments.len() ==> ends_clean(#[trigger] e.leading_comments[k])
}

pub open spec fn all_fine(es: Seq<RawEntryView>) -> bool {
    forall|i: int| 0 <= i < es.len() ==> entry_fine(#[trigger] es[i])
}

/// A value that is written back as its own `key=value` line and read back
/// as that value: no line feed, no surrounding whitespace, no `#` that
/// would start a comment.
pub open spec fn writable(k: Seq<char>, v: Seq<char>) -> bool {
    entry_ok(RawEntryView { key: k, value: v, inline_comment: None, leading_comments: seq![] })
}

/// Every value of a table of changed options is writable.
pub open spec fn table_writable(t: Seq<(Seq<char>, Seq<Seq<char>>)>) -> bool {
    forall|i: int, j: int| 0 <= i < t.len() && 0 <= j < t[i].1.len() ==> writable(t[i].0, #[trigger] t[i].1[j])
}

proof fn lemma_all_fine_append(a: Seq<RawEntryView>, b: Seq<RawEntryView>)
    requires
        all_fine(a),
        all_fine(b),
    ensures
        all_fine(a + b),
{
    assert forall|i: int| 0 <= i < (a + b).len() implies entry_fine(#[trigger] (a + b)[i]) by {
        if i < a.len() {
            assert((a + b)[i] == a[i]);
        } else {
            assert((a + b)[i] == b[i - a.len()]);
        }
    }
}

proof fn lemma_value_entries_fine(k: Seq<char>, vs: Seq<Seq<char>>, lc: Seq<Seq<char>>)
    requires
        forall|j: int| 0 <= j < vs.len() ==> writable(k, #[trigger] vs[j]),
        forall|j: int| 0 <= j < lc.len() ==> is_comment_text(#[trigger] lc[j]) && ends_clean(lc[j]),
    ensures
        all_fine(value_entries(k, vs, lc)),
    decreases vs.len(),
{
    if vs.len() > 0 {
        assert forall|j: int| 0 <= j < vs.drop_last().len() implies writable(k, #[trigger] vs.drop_last()[j]) by {
            assert(vs.drop_last()[j] == vs[j]);
        }
        lemma_value_entries_fine(k, vs.drop_last(), lc);
        assert(writable(k, vs[vs.len() - 1]));
        let e = RawEntryView {
            key: k,
            value: vs.last(),
            inline_comment: None,
            leading_comments: if vs.len() == 1 { lc } else { seq![] },
        };
        assert(entry_fine(e));
        lemma_all_fine_append(value_entries(k, vs.drop_last(), lc), seq![e]);
        assert(value_entries(k, vs, lc) =~= value_entries(k, vs.drop_last(), lc) + seq![e]);
    }
}

proof fn lemma_table_values(t: Seq<(Seq<char>, Seq<Seq<char>>)>, k: Seq<char>)
    requires
        table_writable(t),
        map_get(t, k) is Some,
    ensures
        forall|j: int| 0 <= j < map_get(t, k)->0.len() ==> writable(k, #[trigger] map_get(t, k)->0[j]),
{
    lemma_key_index(t, k);
    let i = key_index(t, k)->0;
    assert forall|j: int| 0 <= j < map_get(t, k)->0.len() implies writable(k, #[trigger] map_get(t, k)->0[j]) by {
        assert(writable(t[i].0, t[i].1[j]));
    }
}

proof fn lemma_rewrite_fine(es: Seq<RawEntryView>, t: Seq<(Seq<char>, Seq<Seq<char>>)>)
    requires
        all_fine(es),
        table_writable(t),
    ensures
        all_fine(rewrite_entries(es, t)),
    decreases es.len(),
{
    if es.len() > 0 {
        let prev = es.drop_last();
        let e = es.last();
        assert forall|i: int| 0 <= i < prev.len() implies entry_fine(#[trigger] prev[i]) by {
            assert(prev[i] == es[i]);
        }
        lemma_rewrite_fine(prev, t);
        assert(entry_fine(es[es.len() - 1]));
        match map_get(t, e.key) {
            None => {
                lemma_all_fine_append(rewrite_entries(prev, t), seq![e]);
            },
            Some(vs) => {
                if key_listed(prev, e.key) {
                    lemma_all_fine_append(rewrite_entries(prev, t), Seq::<RawEntryView>::empty());
                    assert(rewrite_entries(prev, t) + Seq::<RawEntryView>::empty() =~= rewrite_entries(prev, t));
                } else {
                    lemma_table_values(t, e.key);
                    lemma_value_entries_fine(e.key, vs, e.leading_comments);
                    lemma_all_fine_append(rewrite_entries(prev, t), value_entries(e.key, vs, e.leading_comments));
                }
            },
        }
    }
}

proof fn lemma_appended_fine(t: Seq<(Seq<char>, Seq<Seq<char>>)>, es: Seq<RawEntryView>)
    requires
        table_writable(t),
    ensures
        all_fine(appended_entries(t, es)),
    decreases t.len(),
{
    if t.len() > 0 {
        let d = t.drop_last();
        assert forall|i: int, j: int| 0 <= i < d.len() && 0 <= j < d[i].1.len() implies writable(d[i].0, #[trigger] d[i].1[j]) by {
            assert(d[i] == t[i]);
        }
        lemma_appended_fine(d, es);
        if key_listed(es, t.last().0) {
            lemma_all_fine_append(appended_entries(d, es), Seq::<RawEntryView>::empty());
            assert(appended_entries(d, es) + Seq::<RawEntryView>::empty() =~= appended_entries(d, es));
        } else {
            let n = t.len() - 1;
            assert forall|j: int| 0 <= j < t.last().1.len() implies writable(t.last().0, #[trigger] t.last().1[j]) by {
                assert(writable(t[n].0, t[n].1[j]));
            }
            lemma_value_entries_fine(t.last().0, t.last().1, seq![]);
            lemma_all_fine_append(appended_entries(d, es), value_entries(t.last().0, t.last().1, seq![]));
        }
    }
}

proof fn lemma_written_fine(es: Seq<RawEntryView>, t: Seq<(Seq<char>, Seq<Seq<char>>)>)
    requires
        all_fine(es),
        table_writable(t),
    ensures
        all_fine(written_entries(es, t)),
{
    lemma_rewrite_fine(es, t);
    lemma_appended_fine(t, es);
    lemma_all_fine_append(rewrite_entries(es, t), appended_entries(t, es));
}

/// The parser's shape apart from the typed data: the preamble, the
/// repository IDs, the header comments and the entries all read back.
pub open spec fn layout_ok(f: RepoFileView) -> bool {
    &&& forall|i: int| 0 <= i < f.preamble.len() ==> is_preamble_text(#[trigger] f.preamble[i])
    &&& forall|i: int|
        0 <= i < f.repos.len() ==> is_valid_repo_id(#[trigger] f.repos[i].0) && f.repos[i].0 != main_name()
    &&& keys_unique(f.repos)
    &&& texts_shape(file_texts(f))
}

/// Every value that rendering writes from the typed data is writable.
pub open spec fn values_writable(f: RepoFileView) -> bool {
    &&& (f.main matches Some(b) ==> table_writable(main_table(b)))
    &&& forall|i: int| 0 <= i < f.repos.len() ==> table_writable(repo_table(#[trigger] f.repos[i].0, f.repos[i].1))
}

proof fn lemma_written_shape(f: RepoFileView)
    requires
        layout_ok(f),
        values_writable(f),
        leading_clean(f),
    ensures
        file_shape(written_file(f)),
        leading_clean(written_file(f)),
{
    let w = written_file(f);
    lemma_file_texts_index(f);
    lemma_file_texts_index(w);
    let tf = file_texts(f);
    let tw = file_texts(w);
    let m = main_count(f);
    assert(main_count(w) == m);
    assert forall|i: int| 0 <= i < tw.len() implies {
        &&& tw[i].name == tf[i].name
        &&& tw[i].header == tf[i].header
        &&& all_fine(tw[i].entries)
    } by {
        let es = tf[i].entries;
        assert forall|j: int| 0 <= j < es.len() implies entry_fine(#[trigger] es[j]) by {
            assert(entry_ok(tf[i].entries[j]));
            assert forall|k: int| 0 <= k < es[j].leading_comments.len() implies ends_clean(#[trigger] es[j].leading_comments[k]) by {
                assert(ends_clean(tf[i].entries[j].leading_comments[k]));
            }
        }
        if i < m {
            let b = f.main->0;
            assert(tf[0].entries == b.raw_entries);
            lemma_written_fine(b.raw_entries, main_table(b));
        } else {
            let r = i - m;
            assert(tf[m + r] == tf[i]);
            assert(tw[m + r] == tw[i]);
            assert(table_writable(repo_table(f.repos[r].0, f.repos[r].1)));
            lemma_written_fine(f.repos[r].1.raw_entries, repo_table(f.repos[r].0, f.repos[r].1));
        }
    }
    assert(keys_unique(w.repos)) by {
        assert forall|i: int, j: int| 0 <= i < j < w.repos.len() implies w.repos[i].0 != w.repos[j].0 by {
            assert(f.repos[i].0 != f.repos[j].0);
        }
    }
    assert forall|i: int| 0 <= i < w.repos.len() implies {
        &&& crate::roundtrip::repo_block_canonical(#[trigger] w.repos[i].0, w.repos[i].1)
        &&& is_valid_repo_id(w.repos[i].0)
        &&& w.repos[i].0 != main_name()
    } by {
        assert(is_valid_repo_id(f.repos[i].0) && f.repos[i].0 != main_name());
    }
    assert(texts_shape(tw)) by {
        assert forall|i: int| 0 <= i < tw.len() implies is_section_name(#[trigger] tw[i].name) by {
            assert(is_section_name(tf[i].name));
        }
        assert forall|i: int, j: int| 0 <= i < tw.len() && 0 <= j < tw[i].header.len() implies is_comment_text(#[trigger] tw[i].header[j]) by {
            assert(is_comment_text(tf[i].header[j]));
        }
        assert forall|i: int, j: int| 0 <= i < tw.len() && 0 <= j < tw[i].entries.len() implies entry_ok(#[trigger] tw[i].entries[j]) by {
            assert(all_fine(tw[i].entries));
            assert(entry_fine(tw[i].entries[j]));
        }
    }
    assert forall|i: int, j: int, k: int|
        0 <= i < tw.len() && 0 <= j < tw[i].entries.len() && 0 <= k < tw[i].entries[j].leading_comments.len()
        implies ends_clean(#[trigger] tw[i].entries[j].leading_comments[k]) by {
        assert(all_fine(tw[i].entries));
        assert(entry_fine(tw[i].entries[j]));
    }
}

/// Parsing the rendered text of an edited file gives back its written
/// file (see [`lemma_render_reads_back_written`]) whenever the file has the
/// parser's shape apart from its typed data, every value written from the
/// typed data is writable, no leading comment ends with a carriage return,
/// and no comment would be written without its entry.
pub proof fn lemma_edited_file_reads_back(f: RepoFileView)
    requires
        layout_ok(f),
        values_writable(f),
        leading_clean(f),
        file_comments_kept(f),
    ensures
        spec_parse(spec_render(f)) == Ok::<RepoFileView, ParseFailure>(reread(written_file(f))),
        same_sections(written_file(f), reread(written_file(f))),
{
    lemma_written_shape(f);
    lemma_render_reads_back_written(f);
}


/// Writing is stable: reading the rendered text of an edited file and
/// rendering what was read gives the same text, under the conditions of
/// [`lemma_edited_file_reads_back`] and when no preamble, header comment or
/// leading comment line ends with a carriage return.
pub proof fn lemma_render_stable(f: RepoFileView)
    requires
        layout_ok(f),
        values_writable(f),
        no_line_ends_in_cr(f),
        file_comments_kept(f),
    ensures
        spec_parse(spec_render(f)) matches Ok(g) && spec_render(g) == spec_render(f),
{
    let w = written_file(f);
    lemma_written_shape(f);
    lemma_render_reads_back_written(f);
    let g = reread(w);
    lemma_reread_shape(w);
    crate::roundtrip::lemma_render_of_shape(g);
    crate::roundtrip::lemma_render_of_shape(w);
    lemma_file_lines_clean(g);
    lemma_render_is_joined(g);
    lemma_file_lines_clean(w);
    lemma_render_is_joined(w);
    lemma_render_is_written(f);
    let c = cr_cleaned(w);
    lemma_hoisted_lines(c);
    // w has the preamble and header comments of f, which end clean
    lemma_file_texts_index(f);
    let ts = file_texts(f);
    let m = main_count(f);
    lemma_strip_clean(w.preamble);
    assert forall|i: int| 0 <= i < w.repos.len() implies strip_headers(#[trigger] w.repos[i].1) == w.repos[i].1 by {
        assert(ts[m + i].header == f.repos[i].1.header_comments);
        assert forall|j: int| 0 <= j < w.repos[i].1.header_comments.len() implies ends_clean(#[trigger] w.repos[i].1.header_comments[j]) by {
            assert(ends_clean(ts[m + i].header[j]));
        }
        lemma_strip_clean(w.repos[i].1.header_comments);
    }
    assert(c.repos =~= w.repos);
    match w.main {
        Some(b) => {
            assert forall|j: int| 0 <= j < b.header_comments.len() implies ends_clean(#[trigger] b.header_comments[j]) by {
                assert(ends_clean(ts[0].header[j]));
            }
            lemma_strip_clean(b.header_comments);
            assert(strip_headers(b) =~= b);
        },
        None => {},
    }
    assert(c =~= w);
}

} // verus!
