//! Rendering a parsed file and parsing the text again gives back its
//! sections.
//!
//! The proof has three parts: the lines of a rendered text are the lines
//! that were written, each with one final carriage return dropped
//! ([`lemma_lines_of_joined`]); every file that the parser produces has the
//! shape that rendering preserves ([`lemma_parsed_file_ok`]); and parsing
//! the rendered lines of such a file rebuilds it, with the header comments
//! of its first section moved into the preamble ([`lemma_reparse_any`]).
//! [`lemma_parse_render_same_sections`] states the result for every parsed
//! file, and [`lemma_parse_render_round_trip`] the files that come back
//! unchanged.

use crate::collections::{
    key_index, keys_unique, lemma_key_index, lemma_key_index_at, lemma_key_index_none,
    lemma_insert_other, map_get, map_insert,
};
use crate::parse::{
    block_of, build_file, build_sections, finish_parse, header_name, header_of,
    initial_parse_model, is_comment_line, is_header_line, lines_from, parse_lines, parse_step,
    spec_lines, spec_parse, strip_cr, ParseFailure, ParseModel,
};
use crate::mainconfig::{empty_main_view, MainConfigView};
use crate::repo::empty_repo_view;
use crate::sections::{main_from_entries, repo_from_entries};
use crate::text::{
    is_trimmed, lemma_find_props, lemma_find_unique, lemma_trim_is_trimmed, lemma_trimmed_fixed,
    spec_find, spec_is_whitespace, spec_trim,
};
use crate::types::is_valid_repo_id;
use crate::values::{comment_start, comment_start_from, spec_split_value};
use crate::render::{
    entry_text, header_text, lemma_typed_section_plain, main_name, main_table, raw_render,
    render_entries, render_entry, render_line, render_lines, render_repos, render_section,
    repo_table, spec_render, typed_repos,
};
use crate::repo::RepoView;
use crate::repofile::{RawEntryView, RepoFileView, SectionBlockView};
use vstd::prelude::*;

verus! {

// ============================================================================
// Lines of a joined text
// ============================================================================

/// The text has no line feed.
pub open spec fn no_nl(s: Seq<char>) -> bool {
    forall|k: int| 0 <= k < s.len() ==> s[k] != '\n'
}

/// Lines written one after the other, each followed by a line feed.
pub open spec fn join_lines(ls: Seq<Seq<char>>) -> Seq<char>
    decreases ls.len(),
{
    if ls.len() == 0 {
        seq![]
    } else {
        ls[0].push('\n') + join_lines(ls.drop_first())
    }
}

proof fn lemma_join_lines_append(a: Seq<Seq<char>>, b: Seq<Seq<char>>)
    ensures
        join_lines(a + b) == join_lines(a) + join_lines(b),
    decreases a.len(),
{
    if a.len() == 0 {
        assert(a + b =~= b);
        assert(Seq::<char>::empty() + join_lines(b) =~= join_lines(b));
    } else {
        assert((a + b).drop_first() =~= a.drop_first() + b);
        lemma_join_lines_append(a.drop_first(), b);
        assert(a[0].push('\n') + (join_lines(a.drop_first()) + join_lines(b)) =~= (a[0].push('\n')
            + join_lines(a.drop_first())) + join_lines(b));
    }
}

proof fn lemma_join_lines_last(ls: Seq<Seq<char>>)
    requires
        ls.len() > 0,
    ensures
        join_lines(ls) == join_lines(ls.drop_last()) + ls.last().push('\n'),
{
    assert(ls =~= ls.drop_last() + seq![ls.last()]);
    lemma_join_lines_append(ls.drop_last(), seq![ls.last()]);
    assert(seq![ls.last()].drop_first() =~= Seq::<Seq<char>>::empty());
    assert(join_lines(Seq::<Seq<char>>::empty()) == Seq::<char>::empty());
    assert(ls.last().push('\n') + Seq::<char>::empty() =~= ls.last().push('\n'));
    assert(join_lines(seq![ls.last()]) =~= ls.last().push('\n'));
}

/// Scanning the second part of a text is scanning that part alone.
proof fn lemma_lines_from_shift(a: Seq<char>, b: Seq<char>, j: int, k: int)
    requires
        0 <= j <= k <= b.len(),
    ensures
        lines_from(a + b, a.len() + j, a.len() + k) == lines_from(b, j, k),
    decreases b.len() - k,
{
    let s = a + b;
    if k >= b.len() {
        if j < b.len() {
            assert(s.subrange(a.len() + j, s.len() as int) =~= b.subrange(j, b.len() as int));
        }
    } else {
        assert(s[a.len() + k] == b[k]);
        if b[k] == '\n' {
            assert(s.subrange(a.len() + j, a.len() + k) =~= b.subrange(j, k));
            lemma_lines_from_shift(a, b, k + 1, k + 1);
        } else {
            lemma_lines_from_shift(a, b, j, k + 1);
        }
    }
}

/// The first line of a text that starts with a line and a line feed.
proof fn lemma_lines_from_first(l: Seq<char>, rest: Seq<char>, k: int)
    requires
        no_nl(l),
        0 <= k <= l.len(),
    ensures
        lines_from(l.push('\n') + rest, 0, k) == seq![strip_cr(l)] + lines_from(
            l.push('\n') + rest,
            l.len() + 1int,
            l.len() + 1int,
        ),
    decreases l.len() - k,
{
    let s = l.push('\n') + rest;
    if k < l.len() {
        assert(s[k] == l[k]);
        lemma_lines_from_first(l, rest, k + 1);
    } else {
        assert(s[k] == '\n');
        assert(s.subrange(0, k) =~= l);
    }
}

/// The lines of joined lines are the lines (with a final carriage return
/// dropped).
pub proof fn lemma_lines_of_joined(ls: Seq<Seq<char>>)
    requires
        forall|i: int| 0 <= i < ls.len() ==> no_nl(#[trigger] ls[i]),
    ensures
        spec_lines(join_lines(ls)) == ls.map_values(|l: Seq<char>| strip_cr(l)),
    decreases ls.len(),
{
    if ls.len() == 0 {
        assert(ls.map_values(|l: Seq<char>| strip_cr(l)) =~= Seq::<Seq<char>>::empty());
    } else {
        let l = ls[0];
        let rest = join_lines(ls.drop_first());
        assert(no_nl(ls[0]));
        lemma_lines_from_first(l, rest, 0);
        lemma_lines_from_shift(l.push('\n'), rest, 0, 0);
        assert forall|i: int| 0 <= i < ls.drop_first().len() implies no_nl(
            #[trigger] ls.drop_first()[i],
        ) by {
            assert(ls.drop_first()[i] == ls[i + 1]);
        }
        lemma_lines_of_joined(ls.drop_first());
        assert(ls.map_values(|l: Seq<char>| strip_cr(l)) =~= seq![strip_cr(l)]
            + ls.drop_first().map_values(|l: Seq<char>| strip_cr(l)));
    }
}


// ============================================================================
// The lines of a rendered file
// ============================================================================

/// A line as stored: no line feed.
pub open spec fn is_line(l: Seq<char>) -> bool {
    no_nl(l)
}

/// Every line is a stored line.
pub open spec fn all_lines(ls: Seq<Seq<char>>) -> bool {
    forall|i: int| 0 <= i < ls.len() ==> is_line(#[trigger] ls[i])
}

/// The lines written for entries: each entry's leading comments, then its
/// `key=value` line.
pub open spec fn entry_lines(es: Seq<RawEntryView>) -> Seq<Seq<char>>
    decreases es.len(),
{
    if es.len() == 0 {
        seq![]
    } else {
        entry_lines(es.drop_last()) + es.last().leading_comments.push(entry_text(es.last()))
    }
}

/// The header line of a section, without its line feed.
pub open spec fn header_line(name: Seq<char>) -> Seq<char> {
    seq!['['] + name + seq![']']
}

/// The lines written for a section.
pub open spec fn section_lines<V>(name: Seq<char>, b: SectionBlockView<V>) -> Seq<Seq<char>> {
    b.header_comments + seq![header_line(name)] + entry_lines(b.raw_entries)
}

/// The lines written for the repository sections.
pub open spec fn repos_lines(rs: Seq<(Seq<char>, SectionBlockView<RepoView>)>) -> Seq<Seq<char>>
    decreases rs.len(),
{
    if rs.len() == 0 {
        seq![]
    } else {
        repos_lines(rs.drop_last()) + section_lines(rs.last().0, rs.last().1)
    }
}

/// The lines written for a file.
pub open spec fn file_lines(f: RepoFileView) -> Seq<Seq<char>> {
    f.preamble + match f.main {
        Some(b) => section_lines(main_name(), b),
        None => seq![],
    } + repos_lines(f.repos)
}

proof fn lemma_render_lines_joined(ls: Seq<Seq<char>>)
    requires
        all_lines(ls),
    ensures
        render_lines(ls) == join_lines(ls),
    decreases ls.len(),
{
    if ls.len() > 0 {
        lemma_render_lines_joined(ls.drop_last());
        lemma_join_lines_last(ls);
        assert(is_line(ls[ls.len() - 1]));
        assert(render_line(ls.last()) == ls.last().push('\n'));
    }
}

/// The lines of an entry have no line feed when its parts have none.
pub open spec fn entry_lines_clean(e: RawEntryView) -> bool {
    all_lines(e.leading_comments) && is_line(entry_text(e))
}

proof fn lemma_render_entries_joined(es: Seq<RawEntryView>)
    requires
        forall|i: int| 0 <= i < es.len() ==> entry_lines_clean(#[trigger] es[i]),
    ensures
        render_entries(es) == join_lines(entry_lines(es)),
        all_lines(entry_lines(es)),
    decreases es.len(),
{
    if es.len() > 0 {
        let e = es.last();
        assert(entry_lines_clean(es[es.len() - 1]));
        lemma_render_entries_joined(es.drop_last());
        lemma_render_lines_joined(e.leading_comments);
        lemma_join_lines_last(e.leading_comments.push(entry_text(e)));
        assert(e.leading_comments.push(entry_text(e)).drop_last() =~= e.leading_comments);
        lemma_join_lines_append(entry_lines(es.drop_last()), e.leading_comments.push(entry_text(e)));
        assert(render_entries(es) =~= join_lines(entry_lines(es)));
        let el = entry_lines(es);
        assert forall|i: int| 0 <= i < el.len() implies is_line(#[trigger] el[i]) by {
            let a = entry_lines(es.drop_last());
            if i < a.len() {
                assert(el[i] == a[i]);
            } else if i < a.len() + e.leading_comments.len() {
                assert(el[i] == e.leading_comments[i - a.len()]);
            } else {
                assert(el[i] == entry_text(e));
            }
        }
    }
}

/// The lines of a section have no line feed.
pub open spec fn block_lines_clean<V>(name: Seq<char>, b: SectionBlockView<V>) -> bool {
    text_lines_clean(SectionText { name: name, header: b.header_comments, entries: b.raw_entries })
}

/// The lines of a section's name, header comments and entries are stored
/// lines.
pub open spec fn text_lines_clean(t: SectionText) -> bool {
    &&& is_line(t.name)
    &&& all_lines(t.header)
    &&& forall|i: int| 0 <= i < t.entries.len() ==> entry_lines_clean(#[trigger] t.entries[i])
}

proof fn lemma_render_section_joined<V>(name: Seq<char>, b: SectionBlockView<V>)
    requires
        block_lines_clean(name, b),
    ensures
        render_section(name, b) == join_lines(section_lines(name, b)),
        all_lines(section_lines(name, b)),
{
    let t = SectionText { name: name, header: b.header_comments, entries: b.raw_entries };
    assert(text_lines_clean(t));
    assert forall|i: int| 0 <= i < b.raw_entries.len() implies entry_lines_clean(#[trigger] b.raw_entries[i]) by {
        assert(t.entries[i] == b.raw_entries[i]);
    }
    assert(all_lines(b.header_comments));
    assert(is_line(name));
    lemma_render_lines_joined(b.header_comments);
    lemma_render_entries_joined(b.raw_entries);
    let h = seq![header_line(name)];
    assert(h.drop_first() =~= Seq::<Seq<char>>::empty());
    assert(join_lines(Seq::<Seq<char>>::empty()) == Seq::<char>::empty());
    assert(join_lines(h) =~= header_text(name));
    lemma_join_lines_append(b.header_comments, h);
    lemma_join_lines_append(b.header_comments + h, entry_lines(b.raw_entries));
    let sl = section_lines(name, b);
    assert forall|i: int| 0 <= i < sl.len() implies is_line(#[trigger] sl[i]) by {
        let n = b.header_comments.len();
        if i < n {
            assert(sl[i] == b.header_comments[i]);
        } else if i == n {
            assert(sl[i] == header_line(name));
        } else {
            assert(sl[i] == entry_lines(b.raw_entries)[i - n - 1]);
        }
    }
}

/// The lines of every section of a file have no line feed.
pub open spec fn file_lines_clean(f: RepoFileView) -> bool {
    &&& all_lines(f.preamble)
    &&& (f.main matches Some(b) ==> block_lines_clean(main_name(), b))
    &&& forall|i: int| 0 <= i < f.repos.len() ==> block_lines_clean(#[trigger] f.repos[i].0, f.repos[i].1)
}

proof fn lemma_render_repos_joined(rs: Seq<(Seq<char>, SectionBlockView<RepoView>)>)
    requires
        forall|i: int| 0 <= i < rs.len() ==> block_lines_clean(#[trigger] rs[i].0, rs[i].1),
    ensures
        render_repos(rs) == join_lines(repos_lines(rs)),
        all_lines(repos_lines(rs)),
    decreases rs.len(),
{
    if rs.len() > 0 {
        assert(block_lines_clean(rs[rs.len() - 1].0, rs[rs.len() - 1].1));
        lemma_render_repos_joined(rs.drop_last());
        lemma_render_section_joined(rs.last().0, rs.last().1);
        lemma_join_lines_append(repos_lines(rs.drop_last()), section_lines(rs.last().0, rs.last().1));
        let a = repos_lines(rs.drop_last());
        let b = section_lines(rs.last().0, rs.last().1);
        assert forall|i: int| 0 <= i < (a + b).len() implies is_line(#[trigger] (a + b)[i]) by {
            if i < a.len() {
                assert((a + b)[i] == a[i]);
            } else {
                assert((a + b)[i] == b[i - a.len()]);
            }
        }
    }
}

/// The rendered text is the file's lines joined.
pub proof fn lemma_render_is_joined(f: RepoFileView)
    requires
        file_lines_clean(f),
    ensures
        raw_render(f) == join_lines(file_lines(f)),
        all_lines(file_lines(f)),
{
    lemma_render_lines_joined(f.preamble);
    lemma_render_repos_joined(f.repos);
    let m: Seq<Seq<char>> = match f.main {
        Some(b) => section_lines(main_name(), b),
        None => seq![],
    };
    match f.main {
        Some(b) => {
            lemma_render_section_joined(main_name(), b);
        },
        None => {
            assert(join_lines(m) == Seq::<char>::empty());
        },
    }
    lemma_join_lines_append(f.preamble, m);
    lemma_join_lines_append(f.preamble + m, repos_lines(f.repos));
    assert(raw_render(f) =~= join_lines(file_lines(f)));
    let fl = file_lines(f);
    assert forall|i: int| 0 <= i < fl.len() implies is_line(#[trigger] fl[i]) by {
        let p = f.preamble.len();
        if i < p {
            assert(fl[i] == f.preamble[i]);
        } else if i < p + m.len() {
            assert(fl[i] == m[i - p]);
        } else {
            assert(fl[i] == repos_lines(f.repos)[i - p - m.len()]);
        }
    }
}


// ============================================================================
// Reading lines with the parser
// ============================================================================

/// The parser state after reading `ls` in order (line numbers only matter
/// for failures, which this is used to rule out).
pub open spec fn run(st: ParseModel, ls: Seq<Seq<char>>) -> Result<ParseModel, ParseFailure>
    decreases ls.len(),
{
    if ls.len() == 0 {
        Ok(st)
    } else {
        match parse_step(st, ls[0], 0) {
            Ok(next) => run(next, ls.drop_first()),
            Err(e) => Err(e),
        }
    }
}

proof fn lemma_run_one(st: ParseModel, l: Seq<char>)
    ensures
        run(st, seq![l]) == parse_step(st, l, 0),
{
    assert(seq![l][0] == l);
    assert(seq![l].drop_first() =~= Seq::<Seq<char>>::empty());
    match parse_step(st, l, 0) {
        Ok(n) => {
            assert(run(n, Seq::<Seq<char>>::empty()) == Ok::<ParseModel, ParseFailure>(n));
        },
        Err(_) => {},
    }
}

proof fn lemma_step_number(st: ParseModel, l: Seq<char>, n: nat)
    requires
        parse_step(st, l, 0) is Ok,
    ensures
        parse_step(st, l, n) == parse_step(st, l, 0),
{
}

/// Reading the lines from `i` on is the run over them.
proof fn lemma_run_parse_lines(st: ParseModel, ls: Seq<Seq<char>>, i: int)
    requires
        0 <= i <= ls.len(),
        run(st, ls.subrange(i, ls.len() as int)) is Ok,
    ensures
        parse_lines(st, ls, i) == run(st, ls.subrange(i, ls.len() as int)),
    decreases ls.len() - i,
{
    let rest = ls.subrange(i, ls.len() as int);
    if i < ls.len() {
        assert(rest[0] == ls[i]);
        lemma_step_number(st, ls[i], (i + 1) as nat);
        let next = parse_step(st, ls[i], 0)->Ok_0;
        assert(rest.drop_first() =~= ls.subrange(i + 1, ls.len() as int));
        lemma_run_parse_lines(next, ls, i + 1);
    }
}

proof fn lemma_run_append(st: ParseModel, a: Seq<Seq<char>>, b: Seq<Seq<char>>)
    ensures
        run(st, a + b) == match run(st, a) {
            Ok(mid) => run(mid, b),
            Err(e) => Err(e),
        },
    decreases a.len(),
{
    if a.len() == 0 {
        assert(a + b =~= b);
    } else {
        assert((a + b)[0] == a[0]);
        assert((a + b).drop_first() =~= a.drop_first() + b);
        match parse_step(st, a[0], 0) {
            Ok(next) => {
                lemma_run_append(next, a.drop_first(), b);
            },
            Err(_) => {},
        }
    }
}

/// A stored comment line: blank (kept as an empty line) or a line whose
/// trimmed text starts with `#` or `;`.
pub open spec fn is_comment_text(p: Seq<char>) -> bool {
    &&& no_nl(p)
    &&& (p.len() == 0 || is_comment_line(spec_trim(p)))
}

/// The trimmed text of a `key=value` line.
pub open spec fn is_entry_text(t: Seq<char>) -> bool {
    &&& t.len() > 0
    &&& !is_comment_line(t)
    &&& !is_header_line(t)
    &&& spec_find(t, '=') is Some
    &&& spec_trim(t.subrange(0, spec_find(t, '=')->0)).len() > 0
}

/// A stored preamble line: a comment line, or a `key=value` line before
/// the first section.
pub open spec fn is_preamble_text(p: Seq<char>) -> bool {
    ||| is_comment_text(p)
    ||| no_nl(p) && is_entry_text(spec_trim(p))
}

proof fn lemma_step_comment(st: ParseModel, p: Seq<char>)
    requires
        st.current is Some,
        is_comment_text(p),
    ensures
        parse_step(st, p, 0) == Ok::<ParseModel, ParseFailure>(
            ParseModel { pending: st.pending.push(p), ..st },
        ),
{
    if p.len() == 0 {
        assert(p =~= Seq::<char>::empty());
        assert(spec_trim(p).len() == 0);
    }
}

proof fn lemma_step_preamble(st: ParseModel, p: Seq<char>)
    requires
        st.current is None,
        st.pending.len() == 0,
        is_preamble_text(p),
    ensures
        parse_step(st, p, 0) == Ok::<ParseModel, ParseFailure>(
            ParseModel { preamble: st.preamble.push(p), ..st },
        ),
{
    if p.len() == 0 {
        assert(p =~= Seq::<char>::empty());
        assert(spec_trim(p).len() == 0);
    } else if !is_comment_text(p) {
        assert(st.pending =~= Seq::<Seq<char>>::empty());
    }
}

proof fn lemma_run_comments(st: ParseModel, cs: Seq<Seq<char>>)
    requires
        st.current is Some,
        forall|i: int| 0 <= i < cs.len() ==> is_comment_text(#[trigger] cs[i]),
    ensures
        run(st, cs) == Ok::<ParseModel, ParseFailure>(ParseModel { pending: st.pending + cs, ..st }),
    decreases cs.len(),
{
    if cs.len() == 0 {
        assert(st.pending + cs =~= st.pending);
    } else {
        assert(is_comment_text(cs[0]));
        lemma_step_comment(st, cs[0]);
        let next = ParseModel { pending: st.pending.push(cs[0]), ..st };
        assert forall|i: int| 0 <= i < cs.drop_first().len() implies is_comment_text(
            #[trigger] cs.drop_first()[i],
        ) by {
            assert(cs.drop_first()[i] == cs[i + 1]);
        }
        lemma_run_comments(next, cs.drop_first());
        assert(st.pending.push(cs[0]) + cs.drop_first() =~= st.pending + cs);
    }
}

proof fn lemma_run_preamble(st: ParseModel, ps: Seq<Seq<char>>)
    requires
        st.current is None,
        st.pending.len() == 0,
        forall|i: int| 0 <= i < ps.len() ==> is_preamble_text(#[trigger] ps[i]),
    ensures
        run(st, ps) == Ok::<ParseModel, ParseFailure>(ParseModel { preamble: st.preamble + ps, ..st }),
    decreases ps.len(),
{
    if ps.len() == 0 {
        assert(st.preamble + ps =~= st.preamble);
    } else {
        assert(is_preamble_text(ps[0]));
        lemma_step_preamble(st, ps[0]);
        let next = ParseModel { preamble: st.preamble.push(ps[0]), ..st };
        assert forall|i: int| 0 <= i < ps.drop_first().len() implies is_preamble_text(
            #[trigger] ps.drop_first()[i],
        ) by {
            assert(ps.drop_first()[i] == ps[i + 1]);
        }
        lemma_run_preamble(next, ps.drop_first());
        assert(st.preamble.push(ps[0]) + ps.drop_first() =~= st.preamble + ps);
    }
}


/// The name of a section that the parser accepts: `main` or a repository ID.
pub open spec fn is_section_name(n: Seq<char>) -> bool {
    n == main_name() || is_valid_repo_id(n)
}

proof fn lemma_section_name_trimmed(n: Seq<char>)
    requires
        is_section_name(n),
    ensures
        n.len() > 0,
        is_trimmed(n),
        spec_trim(n) == n,
        no_nl(n),
        is_trimmed(header_line(n)),
        spec_trim(header_line(n)) == header_line(n),
        no_nl(header_line(n)),
{
    lemma_trimmed_fixed(n);
    lemma_trimmed_fixed(header_line(n));
}

/// The state after a section header line.
pub open spec fn after_header(st: ParseModel, name: Seq<char>) -> ParseModel {
    let flushed = match st.current {
        Some(sec) => ParseModel {
            sections: map_insert(st.sections, sec, st.entries),
            entries: seq![],
            current: None,
            ..st
        },
        None => st,
    };
    let with_headers = if flushed.pending.len() > 0 {
        ParseModel {
            headers: map_insert(flushed.headers, name, flushed.pending),
            pending: seq![],
            ..flushed
        }
    } else {
        flushed
    };
    ParseModel { current: Some(name), ..with_headers }
}

proof fn lemma_step_header(st: ParseModel, name: Seq<char>)
    requires
        is_section_name(name),
    ensures
        parse_step(st, header_line(name), 0) == Ok::<ParseModel, ParseFailure>(after_header(st, name)),
{
    lemma_section_name_trimmed(name);
    let t = header_line(name);
    assert(t.subrange(1, t.len() - 1) =~= name);
    assert(header_name(t) == name);
    reveal_strlit("main");
    assert(main_name() =~= "main"@);
}

/// The `key=value` line of an entry reads back as the same key, value and
/// inline comment.
pub open spec fn entry_line_ok(e: RawEntryView) -> bool {
    let l = entry_text(e);
    let k = e.key.len() as int;
    &&& spec_trim(l) == l
    &&& is_entry_text(l)
    &&& spec_find(l, '=') == Some(k)
    &&& spec_trim(l.subrange(0, k)) == e.key
    &&& spec_trim(spec_split_value(l.subrange(k + 1, l.len() as int)).0) == e.value
    &&& spec_split_value(l.subrange(k + 1, l.len() as int)).1 == e.inline_comment
}

/// An entry that rendering and reading back preserves.
pub open spec fn entry_ok(e: RawEntryView) -> bool {
    &&& entry_line_ok(e)
    &&& no_nl(entry_text(e))
    &&& forall|i: int|
        0 <= i < e.leading_comments.len() ==> is_comment_text(#[trigger] e.leading_comments[i])
}

proof fn lemma_step_entry(st: ParseModel, e: RawEntryView)
    requires
        st.current is Some,
        entry_line_ok(e),
    ensures
        parse_step(st, entry_text(e), 0) == Ok::<ParseModel, ParseFailure>(
            ParseModel {
                entries: st.entries.push(RawEntryView { leading_comments: st.pending, ..e }),
                pending: seq![],
                ..st
            },
        ),
{
}

/// The state after reading the lines of entries.
proof fn lemma_run_entries(st: ParseModel, es: Seq<RawEntryView>)
    requires
        st.current is Some,
        st.pending.len() == 0,
        forall|i: int| 0 <= i < es.len() ==> entry_ok(#[trigger] es[i]),
    ensures
        run(st, entry_lines(es)) == Ok::<ParseModel, ParseFailure>(
            ParseModel { entries: st.entries + es, ..st },
        ),
    decreases es.len(),
{
    if es.len() == 0 {
        assert(st.entries + es =~= st.entries);
    } else {
        let e = es.last();
        assert(entry_ok(es[es.len() - 1]));
        assert forall|i: int| 0 <= i < es.drop_last().len() implies entry_ok(
            #[trigger] es.drop_last()[i],
        ) by {
            assert(es.drop_last()[i] == es[i]);
        }
        lemma_run_entries(st, es.drop_last());
        let st1 = ParseModel { entries: st.entries + es.drop_last(), ..st };
        lemma_run_append(st, entry_lines(es.drop_last()), e.leading_comments.push(entry_text(e)));
        assert(e.leading_comments.push(entry_text(e)) =~= e.leading_comments + seq![entry_text(e)]);
        lemma_run_append(st1, e.leading_comments, seq![entry_text(e)]);
        lemma_run_comments(st1, e.leading_comments);
        let st2 = ParseModel { pending: st1.pending + e.leading_comments, ..st1 };
        assert(st1.pending + e.leading_comments =~= e.leading_comments);
        lemma_step_entry(st2, e);
        assert(RawEntryView { leading_comments: st2.pending, ..e } =~= e);
        let st3 = ParseModel {
            entries: st2.entries.push(e),
            pending: seq![],
            ..st2
        };
        lemma_run_one(st2, entry_text(e));
        assert(st.pending =~= Seq::<Seq<char>>::empty());
        assert(st3 =~= ParseModel { entries: st.entries + es, ..st });
    }
}

/// The lines of a section given by its name, header comments and entries.
pub open spec fn record_lines(name: Seq<char>, hc: Seq<Seq<char>>, es: Seq<RawEntryView>) -> Seq<Seq<char>> {
    hc + seq![header_line(name)] + entry_lines(es)
}

/// The state after reading a whole section.
pub open spec fn after_section(st: ParseModel, name: Seq<char>, hc: Seq<Seq<char>>, es: Seq<RawEntryView>) -> ParseModel {
    ParseModel {
        preamble: st.preamble,
        pending: seq![],
        current: Some(name),
        entries: es,
        sections: match st.current {
            Some(prev) => map_insert(st.sections, prev, st.entries),
            None => st.sections,
        },
        headers: if hc.len() > 0 {
            map_insert(st.headers, name, hc)
        } else {
            st.headers
        },
    }
}

proof fn lemma_run_section(st: ParseModel, name: Seq<char>, hc: Seq<Seq<char>>, es: Seq<RawEntryView>)
    requires
        st.pending.len() == 0,
        st.current is None ==> hc.len() == 0 && st.entries.len() == 0,
        is_section_name(name),
        forall|i: int| 0 <= i < hc.len() ==> is_comment_text(#[trigger] hc[i]),
        forall|i: int| 0 <= i < es.len() ==> entry_ok(#[trigger] es[i]),
    ensures
        run(st, record_lines(name, hc, es)) == Ok::<ParseModel, ParseFailure>(after_section(st, name, hc, es)),
{
    let h = seq![header_line(name)];
    lemma_run_append(st, hc + h, entry_lines(es));
    lemma_run_append(st, hc, h);
    let st1 = if st.current is Some {
        lemma_run_comments(st, hc);
        ParseModel { pending: st.pending + hc, ..st }
    } else {
        assert(hc =~= Seq::<Seq<char>>::empty());
        st
    };
    assert(st1.pending =~= hc);
    assert(run(st, hc) == Ok::<ParseModel, ParseFailure>(st1));
    lemma_step_header(st1, name);
    let st2 = after_header(st1, name);
    lemma_run_one(st1, header_line(name));
    lemma_run_entries(st2, es);
    assert(st2.entries + es =~= es);
    assert(ParseModel { entries: st2.entries + es, ..st2 } =~= after_section(st, name, hc, es));
}


// ============================================================================
// Reading the sections of a rendered file
// ============================================================================

/// What the parser reads of one section: its name, header comments and
/// entries.
pub struct SectionText {
    pub name: Seq<char>,
    pub header: Seq<Seq<char>>,
    pub entries: Seq<RawEntryView>,
}

/// The lines written for sections, in order.
pub open spec fn texts_lines(ts: Seq<SectionText>) -> Seq<Seq<char>>
    decreases ts.len(),
{
    if ts.len() == 0 {
        seq![]
    } else {
        texts_lines(ts.drop_last()) + record_lines(ts.last().name, ts.last().header, ts.last().entries)
    }
}

/// The sections of a file in the order they are written.
pub open spec fn file_texts(f: RepoFileView) -> Seq<SectionText> {
    (match f.main {
        Some(b) => seq![SectionText { name: main_name(), header: b.header_comments, entries: b.raw_entries }],
        None => seq![],
    }) + repo_texts(f.repos)
}

/// The repository sections as read.
pub open spec fn repo_texts(rs: Seq<(Seq<char>, SectionBlockView<RepoView>)>) -> Seq<SectionText> {
    rs.map_values(|p: (Seq<char>, SectionBlockView<RepoView>)| SectionText { name: p.0, header: p.1.header_comments, entries: p.1.raw_entries })
}

proof fn lemma_texts_lines_append(a: Seq<SectionText>, b: Seq<SectionText>)
    ensures
        texts_lines(a + b) == texts_lines(a) + texts_lines(b),
    decreases b.len(),
{
    if b.len() == 0 {
        assert(a + b =~= a);
        assert(texts_lines(a) + Seq::<Seq<char>>::empty() =~= texts_lines(a));
    } else {
        assert((a + b).drop_last() =~= a + b.drop_last());
        assert((a + b).last() == b.last());
        lemma_texts_lines_append(a, b.drop_last());
        let r = record_lines(b.last().name, b.last().header, b.last().entries);
        assert(texts_lines(a) + texts_lines(b.drop_last()) + r =~= texts_lines(a) + (texts_lines(
            b.drop_last(),
        ) + r));
    }
}

proof fn lemma_repos_lines_texts(rs: Seq<(Seq<char>, SectionBlockView<RepoView>)>)
    ensures
        repos_lines(rs) == texts_lines(repo_texts(rs)),
    decreases rs.len(),
{
    if rs.len() > 0 {
        assert(repo_texts(rs).drop_last() =~= repo_texts(rs.drop_last()));
        lemma_repos_lines_texts(rs.drop_last());
    } else {
        assert(repo_texts(rs) =~= Seq::<SectionText>::empty());
    }
}

proof fn lemma_file_lines_texts(f: RepoFileView)
    ensures
        file_lines(f) == f.preamble + texts_lines(file_texts(f)),
{
    let m: Seq<SectionText> = match f.main {
        Some(b) => seq![SectionText { name: main_name(), header: b.header_comments, entries: b.raw_entries }],
        None => seq![],
    };
    lemma_texts_lines_append(m, repo_texts(f.repos));
    lemma_repos_lines_texts(f.repos);
    match f.main {
        Some(b) => {
            assert(m.drop_last() =~= Seq::<SectionText>::empty());
            assert(texts_lines(Seq::<SectionText>::empty()) == Seq::<Seq<char>>::empty());
            assert(m.last() == SectionText { name: main_name(), header: b.header_comments, entries: b.raw_entries });
            assert(Seq::<Seq<char>>::empty() + section_lines(main_name(), b) =~= section_lines(main_name(), b));
            assert(texts_lines(m) =~= section_lines(main_name(), b));
        },
        None => {},
    }
    assert(file_lines(f) =~= f.preamble + texts_lines(file_texts(f)));
}

/// The finished sections of a list of sections: name and entries.
pub open spec fn secs_of(ts: Seq<SectionText>) -> Seq<(Seq<char>, Seq<RawEntryView>)> {
    ts.map_values(|t: SectionText| (t.name, t.entries))
}

/// The recorded header comments of a list of sections (those that have
/// some), in order.
pub open spec fn hdrs_of(ts: Seq<SectionText>) -> Seq<(Seq<char>, Seq<Seq<char>>)>
    decreases ts.len(),
{
    if ts.len() == 0 {
        seq![]
    } else if ts.last().header.len() > 0 {
        hdrs_of(ts.drop_last()).push((ts.last().name, ts.last().header))
    } else {
        hdrs_of(ts.drop_last())
    }
}

/// The parser state after the preamble and the sections `ts`.
pub open spec fn state_after(pre: Seq<Seq<char>>, ts: Seq<SectionText>) -> ParseModel {
    if ts.len() == 0 {
        ParseModel { preamble: pre, ..initial_parse_model() }
    } else {
        ParseModel {
            preamble: pre,
            pending: seq![],
            current: Some(ts.last().name),
            entries: ts.last().entries,
            sections: secs_of(ts.drop_last()),
            headers: hdrs_of(ts),
        }
    }
}

/// The sections have distinct names.
pub open spec fn distinct_names(ts: Seq<SectionText>) -> bool {
    forall|i: int, j: int| 0 <= i < j < ts.len() ==> ts[i].name != ts[j].name
}

/// The sections can be read back: distinct valid names, comment lines,
/// readable entries, and no header comments before the first one.
pub open spec fn texts_ok(ts: Seq<SectionText>) -> bool {
    &&& distinct_names(ts)
    &&& texts_shape(ts)
    &&& ts.len() > 0 ==> ts[0].header.len() == 0
}

/// Each section has a valid name, comment lines as header comments, and
/// readable entries.
pub open spec fn texts_shape(ts: Seq<SectionText>) -> bool {
    &&& forall|i: int| 0 <= i < ts.len() ==> is_section_name(#[trigger] ts[i].name)
    &&& forall|i: int, j: int|
        0 <= i < ts.len() && 0 <= j < ts[i].header.len() ==> is_comment_text(#[trigger] ts[i].header[j])
    &&& forall|i: int, j: int|
        0 <= i < ts.len() && 0 <= j < ts[i].entries.len() ==> entry_ok(#[trigger] ts[i].entries[j])
}

proof fn lemma_hdrs_keys(ts: Seq<SectionText>, k: Seq<char>)
    requires
        forall|i: int| 0 <= i < ts.len() ==> ts[i].name != k,
    ensures
        key_index(hdrs_of(ts), k) is None,
    decreases ts.len(),
{
    if ts.len() > 0 {
        lemma_hdrs_keys(ts.drop_last(), k);
        if ts.last().header.len() > 0 {
            lemma_key_index(hdrs_of(ts.drop_last()), k);
            let h = hdrs_of(ts);
            assert forall|j: int| 0 <= j < h.len() implies h[j].0 != k by {
                if j < hdrs_of(ts.drop_last()).len() {
                    assert(h[j] == hdrs_of(ts.drop_last())[j]);
                }
            }
            lemma_key_index_none(h, k);
        }
    }
}

proof fn lemma_secs_keys(ts: Seq<SectionText>, k: Seq<char>)
    requires
        forall|i: int| 0 <= i < ts.len() ==> ts[i].name != k,
    ensures
        key_index(secs_of(ts), k) is None,
{
    let s = secs_of(ts);
    assert forall|j: int| 0 <= j < s.len() implies s[j].0 != k by {
        assert(s[j].0 == ts[j].name);
    }
    lemma_key_index_none(s, k);
}

/// Reading the lines of sections one after the other.
proof fn lemma_run_texts(pre: Seq<Seq<char>>, ts: Seq<SectionText>)
    requires
        texts_ok(ts),
    ensures
        run(state_after(pre, seq![]), texts_lines(ts)) == Ok::<ParseModel, ParseFailure>(state_after(pre, ts)),
    decreases ts.len(),
{
    if ts.len() > 0 {
        let dl = ts.drop_last();
        let t = ts.last();
        assert(texts_ok(dl)) by {
            assert forall|i: int, j: int|
                0 <= i < dl.len() && 0 <= j < dl[i].header.len() implies is_comment_text(#[trigger] dl[i].header[j]) by {
                assert(dl[i] == ts[i]);
            }
            assert forall|i: int, j: int|
                0 <= i < dl.len() && 0 <= j < dl[i].entries.len() implies entry_ok(#[trigger] dl[i].entries[j]) by {
                assert(dl[i] == ts[i]);
            }
            assert forall|i: int| 0 <= i < dl.len() implies is_section_name(#[trigger] dl[i].name) by {
                assert(dl[i] == ts[i]);
            }
        }
        lemma_run_texts(pre, dl);
        lemma_run_append(state_after(pre, seq![]), texts_lines(dl), record_lines(t.name, t.header, t.entries));
        let st = state_after(pre, dl);
        assert(is_section_name(ts[ts.len() - 1].name));
        assert forall|j: int| 0 <= j < t.header.len() implies is_comment_text(#[trigger] t.header[j]) by {
            assert(t.header[j] == ts[ts.len() - 1].header[j]);
        }
        assert forall|j: int| 0 <= j < t.entries.len() implies entry_ok(#[trigger] t.entries[j]) by {
            assert(t.entries[j] == ts[ts.len() - 1].entries[j]);
        }
        if dl.len() == 0 {
            assert(t == ts[0]);
        }
        lemma_run_section(st, t.name, t.header, t.entries);
        let after = after_section(st, t.name, t.header, t.entries);
        if dl.len() == 0 {
            assert(dl =~= Seq::<SectionText>::empty());
            assert(t.header.len() == 0);
            assert(hdrs_of(ts) =~= Seq::<(Seq<char>, Seq<Seq<char>>)>::empty());
            assert(secs_of(dl) =~= Seq::<(Seq<char>, Seq<RawEntryView>)>::empty());
            assert(after =~= state_after(pre, ts));
        } else {
            let prev = dl.last();
            assert forall|i: int| 0 <= i < dl.drop_last().len() implies dl.drop_last()[i].name != prev.name by {
                assert(dl.drop_last()[i] == ts[i]);
                assert(prev == ts[dl.len() - 1]);
            }
            lemma_secs_keys(dl.drop_last(), prev.name);
            assert(secs_of(dl) =~= secs_of(dl.drop_last()).push((prev.name, prev.entries)));
            assert(map_insert(secs_of(dl.drop_last()), prev.name, prev.entries) == secs_of(dl));
            if t.header.len() > 0 {
                assert forall|i: int| 0 <= i < dl.len() implies dl[i].name != t.name by {
                    assert(dl[i] == ts[i]);
                    assert(t == ts[ts.len() - 1]);
                }
                lemma_hdrs_keys(dl, t.name);
            }
            assert(after =~= state_after(pre, ts));
        }
    } else {
        assert(texts_lines(ts) =~= Seq::<Seq<char>>::empty());
    }
}


// ============================================================================
// Rebuilding the file
// ============================================================================

/// The `[main]` block is what its entries give.
pub open spec fn main_block_canonical(b: SectionBlockView<MainConfigView>) -> bool {
    b == block_of(b.header_comments, main_from_entries(empty_main_view(), b.raw_entries), b.raw_entries)
}

/// A repository block is what its entries give for its ID.
pub open spec fn repo_block_canonical(id: Seq<char>, b: SectionBlockView<RepoView>) -> bool {
    b == block_of(b.header_comments, repo_from_entries(empty_repo_view(id), b.raw_entries), b.raw_entries)
}

/// The shape of every file that the parser produces.
pub open spec fn file_shape(f: RepoFileView) -> bool {
    &&& forall|i: int| 0 <= i < f.preamble.len() ==> is_preamble_text(#[trigger] f.preamble[i])
    &&& (f.main matches Some(b) ==> main_block_canonical(b))
    &&& forall|i: int|
        0 <= i < f.repos.len() ==> {
            &&& repo_block_canonical(#[trigger] f.repos[i].0, f.repos[i].1)
            &&& is_valid_repo_id(f.repos[i].0)
            &&& f.repos[i].0 != main_name()
        }
    &&& keys_unique(f.repos)
    &&& texts_shape(file_texts(f))
}

/// No stored comment or preamble line ends with a carriage return.
pub open spec fn no_line_ends_in_cr(f: RepoFileView) -> bool {
    let ts = file_texts(f);
    &&& forall|i: int| 0 <= i < f.preamble.len() ==> ends_clean(#[trigger] f.preamble[i])
    &&& forall|i: int, j: int| 0 <= i < ts.len() && 0 <= j < ts[i].header.len() ==> ends_clean(#[trigger] ts[i].header[j])
    &&& forall|i: int, j: int, k: int|
        0 <= i < ts.len() && 0 <= j < ts[i].entries.len() && 0 <= k < ts[i].entries[j].leading_comments.len()
            ==> ends_clean(#[trigger] ts[i].entries[j].leading_comments[k])
}

/// The line does not end with a carriage return.
pub open spec fn ends_clean(l: Seq<char>) -> bool {
    !(l.len() > 0 && l.last() == '\r')
}

/// The first section written (`[main]` if present, else the first
/// repository) has no header comments.
pub open spec fn first_section_uncommented(f: RepoFileView) -> bool {
    file_texts(f).len() > 0 ==> file_texts(f)[0].header.len() == 0
}

/// The number of `[main]` sections among the written sections.
pub open spec fn main_count(f: RepoFileView) -> int {
    if f.main is Some { 1 } else { 0 }
}

/// The sections of a file in written order: `[main]` first when present,
/// then the repositories.
pub proof fn lemma_file_texts_index(f: RepoFileView)
    ensures
        file_texts(f).len() == main_count(f) + f.repos.len(),
        f.main matches Some(b) ==> file_texts(f)[0] == (SectionText {
            name: main_name(),
            header: b.header_comments,
            entries: b.raw_entries,
        }),
        forall|i: int| 0 <= i < f.repos.len() ==> #[trigger] file_texts(f)[main_count(f) + i] == (SectionText {
            name: f.repos[i].0,
            header: f.repos[i].1.header_comments,
            entries: f.repos[i].1.raw_entries,
        }),
{
}

proof fn lemma_texts_ok(f: RepoFileView)
    requires
        file_shape(f),
        first_section_uncommented(f),
    ensures
        texts_ok(file_texts(f)),
{
    lemma_file_texts_index(f);
    let ts = file_texts(f);
    let m = main_count(f);
    assert forall|i: int, j: int| 0 <= i < j < ts.len() implies ts[i].name != ts[j].name by {
        assert(ts[j] == ts[m + (j - m)]);
        assert(f.repos[j - m].0 != main_name());
        if i >= m {
            assert(ts[i] == ts[m + (i - m)]);
            assert(f.repos[i - m].0 != f.repos[j - m].0);
        } else {
            assert(ts[i].name == main_name());
        }
    }
}

/// The lines of a file of the parser's shape have no line feed.
pub proof fn lemma_file_lines_clean(f: RepoFileView)
    requires
        file_shape(f),
    ensures
        file_lines_clean(f),
{
    lemma_file_texts_index(f);
    let ts = file_texts(f);
    let m = main_count(f);
    assert forall|i: int| 0 <= i < ts.len() implies text_lines_clean(#[trigger] ts[i]) by {
        lemma_section_name_trimmed(ts[i].name);
        assert forall|j: int| 0 <= j < ts[i].header.len() implies is_line(#[trigger] ts[i].header[j]) by {
            assert(is_comment_text(ts[i].header[j]));
        }
        assert forall|j: int| 0 <= j < ts[i].entries.len() implies entry_lines_clean(#[trigger] ts[i].entries[j]) by {
            let e = ts[i].entries[j];
            assert(entry_ok(e));
            assert forall|k: int| 0 <= k < e.leading_comments.len() implies is_line(#[trigger] e.leading_comments[k]) by {
                assert(is_comment_text(e.leading_comments[k]));
            }
            let l = entry_text(e);
            crate::text::lemma_trim_is_trimmed(l);
            assert(spec_trim(l) == l);
            assert(l.len() > 0);
            assert(!spec_is_whitespace(l.last()));
        }
    }
    assert forall|i: int| 0 <= i < f.preamble.len() implies is_line(#[trigger] f.preamble[i]) by {
        assert(is_preamble_text(f.preamble[i]));
    }
    match f.main {
        Some(b) => {
            assert(ts[0].name == main_name());
        },
        None => {},
    }
    assert forall|i: int| 0 <= i < f.repos.len() implies block_lines_clean(#[trigger] f.repos[i].0, f.repos[i].1) by {
        assert(text_lines_clean(ts[m + i]));
    }
}


/// The recorded header comments of each section are found under its name.
proof fn lemma_hdrs_lookup(ts: Seq<SectionText>, j: int)
    requires
        distinct_names(ts),
        0 <= j < ts.len(),
    ensures
        header_of(hdrs_of(ts), ts[j].name) == ts[j].header,
    decreases ts.len(),
{
    let dl = ts.drop_last();
    let t = ts.last();
    let h0 = hdrs_of(dl);
    assert forall|i: int| 0 <= i < dl.len() implies dl[i].name != t.name by {
        assert(dl[i] == ts[i]);
    }
    lemma_hdrs_keys(dl, t.name);
    if j == ts.len() - 1 {
        if t.header.len() > 0 {
            lemma_key_index(h0, t.name);
            lemma_key_index_at(h0.push((t.name, t.header)), t.name, h0.len() as int);
        } else {
            assert(t.header =~= Seq::<Seq<char>>::empty());
        }
    } else {
        assert(distinct_names(dl)) by {
            assert forall|a: int, b: int| 0 <= a < b < dl.len() implies dl[a].name != dl[b].name by {
                assert(dl[a] == ts[a]);
                assert(dl[b] == ts[b]);
            }
        }
        lemma_hdrs_lookup(dl, j);
        assert(dl[j] == ts[j]);
        if t.header.len() > 0 {
            lemma_key_index(h0, t.name);
            assert(map_insert(h0, t.name, t.header) =~= h0.push((t.name, t.header)));
            lemma_insert_other(h0, t.name, t.header, ts[j].name);
        }
    }
}

/// Building the sections of a file from its entries and header comments
/// gives back its blocks.
proof fn lemma_build_prefix(f: RepoFileView, h: Seq<(Seq<char>, Seq<Seq<char>>)>, k: int)
    requires
        file_shape(f),
        0 <= k <= f.repos.len(),
        forall|j: int| 0 <= j < file_texts(f).len() ==> header_of(h, #[trigger] file_texts(f)[j].name) == file_texts(f)[j].header,
    ensures
        build_sections(secs_of(file_texts(RepoFileView { repos: f.repos.subrange(0, k), ..f })), h) == Ok::<
            (Option<SectionBlockView<MainConfigView>>, Seq<(Seq<char>, SectionBlockView<RepoView>)>),
            ParseFailure,
        >((f.main, f.repos.subrange(0, k))),
    decreases k,
{
    lemma_file_texts_index(f);
    reveal_strlit("main");
    assert(main_name() =~= "main"@);
    let g = RepoFileView { repos: f.repos.subrange(0, k), ..f };
    let secs = secs_of(file_texts(g));
    if k == 0 {
        assert(f.repos.subrange(0, 0) =~= Seq::<(Seq<char>, SectionBlockView<RepoView>)>::empty());
        match f.main {
            Some(b) => {
                assert(secs.drop_last() =~= Seq::<(Seq<char>, Seq<RawEntryView>)>::empty());
                assert(secs.last() == (main_name(), b.raw_entries));
                assert(file_texts(f)[0].name == main_name());
                assert(header_of(h, main_name()) == b.header_comments);
                assert(build_sections(Seq::<(Seq<char>, Seq<RawEntryView>)>::empty(), h) == Ok::<
                    (Option<SectionBlockView<MainConfigView>>, Seq<(Seq<char>, SectionBlockView<RepoView>)>),
                    ParseFailure,
                >((None, seq![])));
                assert(main_block_canonical(b));
                assert(secs.len() == 1);
            },
            None => {
                assert(secs =~= Seq::<(Seq<char>, Seq<RawEntryView>)>::empty());
            },
        }
    } else {
        lemma_build_prefix(f, h, k - 1);
        let g0 = RepoFileView { repos: f.repos.subrange(0, k - 1), ..f };
        assert(secs.drop_last() =~= secs_of(file_texts(g0)));
        let id = f.repos[k - 1].0;
        let b = f.repos[k - 1].1;
        assert(secs.last() == (id, b.raw_entries));
        assert(repo_block_canonical(f.repos[k - 1].0, f.repos[k - 1].1));
        lemma_section_name_trimmed(id);
        let m = main_count(f);
        assert(file_texts(f)[m + (k - 1)].name == id);
        assert(header_of(h, id) == b.header_comments);
        let prev = f.repos.subrange(0, k - 1);
        assert forall|x: int| 0 <= x < prev.len() implies prev[x].0 != id by {
            assert(prev[x] == f.repos[x]);
        }
        lemma_key_index_none(prev, id);
        assert(map_insert(prev, id, b) =~= f.repos.subrange(0, k));
        assert(spec_trim(id) == id);
        assert(id != "main"@);
        assert(secs.len() > 0);
        assert(build_sections(secs.drop_last(), h) == Ok::<
            (Option<SectionBlockView<MainConfigView>>, Seq<(Seq<char>, SectionBlockView<RepoView>)>),
            ParseFailure,
        >((f.main, prev)));
        assert(block_of(header_of(h, id), repo_from_entries(empty_repo_view(id), b.raw_entries), b.raw_entries) == b);
    }
}

/// Finishing and building the state after a rendered file's lines gives
/// the file back.
proof fn lemma_build_after(f: RepoFileView)
    requires
        file_shape(f),
        texts_ok(file_texts(f)),
    ensures
        build_file(finish_parse(state_after(f.preamble, file_texts(f)))) == Ok::<RepoFileView, ParseFailure>(f),
{
    lemma_file_texts_index(f);
    let ts = file_texts(f);
    let st = state_after(f.preamble, ts);
    if ts.len() == 0 {
        assert(f.repos =~= Seq::<(Seq<char>, SectionBlockView<RepoView>)>::empty());
        assert(finish_parse(st) == st);
        assert(build_sections(st.sections, st.headers) == Ok::<
            (Option<SectionBlockView<MainConfigView>>, Seq<(Seq<char>, SectionBlockView<RepoView>)>),
            ParseFailure,
        >((None, seq![])));
        assert(RepoFileView { preamble: f.preamble, main: None, repos: seq![] } =~= f);
    } else {
        let last = ts.last();
        let hs = hdrs_of(ts);
        let fin = finish_parse(st);
        let take = key_index(hs, last.name) is None;
        assert(fin.headers == if take {
            map_insert(hs, last.name, seq![])
        } else {
            hs
        });
        assert forall|i: int| 0 <= i < ts.drop_last().len() implies ts.drop_last()[i].name != last.name by {
            assert(ts.drop_last()[i] == ts[i]);
        }
        lemma_secs_keys(ts.drop_last(), last.name);
        assert(fin.sections =~= secs_of(ts));
        assert forall|j: int| 0 <= j < ts.len() implies header_of(fin.headers, #[trigger] ts[j].name) == ts[j].header by {
            lemma_hdrs_lookup(ts, j);
            if take {
                lemma_hdrs_lookup(ts, ts.len() - 1);
                if j == ts.len() - 1 {
                    lemma_key_index(hs, last.name);
                    lemma_key_index_at(hs.push((last.name, seq![])), last.name, hs.len() as int);
                    assert(last.header =~= Seq::<Seq<char>>::empty());
                } else {
                    lemma_insert_other(hs, last.name, seq![], ts[j].name);
                }
            }
        }
        lemma_build_prefix(f, fin.headers, f.repos.len() as int);
        assert(f.repos.subrange(0, f.repos.len() as int) =~= f.repos);
        assert(RepoFileView { repos: f.repos.subrange(0, f.repos.len() as int), ..f } =~= f);
        assert(RepoFileView { preamble: f.preamble, main: f.main, repos: f.repos } =~= f);
    }
}

/// Rendering a well-shaped file and parsing the text gives the file back.
proof fn lemma_reparse_lines(f: RepoFileView)
    requires
        file_shape(f),
        first_section_uncommented(f),
    ensures
        parse_of_lines(file_lines(f)) == Ok::<RepoFileView, ParseFailure>(f),
{
    lemma_texts_ok(f);
    let fl = file_lines(f);
    lemma_file_lines_texts(f);
    let ts = file_texts(f);
    let init = initial_parse_model();
    assert forall|i: int| 0 <= i < f.preamble.len() implies is_preamble_text(#[trigger] f.preamble[i]) by {}
    lemma_run_preamble(init, f.preamble);
    assert(ParseModel { preamble: init.preamble + f.preamble, ..init } == state_after(f.preamble, seq![])) by {
        assert(init.preamble + f.preamble =~= f.preamble);
    }
    lemma_run_texts(f.preamble, ts);
    lemma_run_append(init, f.preamble, texts_lines(ts));
    assert(fl.subrange(0, fl.len() as int) =~= fl);
    lemma_run_parse_lines(init, fl, 0);
    lemma_build_after(f);
}


// ============================================================================
// Trimming, quotes and inline comments
// ============================================================================

proof fn lemma_trim_start_split(s: Seq<char>) -> (a: int)
    ensures
        0 <= a <= s.len(),
        crate::text::spec_trim_start(s) == s.subrange(a, s.len() as int),
        forall|k: int| 0 <= k < a ==> spec_is_whitespace(#[trigger] s[k]),
        a < s.len() ==> !spec_is_whitespace(s[a]),
    decreases s.len(),
{
    if s.len() > 0 && spec_is_whitespace(s[0]) {
        let a1 = lemma_trim_start_split(s.drop_first());
        assert(s.drop_first().subrange(a1, s.drop_first().len() as int) =~= s.subrange(a1 + 1, s.len() as int));
        assert forall|k: int| 0 <= k < a1 + 1 implies spec_is_whitespace(#[trigger] s[k]) by {
            if k > 0 {
                assert(s[k] == s.drop_first()[k - 1]);
            }
        }
        a1 + 1
    } else {
        assert(s.subrange(0, s.len() as int) =~= s);
        0
    }
}

proof fn lemma_trim_end_split(s: Seq<char>) -> (b: int)
    ensures
        0 <= b <= s.len(),
        crate::text::spec_trim_end(s) == s.subrange(0, b),
        forall|k: int| b <= k < s.len() ==> spec_is_whitespace(#[trigger] s[k]),
        b > 0 ==> !spec_is_whitespace(s[b - 1]),
    decreases s.len(),
{
    if s.len() > 0 && spec_is_whitespace(s.last()) {
        let b1 = lemma_trim_end_split(s.drop_last());
        assert(s.drop_last().subrange(0, b1) =~= s.subrange(0, b1));
        assert forall|k: int| b1 <= k < s.len() implies spec_is_whitespace(#[trigger] s[k]) by {
            if k < s.len() - 1 {
                assert(s[k] == s.drop_last()[k]);
            }
        }
        if b1 > 0 {
            assert(s[b1 - 1] == s.drop_last()[b1 - 1]);
        }
        b1
    } else {
        assert(s.subrange(0, s.len() as int) =~= s);
        s.len() as int
    }
}

/// The trimmed text is the part between leading and trailing whitespace.
proof fn lemma_trim_split(s: Seq<char>) -> (r: (int, int))
    ensures
        0 <= r.0 <= r.1 <= s.len(),
        spec_trim(s) == s.subrange(r.0, r.1),
        forall|k: int| 0 <= k < r.0 ==> spec_is_whitespace(#[trigger] s[k]),
        forall|k: int| r.1 <= k < s.len() ==> spec_is_whitespace(#[trigger] s[k]),
        r.0 < r.1 ==> !spec_is_whitespace(s[r.0]) && !spec_is_whitespace(s[r.1 - 1]),
        r.0 == r.1 ==> forall|k: int| 0 <= k < s.len() ==> spec_is_whitespace(#[trigger] s[k]),
{
    let a = lemma_trim_start_split(s);
    let rest = s.subrange(a, s.len() as int);
    let b = lemma_trim_end_split(rest);
    assert(rest.subrange(0, b) =~= s.subrange(a, a + b));
    assert forall|k: int| a + b <= k < s.len() implies spec_is_whitespace(#[trigger] s[k]) by {
        assert(s[k] == rest[k - a]);
    }
    if b > 0 {
        assert(s[a + b - 1] == rest[b - 1]);
    }
    if b == 0 {
        assert forall|k: int| 0 <= k < s.len() implies spec_is_whitespace(#[trigger] s[k]) by {
            if k >= a {
                assert(s[k] == rest[k - a]);
            }
        }
    }
    (a, a + b)
}

/// Whitespace is neither a quote, a `#`, an `=` nor a bracket.
proof fn lemma_ws_char(c: char)
    requires
        spec_is_whitespace(c),
    ensures
        c != '"',
        c != '#',
        c != '=',
        c != ']',
        c != '[',
        c != ';',
{
}

/// Whether the text has an odd number of double quotes.
pub open spec fn quote_parity(w: Seq<char>) -> bool
    decreases w.len(),
{
    if w.len() == 0 {
        false
    } else {
        (w[0] == '"') != quote_parity(w.drop_first())
    }
}

proof fn lemma_quote_parity_append(a: Seq<char>, b: Seq<char>)
    ensures
        quote_parity(a + b) == (quote_parity(a) != quote_parity(b)),
    decreases a.len(),
{
    if a.len() == 0 {
        assert(a + b =~= b);
    } else {
        assert((a + b).drop_first() =~= a.drop_first() + b);
        lemma_quote_parity_append(a.drop_first(), b);
    }
}

proof fn lemma_quote_parity_none(w: Seq<char>)
    requires
        forall|k: int| 0 <= k < w.len() ==> w[k] != '"',
    ensures
        !quote_parity(w),
    decreases w.len(),
{
    if w.len() > 0 {
        assert forall|k: int| 0 <= k < w.drop_first().len() implies w.drop_first()[k] != '"' by {
            assert(w.drop_first()[k] == w[k + 1]);
        }
        lemma_quote_parity_none(w.drop_first());
    }
}

/// A `#` at `k` outside double quotes.
pub open spec fn open_hash(s: Seq<char>, k: int) -> bool {
    s[k] == '#' && !quote_parity(s.subrange(0, k))
}

proof fn lemma_comment_start_from_char(s: Seq<char>, i: int)
    requires
        0 <= i <= s.len(),
    ensures
        comment_start_from(s, i, quote_parity(s.subrange(0, i))) matches Some(j) ==> i <= j < s.len()
            && open_hash(s, j) && forall|k: int| i <= k < j ==> !open_hash(s, k),
        comment_start_from(s, i, quote_parity(s.subrange(0, i))) is None ==> forall|k: int|
            i <= k < s.len() ==> !open_hash(s, k),
    decreases s.len() - i,
{
    if i < s.len() {
        let q = quote_parity(s.subrange(0, i));
        let q2 = if s[i] == '"' {
            !q
        } else {
            q
        };
        assert(s.subrange(0, i + 1) =~= s.subrange(0, i) + seq![s[i]]);
        lemma_quote_parity_append(s.subrange(0, i), seq![s[i]]);
        assert(seq![s[i]].drop_first() =~= Seq::<char>::empty());
        assert(quote_parity(Seq::<char>::empty()) == false);
        assert(quote_parity(seq![s[i]]) == (s[i] == '"'));
        assert(quote_parity(s.subrange(0, i + 1)) == q2);
        lemma_comment_start_from_char(s, i + 1);
        if s[i] == '#' && !q2 {
            assert(comment_start_from(s, i, q) == Some(i));
            assert(open_hash(s, i));
        } else {
            assert(comment_start_from(s, i, q) == comment_start_from(s, i + 1, q2));
            assert(!open_hash(s, i));
        }
    }
}

proof fn lemma_comment_start_char(s: Seq<char>)
    ensures
        comment_start(s) matches Some(j) ==> 0 <= j < s.len() && open_hash(s, j) && forall|k: int|
            0 <= k < j ==> !open_hash(s, k),
        comment_start(s) is None ==> forall|k: int| 0 <= k < s.len() ==> !open_hash(s, k),
{
    assert(s.subrange(0, 0) =~= Seq::<char>::empty());
    lemma_comment_start_from_char(s, 0);
}

/// Removing a prefix without quotes keeps which `#` are open.
proof fn lemma_open_hash_shift(s: Seq<char>, a: int, b: int, k: int)
    requires
        0 <= a <= b <= s.len(),
        forall|x: int| 0 <= x < a ==> s[x] != '"',
        0 <= k < b - a,
    ensures
        open_hash(s.subrange(a, b), k) == open_hash(s, a + k),
{
    let w = s.subrange(a, b);
    assert(s.subrange(0, a + k) =~= s.subrange(0, a) + w.subrange(0, k));
    lemma_quote_parity_append(s.subrange(0, a), w.subrange(0, k));
    lemma_quote_parity_none(s.subrange(0, a));
}

proof fn lemma_trim_push_space(v: Seq<char>)
    requires
        is_trimmed(v),
    ensures
        spec_trim(v.push(' ')) == v,
{
    let w = v.push(' ');
    lemma_trimmed_fixed(v);
    assert(w.drop_last() =~= v);
    assert(spec_is_whitespace(w.last()));
    if v.len() == 0 {
        assert(w.drop_first() =~= Seq::<char>::empty());
        assert(crate::text::spec_trim_start(Seq::<char>::empty()) == Seq::<char>::empty());
        assert(crate::text::spec_trim_start(w) == Seq::<char>::empty());
        assert(crate::text::spec_trim_end(Seq::<char>::empty()) == Seq::<char>::empty());
        assert(spec_trim(w) =~= v);
    } else {
        assert(w[0] == v[0]);
        assert(crate::text::spec_trim_start(w) == w);
        assert(crate::text::spec_trim_end(w) == crate::text::spec_trim_end(v));
    }
}


proof fn lemma_no_nl_sub(s: Seq<char>, a: int, b: int)
    requires
        no_nl(s),
        0 <= a <= b <= s.len(),
    ensures
        no_nl(s.subrange(a, b)),
{
    assert forall|k: int| 0 <= k < b - a implies s.subrange(a, b)[k] != '\n' by {
        assert(s.subrange(a, b)[k] == s[a + k]);
    }
}

/// What an entry line holds after its `=`, as written back: the value,
/// then ` #` and the inline comment if there is one.
pub open spec fn written_value(vp: Seq<char>) -> Seq<char> {
    let sp = spec_split_value(vp);
    spec_trim(sp.0) + match sp.1 {
        Some(c) => seq![' ', '#'] + c,
        None => seq![],
    }
}

/// The value and inline comment read from the text after `=` are read the
/// same from what is written back.
proof fn lemma_split_round_trip(vp: Seq<char>)
    ensures
        spec_trim(spec_split_value(written_value(vp)).0) == spec_trim(spec_split_value(vp).0),
        spec_split_value(written_value(vp)).1 == spec_split_value(vp).1,
        vp.len() > 0 && !spec_is_whitespace(vp.last()) && written_value(vp).len() > 0 ==> (
        written_value(vp).last() == vp.last() || written_value(vp).last() == '#'),
        no_nl(vp) ==> no_nl(written_value(vp)),
{
    let sp = spec_split_value(vp);
    let w = written_value(vp);
    lemma_comment_start_char(vp);
    crate::values::lemma_comment_start_range(vp);
    match comment_start(vp) {
        None => {
            let value = spec_trim(vp);
            let r = lemma_trim_split(vp);
            lemma_trim_is_trimmed(vp);
            assert(w =~= value);
            assert forall|k: int| 0 <= k < value.len() implies !open_hash(value, k) by {
                assert forall|x: int| 0 <= x < r.0 implies vp[x] != '"' by {
                    lemma_ws_char(vp[x]);
                }
                lemma_open_hash_shift(vp, r.0, r.1, k);
            }
            lemma_comment_start_char(value);
            lemma_trimmed_fixed(value);
            if vp.len() > 0 && !spec_is_whitespace(vp.last()) && value.len() > 0 {
                assert(r.1 == vp.len());
                assert(value.last() == vp.last());
            }
            if no_nl(vp) {
                lemma_no_nl_sub(vp, r.0, r.1);
            }
        },
        Some(i) => {
            let v0 = vp.subrange(0, i);
            let x = vp.subrange(i + 1, vp.len() as int);
            let c = spec_trim(x);
            let value = spec_trim(v0);
            let n = value.len() as int;
            let r = lemma_trim_split(v0);
            lemma_trim_is_trimmed(v0);
            lemma_trim_is_trimmed(x);
            assert(w =~= value + seq![' ', '#'] + c);
            // the `#` written back is the first open one
            assert(w.subrange(0, n + 1) =~= value.push(' '));
            assert(value.push(' ') =~= value + seq![' ']);
            lemma_quote_parity_append(value, seq![' ']);
            assert(seq![' '].drop_first() =~= Seq::<char>::empty());
            assert(quote_parity(Seq::<char>::empty()) == false);
            assert(quote_parity(seq![' ']) == false);
            assert(v0 =~= v0.subrange(0, r.0) + (value + v0.subrange(r.1, i)));
            assert(open_hash(vp, i));
            lemma_quote_parity_append(v0.subrange(0, r.0), value + v0.subrange(r.1, i));
            lemma_quote_parity_append(value, v0.subrange(r.1, i));
            assert forall|y: int| 0 <= y < v0.subrange(0, r.0).len() implies v0.subrange(0, r.0)[y] != '"' by {
                lemma_ws_char(v0[y]);
            }
            assert forall|y: int| 0 <= y < v0.subrange(r.1, i).len() implies v0.subrange(r.1, i)[y] != '"' by {
                lemma_ws_char(v0[r.1 + y]);
            }
            lemma_quote_parity_none(v0.subrange(0, r.0));
            lemma_quote_parity_none(v0.subrange(r.1, i));
            assert(vp.subrange(0, i) == v0);
            assert(!quote_parity(value));
            assert(open_hash(w, n + 1));
            assert forall|k: int| 0 <= k < n + 1 implies !open_hash(w, k) by {
                if k < n {
                    lemma_open_hash_shift(w, 0, n, k);
                    assert(w.subrange(0, n) =~= value);
                    assert forall|y: int| 0 <= y < r.0 implies v0[y] != '"' by {
                        lemma_ws_char(v0[y]);
                    }
                    lemma_open_hash_shift(v0, r.0, r.1, k);
                    lemma_open_hash_shift(vp, 0, i, r.0 + k);
                    assert(vp.subrange(0, i) == v0);
                }
            }
            lemma_comment_start_char(w);
            match comment_start(w) {
                Some(j) => {
                    assert(j == n + 1);
                },
                None => {
                    assert(!open_hash(w, n + 1));
                },
            }
            assert(w.subrange(n + 2, w.len() as int) =~= c);
            lemma_trim_push_space(value);
            if vp.len() > 0 && !spec_is_whitespace(vp.last()) && c.len() > 0 {
                let rx = lemma_trim_split(x);
                assert(x.last() == vp.last());
                assert(rx.1 == x.len());
                assert(c.last() == x.last());
            }
            if no_nl(vp) {
                lemma_no_nl_sub(vp, 0, i);
                lemma_no_nl_sub(vp, i + 1, vp.len() as int);
                lemma_no_nl_sub(v0, r.0, r.1);
                let rx = lemma_trim_split(x);
                lemma_no_nl_sub(x, rx.0, rx.1);
            }
        },
    }
}

/// The entry that the parser makes of a `key=value` line reads back the
/// same from what is written for it.
proof fn lemma_entry_from_line(l: Seq<char>, p: Seq<Seq<char>>)
    requires
        no_nl(l),
        is_entry_text(spec_trim(l)),
        forall|i: int| 0 <= i < p.len() ==> is_comment_text(#[trigger] p[i]),
    ensures
        ({
            let t = spec_trim(l);
            let eq = spec_find(t, '=')->0;
            let sp = spec_split_value(t.subrange(eq + 1, t.len() as int));
            entry_ok(RawEntryView {
                key: spec_trim(t.subrange(0, eq)),
                value: spec_trim(sp.0),
                inline_comment: sp.1,
                leading_comments: p,
            })
        }),
{
    let t = spec_trim(l);
    lemma_trim_is_trimmed(l);
    let rt = lemma_trim_split(l);
    lemma_no_nl_sub(l, rt.0, rt.1);
    lemma_find_props(t, '=');
    let eq = spec_find(t, '=')->0;
    let kr = t.subrange(0, eq);
    let key = spec_trim(kr);
    let rk = lemma_trim_split(kr);
    lemma_trim_is_trimmed(kr);
    assert(kr[0] == t[0]);
    assert(rk.0 == 0);
    assert(key[0] == t[0]);
    let vp = t.subrange(eq + 1, t.len() as int);
    let sp = spec_split_value(vp);
    let e = RawEntryView { key: key, value: spec_trim(sp.0), inline_comment: sp.1, leading_comments: p };
    let w = written_value(vp);
    lemma_split_round_trip(vp);
    let el = entry_text(e);
    assert(el =~= key + seq!['='] + w);
    let kl = key.len() as int;
    assert(el[0] == t[0]);
    if vp.len() > 0 {
        assert(vp.last() == t.last());
    }
    assert(el.last() == t.last() || el.last() == '#' || el.last() == '=') by {
        if w.len() > 0 {
            assert(el.last() == w.last());
        } else {
            assert(el.last() == '=');
        }
    }
    assert(is_trimmed(el));
    lemma_trimmed_fixed(el);
    assert forall|k: int| 0 <= k < kl implies el[k] != '=' by {
        assert(el[k] == key[k]);
        assert(key[k] == kr[k]);
    }
    lemma_find_unique(el, '=', kl);
    assert(el.subrange(0, kl) =~= key);
    assert(el.subrange(kl + 1, el.len() as int) =~= w);
    lemma_no_nl_sub(t, 0, eq);
    lemma_no_nl_sub(kr, rk.0, rk.1);
    lemma_no_nl_sub(t, eq + 1, t.len() as int);
    assert(no_nl(el)) by {
        assert forall|k: int| 0 <= k < el.len() implies el[k] != '\n' by {
            if k < kl {
                assert(el[k] == key[k]);
            } else if k > kl {
                assert(el[k] == w[k - kl - 1]);
            }
        }
    }
    assert(entry_line_ok(e));
}


// ============================================================================
// The shape of what the parser produces
// ============================================================================

proof fn lemma_lines_from_no_nl(s: Seq<char>, start: int, i: int)
    requires
        0 <= start <= i,
        forall|k: int| start <= k < i && k < s.len() ==> s[k] != '\n',
    ensures
        all_no_nl(lines_from(s, start, i)),
    decreases s.len() - i,
{
    let r = lines_from(s, start, i);
    if i >= s.len() {
        if start < s.len() {
            let l = s.subrange(start, s.len() as int);
            assert(no_nl(l)) by {
                assert forall|k: int| 0 <= k < l.len() implies l[k] != '\n' by {
                    assert(l[k] == s[start + k]);
                }
            }
            assert(r =~= seq![l]);
        } else {
            assert(r =~= Seq::<Seq<char>>::empty());
        }
    } else if s[i] == '\n' {
        let l = s.subrange(start, i);
        assert(no_nl(l)) by {
            assert forall|k: int| 0 <= k < l.len() implies l[k] != '\n' by {
                assert(l[k] == s[start + k]);
            }
        }
        assert(no_nl(strip_cr(l))) by {
            if l.len() > 0 && l.last() == '\r' {
                lemma_no_nl_sub(l, 0, l.len() - 1);
                assert(l.drop_last() =~= l.subrange(0, l.len() - 1));
            }
        }
        lemma_lines_from_no_nl(s, i + 1, i + 1);
        let rest = lines_from(s, i + 1, i + 1);
        assert(r == seq![strip_cr(l)] + rest);
        assert forall|k: int| 0 <= k < r.len() implies no_nl(#[trigger] r[k]) by {
            if k > 0 {
                assert(r[k] == rest[k - 1]);
            }
        }
    } else {
        lemma_lines_from_no_nl(s, start, i + 1);
    }
}

/// Every line of a text lacks a line feed.
pub open spec fn all_no_nl(ls: Seq<Seq<char>>) -> bool {
    forall|i: int| 0 <= i < ls.len() ==> no_nl(#[trigger] ls[i])
}

/// The parser's state holds only what it can write back: preamble lines,
/// comment lines, readable entries and valid section names.
pub open spec fn state_ok(st: ParseModel) -> bool {
    &&& forall|i: int| 0 <= i < st.preamble.len() ==> is_preamble_text(#[trigger] st.preamble[i])
    &&& forall|i: int| 0 <= i < st.pending.len() ==> is_comment_text(#[trigger] st.pending[i])
    &&& forall|i: int| 0 <= i < st.entries.len() ==> entry_ok(#[trigger] st.entries[i])
    &&& forall|i: int| 0 <= i < st.sections.len() ==> is_section_name(#[trigger] st.sections[i].0)
    &&& forall|i: int, j: int|
        0 <= i < st.sections.len() && 0 <= j < st.sections[i].1.len() ==> entry_ok(#[trigger] st.sections[i].1[j])
    &&& forall|i: int, j: int|
        0 <= i < st.headers.len() && 0 <= j < st.headers[i].1.len() ==> is_comment_text(#[trigger] st.headers[i].1[j])
    &&& (st.current matches Some(n) ==> is_section_name(n))
}

/// Each entry of an insertion result is the inserted one or an old one.
proof fn lemma_map_insert_elems<V>(e: Seq<(Seq<char>, V)>, k: Seq<char>, v: V)
    ensures
        forall|i: int|
            0 <= i < map_insert(e, k, v).len() ==> (#[trigger] map_insert(e, k, v)[i] == (k, v)) || (
            i < e.len() && map_insert(e, k, v)[i] == e[i]),
        map_insert(e, k, v).len() >= e.len(),
{
    lemma_key_index(e, k);
}

proof fn lemma_step_ok(st: ParseModel, l: Seq<char>, n: nat)
    requires
        state_ok(st),
        no_nl(l),
        parse_step(st, l, n) is Ok,
    ensures
        state_ok(parse_step(st, l, n)->Ok_0),
{
    let t = spec_trim(l);
    let r = parse_step(st, l, n)->Ok_0;
    assert(is_comment_text(Seq::<char>::empty()));
    if t.len() == 0 {
    } else if is_comment_line(t) {
        assert(is_comment_text(l));
    } else if is_header_line(t) {
        let name = header_name(t);
        lemma_trim_is_trimmed(t.subrange(1, t.len() - 1));
        reveal_strlit("main");
        assert(main_name() =~= "main"@);
        assert(is_section_name(name));
        let flushed = match st.current {
            Some(sec) => ParseModel {
                sections: map_insert(st.sections, sec, st.entries),
                entries: seq![],
                current: None,
                ..st
            },
            None => st,
        };
        match st.current {
            Some(sec) => {
                lemma_map_insert_elems(st.sections, sec, st.entries);
            },
            None => {},
        }
        assert(state_ok(flushed));
        lemma_map_insert_elems(flushed.headers, name, flushed.pending);
    } else {
        let eq = spec_find(t, '=')->0;
        lemma_entry_from_line(l, st.pending);
    }
}

proof fn lemma_parse_lines_ok(st: ParseModel, ls: Seq<Seq<char>>, i: int)
    requires
        state_ok(st),
        all_no_nl(ls),
        0 <= i,
    ensures
        parse_lines(st, ls, i) matches Ok(r) ==> state_ok(r),
    decreases ls.len() - i,
{
    if i < ls.len() {
        assert(no_nl(ls[i]));
        if parse_step(st, ls[i], (i + 1) as nat) is Ok {
            lemma_step_ok(st, ls[i], (i + 1) as nat);
            lemma_parse_lines_ok(parse_step(st, ls[i], (i + 1) as nat)->Ok_0, ls, i + 1);
        }
    }
}

proof fn lemma_finish_ok(st: ParseModel)
    requires
        state_ok(st),
    ensures
        state_ok(finish_parse(st)),
{
    match st.current {
        Some(sec) => {
            let h = header_of(st.headers, sec) + st.pending;
            lemma_header_of_ok(st.headers, sec);
            assert forall|j: int| 0 <= j < h.len() implies is_comment_text(#[trigger] h[j]) by {
                if j >= header_of(st.headers, sec).len() {
                    assert(h[j] == st.pending[j - header_of(st.headers, sec).len()]);
                } else {
                    assert(h[j] == header_of(st.headers, sec)[j]);
                }
            }
            lemma_map_insert_elems(st.headers, sec, h);
            lemma_map_insert_elems(st.sections, sec, st.entries);
        },
        None => {
            let p = st.preamble + st.pending;
            assert forall|i: int| 0 <= i < p.len() implies is_preamble_text(#[trigger] p[i]) by {
                if i >= st.preamble.len() {
                    assert(p[i] == st.pending[i - st.preamble.len()]);
                }
            }
        },
    }
}

/// The typed sections built from valid sections have the parser's shape.
pub open spec fn built_ok(acc: (Option<SectionBlockView<MainConfigView>>, Seq<(Seq<char>, SectionBlockView<RepoView>)>)) -> bool {
    &&& (acc.0 matches Some(b) ==> {
        &&& main_block_canonical(b)
        &&& forall|j: int| 0 <= j < b.header_comments.len() ==> is_comment_text(#[trigger] b.header_comments[j])
        &&& forall|j: int| 0 <= j < b.raw_entries.len() ==> entry_ok(#[trigger] b.raw_entries[j])
    })
    &&& forall|i: int| 0 <= i < acc.1.len() ==> {
        &&& repo_block_canonical(#[trigger] acc.1[i].0, acc.1[i].1)
        &&& is_valid_repo_id(acc.1[i].0)
        &&& acc.1[i].0 != main_name()
        &&& forall|j: int| 0 <= j < acc.1[i].1.header_comments.len() ==> is_comment_text(#[trigger] acc.1[i].1.header_comments[j])
        &&& forall|j: int| 0 <= j < acc.1[i].1.raw_entries.len() ==> entry_ok(#[trigger] acc.1[i].1.raw_entries[j])
    }
    &&& keys_unique(acc.1)
}

proof fn lemma_header_of_ok(h: Seq<(Seq<char>, Seq<Seq<char>>)>, name: Seq<char>)
    requires
        forall|i: int, j: int| 0 <= i < h.len() && 0 <= j < h[i].1.len() ==> is_comment_text(#[trigger] h[i].1[j]),
    ensures
        forall|j: int| 0 <= j < header_of(h, name).len() ==> is_comment_text(#[trigger] header_of(h, name)[j]),
{
    lemma_key_index(h, name);
}

proof fn lemma_build_ok(secs: Seq<(Seq<char>, Seq<RawEntryView>)>, h: Seq<(Seq<char>, Seq<Seq<char>>)>)
    requires
        forall|i: int| 0 <= i < secs.len() ==> is_section_name(#[trigger] secs[i].0),
        forall|i: int, j: int| 0 <= i < secs.len() && 0 <= j < secs[i].1.len() ==> entry_ok(#[trigger] secs[i].1[j]),
        forall|i: int, j: int| 0 <= i < h.len() && 0 <= j < h[i].1.len() ==> is_comment_text(#[trigger] h[i].1[j]),
    ensures
        build_sections(secs, h) matches Ok(acc) ==> built_ok(acc),
    decreases secs.len(),
{
    if secs.len() > 0 {
        let dl = secs.drop_last();
        assert forall|i: int, j: int| 0 <= i < dl.len() && 0 <= j < dl[i].1.len() implies entry_ok(#[trigger] dl[i].1[j]) by {
            assert(dl[i] == secs[i]);
        }
        assert forall|i: int| 0 <= i < dl.len() implies is_section_name(#[trigger] dl[i].0) by {
            assert(dl[i] == secs[i]);
        }
        lemma_build_ok(dl, h);
        let name = secs.last().0;
        let es = secs.last().1;
        assert(is_section_name(secs[secs.len() - 1].0));
        assert forall|j: int| 0 <= j < es.len() implies entry_ok(#[trigger] es[j]) by {
            assert(es[j] == secs[secs.len() - 1].1[j]);
        }
        lemma_header_of_ok(h, name);
        reveal_strlit("main");
        assert(main_name() =~= "main"@);
        match build_sections(dl, h) {
            Ok(acc) => {
                if name != "main"@ && is_valid_repo_id(spec_trim(name)) {
                    lemma_section_name_trimmed(name);
                    let blk = block_of(header_of(h, name), repo_from_entries(empty_repo_view(name), es), es);
                    lemma_map_insert_elems(acc.1, name, blk);
                    crate::collections::lemma_insert_unique(acc.1, name, blk);
                }
            },
            Err(_) => {},
        }
    }
}

/// Every file that the parser produces has the shape that rendering
/// preserves.
pub proof fn lemma_parsed_file_ok(text: Seq<char>, f: RepoFileView)
    requires
        spec_parse(text) == Ok::<RepoFileView, ParseFailure>(f),
    ensures
        file_shape(f),
{
    let ls = spec_lines(text);
    lemma_lines_from_no_nl(text, 0, 0);
    let init = initial_parse_model();
    lemma_parse_lines_ok(init, ls, 0);
    let st = parse_lines(init, ls, 0)->Ok_0;
    lemma_finish_ok(st);
    let fin = finish_parse(st);
    lemma_build_ok(fin.sections, fin.headers);
    let acc = build_sections(fin.sections, fin.headers)->Ok_0;
    assert(f == RepoFileView { preamble: fin.preamble, main: acc.0, repos: acc.1 });
    lemma_file_texts_index(f);
    let ts = file_texts(f);
    let m = main_count(f);
    assert forall|i: int| 0 <= i < ts.len() implies is_section_name(#[trigger] ts[i].name) by {
        if i >= m {
            assert(ts[m + (i - m)].name == f.repos[i - m].0);
        }
    }
    assert forall|i: int, j: int| 0 <= i < ts.len() && 0 <= j < ts[i].header.len() implies is_comment_text(#[trigger] ts[i].header[j]) by {
        if i >= m {
            assert(ts[m + (i - m)].header == f.repos[i - m].1.header_comments);
        }
    }
    assert forall|i: int, j: int| 0 <= i < ts.len() && 0 <= j < ts[i].entries.len() implies entry_ok(#[trigger] ts[i].entries[j]) by {
        if i >= m {
            assert(ts[m + (i - m)].entries == f.repos[i - m].1.raw_entries);
        }
    }
}


// ============================================================================
// Writing a parsed file from its typed data
// ============================================================================

proof fn lemma_typed_repos_plain(rs: Seq<(Seq<char>, SectionBlockView<RepoView>)>)
    requires
        forall|i: int| 0 <= i < rs.len() ==> repo_block_canonical(#[trigger] rs[i].0, rs[i].1),
    ensures
        typed_repos(rs) == render_repos(rs),
    decreases rs.len(),
{
    if rs.len() > 0 {
        let d = rs.drop_last();
        assert forall|i: int| 0 <= i < d.len() implies repo_block_canonical(#[trigger] d[i].0, d[i].1) by {
            assert(d[i] == rs[i]);
        }
        lemma_typed_repos_plain(d);
        let last = rs.last();
        assert(repo_block_canonical(rs[rs.len() - 1].0, rs[rs.len() - 1].1));
        assert(repo_table(last.0, last.1) == Seq::<(Seq<char>, Seq<Seq<char>>)>::empty());
        lemma_typed_section_plain(last.0, last.1);
    }
}

/// In a file of the parser's shape every section's data is what its
/// entries give, so the file is written from its entries alone.
pub proof fn lemma_render_of_shape(f: RepoFileView)
    requires
        file_shape(f),
    ensures
        spec_render(f) == raw_render(f),
{
    match f.main {
        Some(b) => {
            assert(main_block_canonical(b));
            assert(main_table(b) == Seq::<(Seq<char>, Seq<Seq<char>>)>::empty());
            lemma_typed_section_plain(main_name(), b);
        },
        None => {},
    }
    lemma_typed_repos_plain(f.repos);
}

// ============================================================================
// Reading back any parsed file
// ============================================================================

/// What the parser makes of a list of lines.
pub open spec fn parse_of_lines(ls: Seq<Seq<char>>) -> Result<RepoFileView, ParseFailure> {
    match parse_lines(initial_parse_model(), ls, 0) {
        Ok(st) => build_file(finish_parse(st)),
        Err(e) => Err(e),
    }
}

/// Lines with one final carriage return dropped from each, as reading a
/// text drops it before each line feed.
pub open spec fn strip_lines(ls: Seq<Seq<char>>) -> Seq<Seq<char>> {
    ls.map_values(|l: Seq<char>| strip_cr(l))
}

/// A block whose header comment lines lose one final carriage return.
pub open spec fn strip_headers<V>(b: SectionBlockView<V>) -> SectionBlockView<V> {
    SectionBlockView { header_comments: strip_lines(b.header_comments), ..b }
}

/// A block without header comments.
pub open spec fn without_headers<V>(b: SectionBlockView<V>) -> SectionBlockView<V> {
    SectionBlockView { header_comments: seq![], ..b }
}

/// The file whose preamble and header comment lines lose one final
/// carriage return.
pub open spec fn cr_cleaned(f: RepoFileView) -> RepoFileView {
    RepoFileView {
        preamble: strip_lines(f.preamble),
        main: match f.main {
            Some(b) => Some(strip_headers(b)),
            None => None,
        },
        repos: f.repos.map_values(|p: (Seq<char>, SectionBlockView<RepoView>)| (p.0, strip_headers(p.1))),
    }
}

/// The file whose first written section (`[main]` if present, else the
/// first repository) has its header comments moved to the end of the
/// preamble.
pub open spec fn hoisted(f: RepoFileView) -> RepoFileView {
    match f.main {
        Some(b) => RepoFileView {
            preamble: f.preamble + b.header_comments,
            main: Some(without_headers(b)),
            repos: f.repos,
        },
        None => if f.repos.len() > 0 {
            RepoFileView {
                preamble: f.preamble + f.repos[0].1.header_comments,
                main: None,
                repos: f.repos.update(0, (f.repos[0].0, without_headers(f.repos[0].1))),
            }
        } else {
            f
        },
    }
}

/// What reading the rendered text of a file gives back.
pub open spec fn reread(f: RepoFileView) -> RepoFileView {
    hoisted(cr_cleaned(f))
}

/// No leading comment of an entry ends with a carriage return.
pub open spec fn leading_clean(f: RepoFileView) -> bool {
    let ts = file_texts(f);
    forall|i: int, j: int, k: int|
        0 <= i < ts.len() && 0 <= j < ts[i].entries.len() && 0 <= k < ts[i].entries[j].leading_comments.len()
            ==> ends_clean(#[trigger] ts[i].entries[j].leading_comments[k])
}

/// Two files agree on everything but their preamble and header comments:
/// the same `[main]` presence, and the same repository IDs in order, each
/// with the same data, entries, inline comments and key order.
pub open spec fn same_sections(a: RepoFileView, b: RepoFileView) -> bool {
    &&& (a.main is Some <==> b.main is Some)
    &&& (a.main matches Some(x) ==> b.main matches Some(y) && x.data == y.data && x.raw_entries
        == y.raw_entries && x.item_comments == y.item_comments && x.item_order == y.item_order)
    &&& a.repos.len() == b.repos.len()
    &&& forall|i: int|
        0 <= i < a.repos.len() ==> {
            &&& #[trigger] a.repos[i].0 == b.repos[i].0
            &&& a.repos[i].1.data == b.repos[i].1.data
            &&& a.repos[i].1.raw_entries == b.repos[i].1.raw_entries
            &&& a.repos[i].1.item_comments == b.repos[i].1.item_comments
            &&& a.repos[i].1.item_order == b.repos[i].1.item_order
        }
}

proof fn lemma_strip_append(a: Seq<Seq<char>>, b: Seq<Seq<char>>)
    ensures
        strip_lines(a + b) == strip_lines(a) + strip_lines(b),
{
    assert(strip_lines(a + b) =~= strip_lines(a) + strip_lines(b));
}

/// Lines without a final carriage return lose nothing.
pub proof fn lemma_strip_clean(ls: Seq<Seq<char>>)
    requires
        forall|i: int| 0 <= i < ls.len() ==> ends_clean(#[trigger] ls[i]),
    ensures
        strip_lines(ls) == ls,
{
    assert(strip_lines(ls) =~= ls);
}

proof fn lemma_entry_lines_strip(es: Seq<RawEntryView>)
    requires
        forall|i: int| 0 <= i < es.len() ==> entry_ok(#[trigger] es[i]),
        forall|i: int, k: int| 0 <= i < es.len() && 0 <= k < es[i].leading_comments.len() ==> ends_clean(
            #[trigger] es[i].leading_comments[k],
        ),
    ensures
        strip_lines(entry_lines(es)) == entry_lines(es),
    decreases es.len(),
{
    if es.len() > 0 {
        let e = es.last();
        assert(entry_ok(es[es.len() - 1]));
        assert forall|i: int, k: int| 0 <= i < es.drop_last().len() && 0 <= k < es.drop_last()[i].leading_comments.len() implies ends_clean(
            #[trigger] es.drop_last()[i].leading_comments[k],
        ) by {
            assert(es.drop_last()[i] == es[i]);
        }
        lemma_entry_lines_strip(es.drop_last());
        let l = entry_text(e);
        crate::text::lemma_trim_is_trimmed(l);
        assert(ends_clean(l)) by {
            reveal_strlit("\r");
            assert(spec_is_whitespace('\r'));
        }
        assert forall|k: int| 0 <= k < e.leading_comments.len() implies ends_clean(#[trigger] e.leading_comments[k]) by {
            assert(ends_clean(es[es.len() - 1].leading_comments[k]));
        }
        lemma_strip_clean(e.leading_comments.push(l));
        lemma_strip_append(entry_lines(es.drop_last()), e.leading_comments.push(l));
    }
}

/// Headers of sections with one final carriage return dropped.
pub open spec fn strip_texts(ts: Seq<SectionText>) -> Seq<SectionText> {
    ts.map_values(|t: SectionText| SectionText { header: strip_lines(t.header), ..t })
}

proof fn lemma_texts_lines_strip(ts: Seq<SectionText>)
    requires
        texts_shape(ts),
        forall|i: int, j: int, k: int|
            0 <= i < ts.len() && 0 <= j < ts[i].entries.len() && 0 <= k < ts[i].entries[j].leading_comments.len()
                ==> ends_clean(#[trigger] ts[i].entries[j].leading_comments[k]),
    ensures
        strip_lines(texts_lines(ts)) == texts_lines(strip_texts(ts)),
    decreases ts.len(),
{
    if ts.len() > 0 {
        let d = ts.drop_last();
        assert forall|i: int| 0 <= i < d.len() implies is_section_name(#[trigger] d[i].name) by {
            assert(d[i] == ts[i]);
        }
        assert forall|i: int, j: int| 0 <= i < d.len() && 0 <= j < d[i].header.len() implies is_comment_text(#[trigger] d[i].header[j]) by {
            assert(d[i] == ts[i]);
        }
        assert forall|i: int, j: int| 0 <= i < d.len() && 0 <= j < d[i].entries.len() implies entry_ok(#[trigger] d[i].entries[j]) by {
            assert(d[i] == ts[i]);
        }
        assert forall|i: int, j: int, k: int|
            0 <= i < d.len() && 0 <= j < d[i].entries.len() && 0 <= k < d[i].entries[j].leading_comments.len()
            implies ends_clean(#[trigger] d[i].entries[j].leading_comments[k]) by {
            assert(d[i] == ts[i]);
        }
        lemma_texts_lines_strip(d);
        let t = ts.last();
        let n = ts.len() - 1;
        assert(t == ts[n]);
        assert forall|j: int| 0 <= j < t.entries.len() implies entry_ok(#[trigger] t.entries[j]) by {
            assert(entry_ok(ts[n].entries[j]));
        }
        assert forall|j: int, k: int| 0 <= j < t.entries.len() && 0 <= k < t.entries[j].leading_comments.len() implies ends_clean(
            #[trigger] t.entries[j].leading_comments[k],
        ) by {
            assert(ends_clean(ts[n].entries[j].leading_comments[k]));
        }
        lemma_entry_lines_strip(t.entries);
        let hl = seq![header_line(t.name)];
        assert(ends_clean(header_line(t.name)));
        lemma_strip_clean(hl);
        lemma_strip_append(t.header, hl);
        lemma_strip_append(t.header + hl, entry_lines(t.entries));
        lemma_strip_append(texts_lines(d), record_lines(t.name, t.header, t.entries));
        assert(strip_texts(ts).drop_last() =~= strip_texts(d));
        assert(strip_texts(ts).last() == SectionText { header: strip_lines(t.header), ..t });
    }
}

proof fn lemma_file_texts_cleaned(f: RepoFileView)
    ensures
        file_texts(cr_cleaned(f)) == strip_texts(file_texts(f)),
{
    let g = cr_cleaned(f);
    lemma_file_texts_index(f);
    lemma_file_texts_index(g);
    assert(file_texts(g) =~= strip_texts(file_texts(f))) by {
        let m = main_count(f);
        assert forall|i: int| 0 <= i < file_texts(g).len() implies file_texts(g)[i] == strip_texts(file_texts(f))[i] by {
            if i >= m {
                assert(file_texts(g)[m + (i - m)] == file_texts(g)[i]);
                assert(file_texts(f)[m + (i - m)] == file_texts(f)[i]);
            }
        }
    }
}

/// Dropping a final carriage return keeps the trimmed text.
proof fn lemma_trim_strip_cr(l: Seq<char>)
    ensures
        spec_trim(strip_cr(l)) == spec_trim(l),
{
    if l.len() > 0 && l.last() == '\r' {
        assert(spec_is_whitespace('\r'));
        lemma_trim_start_push_ws(l.drop_last(), '\r');
        assert(l.drop_last().push('\r') =~= l);
        let ts = crate::text::spec_trim_start(l.drop_last());
        if ts.len() > 0 {
            assert(ts.push('\r').drop_last() =~= ts);
        }
    }
}

proof fn lemma_trim_start_push_ws(x: Seq<char>, w: char)
    requires
        spec_is_whitespace(w),
    ensures
        crate::text::spec_trim_start(x.push(w)) == (if crate::text::spec_trim_start(x).len() == 0 {
            Seq::<char>::empty()
        } else {
            crate::text::spec_trim_start(x).push(w)
        }),
    decreases x.len(),
{
    let y = x.push(w);
    assert(y[0] == (if x.len() == 0 { w } else { x[0] }));
    if x.len() == 0 {
        assert(y.drop_first() =~= Seq::<char>::empty());
        assert(crate::text::spec_trim_start(y) == crate::text::spec_trim_start(y.drop_first()));
        assert(crate::text::spec_trim_start(Seq::<char>::empty()) == Seq::<char>::empty());
    } else if spec_is_whitespace(x[0]) {
        assert(y.drop_first() =~= x.drop_first().push(w));
        lemma_trim_start_push_ws(x.drop_first(), w);
        assert(crate::text::spec_trim_start(y) == crate::text::spec_trim_start(y.drop_first()));
        assert(crate::text::spec_trim_start(x) == crate::text::spec_trim_start(x.drop_first()));
    } else {
        assert(crate::text::spec_trim_start(y) == y);
        assert(crate::text::spec_trim_start(x) == x);
    }
}

proof fn lemma_strip_comment_text(p: Seq<char>)
    requires
        is_comment_text(p),
    ensures
        is_comment_text(strip_cr(p)),
        is_preamble_text(strip_cr(p)),
{
    lemma_trim_strip_cr(p);
    if p.len() > 0 && p.last() == '\r' {
        assert(forall|k: int| 0 <= k < strip_cr(p).len() ==> strip_cr(p)[k] == p[k]);
    }
}

proof fn lemma_strip_preamble_text(p: Seq<char>)
    requires
        is_preamble_text(p),
    ensures
        is_preamble_text(strip_cr(p)),
{
    lemma_trim_strip_cr(p);
    if p.len() > 0 && p.last() == '\r' {
        assert(forall|k: int| 0 <= k < strip_cr(p).len() ==> strip_cr(p)[k] == p[k]);
    }
}

proof fn lemma_texts_lines_single(t: SectionText)
    ensures
        texts_lines(seq![t]) == record_lines(t.name, t.header, t.entries),
{
    assert(seq![t].drop_last() =~= Seq::<SectionText>::empty());
    assert(texts_lines(Seq::<SectionText>::empty()) == Seq::<Seq<char>>::empty());
    assert(Seq::<Seq<char>>::empty() + record_lines(t.name, t.header, t.entries) =~= record_lines(
        t.name,
        t.header,
        t.entries,
    ));
}

/// Moving the first section's header comments into the preamble leaves the
/// written lines as they are.
#[verifier::rlimit(40)]
pub proof fn lemma_hoisted_lines(f: RepoFileView)
    ensures
        file_lines(hoisted(f)) == file_lines(f),
{
    let g = hoisted(f);
    lemma_file_lines_texts(f);
    lemma_file_lines_texts(g);
    let ts = file_texts(f);
    let us = file_texts(g);
    lemma_file_texts_index(f);
    lemma_file_texts_index(g);
    if ts.len() > 0 {
        assert(us.len() == ts.len());
        let t0 = ts[0];
        assert(us[0] == SectionText { header: seq![], ..t0 }) by {
            if f.main is None {
                assert(ts[main_count(f) + 0] == ts[0]);
                assert(us[main_count(g) + 0] == us[0]);
            }
        }
        assert(us.drop_first() =~= ts.drop_first()) by {
            assert forall|i: int| 0 <= i < us.drop_first().len() implies us.drop_first()[i] == ts.drop_first()[i] by {
                let m = main_count(f);
                assert(us[i + 1] == us[m + (i + 1 - m)]);
                assert(ts[i + 1] == ts[m + (i + 1 - m)]);
            }
        }
        assert(ts =~= seq![t0] + ts.drop_first());
        assert(us =~= seq![us[0]] + us.drop_first());
        lemma_texts_lines_append(seq![t0], ts.drop_first());
        lemma_texts_lines_append(seq![us[0]], us.drop_first());
        assert(seq![t0].drop_last() =~= Seq::<SectionText>::empty());
        assert(seq![us[0]].drop_last() =~= Seq::<SectionText>::empty());
        lemma_texts_lines_single(t0);
        lemma_texts_lines_single(us[0]);
        let r0 = record_lines(t0.name, t0.header, t0.entries);
        let r1 = record_lines(t0.name, seq![], t0.entries);
        assert(r0 =~= t0.header + r1);
        let rest = texts_lines(ts.drop_first());
        assert(f.preamble + (r0 + rest) =~= (f.preamble + t0.header) + (r1 + rest));
        assert(g.preamble == f.preamble + t0.header);
    } else {
        assert(f.repos.len() == 0);
    }
}

/// What reading back a file of the parser's shape gives has that shape,
/// and its first section has no header comments.
pub proof fn lemma_reread_shape(f: RepoFileView)
    requires
        file_shape(f),
    ensures
        file_shape(reread(f)),
        first_section_uncommented(reread(f)),
        same_sections(f, reread(f)),
{
    let c = cr_cleaned(f);
    let g = hoisted(c);
    lemma_file_texts_index(f);
    lemma_file_texts_index(c);
    lemma_file_texts_index(g);
    let tf = file_texts(f);
    let m = main_count(f);
    // header comments of f are comment text
    assert forall|i: int, j: int| 0 <= i < f.repos.len() && 0 <= j < f.repos[i].1.header_comments.len() implies is_comment_text(
        #[trigger] f.repos[i].1.header_comments[j],
    ) by {
        assert(tf[m + i].header == f.repos[i].1.header_comments);
    }
    assert forall|i: int, j: int| 0 <= i < c.repos.len() && 0 <= j < c.repos[i].1.header_comments.len() implies is_comment_text(
        #[trigger] c.repos[i].1.header_comments[j],
    ) by {
        assert(c.repos[i].1.header_comments[j] == strip_cr(f.repos[i].1.header_comments[j]));
        lemma_strip_comment_text(f.repos[i].1.header_comments[j]);
    }
    assert forall|i: int| 0 <= i < c.preamble.len() implies is_preamble_text(#[trigger] c.preamble[i]) by {
        lemma_strip_preamble_text(f.preamble[i]);
    }
    match f.main {
        Some(b) => {
            assert(tf[0].header == b.header_comments);
            assert forall|j: int| 0 <= j < c.main->0.header_comments.len() implies is_comment_text(
                #[trigger] c.main->0.header_comments[j],
            ) by {
                lemma_strip_comment_text(b.header_comments[j]);
            }
        },
        None => {},
    }
    // the preamble of g
    assert forall|i: int| 0 <= i < g.preamble.len() implies is_preamble_text(#[trigger] g.preamble[i]) by {
        if i >= c.preamble.len() {
            match c.main {
                Some(b) => {
                    assert(g.preamble[i] == b.header_comments[i - c.preamble.len()]);
                },
                None => {
                    assert(g.preamble[i] == c.repos[0].1.header_comments[i - c.preamble.len()]);
                },
            }
        }
    }
    assert(keys_unique(c.repos)) by {
        assert forall|i: int, j: int| 0 <= i < j < c.repos.len() implies c.repos[i].0 != c.repos[j].0 by {
            assert(f.repos[i].0 != f.repos[j].0);
        }
    }
    assert(keys_unique(g.repos)) by {
        assert forall|i: int, j: int| 0 <= i < j < g.repos.len() implies g.repos[i].0 != g.repos[j].0 by {
            assert(c.repos[i].0 != c.repos[j].0);
        }
    }
    assert forall|i: int| 0 <= i < g.repos.len() implies {
        &&& repo_block_canonical(#[trigger] g.repos[i].0, g.repos[i].1)
        &&& is_valid_repo_id(g.repos[i].0)
        &&& g.repos[i].0 != main_name()
    } by {
        assert(repo_block_canonical(f.repos[i].0, f.repos[i].1));
        assert(c.repos[i].0 == f.repos[i].0);
    }
    let tg = file_texts(g);
    let mg = main_count(g);
    assert(mg == m);
    assert(texts_shape(tg)) by {
        assert forall|i: int| 0 <= i < tg.len() implies is_section_name(#[trigger] tg[i].name) by {
            assert(is_section_name(tf[i].name));
            if i >= m {
                assert(tg[m + (i - m)] == tg[i]);
                assert(tf[m + (i - m)] == tf[i]);
            }
        }
        assert forall|i: int, j: int| 0 <= i < tg.len() && 0 <= j < tg[i].header.len() implies is_comment_text(#[trigger] tg[i].header[j]) by {
            if i >= m {
                assert(tg[m + (i - m)] == tg[i]);
            }
        }
        assert forall|i: int, j: int| 0 <= i < tg.len() && 0 <= j < tg[i].entries.len() implies entry_ok(#[trigger] tg[i].entries[j]) by {
            if i >= m {
                assert(tg[m + (i - m)] == tg[i]);
                assert(tf[m + (i - m)] == tf[i]);
            }
            assert(tg[i].entries == tf[i].entries);
            assert(entry_ok(tf[i].entries[j]));
        }
    }
    if tg.len() > 0 {
        if g.main is None {
            assert(tg[mg + 0] == tg[0]);
        }
    }
}

/// Rendering a file of the parser's shape and reading the text back gives
/// the file with one final carriage return dropped from each preamble and
/// header comment line, and with the header comments of its first written
/// section moved to the end of the preamble, provided that no leading
/// comment of an entry ends with a carriage return.
pub proof fn lemma_reparse_any(f: RepoFileView)
    requires
        file_shape(f),
        leading_clean(f),
    ensures
        spec_parse(spec_render(f)) == Ok::<RepoFileView, ParseFailure>(reread(f)),
        same_sections(f, reread(f)),
{
    lemma_file_lines_clean(f);
    lemma_render_is_joined(f);
    let fl = file_lines(f);
    lemma_lines_of_joined(fl);
    lemma_file_lines_texts(f);
    let ts = file_texts(f);
    lemma_strip_append(f.preamble, texts_lines(ts));
    lemma_texts_lines_strip(ts);
    lemma_file_texts_cleaned(f);
    let c = cr_cleaned(f);
    lemma_file_lines_texts(c);
    assert(strip_lines(fl) == file_lines(c));
    lemma_hoisted_lines(c);
    lemma_reread_shape(f);
    lemma_reparse_lines(reread(f));
    lemma_render_of_shape(f);
}

/// Rendering a file of the parser's shape and parsing the text gives the
/// file back when no comment or preamble line ends with a carriage return
/// and the first written section has no header comments.
pub proof fn lemma_reparse_rendered(f: RepoFileView)
    requires
        file_shape(f),
        no_line_ends_in_cr(f),
        first_section_uncommented(f),
    ensures
        spec_parse(spec_render(f)) == Ok::<RepoFileView, ParseFailure>(f),
{
    lemma_reparse_any(f);
    lemma_file_texts_index(f);
    let ts = file_texts(f);
    let m = main_count(f);
    let c = cr_cleaned(f);
    lemma_strip_clean(f.preamble);
    assert forall|i: int| 0 <= i < f.repos.len() implies strip_headers(#[trigger] f.repos[i].1) == f.repos[i].1 by {
        assert(ts[m + i].header == f.repos[i].1.header_comments);
        assert forall|j: int| 0 <= j < f.repos[i].1.header_comments.len() implies ends_clean(#[trigger] f.repos[i].1.header_comments[j]) by {
            assert(ends_clean(ts[m + i].header[j]));
        }
        lemma_strip_clean(f.repos[i].1.header_comments);
    }
    assert(c.repos =~= f.repos);
    match f.main {
        Some(b) => {
            assert forall|j: int| 0 <= j < b.header_comments.len() implies ends_clean(#[trigger] b.header_comments[j]) by {
                assert(ends_clean(ts[0].header[j]));
            }
            lemma_strip_clean(b.header_comments);
            assert(b.header_comments.len() == 0);
            assert(without_headers(strip_headers(b)) =~= b);
            assert(f.preamble + Seq::<Seq<char>>::empty() =~= f.preamble);
        },
        None => {
            if f.repos.len() > 0 {
                assert(ts[m + 0] == ts[0]);
                let b0 = f.repos[0].1;
                assert(b0.header_comments.len() == 0);
                assert(without_headers(b0) =~= b0);
                assert(f.repos.update(0, (f.repos[0].0, b0)) =~= f.repos);
                assert(f.preamble + Seq::<Seq<char>>::empty() =~= f.preamble);
            }
        },
    }
    assert(reread(f) =~= f);
}

/// Every parsed file reads back from its rendered text with the same
/// sections: the same `[main]` presence and the same repository IDs in
/// order, each with the same data, entries, inline comments and key
/// order. Only the preamble and header comments may differ: the header
/// comments of the first written section join the preamble, and a final
/// carriage return is dropped from a preamble or header comment line.
/// This holds for every parsed file none of whose leading comments ends
/// with a carriage return.
pub proof fn lemma_parse_render_same_sections(text: Seq<char>, f: RepoFileView)
    requires
        spec_parse(text) == Ok::<RepoFileView, ParseFailure>(f),
        leading_clean(f),
    ensures
        spec_parse(spec_render(f)) == Ok::<RepoFileView, ParseFailure>(reread(f)),
        same_sections(f, reread(f)),
{
    lemma_parsed_file_ok(text, f);
    lemma_reparse_any(f);
}

/// Rendering a parsed file and parsing the text again gives the same file,
/// provided that no comment or preamble line it keeps ends with a carriage
/// return, and that the first section written (`[main]` if present, else
/// the first repository) has no header comments.
pub proof fn lemma_parse_render_round_trip(text: Seq<char>, f: RepoFileView)
    requires
        spec_parse(text) == Ok::<RepoFileView, ParseFailure>(f),
        no_line_ends_in_cr(f),
        first_section_uncommented(f),
    ensures
        spec_parse(spec_render(f)) == Ok::<RepoFileView, ParseFailure>(f),
{
    lemma_parsed_file_ok(text, f);
    lemma_reparse_rendered(f);
}

} // verus!
