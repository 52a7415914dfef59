//! The `.repo` parser: lines, the line-by-line state machine, and the
//! assembly of the parsed sections into a [`RepoFile`].
//!
//! The specification follows the text line by line (`spec_lines`), feeding
//! each line to `parse_step`; `finish_parse` flushes the last section and
//! `build_file` turns the collected sections into typed sections.

use crate::collections::{
    comment_entries, key_index, map_get, map_insert, repo_block_entries, repo_blocks_insert,
    repo_blocks_new, section_entries, sections_get_index, sections_insert, sections_new, sections_len,
    string_list_entries, string_lists_contains, string_lists_get, string_lists_insert,
    string_lists_new,
};
use crate::error::ParseError;
use crate::mainconfig::{empty_main_view, MainConfig, MainConfigView};
use crate::repo::{empty_repo_view, Repo, RepoView};
use crate::repofile::{entries_view, RawEntry, RawEntryView, RepoFile, RepoFileView, SectionBlock, SectionBlockView};
use crate::sections::{
    comments_of, keys_of, main_from_entries, parse_entries_into_mainconfig,
    parse_entries_into_repo, repo_from_entries,
};
use crate::text::{
    chars_eq_str, chars_of, copy_string, copy_strings, find_char, owned, slice_to_vec, spec_find,
    spec_trim, string_of, strings_view, trim_vec, lemma_find_props,
};
use crate::types::{is_valid_repo_id, opt_view, RepoId};
use crate::values::{spec_split_value, split_value_and_comment};
use indexmap::IndexMap;
use vstd::prelude::*;

verus! {

// ============================================================================
// Lines
// ============================================================================

/// A line without its trailing carriage return, if any.
pub open spec fn strip_cr(l: Seq<char>) -> Seq<char> {
    if l.len() > 0 && l.last() == '\r' {
        l.drop_last()
    } else {
        l
    }
}

/// The lines of `s` from `start` on, scanning from `i` (no `\n` in
/// `s[start..i]`).
pub open spec fn lines_from(s: Seq<char>, start: int, i: int) -> Seq<Seq<char>>
    decreases s.len() - i,
{
    if i >= s.len() || i < 0 {
        if start < s.len() {
            seq![s.subrange(start, s.len() as int)]
        } else {
            seq![]
        }
    } else if s[i] == '\n' {
        seq![strip_cr(s.subrange(start, i))] + lines_from(s, i + 1, i + 1)
    } else {
        lines_from(s, start, i + 1)
    }
}

/// `str::lines`: the text split at `\n` (a `\r` before it is dropped too);
/// a final line ending adds no empty line.
pub open spec fn spec_lines(s: Seq<char>) -> Seq<Seq<char>> {
    lines_from(s, 0, 0)
}

/// The texts of a list of character vectors.
pub open spec fn char_lines_view(v: Seq<Vec<char>>) -> Seq<Seq<char>> {
    v.map_values(|l: Vec<char>| l@)
}

fn strip_cr_vec(s: &[char], lo: usize, hi: usize) -> (r: Vec<char>)
    requires
        lo <= hi <= s@.len(),
    ensures
        r@ == strip_cr(s@.subrange(lo as int, hi as int)),
{
    if hi > lo && s[hi - 1] == '\r' {
        assert(s@.subrange(lo as int, hi as int).drop_last() =~= s@.subrange(lo as int, hi - 1));
        slice_to_vec(s, lo, hi - 1)
    } else {
        slice_to_vec(s, lo, hi)
    }
}

/// Split a text into lines like `str::lines`.
pub fn split_lines(s: &[char]) -> (r: Vec<Vec<char>>)
    ensures
        char_lines_view(r@) == spec_lines(s@),
{
    let mut r: Vec<Vec<char>> = Vec::new();
    let mut start: usize = 0;
    let mut i: usize = 0;
    while i < s.len()
        invariant
            start <= i <= s@.len(),
            spec_lines(s@) == char_lines_view(r@) + lines_from(s@, start as int, i as int),
        decreases s@.len() - i,
    {
        if s[i] == '\n' {
            let line = strip_cr_vec(s, start, i);
            let ghost old_r = r@;
            r.push(line);
            proof {
                assert(char_lines_view(r@) =~= char_lines_view(old_r).push(line@)) by {
                    assert(r@ == old_r.push(r@.last()));
                }
                assert(char_lines_view(old_r) + lines_from(s@, start as int, i as int)
                    =~= char_lines_view(r@) + lines_from(s@, i + 1, i + 1));
            }
            start = i + 1;
        }
        i = i + 1;
    }
    if start < s.len() {
        let line = slice_to_vec(s, start, s.len());
        let ghost old_r = r@;
        r.push(line);
        proof {
            assert(char_lines_view(r@) =~= char_lines_view(old_r).push(line@)) by {
                assert(r@ == old_r.push(r@.last()));
            }
            assert(char_lines_view(old_r) + lines_from(s@, start as int, i as int)
                =~= char_lines_view(r@));
        }
    } else {
        assert(char_lines_view(r@) + lines_from(s@, start as int, i as int) =~= char_lines_view(
            r@,
        ));
    }
    r
}

// ============================================================================
// The line-by-line state machine
// ============================================================================

/// The parser's state between lines.
#[verifier::ext_equal]
pub struct ParseModel {
    /// Lines before the first section header.
    pub preamble: Seq<Seq<char>>,
    /// Comment and blank lines waiting for the next entry or header.
    pub pending: Seq<Seq<char>>,
    /// The section being read.
    pub current: Option<Seq<char>>,
    /// The entries read so far in the current section.
    pub entries: Seq<RawEntryView>,
    /// Finished sections by name (a repeated name replaces the entries in place).
    pub sections: Seq<(Seq<char>, Seq<RawEntryView>)>,
    /// Comment lines before section headers, by section name.
    pub headers: Seq<(Seq<char>, Seq<Seq<char>>)>,
}

/// Why a text is not a `.repo` file.
pub enum ParseFailure {
    MissingEquals { line: nat, text: Seq<char> },
    EmptySectionName,
    InvalidRepoId { id: Seq<char>, reason: Seq<char> },
    Other,
}

/// The model of a parse error.
pub open spec fn failure_of(e: ParseError) -> ParseFailure {
    match e {
        ParseError::MissingEquals { line, line_text } => ParseFailure::MissingEquals {
            line: line as nat,
            text: line_text@,
        },
        ParseError::EmptySectionName => ParseFailure::EmptySectionName,
        ParseError::InvalidRepoId { id, reason } => ParseFailure::InvalidRepoId {
            id: id@,
            reason: reason@,
        },
        _ => ParseFailure::Other,
    }
}

/// The reason given for a section name that is not a repository ID.
pub open spec fn invalid_id_reason() -> Seq<char> {
    "invalid characters in repo ID"@
}

pub open spec fn initial_parse_model() -> ParseModel {
    ParseModel {
        preamble: seq![],
        pending: seq![],
        current: None,
        entries: seq![],
        sections: seq![],
        headers: seq![],
    }
}

/// A comment line starts with `#` or `;` (after trimming).
pub open spec fn is_comment_line(t: Seq<char>) -> bool {
    t.len() > 0 && (t[0] == '#' || t[0] == ';')
}

/// A section header starts with `[` and ends with `]` (after trimming).
pub open spec fn is_header_line(t: Seq<char>) -> bool {
    t.len() > 0 && t[0] == '[' && t.last() == ']'
}

/// The trimmed name between the brackets of a header.
pub open spec fn header_name(t: Seq<char>) -> Seq<char> {
    spec_trim(t.subrange(1, t.len() - 1))
}

/// The state after reading one line (numbered `no` from 1).
pub open spec fn parse_step(st: ParseModel, line: Seq<char>, no: nat) -> Result<
    ParseModel,
    ParseFailure,
> {
    let t = spec_trim(line);
    if t.len() == 0 {
        if st.current is Some {
            Ok(ParseModel { pending: st.pending.push(seq![]), ..st })
        } else {
            Ok(ParseModel { preamble: st.preamble.push(seq![]), ..st })
        }
    } else if is_comment_line(t) {
        if st.current is Some {
            Ok(ParseModel { pending: st.pending.push(line), ..st })
        } else {
            Ok(ParseModel { preamble: st.preamble.push(line), ..st })
        }
    } else if is_header_line(t) {
        let flushed = match st.current {
            Some(sec) => ParseModel {
                sections: map_insert(st.sections, sec, st.entries),
                entries: seq![],
                current: None,
                ..st
            },
            None => st,
        };
        let name = header_name(t);
        if name.len() == 0 {
            Err(ParseFailure::EmptySectionName)
        } else if name != "main"@ && !is_valid_repo_id(spec_trim(name)) {
            Err(ParseFailure::InvalidRepoId { id: name, reason: invalid_id_reason() })
        } else {
            let with_headers = if flushed.pending.len() > 0 {
                ParseModel {
                    headers: map_insert(flushed.headers, name, flushed.pending),
                    pending: seq![],
                    ..flushed
                }
            } else {
                flushed
            };
            Ok(ParseModel { current: Some(name), ..with_headers })
        }
    } else {
        match spec_find(t, '=') {
            Some(eq) => {
                let key = spec_trim(t.subrange(0, eq));
                let split = spec_split_value(t.subrange(eq + 1, t.len() as int));
                if key.len() == 0 {
                    Err(ParseFailure::MissingEquals { line: no, text: line })
                } else {
                    let entry = RawEntryView {
                        key: key,
                        value: spec_trim(split.0),
                        inline_comment: split.1,
                        leading_comments: st.pending,
                    };
                    if st.current is Some {
                        Ok(ParseModel { entries: st.entries.push(entry), pending: seq![], ..st })
                    } else {
                        Ok(ParseModel { preamble: st.preamble.push(line), pending: seq![], ..st })
                    }
                }
            },
            None => Err(ParseFailure::MissingEquals { line: no, text: line }),
        }
    }
}

/// The state after reading `lines[i..]`, or the first failure.
pub open spec fn parse_lines(st: ParseModel, lines: Seq<Seq<char>>, i: int) -> Result<
    ParseModel,
    ParseFailure,
>
    decreases lines.len() - i,
{
    if i >= lines.len() || i < 0 {
        Ok(st)
    } else {
        match parse_step(st, lines[i], (i + 1) as nat) {
            Ok(next) => parse_lines(next, lines, i + 1),
            Err(e) => Err(e),
        }
    }
}

/// The state at the end of the text: the last section is stored, and
/// comment lines after it are added after its header comments.
pub open spec fn finish_parse(st: ParseModel) -> ParseModel {
    match st.current {
        Some(sec) => {
            let take = st.pending.len() > 0 || key_index(st.headers, sec) is None;
            ParseModel {
                headers: if take {
                    map_insert(st.headers, sec, header_of(st.headers, sec) + st.pending)
                } else {
                    st.headers
                },
                pending: if take {
                    seq![]
                } else {
                    st.pending
                },
                sections: map_insert(st.sections, sec, st.entries),
                entries: seq![],
                current: None,
                ..st
            }
        },
        None => if st.pending.len() > 0 {
            ParseModel { preamble: st.preamble + st.pending, pending: seq![], ..st }
        } else {
            st
        },
    }
}

/// A section block made from its header comments, data and entries.
pub open spec fn block_of<V>(header: Seq<Seq<char>>, data: V, es: Seq<RawEntryView>) -> SectionBlockView<V> {
    SectionBlockView {
        header_comments: header,
        data: data,
        item_comments: comments_of(es),
        item_order: keys_of(es),
        raw_entries: es,
    }
}

/// The header comments recorded for a section (none if not recorded).
pub open spec fn header_of(headers: Seq<(Seq<char>, Seq<Seq<char>>)>, name: Seq<char>) -> Seq<Seq<char>> {
    match map_get(headers, name) {
        Some(h) => h,
        None => seq![],
    }
}

/// The typed `[main]` block and repository blocks of the sections, in order.
pub open spec fn build_sections(
    secs: Seq<(Seq<char>, Seq<RawEntryView>)>,
    headers: Seq<(Seq<char>, Seq<Seq<char>>)>,
) -> Result<
    (Option<SectionBlockView<MainConfigView>>, Seq<(Seq<char>, SectionBlockView<RepoView>)>),
    ParseFailure,
>
    decreases secs.len(),
{
    if secs.len() == 0 {
        Ok((None, seq![]))
    } else {
        match build_sections(secs.drop_last(), headers) {
            Err(e) => Err(e),
            Ok(acc) => {
                let name = secs.last().0;
                let es = secs.last().1;
                let hc = header_of(headers, name);
                if name == "main"@ {
                    Ok((Some(block_of(hc, main_from_entries(empty_main_view(), es), es)), acc.1))
                } else if !is_valid_repo_id(spec_trim(name)) {
                    Err(ParseFailure::InvalidRepoId { id: name, reason: invalid_id_reason() })
                } else {
                    let id = spec_trim(name);
                    Ok(
                        (
                            acc.0,
                            map_insert(
                                acc.1,
                                id,
                                block_of(hc, repo_from_entries(empty_repo_view(id), es), es),
                            ),
                        ),
                    )
                }
            },
        }
    }
}

/// The file made from the final parser state.
pub open spec fn build_file(st: ParseModel) -> Result<RepoFileView, ParseFailure> {
    match build_sections(st.sections, st.headers) {
        Ok(b) => Ok(RepoFileView { preamble: st.preamble, main: b.0, repos: b.1 }),
        Err(e) => Err(e),
    }
}

/// What `RepoFile::parse` makes of a text.
pub open spec fn spec_parse(s: Seq<char>) -> Result<RepoFileView, ParseFailure> {
    match parse_lines(initial_parse_model(), spec_lines(s), 0) {
        Ok(st) => build_file(finish_parse(st)),
        Err(e) => Err(e),
    }
}

// ============================================================================
// Executable parser
// ============================================================================

struct ParseState {
    preamble: Vec<String>,
    pending: Vec<String>,
    current: Option<String>,
    entries: Vec<RawEntry>,
    sections: IndexMap<String, Vec<RawEntry>>,
    headers: IndexMap<String, Vec<String>>,
}

impl View for ParseState {
    type V = ParseModel;

    closed spec fn view(&self) -> ParseModel {
        ParseModel {
            preamble: strings_view(self.preamble@),
            pending: strings_view(self.pending@),
            current: opt_view(self.current),
            entries: entries_view(self.entries@),
            sections: section_entries(self.sections),
            headers: string_list_entries(self.headers),
        }
    }
}

fn push_string(v: &mut Vec<String>, s: String)
    ensures
        strings_view(final(v)@) == strings_view(old(v)@).push(s@),
{
    let ghost old_v = v@;
    v.push(s);
    assert(strings_view(v@) =~= strings_view(old_v).push(s@)) by {
        assert(v@ == old_v.push(v@.last()));
    }
}

fn take_strings(v: &mut Vec<String>) -> (r: Vec<String>)
    ensures
        final(v)@ == Seq::<String>::empty(),
        r@ == old(v)@,
{
    let mut r: Vec<String> = Vec::new();
    std::mem::swap(&mut r, v);
    r
}

fn take_entries(v: &mut Vec<RawEntry>) -> (r: Vec<RawEntry>)
    ensures
        final(v)@ == Seq::<RawEntry>::empty(),
        r@ == old(v)@,
{
    let mut r: Vec<RawEntry> = Vec::new();
    std::mem::swap(&mut r, v);
    r
}

impl ParseState {
    fn new() -> (r: ParseState)
        ensures
            r@ == initial_parse_model(),
    {
        let r = ParseState {
            preamble: Vec::new(),
            pending: Vec::new(),
            current: None,
            entries: Vec::new(),
            sections: sections_new(),
            headers: string_lists_new(),
        };
        assert(r@ =~= initial_parse_model());
        r
    }

    /// Read one line (numbered `no`).
    fn step(&mut self, line: &Vec<char>, no: usize) -> (r: Result<(), ParseError>)
        ensures
            match r {
                Ok(()) => parse_step(old(self)@, line@, no as nat) == Ok::<ParseModel, ParseFailure>(final(self)@),
                Err(e) => parse_step(old(self)@, line@, no as nat) == Err::<ParseModel, ParseFailure>(failure_of(e)),
            },
    {
        let ghost st = self@;
        let t = trim_vec(line.as_slice());
        if t.len() == 0 {
            if self.current.is_some() {
                push_string(&mut self.pending, String::new());
            } else {
                push_string(&mut self.preamble, String::new());
            }
            assert(self@ =~= (if st.current is Some {
                ParseModel { pending: st.pending.push(seq![]), ..st }
            } else {
                ParseModel { preamble: st.preamble.push(seq![]), ..st }
            }));
            return Ok(());
        }
        if t[0] == '#' || t[0] == ';' {
            let text = string_of(line.as_slice());
            if self.current.is_some() {
                push_string(&mut self.pending, text);
            } else {
                push_string(&mut self.preamble, text);
            }
            assert(self@ =~= (if st.current is Some {
                ParseModel { pending: st.pending.push(line@), ..st }
            } else {
                ParseModel { preamble: st.preamble.push(line@), ..st }
            }));
            return Ok(());
        }
        if t[0] == '[' && t[t.len() - 1] == ']' {
            // Store the section that ends here.
            let mut cur: Option<String> = None;
            std::mem::swap(&mut cur, &mut self.current);
            match cur {
                Some(sec) => {
                    let es = take_entries(&mut self.entries);
                    sections_insert(&mut self.sections, sec, es);
                },
                None => {},
            }
            let ghost flushed = self@;
            assert(flushed =~= match st.current {
                Some(sec) => ParseModel {
                    sections: map_insert(st.sections, sec, st.entries),
                    entries: seq![],
                    current: None,
                    ..st
                },
                None => st,
            });
            let inner = slice_to_vec(t.as_slice(), 1, t.len() - 1);
            let name = trim_vec(inner.as_slice());
            if name.len() == 0 {
                return Err(ParseError::EmptySectionName);
            }
            let name_s = string_of(name.as_slice());
            if !chars_eq_str(name.as_slice(), "main") {
                match RepoId::try_new(name_s.as_str()) {
                    Ok(_) => {},
                    Err(_) => {
                        return Err(
                            ParseError::InvalidRepoId {
                                id: name_s,
                                reason: owned("invalid characters in repo ID"),
                            },
                        );
                    },
                }
            }
            if self.pending.len() > 0 {
                let p = take_strings(&mut self.pending);
                string_lists_insert(&mut self.headers, copy_string(&name_s), p);
            }
            self.current = Some(name_s);
            proof {
                let with_headers = if flushed.pending.len() > 0 {
                    ParseModel {
                        headers: map_insert(flushed.headers, name@, flushed.pending),
                        pending: seq![],
                        ..flushed
                    }
                } else {
                    flushed
                };
                assert(strings_view(Seq::<String>::empty()) =~= Seq::<Seq<char>>::empty());
                assert(self@ =~= ParseModel { current: Some(name@), ..with_headers });
            }
            return Ok(());
        }
        match find_char(t.as_slice(), '=') {
            Some(eq) => {
                proof {
                    lemma_find_props(t@, '=');
                }
                let key_raw = slice_to_vec(t.as_slice(), 0, eq);
                let key = trim_vec(key_raw.as_slice());
                let value_part = slice_to_vec(t.as_slice(), eq + 1, t.len());
                let (value, inline_comment) = split_value_and_comment(value_part.as_slice());
                if key.len() == 0 {
                    return Err(
                        ParseError::MissingEquals { line: no, line_text: string_of(line.as_slice()) },
                    );
                }
                let value_t = trim_vec(value.as_slice());
                let leading = take_strings(&mut self.pending);
                let entry = RawEntry {
                    key: string_of(key.as_slice()),
                    value: string_of(value_t.as_slice()),
                    inline_comment: match inline_comment {
                        Some(c) => Some(string_of(c.as_slice())),
                        None => None,
                    },
                    leading_comments: leading,
                };
                let ghost ev = entry@;
                if self.current.is_some() {
                    let ghost old_e = self.entries@;
                    self.entries.push(entry);
                    assert(entries_view(self.entries@) =~= entries_view(old_e).push(ev)) by {
                        assert(self.entries@ == old_e.push(self.entries@.last()));
                    }
                } else {
                    push_string(&mut self.preamble, string_of(line.as_slice()));
                }
                proof {
                    assert(strings_view(Seq::<String>::empty()) =~= Seq::<Seq<char>>::empty());
                    assert(self@ =~= (if st.current is Some {
                        ParseModel { entries: st.entries.push(ev), pending: seq![], ..st }
                    } else {
                        ParseModel { preamble: st.preamble.push(line@), pending: seq![], ..st }
                    }));
                }
                Ok(())
            },
            None => Err(ParseError::MissingEquals { line: no, line_text: string_of(line.as_slice()) }),
        }
    }

    /// Store the last section at the end of the text.
    fn finish(&mut self)
        ensures
            final(self)@ == finish_parse(old(self)@),
    {
        let ghost st = self@;
        let mut cur: Option<String> = None;
        std::mem::swap(&mut cur, &mut self.current);
        match cur {
            Some(sec) => {
                if self.pending.len() > 0 || !string_lists_contains(&self.headers, sec.as_str()) {
                    let mut h: Vec<String> = match string_lists_get(&self.headers, sec.as_str()) {
                        Some(v) => copy_strings(v),
                        None => Vec::new(),
                    };
                    let p = take_strings(&mut self.pending);
                    let ghost base = strings_view(h@);
                    assert(base == header_of(st.headers, sec@)) by {
                        assert(strings_view(Seq::<String>::empty()) =~= Seq::<Seq<char>>::empty());
                    }
                    let mut k: usize = 0;
                    while k < p.len()
                        invariant
                            k <= p@.len(),
                            strings_view(h@) == base + strings_view(p@).subrange(0, k as int),
                        decreases p@.len() - k,
                    {
                        let ghost hv = h@;
                        push_string(&mut h, copy_string(&p[k]));
                        assert(strings_view(p@).subrange(0, k + 1) =~= strings_view(p@).subrange(
                            0,
                            k as int,
                        ).push(p@[k as int]@));
                        assert(base + strings_view(p@).subrange(0, k + 1) =~= (base + strings_view(
                            p@,
                        ).subrange(0, k as int)).push(p@[k as int]@));
                        k = k + 1;
                    }
                    assert(strings_view(p@).subrange(0, p@.len() as int) =~= strings_view(p@));
                    string_lists_insert(&mut self.headers, copy_string(&sec), h);
                }
                let es = take_entries(&mut self.entries);
                sections_insert(&mut self.sections, sec, es);
                assert(strings_view(Seq::<String>::empty()) =~= Seq::<Seq<char>>::empty());
                assert(self@ =~= finish_parse(st));
            },
            None => {
                if self.pending.len() > 0 {
                    let p = take_strings(&mut self.pending);
                    let mut i: usize = 0;
                    while i < p.len()
                        invariant
                            i <= p@.len(),
                            strings_view(self.preamble@) == st.preamble + strings_view(
                                p@,
                            ).subrange(0, i as int),
                            self.pending@ == Seq::<String>::empty(),
                            self.current is None,
                            entries_view(self.entries@) == st.entries,
                            section_entries(self.sections) == st.sections,
                            string_list_entries(self.headers) == st.headers,
                        decreases p@.len() - i,
                    {
                        push_string(&mut self.preamble, copy_string(&p[i]));
                        assert(strings_view(p@).subrange(0, i + 1) =~= strings_view(p@).subrange(
                            0,
                            i as int,
                        ).push(p@[i as int]@));
                        i = i + 1;
                    }
                    assert(strings_view(p@).subrange(0, p@.len() as int) =~= strings_view(p@));
                    assert(strings_view(Seq::<String>::empty()) =~= Seq::<Seq<char>>::empty());
                }
                assert(self@ =~= finish_parse(st));
            },
        }
    }
}

/// A failure on the first sections stays the failure of all of them.
proof fn lemma_build_sections_err_extends(
    secs: Seq<(Seq<char>, Seq<RawEntryView>)>,
    headers: Seq<(Seq<char>, Seq<Seq<char>>)>,
    k: int,
    m: int,
)
    requires
        0 <= k <= m <= secs.len(),
        build_sections(secs.subrange(0, k), headers) is Err,
    ensures
        build_sections(secs.subrange(0, m), headers) == build_sections(secs.subrange(0, k), headers),
    decreases m - k,
{
    if m > k {
        lemma_build_sections_err_extends(secs, headers, k, m - 1);
        assert(secs.subrange(0, m).drop_last() =~= secs.subrange(0, m - 1));
    }
}

/// Reading entries never changes a repository's ID.
proof fn lemma_repo_from_entries_id(r: RepoView, es: Seq<RawEntryView>)
    ensures
        repo_from_entries(r, es).id == r.id,
    decreases es.len(),
{
    if es.len() > 0 {
        lemma_repo_from_entries_id(r, es.drop_last());
    }
}

/// Assemble the typed sections of the final parser state.
fn build_repofile(st: &ParseState) -> (r: Result<RepoFile, ParseError>)
    ensures
        match r {
            Ok(rf) => build_file(st@) == Ok::<RepoFileView, ParseFailure>(rf@),
            Err(e) => build_file(st@) == Err::<RepoFileView, ParseFailure>(failure_of(e)),
        },
{
    let ghost secs = st@.sections;
    let ghost headers = st@.headers;
    let mut main: Option<SectionBlock<MainConfig>> = None;
    let mut repos: IndexMap<RepoId, SectionBlock<Repo>> = repo_blocks_new();
    let n = sections_len(&st.sections);
    let mut j: usize = 0;
    while j < n
        invariant
            j <= n == secs.len(),
            secs == section_entries(st.sections),
            headers == string_list_entries(st.headers),
            build_sections(secs.subrange(0, j as int), headers) == Ok::<
                (Option<SectionBlockView<MainConfigView>>, Seq<(Seq<char>, SectionBlockView<RepoView>)>),
                ParseFailure,
            >((opt_view(main), repo_block_entries(repos))),
        decreases n - j,
    {
        let (name, es) = match sections_get_index(&st.sections, j) {
            Some(p) => p,
            None => {
                return Err(ParseError::EmptySectionName);
            },
        };
        let ghost prefix = secs.subrange(0, j as int);
        let ghost next = secs.subrange(0, j + 1);
        assert(next.drop_last() =~= prefix);
        assert(next.last() == secs[j as int]);
        let hc: Vec<String> = match string_lists_get(&st.headers, name.as_str()) {
            Some(h) => copy_strings(h),
            None => Vec::new(),
        };
        assert(strings_view(hc@) =~= header_of(headers, name@));
        if chars_eq_str(chars_of(name.as_str()).as_slice(), "main") {
            let mut mc = MainConfig::new();
            let (io, ic, re) = parse_entries_into_mainconfig(&mut mc, es);
            let block = SectionBlock {
                header_comments: hc,
                data: mc,
                item_comments: ic,
                item_order: io,
                raw_entries: re,
            };
            assert(block@ =~= block_of(
                header_of(headers, name@),
                main_from_entries(empty_main_view(), entries_view(es@)),
                entries_view(es@),
            ));
            main = Some(block);
        } else {
            let id = match RepoId::try_new(name.as_str()) {
                Ok(id) => id,
                Err(_) => {
                    proof {
                        assert(build_sections(next, headers) == Err::<
                            (Option<SectionBlockView<MainConfigView>>, Seq<(Seq<char>, SectionBlockView<RepoView>)>),
                            ParseFailure,
                        >(ParseFailure::InvalidRepoId { id: name@, reason: invalid_id_reason() }));
                        lemma_build_sections_err_extends(secs, headers, j + 1, n as int);
                        assert(secs.subrange(0, n as int) =~= secs);
                    }
                    return Err(
                        ParseError::InvalidRepoId {
                            id: copy_string(name),
                            reason: owned("invalid characters in repo ID"),
                        },
                    );
                },
            };
            let ghost idv = id@;
            let mut repo = Repo::new(id);
            let (io, ic, re) = parse_entries_into_repo(&mut repo, es);
            proof {
                lemma_repo_from_entries_id(empty_repo_view(idv), entries_view(es@));
            }
            let key = repo.id.clone();
            let block = SectionBlock {
                header_comments: hc,
                data: repo,
                item_comments: ic,
                item_order: io,
                raw_entries: re,
            };
            assert(block@ =~= block_of(
                header_of(headers, name@),
                repo_from_entries(empty_repo_view(spec_trim(name@)), entries_view(es@)),
                entries_view(es@),
            ));
            repo_blocks_insert(&mut repos, key, block);
        }
        assert(build_sections(next, headers) == Ok::<
            (Option<SectionBlockView<MainConfigView>>, Seq<(Seq<char>, SectionBlockView<RepoView>)>),
            ParseFailure,
        >((opt_view(main), repo_block_entries(repos))));
        j = j + 1;
    }
    assert(secs.subrange(0, n as int) =~= secs);
    let rf = RepoFile { preamble: copy_strings(&st.preamble), main: main, repos: repos };
    assert(rf@ =~= RepoFileView { preamble: st@.preamble, main: opt_view(rf.main), repos: repo_block_entries(rf.repos) });
    Ok(rf)
}

impl RepoFile {
    /// Parse a `.repo` text.
    ///
    /// Lines are trimmed; blank lines and lines starting with `#` or `;` are
    /// kept as comments; `[name]` starts a section (`main` or a repository
    /// ID); other lines must be `key=value` with a non-empty key, with an
    /// optional inline `#` comment. Lines before the first section form the
    /// preamble.
    pub fn parse(input: &str) -> (r: Result<RepoFile, ParseError>)
        ensures
            match r {
                Ok(rf) => spec_parse(input@) == Ok::<RepoFileView, ParseFailure>(rf@),
                Err(e) => spec_parse(input@) == Err::<RepoFileView, ParseFailure>(failure_of(e)),
            },
    {
        let chars = chars_of(input);
        let lines = split_lines(chars.as_slice());
        let ghost ls = spec_lines(input@);
        let mut st = ParseState::new();
        let mut i: usize = 0;
        while i < lines.len()
            invariant
                i <= lines@.len(),
                ls == char_lines_view(lines@),
                ls == spec_lines(input@),
                parse_lines(initial_parse_model(), ls, 0) == parse_lines(st@, ls, i as int),
            decreases lines@.len() - i,
        {
            assert(lines@[i as int]@ == ls[i as int]);
            let ghost before = st@;
            match st.step(&lines[i], i + 1) {
                Ok(()) => {},
                Err(e) => {
                    assert(parse_lines(before, ls, i as int) == Err::<ParseModel, ParseFailure>(
                        failure_of(e),
                    ));
                    return Err(e);
                },
            }
            i = i + 1;
        }
        st.finish();
        build_repofile(&st)
    }
}

} // verus!
