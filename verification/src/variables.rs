//! Detection and expansion of DNF variables in option values.
//!
//! | Pattern           | Expansion                                        |
//! |-------------------|--------------------------------------------------|
//! | `$name`           | the value of `name`                              |
//! | `${name}`         | the value of `name`                              |
//! | `${name:-text}`   | the value of `name`, or `text` if unset or empty |
//! | `${name:+text}`   | `text` if `name` is set and non-empty, else ``   |
//! | `\c`              | the character `c` itself (so `\$` is a `$`)      |
//!
//! The text chosen by `:-` and `:+` is expanded again, to a nesting depth
//! of at most 32.

use crate::error::ExpandError;
use crate::text::{
    chars_of, is_alphanumeric_char, push_char, push_str, slice_to_vec, string_of,
    unicode_alphanumeric,
};
use std::collections::HashMap;
use vstd::prelude::*;

verus! {

/// The deepest nesting of `:-` / `:+` expansions.
pub const MAX_EXPRESSION_DEPTH: u32 = 32;

/// What a `HashMap<String, String>` of variables holds: each name's text
/// and its value's text.
pub uninterp spec fn var_table(m: HashMap<String, String>) -> Map<Seq<char>, Seq<char>>;

/// `HashMap::get`: the value stored under the name, if any.
#[verifier::external_body]
fn lookup_var<'a>(vars: &'a HashMap<String, String>, name: &str) -> (r: Option<&'a String>)
    ensures
        match r {
            Some(v) => var_table(*vars).contains_key(name@) && var_table(*vars)[name@] == v@,
            None => !var_table(*vars).contains_key(name@),
        },
{
    vars.get(name)
}

/// Why an expansion failed.
pub enum ExpandFailure {
    NotFound { name: Seq<char> },
    MaxDepth { depth: nat, expr: Seq<char> },
    Malformed { expr: Seq<char> },
}

/// The model of an expansion error.
pub open spec fn expand_failure_of(e: ExpandError) -> ExpandFailure {
    match e {
        ExpandError::VariableNotFound { name } => ExpandFailure::NotFound { name: name@ },
        ExpandError::MaxDepthExceeded { depth, expr } => ExpandFailure::MaxDepth {
            depth: depth as nat,
            expr: expr@,
        },
        ExpandError::MalformedExpression { expr } => ExpandFailure::Malformed { expr: expr@ },
    }
}

/// A character that may appear in a variable name: a letter or digit (as
/// `char::is_alphanumeric` answers) or `_`.
pub open spec fn is_name_char(c: char) -> bool {
    if (c as u32) < 128 {
        crate::text::is_ascii_alphanumeric(c) || c == '_'
    } else {
        unicode_alphanumeric(c)
    }
}

/// The end of the run of name characters starting at `j`.
pub open spec fn name_end(c: Seq<char>, j: int) -> int
    decreases c.len() - j,
{
    if j < 0 || j >= c.len() || !is_name_char(c[j]) {
        j
    } else {
        name_end(c, j + 1)
    }
}

/// The text of a `:-` / `:+` operand starting at `j` with `open` braces
/// still open, and the position after its closing brace (or the end).
pub open spec fn scan_operand(c: Seq<char>, j: int, open: nat) -> (Seq<char>, int)
    decreases c.len() - j,
{
    if j < 0 || j >= c.len() {
        (seq![], j)
    } else if c[j] == '{' {
        let r = scan_operand(c, j + 1, open + 1);
        (seq![c[j]] + r.0, r.1)
    } else if c[j] == '}' {
        if open <= 1 {
            (seq![], j + 1)
        } else {
            let r = scan_operand(c, j + 1, (open - 1) as nat);
            (seq![c[j]] + r.0, r.1)
        }
    } else {
        let r = scan_operand(c, j + 1, open);
        (seq![c[j]] + r.0, r.1)
    }
}

pub proof fn lemma_name_end(c: Seq<char>, j: int)
    requires
        0 <= j <= c.len(),
    ensures
        j <= name_end(c, j) <= c.len(),
        forall|k: int| j <= k < name_end(c, j) ==> is_name_char(#[trigger] c[k]),
        name_end(c, j) < c.len() ==> !is_name_char(c[name_end(c, j)]),
    decreases c.len() - j,
{
    if j < c.len() && is_name_char(c[j]) {
        lemma_name_end(c, j + 1);
    }
}

pub proof fn lemma_scan_operand_end(c: Seq<char>, j: int, open: nat)
    requires
        0 <= j <= c.len(),
    ensures
        j <= scan_operand(c, j, open).1 <= c.len(),
    decreases c.len() - j,
{
    if j < c.len() {
        if c[j] == '{' {
            lemma_scan_operand_end(c, j + 1, open + 1);
        } else if c[j] == '}' {
            if open > 1 {
                lemma_scan_operand_end(c, j + 1, (open - 1) as nat);
            }
        } else {
            lemma_scan_operand_end(c, j + 1, open);
        }
    }
}

/// `p` followed by a successful result; failures pass through.
pub open spec fn prepend(p: Seq<char>, r: Result<Seq<char>, ExpandFailure>) -> Result<
    Seq<char>,
    ExpandFailure,
> {
    match r {
        Ok(s) => Ok(p + s),
        Err(f) => Err(f),
    }
}

/// Whether the variable is set to a non-empty value.
pub open spec fn is_set(vars: Map<Seq<char>, Seq<char>>, name: Seq<char>) -> bool {
    vars.contains_key(name) && vars[name].len() > 0
}

/// The expansion of `c` at nesting depth `depth`.
pub open spec fn expand(vars: Map<Seq<char>, Seq<char>>, c: Seq<char>, depth: nat) -> Result<
    Seq<char>,
    ExpandFailure,
>
    decreases (if depth <= 32 {
        33 - depth
    } else {
        0int
    }), c.len() + 1,
{
    if depth > 32 {
        Err(ExpandFailure::MaxDepth { depth: depth, expr: c })
    } else {
        expand_from(vars, c, 0, depth)
    }
}

/// The expansion of `c[i..]` at nesting depth `depth`.
pub open spec fn expand_from(vars: Map<Seq<char>, Seq<char>>, c: Seq<char>, i: int, depth: nat) -> Result<
    Seq<char>,
    ExpandFailure,
>
    decreases (if depth <= 32 {
        33 - depth
    } else {
        0int
    }), c.len() - i,
{
    if i < 0 || i >= c.len() {
        Ok(seq![])
    } else if c[i] == '\\' && i + 1 < c.len() {
        prepend(seq![c[i + 1]], expand_from(vars, c, i + 2, depth))
    } else if c[i] == '$' {
        let braced = i + 1 < c.len() && c[i + 1] == '{';
        let j = if braced {
            i + 2
        } else {
            i + 1
        };
        proof {
            lemma_name_end(c, j);
        }
        let e = name_end(c, j);
        let name = c.subrange(j, e);
        if name.len() == 0 {
            Err(ExpandFailure::Malformed { expr: c.subrange(i, c.len() as int) })
        } else {
            let has_op = braced && e < c.len() && e + 1 < c.len() && c[e] == ':' && (c[e + 1] == '-' || c[e + 1]
                == '+');
            proof {
                if has_op {
                    lemma_scan_operand_end(c, e + 2, 1);
                }
            }
            let scanned = scan_operand(c, e + 2, 1);
            let after = if has_op {
                scanned.1
            } else {
                e
            };
            let next = if braced && after < c.len() && c[after] == '}' {
                after + 1
            } else {
                after
            };
            if has_op {
                let dv = if c[e + 1] == '-' {
                    if is_set(vars, name) {
                        vars[name]
                    } else {
                        scanned.0
                    }
                } else if is_set(vars, name) {
                    scanned.0
                } else {
                    seq![]
                };
                if depth <= 32 {
                    match expand(vars, dv, depth + 1) {
                        Ok(x) => prepend(x, expand_from(vars, c, next, depth)),
                        Err(f) => Err(f),
                    }
                } else {
                    Err(ExpandFailure::MaxDepth { depth: depth + 1, expr: dv })
                }
            } else if vars.contains_key(name) {
                prepend(vars[name], expand_from(vars, c, next, depth))
            } else {
                Err(ExpandFailure::NotFound { name: name })
            }
        }
    } else {
        prepend(seq![c[i]], expand_from(vars, c, i + 1, depth))
    }
}

proof fn lemma_prepend_assoc(a: Seq<char>, b: Seq<char>, r: Result<Seq<char>, ExpandFailure>)
    ensures
        prepend(a + b, r) == prepend(a, prepend(b, r)),
{
    match r {
        Ok(s) => {
            assert(a + b + s =~= a + (b + s));
        },
        Err(_) => {},
    }
}

/// The end of the run of name characters starting at `j`.
fn scan_name(c: &[char], j: usize) -> (e: usize)
    requires
        j <= c@.len(),
    ensures
        e == name_end(c@, j as int),
{
    proof {
        lemma_name_end(c@, j as int);
    }
    let mut e = j;
    while e < c.len() && (is_alphanumeric_char(c[e]) || c[e] == '_')
        invariant
            j <= e <= c@.len(),
            name_end(c@, e as int) == name_end(c@, j as int),
        decreases c@.len() - e,
    {
        e = e + 1;
    }
    e
}

/// The operand of a `:-` / `:+` starting at `j`, and the position after
/// its closing brace.
fn scan_operand_text(c: &[char], j: usize) -> (r: (Vec<char>, usize))
    requires
        1 <= j <= c@.len(),
    ensures
        (r.0@, r.1 as int) == scan_operand(c@, j as int, 1),
{
    let mut val: Vec<char> = Vec::new();
    let mut k = j;
    let mut open: usize = 1;
    while k < c.len()
        invariant
            1 <= j <= k <= c@.len(),
            1 <= open <= k - j + 1,
            scan_operand(c@, j as int, 1) == (val@ + scan_operand(c@, k as int, open as nat).0,
                scan_operand(c@, k as int, open as nat).1),
        decreases c@.len() - k,
    {
        let ch = c[k];
        let ghost rest = scan_operand(c@, k + 1, (if ch == '{' {
            open + 1
        } else if ch == '}' {
            open - 1
        } else {
            open as int
        }) as nat);
        if ch == '{' {
            open = open + 1;
        } else if ch == '}' {
            if open == 1 {
                assert(scan_operand(c@, k as int, 1) == (Seq::<char>::empty(), k + 1));
                assert(val@ + Seq::<char>::empty() =~= val@);
                return (val, k + 1);
            }
            open = open - 1;
        }
        let ghost old_val = val@;
        val.push(ch);
        assert(old_val + (seq![ch] + rest.0) =~= val@ + rest.0);
        k = k + 1;
    }
    assert(val@ + Seq::<char>::empty() =~= val@);
    (val, k)
}

/// The length of a string in characters is zero.
fn text_is_empty(s: &String) -> (r: bool)
    ensures
        r == (s@.len() == 0),
{
    s.as_str().unicode_len() == 0
}

/// Expand `c` at nesting depth `depth`.
fn expand_chars(c: &[char], vars: &HashMap<String, String>, depth: u32) -> (r: Result<
    String,
    ExpandError,
>)
    ensures
        match r {
            Ok(s) => expand(var_table(*vars), c@, depth as nat) == Ok::<Seq<char>, ExpandFailure>(s@),
            Err(e) => expand(var_table(*vars), c@, depth as nat) == Err::<Seq<char>, ExpandFailure>(
                expand_failure_of(e),
            ),
        },
    decreases 33 - depth,
{
    if depth > MAX_EXPRESSION_DEPTH {
        return Err(ExpandError::MaxDepthExceeded { depth: depth, expr: string_of(c) });
    }
    let ghost tbl = var_table(*vars);
    let mut result = String::new();
    let mut i: usize = 0;
    assert(result@ =~= Seq::<char>::empty());
    assert(prepend(Seq::<char>::empty(), expand_from(tbl, c@, 0, depth as nat)) == expand_from(
        tbl,
        c@,
        0,
        depth as nat,
    )) by {
        match expand_from(tbl, c@, 0, depth as nat) {
            Ok(s) => {
                assert(Seq::<char>::empty() + s =~= s);
            },
            Err(_) => {},
        }
    }
    while i < c.len()
        invariant
            i <= c@.len(),
            depth <= 32,
            tbl == var_table(*vars),
            expand_from(tbl, c@, 0, depth as nat) == prepend(
                result@,
                expand_from(tbl, c@, i as int, depth as nat),
            ),
        decreases c@.len() - i,
    {
        if c[i] == '\\' && i + 1 < c.len() {
            let ghost r0 = result@;
            push_char(&mut result, c[i + 1]);
            proof {
                assert(expand_from(tbl, c@, i as int, depth as nat) == prepend(
                    seq![c@[i + 1]],
                    expand_from(tbl, c@, i + 2, depth as nat),
                ));
                assert(result@ =~= r0 + seq![c@[i + 1]]);
                lemma_prepend_assoc(r0, seq![c@[i + 1]], expand_from(tbl, c@, i + 2, depth as nat));
            }
            i = i + 2;
            continue;
        }
        if c[i] == '$' {
            let braced = i + 1 < c.len() && c[i + 1] == '{';
            let j = if braced {
                i + 2
            } else {
                i + 1
            };
            let e = scan_name(c, j);
            proof {
                lemma_name_end(c@, j as int);
            }
            if e == j {
                return Err(ExpandError::MalformedExpression { expr: string_of(slice_to_vec(c, i, c.len()).as_slice()) });
            }
            let name_chars = slice_to_vec(c, j, e);
            let name = string_of(name_chars.as_slice());
            let has_op = braced && e < c.len() && e + 1 < c.len() && c[e] == ':' && (c[e + 1] == '-' || c[e + 1]
                == '+');
            if has_op {
                proof {
                    lemma_scan_operand_end(c@, e + 2, 1);
                }
                let (val, end) = scan_operand_text(c, e + 2);
                let mut next = end;
                if braced && next < c.len() && c[next] == '}' {
                    next = next + 1;
                }
                let found = lookup_var(vars, name.as_str());
                let set = match found {
                    Some(v) => !text_is_empty(v),
                    None => false,
                };
                let dv: String = if c[e + 1] == '-' {
                    if set {
                        match found {
                            Some(v) => crate::text::copy_string(v),
                            None => string_of(val.as_slice()),
                        }
                    } else {
                        string_of(val.as_slice())
                    }
                } else if set {
                    string_of(val.as_slice())
                } else {
                    String::new()
                };
                let dv_chars = chars_of(dv.as_str());
                match expand_chars(dv_chars.as_slice(), vars, depth + 1) {
                    Ok(x) => {
                        proof {
                            lemma_prepend_assoc(result@, x@, expand_from(tbl, c@, next as int, depth as nat));
                        }
                        push_str(&mut result, x.as_str());
                    },
                    Err(err) => {
                        return Err(err);
                    },
                }
                i = next;
            } else {
                let mut next = e;
                if braced && next < c.len() && c[next] == '}' {
                    next = next + 1;
                }
                match lookup_var(vars, name.as_str()) {
                    Some(v) => {
                        proof {
                            lemma_prepend_assoc(result@, v@, expand_from(tbl, c@, next as int, depth as nat));
                        }
                        push_str(&mut result, v.as_str());
                    },
                    None => {
                        return Err(ExpandError::VariableNotFound { name: name });
                    },
                }
                i = next;
            }
            continue;
        }
        let ghost r0 = result@;
        push_char(&mut result, c[i]);
        proof {
            assert(expand_from(tbl, c@, i as int, depth as nat) == prepend(
                seq![c@[i as int]],
                expand_from(tbl, c@, i + 1, depth as nat),
            ));
            assert(result@ =~= r0 + seq![c@[i as int]]);
            lemma_prepend_assoc(r0, seq![c@[i as int]], expand_from(tbl, c@, i + 1, depth as nat));
        }
        i = i + 1;
    }
    assert(result@ + Seq::<char>::empty() =~= result@);
    Ok(result)
}

/// Expand the variables of `input` with the values in `vars`.
///
/// Fails with `VariableNotFound` for a plain reference to a variable that
/// `vars` lacks, with `MalformedExpression` for a `$` that is not followed
/// by a name (a `$` that ends the text included), and with
/// `MaxDepthExceeded` when `:-` / `:+` operands nest deeper than 32.
pub fn expand_variables(input: &str, vars: &HashMap<String, String>) -> (r: Result<
    String,
    ExpandError,
>)
    ensures
        match r {
            Ok(s) => expand(var_table(*vars), input@, 0) == Ok::<Seq<char>, ExpandFailure>(s@),
            Err(e) => expand(var_table(*vars), input@, 0) == Err::<Seq<char>, ExpandFailure>(
                expand_failure_of(e),
            ),
        },
{
    let c = chars_of(input);
    expand_chars(c.as_slice(), vars, 0)
}

/// The names of the variables referenced in `c[i..]`, in order.
pub open spec fn detect_from(c: Seq<char>, i: int) -> Seq<Seq<char>>
    decreases c.len() - i,
{
    if i < 0 || i >= c.len() {
        seq![]
    } else if c[i] == '\\' && i + 1 < c.len() {
        detect_from(c, i + 2)
    } else if c[i] == '$' && i + 1 < c.len() {
        let j = if c[i + 1] == '{' {
            i + 2
        } else {
            i + 1
        };
        proof {
            lemma_name_end(c, j);
        }
        let e = name_end(c, j);
        if e > j {
            seq![c.subrange(j, e)] + detect_from(c, e)
        } else {
            detect_from(c, e)
        }
    } else {
        detect_from(c, i + 1)
    }
}

/// The names of the variables referenced in `input`, once per reference
/// and in order; escaped `\$` is skipped.
pub fn detect_variables(input: &str) -> (r: Vec<String>)
    ensures
        crate::text::strings_view(r@) == detect_from(input@, 0),
{
    let c = chars_of(input);
    let mut names: Vec<String> = Vec::new();
    let mut i: usize = 0;
    while i < c.len()
        invariant
            i <= c@.len(),
            c@ == input@,
            detect_from(c@, 0) == crate::text::strings_view(names@) + detect_from(c@, i as int),
        decreases c@.len() - i,
    {
        if c[i] == '\\' && i + 1 < c.len() {
            i = i + 2;
            continue;
        }
        if c[i] == '$' && i + 1 < c.len() {
            let j = if c[i + 1] == '{' {
                i + 2
            } else {
                i + 1
            };
            let e = scan_name(c.as_slice(), j);
            proof {
                lemma_name_end(c@, j as int);
            }
            if e > j {
                let ghost old_names = names@;
                let name = string_of(slice_to_vec(c.as_slice(), j, e).as_slice());
                names.push(name);
                assert(crate::text::strings_view(names@) =~= crate::text::strings_view(old_names).push(
                    c@.subrange(j as int, e as int),
                ));
                assert(crate::text::strings_view(old_names) + (seq![c@.subrange(j as int, e as int)]
                    + detect_from(c@, e as int)) =~= crate::text::strings_view(names@) + detect_from(
                    c@,
                    e as int,
                ));
            }
            i = e;
            continue;
        }
        i = i + 1;
    }
    assert(crate::text::strings_view(names@) + Seq::<Seq<char>>::empty() =~= crate::text::strings_view(
        names@,
    ));
    names
}

} // verus!
