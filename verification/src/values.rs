//! Readers for the values of typed `.repo` options: enumerations, numbers,
//! storage sizes, throttles, metadata expiry, proxies and transaction flags,
//! plus the split of a value from its inline comment.
//!
//! Keyword matching lower-cases the trimmed value with `str::to_lowercase`;
//! the functions that map an already lower-cased word to a value are public
//! so that they can be checked on their own.

use crate::text::{
    chars_eq_str, chars_of, is_whitespace_char, parse_signed, parse_unsigned, slice_to_vec,
    spec_ascii_lowercase, spec_is_whitespace, spec_parse_signed, spec_parse_unsigned, spec_trim,
    string_of, to_lowercase, trim_vec, unicode_lowercase, ascii_lower, spec_ascii_lower,
    trim_bounds,
};
use crate::types::{
    Cost, DebugLevel, DeltaRpmPercentage, ErrorLevel, InstallOnlyLimit, IpResolve, LogLevel,
    LogRotate, MaxParallelDownloads, MetadataExpire, MetadataTimerSync, MultilibPolicy,
    Persistence, Priority, ProxyAuthMethod, ProxySetting, ProxyView, RepoMetadataType, Retries,
    RpmVerbosity, StorageSize, Throttle, TimeoutSeconds, TsFlag, Url, url_serialization,
};
use vstd::prelude::*;

verus! {

// ============================================================================
// Inline comments
// ============================================================================

/// Index of the first `#` at or after `i` that is outside double quotes,
/// given whether position `i` is inside quotes.
pub open spec fn comment_start_from(s: Seq<char>, i: int, in_quotes: bool) -> Option<int>
    decreases s.len() - i,
{
    if i < 0 || i >= s.len() {
        None
    } else {
        let q = if s[i] == '"' {
            !in_quotes
        } else {
            in_quotes
        };
        if s[i] == '#' && !q {
            Some(i)
        } else {
            comment_start_from(s, i + 1, q)
        }
    }
}

/// Index of the first `#` that is not inside double quotes.
pub open spec fn comment_start(s: Seq<char>) -> Option<int> {
    comment_start_from(s, 0, false)
}

/// The value text and the (trimmed) inline comment of the text after `=`.
pub open spec fn spec_split_value(s: Seq<char>) -> (Seq<char>, Option<Seq<char>>) {
    match comment_start(s) {
        Some(i) => (s.subrange(0, i), Some(spec_trim(s.subrange(i + 1, s.len() as int)))),
        None => (s, None),
    }
}

proof fn lemma_comment_start_from_range(s: Seq<char>, i: int, q: bool)
    ensures
        comment_start_from(s, i, q) matches Some(j) ==> i <= j < s.len() && 0 <= j,
    decreases s.len() - i,
{
    if 0 <= i < s.len() {
        let q2 = if s[i] == '"' {
            !q
        } else {
            q
        };
        lemma_comment_start_from_range(s, i + 1, q2);
    }
}

pub proof fn lemma_comment_start_range(s: Seq<char>)
    ensures
        comment_start(s) matches Some(j) ==> 0 <= j < s.len(),
{
    lemma_comment_start_from_range(s, 0, false);
}

/// Split the text after `=` into the value and the inline comment (the text
/// after the first `#` that is outside double quotes, trimmed).
pub fn split_value_and_comment(s: &[char]) -> (r: (Vec<char>, Option<Vec<char>>))
    ensures
        r.0@ == spec_split_value(s@).0,
        r.1 is Some <==> spec_split_value(s@).1 is Some,
        r.1 matches Some(c) ==> c@ == spec_split_value(s@).1->0,
{
    let mut in_quotes = false;
    let mut i: usize = 0;
    while i < s.len()
        invariant
            i <= s@.len(),
            comment_start(s@) == comment_start_from(s@, i as int, in_quotes),
        decreases s@.len() - i,
    {
        if s[i] == '"' {
            in_quotes = !in_quotes;
        }
        if s[i] == '#' && !in_quotes {
            let value = slice_to_vec(s, 0, i);
            let rest = slice_to_vec(s, i + 1, s.len());
            let comment = trim_vec(rest.as_slice());
            return (value, Some(comment));
        }
        i = i + 1;
    }
    (slice_to_vec(s, 0, s.len()), None)
}

// ============================================================================
// Keywords
// ============================================================================

/// The lower-cased, trimmed text of a value (ASCII lower-casing on an
/// ASCII text, Unicode lower-casing otherwise).
pub open spec fn spec_keyword(val: Seq<char>) -> Seq<char> {
    if crate::text::is_ascii_text(spec_trim(val)) {
        spec_ascii_lowercase(spec_trim(val))
    } else {
        unicode_lowercase(spec_trim(val))
    }
}

/// The lower-cased, trimmed text of a value (`trim` then `to_lowercase`).
pub fn keyword_of(val: &[char]) -> (r: Vec<char>)
    ensures
        r@ == spec_keyword(val@),
{
    let t = trim_vec(val);
    let ts = string_of(t.as_slice());
    let l = to_lowercase(ts.as_str());
    chars_of(l.as_str())
}

pub open spec fn ip_resolve_word(w: Seq<char>) -> Option<IpResolve> {
    if w == "4"@ || w == "ipv4"@ {
        Some(IpResolve::V4)
    } else if w == "6"@ || w == "ipv6"@ {
        Some(IpResolve::V6)
    } else {
        None
    }
}

/// The IP version named by a lower-cased word (`4`/`ipv4`, `6`/`ipv6`).
pub fn ip_resolve_from_word(w: &[char]) -> (r: Option<IpResolve>)
    ensures
        r == ip_resolve_word(w@),
{
    if chars_eq_str(w, "4") || chars_eq_str(w, "ipv4") {
        Some(IpResolve::V4)
    } else if chars_eq_str(w, "6") || chars_eq_str(w, "ipv6") {
        Some(IpResolve::V6)
    } else {
        None
    }
}

pub open spec fn spec_parse_ip_resolve(val: Seq<char>) -> Option<IpResolve> {
    ip_resolve_word(spec_keyword(val))
}

pub fn parse_ip_resolve(val: &[char]) -> (r: Option<IpResolve>)
    ensures
        r == spec_parse_ip_resolve(val@),
{
    let w = keyword_of(val);
    ip_resolve_from_word(w.as_slice())
}

pub open spec fn proxy_auth_method_word(w: Seq<char>) -> Option<ProxyAuthMethod> {
    if w == "any"@ {
        Some(ProxyAuthMethod::Any)
    } else if w == "none"@ {
        Some(ProxyAuthMethod::None_)
    } else if w == "basic"@ {
        Some(ProxyAuthMethod::Basic)
    } else if w == "digest"@ {
        Some(ProxyAuthMethod::Digest)
    } else if w == "negotiate"@ {
        Some(ProxyAuthMethod::Negotiate)
    } else if w == "ntlm"@ {
        Some(ProxyAuthMethod::Ntlm)
    } else if w == "digest_ie"@ || w == "digestie"@ {
        Some(ProxyAuthMethod::DigestIe)
    } else if w == "ntlm_wb"@ || w == "ntlmwb"@ {
        Some(ProxyAuthMethod::NtlmWb)
    } else {
        None
    }
}

/// The proxy authentication method named by a lower-cased word.
pub fn proxy_auth_method_from_word(w: &[char]) -> (r: Option<ProxyAuthMethod>)
    ensures
        r == proxy_auth_method_word(w@),
{
    if chars_eq_str(w, "any") {
        Some(ProxyAuthMethod::Any)
    } else if chars_eq_str(w, "none") {
        Some(ProxyAuthMethod::None_)
    } else if chars_eq_str(w, "basic") {
        Some(ProxyAuthMethod::Basic)
    } else if chars_eq_str(w, "digest") {
        Some(ProxyAuthMethod::Digest)
    } else if chars_eq_str(w, "negotiate") {
        Some(ProxyAuthMethod::Negotiate)
    } else if chars_eq_str(w, "ntlm") {
        Some(ProxyAuthMethod::Ntlm)
    } else if chars_eq_str(w, "digest_ie") || chars_eq_str(w, "digestie") {
        Some(ProxyAuthMethod::DigestIe)
    } else if chars_eq_str(w, "ntlm_wb") || chars_eq_str(w, "ntlmwb") {
        Some(ProxyAuthMethod::NtlmWb)
    } else {
        None
    }
}

pub open spec fn spec_parse_proxy_auth_method(val: Seq<char>) -> Option<ProxyAuthMethod> {
    proxy_auth_method_word(spec_keyword(val))
}

pub fn parse_proxy_auth_method(val: &[char]) -> (r: Option<ProxyAuthMethod>)
    ensures
        r == spec_parse_proxy_auth_method(val@),
{
    let w = keyword_of(val);
    proxy_auth_method_from_word(w.as_slice())
}

pub open spec fn multilib_policy_word(w: Seq<char>) -> Option<MultilibPolicy> {
    if w == "best"@ {
        Some(MultilibPolicy::Best)
    } else if w == "all"@ {
        Some(MultilibPolicy::All)
    } else {
        None
    }
}

/// The multilib policy named by a lower-cased word.
pub fn multilib_policy_from_word(w: &[char]) -> (r: Option<MultilibPolicy>)
    ensures
        r == multilib_policy_word(w@),
{
    if chars_eq_str(w, "best") {
        Some(MultilibPolicy::Best)
    } else if chars_eq_str(w, "all") {
        Some(MultilibPolicy::All)
    } else {
        None
    }
}

pub open spec fn spec_parse_multilib_policy(val: Seq<char>) -> Option<MultilibPolicy> {
    multilib_policy_word(spec_keyword(val))
}

pub fn parse_multilib_policy(val: &[char]) -> (r: Option<MultilibPolicy>)
    ensures
        r == spec_parse_multilib_policy(val@),
{
    let w = keyword_of(val);
    multilib_policy_from_word(w.as_slice())
}

pub open spec fn persistence_word(w: Seq<char>) -> Option<Persistence> {
    if w == "auto"@ {
        Some(Persistence::Auto)
    } else if w == "transient"@ {
        Some(Persistence::Transient)
    } else if w == "persist"@ {
        Some(Persistence::Persist)
    } else {
        None
    }
}

/// The persistence mode named by a lower-cased word.
pub fn persistence_from_word(w: &[char]) -> (r: Option<Persistence>)
    ensures
        r == persistence_word(w@),
{
    if chars_eq_str(w, "auto") {
        Some(Persistence::Auto)
    } else if chars_eq_str(w, "transient") {
        Some(Persistence::Transient)
    } else if chars_eq_str(w, "persist") {
        Some(Persistence::Persist)
    } else {
        None
    }
}

pub open spec fn spec_parse_persistence(val: Seq<char>) -> Option<Persistence> {
    persistence_word(spec_keyword(val))
}

pub fn parse_persistence(val: &[char]) -> (r: Option<Persistence>)
    ensures
        r == spec_parse_persistence(val@),
{
    let w = keyword_of(val);
    persistence_from_word(w.as_slice())
}

pub open spec fn rpm_verbosity_word(w: Seq<char>) -> Option<RpmVerbosity> {
    if w == "critical"@ {
        Some(RpmVerbosity::Critical)
    } else if w == "emergency"@ {
        Some(RpmVerbosity::Emergency)
    } else if w == "error"@ {
        Some(RpmVerbosity::Error)
    } else if w == "warn"@ {
        Some(RpmVerbosity::Warn)
    } else if w == "info"@ {
        Some(RpmVerbosity::Info)
    } else if w == "debug"@ {
        Some(RpmVerbosity::Debug)
    } else {
        None
    }
}

/// The RPM verbosity named by a lower-cased word.
pub fn rpm_verbosity_from_word(w: &[char]) -> (r: Option<RpmVerbosity>)
    ensures
        r == rpm_verbosity_word(w@),
{
    if chars_eq_str(w, "critical") {
        Some(RpmVerbosity::Critical)
    } else if chars_eq_str(w, "emergency") {
        Some(RpmVerbosity::Emergency)
    } else if chars_eq_str(w, "error") {
        Some(RpmVerbosity::Error)
    } else if chars_eq_str(w, "warn") {
        Some(RpmVerbosity::Warn)
    } else if chars_eq_str(w, "info") {
        Some(RpmVerbosity::Info)
    } else if chars_eq_str(w, "debug") {
        Some(RpmVerbosity::Debug)
    } else {
        None
    }
}

pub open spec fn spec_parse_rpmverbosity(val: Seq<char>) -> Option<RpmVerbosity> {
    rpm_verbosity_word(spec_keyword(val))
}

pub fn parse_rpmverbosity(val: &[char]) -> (r: Option<RpmVerbosity>)
    ensures
        r == spec_parse_rpmverbosity(val@),
{
    let w = keyword_of(val);
    rpm_verbosity_from_word(w.as_slice())
}

pub open spec fn repo_type_word(w: Seq<char>) -> Option<RepoMetadataType> {
    if w == "rpm-md"@ || w == "rpm"@ {
        Some(RepoMetadataType::RpmMd)
    } else {
        None
    }
}

/// The repository metadata type named by a lower-cased word.
pub fn repo_type_from_word(w: &[char]) -> (r: Option<RepoMetadataType>)
    ensures
        r == repo_type_word(w@),
{
    if chars_eq_str(w, "rpm-md") || chars_eq_str(w, "rpm") {
        Some(RepoMetadataType::RpmMd)
    } else {
        None
    }
}

pub open spec fn spec_parse_repo_type(val: Seq<char>) -> Option<RepoMetadataType> {
    repo_type_word(spec_keyword(val))
}

pub fn parse_repo_type(val: &[char]) -> (r: Option<RepoMetadataType>)
    ensures
        r == spec_parse_repo_type(val@),
{
    let w = keyword_of(val);
    repo_type_from_word(w.as_slice())
}

// ============================================================================
// Transaction flags
// ============================================================================

pub open spec fn tsflag_word(w: Seq<char>) -> Option<TsFlag> {
    if w == "notriggers"@ || w == "notrigger"@ {
        Some(TsFlag::NoTriggers)
    } else if w == "noscripts"@ || w == "noscript"@ {
        Some(TsFlag::NoScripts)
    } else if w == "test"@ {
        Some(TsFlag::Test)
    } else if w == "nodocs"@ || w == "nodoc"@ {
        Some(TsFlag::NoDocs)
    } else if w == "justdb"@ {
        Some(TsFlag::JustDb)
    } else if w == "nocontexts"@ {
        Some(TsFlag::NoContexts)
    } else if w == "nocaps"@ {
        Some(TsFlag::NoCaps)
    } else if w == "nocrypto"@ {
        Some(TsFlag::NoCrypto)
    } else if w == "deploops"@ {
        Some(TsFlag::Deploops)
    } else if w == "noplugins"@ {
        Some(TsFlag::NoPlugins)
    } else {
        None
    }
}

/// The transaction flag named by a lower-cased word.
pub fn tsflag_from_word(w: &[char]) -> (r: Option<TsFlag>)
    ensures
        r == tsflag_word(w@),
{
    if chars_eq_str(w, "notriggers") || chars_eq_str(w, "notrigger") {
        Some(TsFlag::NoTriggers)
    } else if chars_eq_str(w, "noscripts") || chars_eq_str(w, "noscript") {
        Some(TsFlag::NoScripts)
    } else if chars_eq_str(w, "test") {
        Some(TsFlag::Test)
    } else if chars_eq_str(w, "nodocs") || chars_eq_str(w, "nodoc") {
        Some(TsFlag::NoDocs)
    } else if chars_eq_str(w, "justdb") {
        Some(TsFlag::JustDb)
    } else if chars_eq_str(w, "nocontexts") {
        Some(TsFlag::NoContexts)
    } else if chars_eq_str(w, "nocaps") {
        Some(TsFlag::NoCaps)
    } else if chars_eq_str(w, "nocrypto") {
        Some(TsFlag::NoCrypto)
    } else if chars_eq_str(w, "deploops") {
        Some(TsFlag::Deploops)
    } else if chars_eq_str(w, "noplugins") {
        Some(TsFlag::NoPlugins)
    } else {
        None
    }
}

/// Separators between transaction flags: commas and whitespace.
pub open spec fn is_flag_separator(c: char) -> bool {
    c == ',' || spec_is_whitespace(c)
}

/// The pieces of `s` from `start` on, split at separators (scanning from `i`,
/// with no separator in `s[start..i]`); like `str::split`, empty pieces are kept.
pub open spec fn split_words_from(s: Seq<char>, start: int, i: int) -> Seq<Seq<char>>
    decreases s.len() - i,
{
    if i >= s.len() || i < 0 {
        seq![s.subrange(start, s.len() as int)]
    } else if is_flag_separator(s[i]) {
        seq![s.subrange(start, i)] + split_words_from(s, i + 1, i + 1)
    } else {
        split_words_from(s, start, i + 1)
    }
}

/// The pieces of `s` between separators.
pub open spec fn split_flag_words(s: Seq<char>) -> Seq<Seq<char>> {
    split_words_from(s, 0, 0)
}

/// The flags named by a list of pieces, in order; unknown pieces are skipped.
pub open spec fn flags_of_words(ws: Seq<Seq<char>>) -> Seq<TsFlag>
    decreases ws.len(),
{
    if ws.len() == 0 {
        seq![]
    } else {
        let prev = flags_of_words(ws.drop_last());
        match tsflag_word(spec_keyword(ws.last())) {
            Some(f) => prev.push(f),
            None => prev,
        }
    }
}

pub open spec fn spec_parse_tsflags(val: Seq<char>) -> Seq<TsFlag> {
    flags_of_words(split_flag_words(val))
}

/// Read a list of transaction flags separated by commas or whitespace.
pub fn parse_tsflags(val: &[char]) -> (r: Vec<TsFlag>)
    ensures
        r@ == spec_parse_tsflags(val@),
{
    let mut out: Vec<TsFlag> = Vec::new();
    let ghost mut done: Seq<Seq<char>> = seq![];
    let mut start: usize = 0;
    let mut i: usize = 0;
    while i < val.len()
        invariant
            start <= i <= val@.len(),
            split_flag_words(val@) == done + split_words_from(val@, start as int, i as int),
            out@ == flags_of_words(done),
        decreases val@.len() - i,
    {
        let c = val[i];
        if c == ',' || is_whitespace_char(c) {
            let piece = slice_to_vec(val, start, i);
            let w = keyword_of(piece.as_slice());
            proof {
                let d2 = done.push(piece@);
                assert(d2.drop_last() =~= done);
                assert(split_words_from(val@, start as int, i as int) == seq![piece@]
                    + split_words_from(val@, i + 1, i + 1));
                assert(done + split_words_from(val@, start as int, i as int) =~= d2
                    + split_words_from(val@, i + 1, i + 1));
                done = d2;
            }
            match tsflag_from_word(w.as_slice()) {
                Some(f) => out.push(f),
                None => {},
            }
            start = i + 1;
        }
        i = i + 1;
    }
    let piece = slice_to_vec(val, start, val.len());
    let w = keyword_of(piece.as_slice());
    proof {
        let d2 = done.push(piece@);
        assert(d2.drop_last() =~= done);
        assert(split_words_from(val@, start as int, i as int) == seq![piece@]);
        assert(done + split_words_from(val@, start as int, i as int) =~= d2);
        done = d2;
    }
    match tsflag_from_word(w.as_slice()) {
        Some(f) => out.push(f),
        None => {},
    }
    out
}

// ============================================================================
// Numbers, sizes and durations
// ============================================================================

/// An integer option value: the trimmed text read as an `i32`.
pub open spec fn spec_trimmed_i32(val: Seq<char>) -> Option<int> {
    spec_parse_signed(spec_trim(val), i32::MIN as int, i32::MAX as int)
}

/// An unsigned option value: the trimmed text read as an integer up to `max`.
pub open spec fn spec_trimmed_unsigned(val: Seq<char>, max: int) -> Option<int> {
    spec_parse_unsigned(spec_trim(val), max)
}

fn parse_trimmed_i32(val: &[char]) -> (r: Option<i32>)
    ensures
        r is Some <==> spec_trimmed_i32(val@) is Some,
        r matches Some(n) ==> n == spec_trimmed_i32(val@)->0,
{
    let t = trim_vec(val);
    match parse_signed(t.as_slice(), i32::MIN as i64, i32::MAX as i64) {
        Some(n) => Some(n as i32),
        None => None,
    }
}

fn parse_trimmed_unsigned(val: &[char], max: u64) -> (r: Option<u64>)
    ensures
        r is Some <==> spec_trimmed_unsigned(val@, max as int) is Some,
        r matches Some(n) ==> n == spec_trimmed_unsigned(val@, max as int)->0 && n <= max,
{
    let t = trim_vec(val);
    parse_unsigned(t.as_slice(), max)
}

pub open spec fn spec_parse_priority(val: Seq<char>) -> Option<i32> {
    match spec_trimmed_i32(val) {
        Some(n) => if Priority::accepts(n as i32) {
            Some(n as i32)
        } else {
            None
        },
        None => None,
    }
}

pub fn parse_priority(val: &[char]) -> (r: Option<Priority>)
    ensures
        r is Some <==> spec_parse_priority(val@) is Some,
        r matches Some(p) ==> p@ == spec_parse_priority(val@)->0,
{
    match parse_trimmed_i32(val) {
        Some(n) => match Priority::try_new(n) {
            Ok(p) => Some(p),
            Err(_) => None,
        },
        None => None,
    }
}

pub open spec fn spec_parse_cost(val: Seq<char>) -> Option<i32> {
    match spec_trimmed_i32(val) {
        Some(n) => if Cost::accepts(n as i32) {
            Some(n as i32)
        } else {
            None
        },
        None => None,
    }
}

pub fn parse_cost(val: &[char]) -> (r: Option<Cost>)
    ensures
        r is Some <==> spec_parse_cost(val@) is Some,
        r matches Some(p) ==> p@ == spec_parse_cost(val@)->0,
{
    match parse_trimmed_i32(val) {
        Some(n) => match Cost::try_new(n) {
            Ok(p) => Some(p),
            Err(_) => None,
        },
        None => None,
    }
}

/// A `u32` option value accepted by a validity predicate.
pub open spec fn spec_parse_u32_with(val: Seq<char>, ok: spec_fn(u32) -> bool) -> Option<u32> {
    match spec_trimmed_unsigned(val, u32::MAX as int) {
        Some(n) => if ok(n as u32) {
            Some(n as u32)
        } else {
            None
        },
        None => None,
    }
}

/// A `u8` option value accepted by a validity predicate.
pub open spec fn spec_parse_u8_with(val: Seq<char>, ok: spec_fn(u8) -> bool) -> Option<u8> {
    match spec_trimmed_unsigned(val, u8::MAX as int) {
        Some(n) => if ok(n as u8) {
            Some(n as u8)
        } else {
            None
        },
        None => None,
    }
}

pub fn parse_retries(val: &[char]) -> (r: Option<Retries>)
    ensures
        r is Some <==> spec_parse_u32_with(val@, |v: u32| Retries::accepts(v)) is Some,
        r matches Some(p) ==> p@ == spec_parse_u32_with(val@, |v: u32| Retries::accepts(v))->0,
{
    match parse_trimmed_unsigned(val, u32::MAX as u64) {
        Some(n) => match Retries::try_new(n as u32) {
            Ok(p) => Some(p),
            Err(_) => None,
        },
        None => None,
    }
}

pub fn parse_timeout(val: &[char]) -> (r: Option<TimeoutSeconds>)
    ensures
        r is Some <==> spec_parse_u32_with(val@, |v: u32| TimeoutSeconds::accepts(v)) is Some,
        r matches Some(p) ==> p@ == spec_parse_u32_with(
            val@,
            |v: u32| TimeoutSeconds::accepts(v),
        )->0,
{
    match parse_trimmed_unsigned(val, u32::MAX as u64) {
        Some(n) => match TimeoutSeconds::try_new(n as u32) {
            Ok(p) => Some(p),
            Err(_) => None,
        },
        None => None,
    }
}

pub fn parse_deltarpm_percentage(val: &[char]) -> (r: Option<DeltaRpmPercentage>)
    ensures
        r is Some <==> spec_parse_u32_with(val@, |v: u32| DeltaRpmPercentage::accepts(v)) is Some,
        r matches Some(p) ==> p@ == spec_parse_u32_with(
            val@,
            |v: u32| DeltaRpmPercentage::accepts(v),
        )->0,
{
    match parse_trimmed_unsigned(val, u32::MAX as u64) {
        Some(n) => match DeltaRpmPercentage::try_new(n as u32) {
            Ok(p) => Some(p),
            Err(_) => None,
        },
        None => None,
    }
}

pub fn parse_max_parallel_downloads(val: &[char]) -> (r: Option<MaxParallelDownloads>)
    ensures
        r is Some <==> spec_parse_u32_with(val@, |v: u32| MaxParallelDownloads::accepts(v)) is Some,
        r matches Some(p) ==> p@ == spec_parse_u32_with(
            val@,
            |v: u32| MaxParallelDownloads::accepts(v),
        )->0,
{
    match parse_trimmed_unsigned(val, u32::MAX as u64) {
        Some(n) => match MaxParallelDownloads::try_new(n as u32) {
            Ok(p) => Some(p),
            Err(_) => None,
        },
        None => None,
    }
}

pub fn parse_install_only_limit(val: &[char]) -> (r: Option<InstallOnlyLimit>)
    ensures
        r is Some <==> spec_parse_u32_with(val@, |v: u32| InstallOnlyLimit::accepts(v)) is Some,
        r matches Some(p) ==> p@ == spec_parse_u32_with(
            val@,
            |v: u32| InstallOnlyLimit::accepts(v),
        )->0,
{
    match parse_trimmed_unsigned(val, u32::MAX as u64) {
        Some(n) => match InstallOnlyLimit::try_new(n as u32) {
            Ok(p) => Some(p),
            Err(_) => None,
        },
        None => None,
    }
}

pub fn parse_log_rotate(val: &[char]) -> (r: Option<LogRotate>)
    ensures
        r is Some <==> spec_parse_u32_with(val@, |v: u32| LogRotate::accepts(v)) is Some,
        r matches Some(p) ==> p@ == spec_parse_u32_with(val@, |v: u32| LogRotate::accepts(v))->0,
{
    match parse_trimmed_unsigned(val, u32::MAX as u64) {
        Some(n) => match LogRotate::try_new(n as u32) {
            Ok(p) => Some(p),
            Err(_) => None,
        },
        None => None,
    }
}

pub fn parse_metadata_timer_sync(val: &[char]) -> (r: Option<MetadataTimerSync>)
    ensures
        r is Some <==> spec_parse_u32_with(val@, |v: u32| MetadataTimerSync::accepts(v)) is Some,
        r matches Some(p) ==> p@ == spec_parse_u32_with(
            val@,
            |v: u32| MetadataTimerSync::accepts(v),
        )->0,
{
    match parse_trimmed_unsigned(val, u32::MAX as u64) {
        Some(n) => match MetadataTimerSync::try_new(n as u32) {
            Ok(p) => Some(p),
            Err(_) => None,
        },
        None => None,
    }
}

pub fn parse_debug_level(val: &[char]) -> (r: Option<DebugLevel>)
    ensures
        r is Some <==> spec_parse_u8_with(val@, |v: u8| DebugLevel::accepts(v)) is Some,
        r matches Some(p) ==> p@ == spec_parse_u8_with(val@, |v: u8| DebugLevel::accepts(v))->0,
{
    match parse_trimmed_unsigned(val, u8::MAX as u64) {
        Some(n) => match DebugLevel::try_new(n as u8) {
            Ok(p) => Some(p),
            Err(_) => None,
        },
        None => None,
    }
}

pub fn parse_log_level(val: &[char]) -> (r: Option<LogLevel>)
    ensures
        r is Some <==> spec_parse_u8_with(val@, |v: u8| LogLevel::accepts(v)) is Some,
        r matches Some(p) ==> p@ == spec_parse_u8_with(val@, |v: u8| LogLevel::accepts(v))->0,
{
    match parse_trimmed_unsigned(val, u8::MAX as u64) {
        Some(n) => match LogLevel::try_new(n as u8) {
            Ok(p) => Some(p),
            Err(_) => None,
        },
        None => None,
    }
}

pub fn parse_error_level(val: &[char]) -> (r: Option<ErrorLevel>)
    ensures
        r is Some <==> spec_parse_u8_with(val@, |v: u8| ErrorLevel::accepts(v)) is Some,
        r matches Some(p) ==> p@ == spec_parse_u8_with(val@, |v: u8| ErrorLevel::accepts(v))->0,
{
    match parse_trimmed_unsigned(val, u8::MAX as u64) {
        Some(n) => match ErrorLevel::try_new(n as u8) {
            Ok(p) => Some(p),
            Err(_) => None,
        },
        None => None,
    }
}

/// The byte count written by a storage size: a number with an optional
/// `k`/`K` (KiB), `M` (MiB) or `G` (GiB) suffix; `None` when it overflows `u64`.
pub open spec fn spec_parse_storage_size(val: Seq<char>) -> Option<StorageSize> {
    let t = spec_trim(val);
    if t.len() == 0 {
        None
    } else {
        let last = t.last();
        let num = if last == 'k' || last == 'K' || last == 'M' || last == 'G' {
            t.drop_last()
        } else {
            t
        };
        let mult: int = if last == 'k' || last == 'K' {
            1024
        } else if last == 'M' {
            1048576
        } else if last == 'G' {
            1073741824
        } else {
            1
        };
        match spec_parse_unsigned(spec_trim(num), u64::MAX as int) {
            Some(n) => if n * mult <= u64::MAX {
                Some(StorageSize((n * mult) as u64))
            } else {
                None
            },
            None => None,
        }
    }
}

pub fn parse_storage_size(val: &[char]) -> (r: Option<StorageSize>)
    ensures
        r == spec_parse_storage_size(val@),
{
    let t = trim_vec(val);
    if t.len() == 0 {
        return None;
    }
    let last = t[t.len() - 1];
    let (num, mult): (Vec<char>, u64) = if last == 'k' || last == 'K' {
        (slice_to_vec(t.as_slice(), 0, t.len() - 1), 1024)
    } else if last == 'M' {
        (slice_to_vec(t.as_slice(), 0, t.len() - 1), 1048576)
    } else if last == 'G' {
        (slice_to_vec(t.as_slice(), 0, t.len() - 1), 1073741824)
    } else {
        (slice_to_vec(t.as_slice(), 0, t.len()), 1)
    };
    proof {
        assert(t@.subrange(0, t@.len() - 1) =~= t@.drop_last());
        assert(t@.subrange(0, t@.len() as int) =~= t@);
    }
    let nt = trim_vec(num.as_slice());
    match parse_unsigned(nt.as_slice(), u64::MAX) {
        Some(n) => match n.checked_mul(mult) {
            Some(b) => Some(StorageSize(b)),
            None => None,
        },
        None => None,
    }
}

pub open spec fn spec_parse_metadata_expire(val: Seq<char>) -> Option<MetadataExpire> {
    let t = spec_trim(val);
    if spec_ascii_lowercase(t) == "never"@ || t == "-1"@ {
        Some(MetadataExpire::Never)
    } else {
        match spec_parse_unsigned(t, u64::MAX as int) {
            Some(n) => Some(MetadataExpire::Duration(n as u64)),
            None => None,
        }
    }
}

/// ASCII case-insensitive comparison with a lower-case word.
fn eq_ignore_ascii_case(s: &[char], lower_word: &str) -> (r: bool)
    ensures
        r == (spec_ascii_lowercase(s@) == lower_word@),
{
    let mut l: Vec<char> = Vec::new();
    let mut i: usize = 0;
    while i < s.len()
        invariant
            i <= s@.len(),
            l@ == spec_ascii_lowercase(s@.subrange(0, i as int)),
        decreases s@.len() - i,
    {
        l.push(ascii_lower(s[i]));
        assert(spec_ascii_lowercase(s@.subrange(0, i + 1)) =~= spec_ascii_lowercase(
            s@.subrange(0, i as int),
        ).push(spec_ascii_lower(s@[i as int])));
        i = i + 1;
    }
    assert(s@.subrange(0, s@.len() as int) =~= s@);
    chars_eq_str(l.as_slice(), lower_word)
}

pub fn parse_metadata_expire(val: &[char]) -> (r: Option<MetadataExpire>)
    ensures
        r == spec_parse_metadata_expire(val@),
{
    let t = trim_vec(val);
    if eq_ignore_ascii_case(t.as_slice(), "never") || chars_eq_str(t.as_slice(), "-1") {
        return Some(MetadataExpire::Never);
    }
    match parse_unsigned(t.as_slice(), u64::MAX) {
        Some(n) => Some(MetadataExpire::Duration(n)),
        None => None,
    }
}

pub open spec fn spec_parse_throttle(val: Seq<char>) -> Option<Throttle> {
    let t = spec_trim(val);
    if t.len() == 0 {
        None
    } else {
        let pct = if t.last() == '%' {
            match spec_parse_unsigned(spec_trim(t.drop_last()), u8::MAX as int) {
                Some(p) => if p <= 100 {
                    Some(p as u8)
                } else {
                    None
                },
                None => None,
            }
        } else {
            None
        };
        match pct {
            Some(p) => Some(Throttle::Percent(p)),
            None => match spec_parse_storage_size(t) {
                Some(s) => Some(Throttle::Absolute(s)),
                None => None,
            },
        }
    }
}

pub fn parse_throttle(val: &[char]) -> (r: Option<Throttle>)
    ensures
        r == spec_parse_throttle(val@),
{
    let t = trim_vec(val);
    if t.len() == 0 {
        return None;
    }
    if t[t.len() - 1] == '%' {
        let p = slice_to_vec(t.as_slice(), 0, t.len() - 1);
        assert(p@ =~= t@.drop_last());
        let pt = trim_vec(p.as_slice());
        match parse_unsigned(pt.as_slice(), u8::MAX as u64) {
            Some(n) => {
                if n <= 100 {
                    return Some(Throttle::Percent(n as u8));
                }
            },
            None => {},
        }
    }
    match parse_storage_size(t.as_slice()) {
        Some(s) => Some(Throttle::Absolute(s)),
        None => None,
    }
}

// ============================================================================
// Proxies
// ============================================================================

pub open spec fn spec_parse_proxy(val: Seq<char>) -> ProxyView {
    let t = spec_trim(val);
    if t.len() == 0 || spec_ascii_lowercase(t) == "_none_"@ {
        ProxyView::Disabled
    } else {
        match url_serialization(t) {
            Some(u) => ProxyView::Url(u),
            None => ProxyView::Raw(t),
        }
    }
}

/// Read a proxy value: empty or `_none_` disables the proxy, a URL sets
/// it, anything else is kept verbatim (trimmed).
pub fn parse_proxy(val: &[char]) -> (r: ProxySetting)
    ensures
        r@ == spec_parse_proxy(val@),
{
    let t = trim_vec(val);
    if t.len() == 0 || eq_ignore_ascii_case(t.as_slice(), "_none_") {
        return ProxySetting::Disabled;
    }
    let ts = string_of(t.as_slice());
    match Url::parse(ts.as_str()) {
        Some(u) => ProxySetting::Url(u),
        None => ProxySetting::Raw(ts),
    }
}

} // verus!
