//! Value types of `.repo` options: validated identifiers and numbers,
//! DNF booleans, enumerations, storage sizes and URLs.

use crate::error::ParseBoolError;
use crate::text::{
    ascii_lower, chars_eq_str, chars_of, copy_string, decimal_text, int_text, owned,
    spec_ascii_lower, spec_ascii_lowercase, spec_decimal, spec_int_text, spec_trim, string_of,
    trim_vec,
};
use vstd::prelude::*;

verus! {

/// The view of an optional value.
pub open spec fn opt_view<T: View>(o: Option<T>) -> Option<T::V> {
    match o {
        Some(x) => Some(x@),
        None => None,
    }
}

// ============================================================================
// URLs
// ============================================================================

/// What the `url` crate's `Url::parse` makes of a text: `None` when it is not
/// a valid absolute URL, otherwise the normalized serialization (`Url::as_str`).
pub uninterp spec fn url_serialization(input: Seq<char>) -> Option<Seq<char>>;

/// `url::Url::parse` followed by `Url::as_str`: the normalized text of the
/// URL, or `None` when the input does not parse.
#[verifier::external_body]
fn parse_url_text(input: &str) -> (r: Option<String>)
    ensures
        r is Some <==> url_serialization(input@) is Some,
        r matches Some(t) ==> t@ == url_serialization(input@)->0,
{
    match url::Url::parse(input) {
        Ok(u) => Some(u.as_str().to_string()),
        Err(_) => None,
    }
}

/// An absolute URL, held as the normalized text that the `url` crate
/// produces for it.
#[derive(Debug, Clone, PartialEq, Eq, Hash)]
pub struct Url {
    serialization: String,
}

impl View for Url {
    type V = Seq<char>;

    closed spec fn view(&self) -> Seq<char> {
        self.serialization@
    }
}

impl Url {
    /// Parse an absolute URL; `None` when the text is not one.
    pub fn parse(input: &str) -> (r: Option<Url>)
        ensures
            r is Some <==> url_serialization(input@) is Some,
            r matches Some(u) ==> u@ == url_serialization(input@)->0,
    {
        match parse_url_text(input) {
            Some(t) => Some(Url { serialization: t }),
            None => None,
        }
    }

    /// The normalized text of the URL.
    pub fn as_str(&self) -> (r: &str)
        ensures
            r@ == self@,
    {
        self.serialization.as_str()
    }

    /// A copy of this URL.
    pub fn duplicate(&self) -> (r: Url)
        ensures
            r@ == self@,
    {
        Url { serialization: copy_string(&self.serialization) }
    }
}

/// The text given to [`Url`]'s `from_str` is not an absolute URL.
#[derive(Debug, Clone, Copy, PartialEq, Eq)]
pub struct UrlParseError;

impl std::str::FromStr for Url {
    type Err = UrlParseError;

    fn from_str(s: &str) -> (r: Result<Url, UrlParseError>)
        ensures
            r is Ok <==> url_serialization(s@) is Some,
            r matches Ok(u) ==> u@ == url_serialization(s@)->0,
    {
        match Url::parse(s) {
            Some(u) => Ok(u),
            None => Err(UrlParseError),
        }
    }
}

/// Copy a list of URLs.
pub fn copy_urls(v: &Vec<Url>) -> (r: Vec<Url>)
    ensures
        urls_view(r@) == urls_view(v@),
{
    let mut r: Vec<Url> = Vec::new();
    let mut i: usize = 0;
    while i < v.len()
        invariant
            i <= v@.len(),
            r@.len() == i,
            forall|k: int| 0 <= k < i ==> #[trigger] r@[k]@ == v@[k]@,
        decreases v@.len() - i,
    {
        r.push(v[i].duplicate());
        i = i + 1;
    }
    assert(urls_view(r@) =~= urls_view(v@));
    r
}

/// The texts of a list of URLs.
pub open spec fn urls_view(v: Seq<Url>) -> Seq<Seq<char>> {
    v.map_values(|u: Url| u@)
}

pub open spec fn opt_url_view(u: Option<Url>) -> Option<Seq<char>> {
    match u {
        Some(x) => Some(x@),
        None => None,
    }
}

pub fn copy_opt_url(u: &Option<Url>) -> (r: Option<Url>)
    ensures
        opt_url_view(r) == opt_url_view(*u),
{
    match u {
        Some(x) => Some(x.duplicate()),
        None => None,
    }
}

// ============================================================================
// File-system paths
// ============================================================================

/// The `camino::Utf8PathBuf` that `Utf8PathBuf::from` makes of a text.
pub uninterp spec fn utf8_path_of(text: Seq<char>) -> camino::Utf8PathBuf;

/// `camino::Utf8PathBuf`, carried through unchanged by the library.
#[verifier::external_type_specification]
#[verifier::external_body]
pub struct ExUtf8PathBuf(camino::Utf8PathBuf);

/// `Utf8PathBuf::from(&str)`: the path named by the text.
#[verifier::external_body]
pub(crate) fn path_from(s: &str) -> (p: camino::Utf8PathBuf)
    ensures
        p == utf8_path_of(s@),
{
    camino::Utf8PathBuf::from(s)
}

/// `Clone::clone` on a `Utf8PathBuf`: an equal path.
#[verifier::external_body]
pub(crate) fn clone_path(p: &camino::Utf8PathBuf) -> (r: camino::Utf8PathBuf)
    ensures
        r == *p,
{
    p.clone()
}

// ============================================================================
// Identifiers
// ============================================================================

/// Characters allowed in a repository ID: `[A-Za-z0-9-_.:]`.
pub open spec fn is_repo_id_char(c: char) -> bool {
    ||| ('A' <= c && c <= 'Z')
    ||| ('a' <= c && c <= 'z')
    ||| ('0' <= c && c <= '9')
    ||| c == '-'
    ||| c == '_'
    ||| c == '.'
    ||| c == ':'
}

/// A non-empty text made only of repository-ID characters.
pub open spec fn is_valid_repo_id(s: Seq<char>) -> bool {
    s.len() > 0 && forall|i: int| 0 <= i < s.len() ==> is_repo_id_char(#[trigger] s[i])
}

fn repo_id_chars_ok(s: &[char]) -> (r: bool)
    ensures
        r == (forall|i: int| 0 <= i < s@.len() ==> is_repo_id_char(#[trigger] s@[i])),
{
    let mut i: usize = 0;
    while i < s.len()
        invariant
            i <= s@.len(),
            forall|k: int| 0 <= k < i ==> is_repo_id_char(#[trigger] s@[k]),
        decreases s@.len() - i,
    {
        let c = s[i];
        let ok = ('A' <= c && c <= 'Z') || ('a' <= c && c <= 'z') || ('0' <= c && c <= '9') || c
            == '-' || c == '_' || c == '.' || c == ':';
        if !ok {
            return false;
        }
        i = i + 1;
    }
    true
}

/// The trimmed text of `s`.
pub fn trimmed_string(s: &str) -> (r: String)
    ensures
        r@ == spec_trim(s@),
{
    let v = chars_of(s);
    let t = trim_vec(v.as_slice());
    string_of(t.as_slice())
}

/// Repository identifier: trimmed, non-empty, made of `[A-Za-z0-9-_.:]`.
#[derive(Debug, PartialEq, Eq, Hash, PartialOrd, Ord)]
pub struct RepoId {
    value: String,
}

/// Why a text is not a repository ID.
#[derive(Debug, Clone, Copy, PartialEq, Eq)]
pub enum RepoIdError {
    NotEmptyViolated,
    RegexViolated,
}

impl View for RepoId {
    type V = Seq<char>;

    closed spec fn view(&self) -> Seq<char> {
        self.value@
    }
}

impl RepoId {
    #[verifier::type_invariant]
    spec fn well_formed(self) -> bool {
        is_valid_repo_id(self.value@)
    }

    /// Trim the text, then require it to be a non-empty repository ID.
    pub fn try_new(s: &str) -> (r: std::result::Result<RepoId, RepoIdError>)
        ensures
            match r {
                Ok(id) => id@ == spec_trim(s@) && is_valid_repo_id(id@),
                Err(RepoIdError::NotEmptyViolated) => spec_trim(s@).len() == 0,
                Err(RepoIdError::RegexViolated) => spec_trim(s@).len() > 0 && !is_valid_repo_id(
                    spec_trim(s@),
                ),
            },
    {
        let v = chars_of(s);
        let t = trim_vec(v.as_slice());
        if t.len() == 0 {
            return Err(RepoIdError::NotEmptyViolated);
        }
        if !repo_id_chars_ok(t.as_slice()) {
            return Err(RepoIdError::RegexViolated);
        }
        Ok(RepoId { value: string_of(t.as_slice()) })
    }

    /// The identifier text, owned.
    pub fn to_string(&self) -> (r: String)
        ensures
            r@ == self@,
    {
        copy_string(&self.value)
    }

    /// The identifier text (always a valid repository ID).
    pub fn as_ref(&self) -> (r: &str)
        ensures
            r@ == self@,
            is_valid_repo_id(self@),
    {
        proof {
            use_type_invariant(self);
        }
        self.value.as_str()
    }

    /// The identifier text, by value.
    pub fn into_inner(self) -> (r: String)
        ensures
            r@ == self@,
    {
        self.value
    }

}

impl Clone for RepoId {
    fn clone(&self) -> (r: RepoId)
        ensures
            r@ == self@,
    {
        proof {
            use_type_invariant(self);
        }
        RepoId { value: copy_string(&self.value) }
    }
}

/// Human-readable repository name: trimmed and non-empty.
#[derive(Debug, PartialEq, Eq)]
pub struct RepoName {
    value: String,
}

/// Why a text is not a repository name.
#[derive(Debug, Clone, Copy, PartialEq, Eq)]
pub enum RepoNameError {
    NotEmptyViolated,
}

impl View for RepoName {
    type V = Seq<char>;

    closed spec fn view(&self) -> Seq<char> {
        self.value@
    }
}

impl RepoName {
    #[verifier::type_invariant]
    spec fn well_formed(self) -> bool {
        self.value@.len() > 0
    }

    /// Trim the text, then require it to be non-empty.
    pub fn try_new(s: &str) -> (r: std::result::Result<RepoName, RepoNameError>)
        ensures
            match r {
                Ok(n) => n@ == spec_trim(s@) && n@.len() > 0,
                Err(_) => spec_trim(s@).len() == 0,
            },
    {
        let t = trimmed_string(s);
        if t.as_str().unicode_len() == 0 {
            return Err(RepoNameError::NotEmptyViolated);
        }
        Ok(RepoName { value: t })
    }

    pub fn as_ref(&self) -> (r: &str)
        ensures
            r@ == self@,
    {
        self.value.as_str()
    }

    pub fn into_inner(self) -> (r: String)
        ensures
            r@ == self@,
    {
        self.value
    }

}

impl Clone for RepoName {
    fn clone(&self) -> (r: RepoName)
        ensures
            r@ == self@,
    {
        proof {
            use_type_invariant(self);
        }
        RepoName { value: copy_string(&self.value) }
    }
}

/// Repository user name (trimmed).
#[derive(Debug, PartialEq, Eq)]
pub struct Username {
    value: String,
}

impl Clone for Username {
    fn clone(&self) -> (r: Username)
        ensures
            r@ == self@,
    {
        Username { value: copy_string(&self.value) }
    }
}

impl View for Username {
    type V = Seq<char>;

    closed spec fn view(&self) -> Seq<char> {
        self.value@
    }
}

impl Username {
    pub fn new(s: &str) -> (r: Username)
        ensures
            r@ == spec_trim(s@),
    {
        Username { value: trimmed_string(s) }
    }

    pub fn as_ref(&self) -> (r: &str)
        ensures
            r@ == self@,
    {
        self.value.as_str()
    }

    pub fn into_inner(self) -> (r: String)
        ensures
            r@ == self@,
    {
        self.value
    }
}

/// Repository password (kept verbatim).
#[derive(Debug, PartialEq, Eq)]
pub struct Password {
    value: String,
}

impl Clone for Password {
    fn clone(&self) -> (r: Password)
        ensures
            r@ == self@,
    {
        Password { value: copy_string(&self.value) }
    }
}

impl View for Password {
    type V = Seq<char>;

    closed spec fn view(&self) -> Seq<char> {
        self.value@
    }
}

impl Password {
    pub fn new(s: &str) -> (r: Password)
        ensures
            r@ == s@,
    {
        Password { value: owned(s) }
    }

    pub fn as_ref(&self) -> (r: &str)
        ensures
            r@ == self@,
    {
        self.value.as_str()
    }

    pub fn into_inner(self) -> (r: String)
        ensures
            r@ == self@,
    {
        self.value
    }
}

/// Proxy user name (trimmed).
#[derive(Debug, PartialEq, Eq)]
pub struct ProxyUsername {
    value: String,
}

impl Clone for ProxyUsername {
    fn clone(&self) -> (r: ProxyUsername)
        ensures
            r@ == self@,
    {
        ProxyUsername { value: copy_string(&self.value) }
    }
}

impl View for ProxyUsername {
    type V = Seq<char>;

    closed spec fn view(&self) -> Seq<char> {
        self.value@
    }
}

impl ProxyUsername {
    pub fn new(s: &str) -> (r: ProxyUsername)
        ensures
            r@ == spec_trim(s@),
    {
        ProxyUsername { value: trimmed_string(s) }
    }

    pub fn as_ref(&self) -> (r: &str)
        ensures
            r@ == self@,
    {
        self.value.as_str()
    }

    pub fn into_inner(self) -> (r: String)
        ensures
            r@ == self@,
    {
        self.value
    }
}

/// Proxy password (kept verbatim).
#[derive(Debug, PartialEq, Eq)]
pub struct ProxyPassword {
    value: String,
}

impl Clone for ProxyPassword {
    fn clone(&self) -> (r: ProxyPassword)
        ensures
            r@ == self@,
    {
        ProxyPassword { value: copy_string(&self.value) }
    }
}

impl View for ProxyPassword {
    type V = Seq<char>;

    closed spec fn view(&self) -> Seq<char> {
        self.value@
    }
}

impl ProxyPassword {
    pub fn new(s: &str) -> (r: ProxyPassword)
        ensures
            r@ == s@,
    {
        ProxyPassword { value: owned(s) }
    }

    pub fn as_ref(&self) -> (r: &str)
        ensures
            r@ == self@,
    {
        self.value.as_str()
    }

    pub fn into_inner(self) -> (r: String)
        ensures
            r@ == self@,
    {
        self.value
    }
}

/// HTTP user agent (trimmed).
#[derive(Debug, PartialEq, Eq)]
pub struct UserAgent {
    value: String,
}

impl Clone for UserAgent {
    fn clone(&self) -> (r: UserAgent)
        ensures
            r@ == self@,
    {
        UserAgent { value: copy_string(&self.value) }
    }
}

impl View for UserAgent {
    type V = Seq<char>;

    closed spec fn view(&self) -> Seq<char> {
        self.value@
    }
}

impl UserAgent {
    pub fn new(s: &str) -> (r: UserAgent)
        ensures
            r@ == spec_trim(s@),
    {
        UserAgent { value: trimmed_string(s) }
    }

    pub fn as_ref(&self) -> (r: &str)
        ensures
            r@ == self@,
    {
        self.value.as_str()
    }

    pub fn into_inner(self) -> (r: String)
        ensures
            r@ == self@,
    {
        self.value
    }
}

/// Module platform identifier (trimmed).
#[derive(Debug, PartialEq, Eq)]
pub struct ModulePlatformId {
    value: String,
}

impl Clone for ModulePlatformId {
    fn clone(&self) -> (r: ModulePlatformId)
        ensures
            r@ == self@,
    {
        ModulePlatformId { value: copy_string(&self.value) }
    }
}

impl View for ModulePlatformId {
    type V = Seq<char>;

    closed spec fn view(&self) -> Seq<char> {
        self.value@
    }
}

impl ModulePlatformId {
    pub fn new(s: &str) -> (r: ModulePlatformId)
        ensures
            r@ == spec_trim(s@),
    {
        ModulePlatformId { value: trimmed_string(s) }
    }

    pub fn as_ref(&self) -> (r: &str)
        ensures
            r@ == self@,
    {
        self.value.as_str()
    }

    pub fn into_inner(self) -> (r: String)
        ensures
            r@ == self@,
    {
        self.value
    }
}

// ============================================================================
// DNF booleans
// ============================================================================

/// DNF boolean value: True (1/yes/true/on) or False (0/no/false/off).
#[derive(Debug, Clone, Copy, PartialEq, Eq, Structural, Hash)]
pub enum DnfBool {
    True,
    False,
}

/// The boolean that a lower-cased text spells, if any.
pub open spec fn dnf_bool_word(lower: Seq<char>) -> Option<DnfBool> {
    if lower == "1"@ || lower == "yes"@ || lower == "true"@ || lower == "on"@ {
        Some(DnfBool::True)
    } else if lower == "0"@ || lower == "no"@ || lower == "false"@ || lower == "off"@ {
        Some(DnfBool::False)
    } else {
        None
    }
}

/// What `DnfBool::parse` reads from a text (ASCII case-insensitive).
pub open spec fn spec_dnf_bool(s: Seq<char>) -> Option<DnfBool> {
    dnf_bool_word(spec_ascii_lowercase(s))
}

/// The canonical text of a DNF boolean.
pub open spec fn spec_dnf_bool_text(b: DnfBool) -> Seq<char> {
    match b {
        DnfBool::True => "1"@,
        DnfBool::False => "0"@,
    }
}

fn ascii_lowercase_vec(s: &[char]) -> (r: Vec<char>)
    ensures
        r@ == spec_ascii_lowercase(s@),
{
    let mut r: Vec<char> = Vec::new();
    let mut i: usize = 0;
    while i < s.len()
        invariant
            i <= s@.len(),
            r@ == spec_ascii_lowercase(s@.subrange(0, i as int)),
        decreases s@.len() - i,
    {
        r.push(ascii_lower(s[i]));
        assert(spec_ascii_lowercase(s@.subrange(0, i + 1)) =~= spec_ascii_lowercase(
            s@.subrange(0, i as int),
        ).push(spec_ascii_lower(s@[i as int])));
        i = i + 1;
    }
    assert(s@.subrange(0, s@.len() as int) =~= s@);
    r
}

impl DnfBool {
    /// Parse `1/yes/true/on` or `0/no/false/off`, ignoring ASCII case.
    pub fn parse(s: &str) -> (r: std::result::Result<DnfBool, ParseBoolError>)
        ensures
            match r {
                Ok(b) => spec_dnf_bool(s@) == Some(b),
                Err(e) => spec_dnf_bool(s@) is None && e.input@ == s@,
            },
    {
        let v = chars_of(s);
        let lower = ascii_lowercase_vec(v.as_slice());
        let l = lower.as_slice();
        if chars_eq_str(l, "1") || chars_eq_str(l, "yes") || chars_eq_str(l, "true")
            || chars_eq_str(l, "on") {
            Ok(DnfBool::True)
        } else if chars_eq_str(l, "0") || chars_eq_str(l, "no") || chars_eq_str(l, "false")
            || chars_eq_str(l, "off") {
            Ok(DnfBool::False)
        } else {
            Err(ParseBoolError { input: owned(s) })
        }
    }

    /// Convenience: enabled (True).
    pub fn yes() -> (r: DnfBool)
        ensures
            r == DnfBool::True,
    {
        DnfBool::True
    }

    /// Convenience: disabled (False).
    pub fn no() -> (r: DnfBool)
        ensures
            r == DnfBool::False,
    {
        DnfBool::False
    }

    /// The canonical text: `1` or `0`.
    pub fn to_string(&self) -> (r: String)
        ensures
            r@ == spec_dnf_bool_text(*self),
    {
        match self {
            DnfBool::True => owned("1"),
            DnfBool::False => owned("0"),
        }
    }

    /// The plain boolean.
    pub fn as_bool(self) -> (r: bool)
        ensures
            r == (self == DnfBool::True),
    {
        match self {
            DnfBool::True => true,
            DnfBool::False => false,
        }
    }
}

impl From<bool> for DnfBool {
    fn from(b: bool) -> (r: DnfBool) {
        if b {
            DnfBool::True
        } else {
            DnfBool::False
        }
    }
}

impl vstd::std_specs::convert::FromSpecImpl<bool> for DnfBool {
    open spec fn obeys_from_spec() -> bool {
        true
    }

    open spec fn from_spec(b: bool) -> DnfBool {
        if b {
            DnfBool::True
        } else {
            DnfBool::False
        }
    }
}

impl From<DnfBool> for bool {
    fn from(d: DnfBool) -> (r: bool) {
        match d {
            DnfBool::True => true,
            DnfBool::False => false,
        }
    }
}

impl vstd::std_specs::convert::FromSpecImpl<DnfBool> for bool {
    open spec fn obeys_from_spec() -> bool {
        true
    }

    open spec fn from_spec(d: DnfBool) -> bool {
        d == DnfBool::True
    }
}

/// Reading back the canonical text of a DNF boolean gives the same boolean.
pub proof fn lemma_dnf_bool_text_round_trip(b: DnfBool)
    ensures
        spec_dnf_bool(spec_dnf_bool_text(b)) == Some(b),
{
    reveal_strlit("1");
    reveal_strlit("0");
    reveal_strlit("yes");
    reveal_strlit("true");
    reveal_strlit("on");
    match b {
        DnfBool::True => {
            assert(spec_ascii_lowercase("1"@) =~= "1"@);
        },
        DnfBool::False => {
            assert(spec_ascii_lowercase("0"@) =~= "0"@);
            assert("0"@[0] != "1"@[0]);
            assert("0"@ != "1"@);
            assert("0"@ != "yes"@);
            assert("0"@ != "true"@);
            assert("0"@ != "on"@);
        },
    }
}

// ============================================================================
// Enumerations and composite values
// ============================================================================

/// A storage size in bytes (e.g. bandwidth, minrate, log_size).
#[derive(Debug, Clone, Copy, PartialEq, Eq, Structural)]
pub struct StorageSize(pub u64);

/// How long metadata is considered valid before a refresh is required.
#[derive(Debug, Clone, Copy, PartialEq, Eq, Structural)]
pub enum MetadataExpire {
    Duration(u64),
    Never,
}

/// Bandwidth throttle: absolute storage size or percentage of total.
#[derive(Debug, Clone, Copy, PartialEq, Eq, Structural)]
pub enum Throttle {
    Absolute(StorageSize),
    Percent(u8),
}

/// Proxy configuration: unset (default), explicitly disabled, a URL, or a
/// value that is not a valid URL, kept verbatim.
#[derive(Debug, Clone, PartialEq, Eq)]
pub enum ProxySetting {
    Unset,
    Disabled,
    Url(Url),
    Raw(String),
}

/// The plain-value model of a proxy setting.
pub enum ProxyView {
    Unset,
    Disabled,
    Url(Seq<char>),
    Raw(Seq<char>),
}

impl View for ProxySetting {
    type V = ProxyView;

    open spec fn view(&self) -> ProxyView {
        match self {
            ProxySetting::Unset => ProxyView::Unset,
            ProxySetting::Disabled => ProxyView::Disabled,
            ProxySetting::Url(u) => ProxyView::Url(u@),
            ProxySetting::Raw(s) => ProxyView::Raw(s@),
        }
    }
}

impl ProxySetting {
    pub fn duplicate(&self) -> (r: ProxySetting)
        ensures
            r@ == self@,
    {
        match self {
            ProxySetting::Unset => ProxySetting::Unset,
            ProxySetting::Disabled => ProxySetting::Disabled,
            ProxySetting::Url(u) => ProxySetting::Url(u.duplicate()),
            ProxySetting::Raw(s) => ProxySetting::Raw(copy_string(s)),
        }
    }
}

/// IP protocol version preference (IPv4 or IPv6).
#[derive(Debug, Clone, Copy, PartialEq, Eq, Structural)]
pub enum IpResolve {
    V4,
    V6,
}

/// HTTP proxy authentication method.
#[derive(Debug, Clone, Copy, PartialEq, Eq, Structural)]
pub enum ProxyAuthMethod {
    Any,
    None_,
    Basic,
    Digest,
    Negotiate,
    Ntlm,
    DigestIe,
    NtlmWb,
}

/// Repository metadata type (e.g. rpm-md).
#[derive(Debug, Clone, Copy, PartialEq, Eq, Structural)]
pub enum RepoMetadataType {
    RpmMd,
}

/// Multilib package installation policy.
#[derive(Debug, Clone, Copy, PartialEq, Eq, Structural)]
pub enum MultilibPolicy {
    Best,
    All,
}

/// SQLite database persistence mode for repository metadata.
#[derive(Debug, Clone, Copy, PartialEq, Eq, Structural)]
pub enum Persistence {
    Auto,
    Transient,
    Persist,
}

/// RPM transaction verbosity level.
#[derive(Debug, Clone, Copy, PartialEq, Eq, Structural)]
pub enum RpmVerbosity {
    Critical,
    Emergency,
    Error,
    Warn,
    Info,
    Debug,
}

/// RPM transaction flag controlling scripts, triggers, and other behaviors.
#[derive(Debug, Clone, Copy, PartialEq, Eq, Structural, Hash)]
pub enum TsFlag {
    NoScripts,
    Test,
    NoTriggers,
    NoDocs,
    JustDb,
    NoContexts,
    NoCaps,
    NoCrypto,
    Deploops,
    NoPlugins,
}

/// Describes how a repository advertises its metadata source.
#[derive(Debug, Clone, PartialEq, Eq)]
pub enum UrlSource {
    BaseUrl(Vec<Url>),
    MirrorList(Url),
    Metalink(Url),
}

/// The plain-value model of a URL source.
pub enum UrlSourceView {
    BaseUrl(Seq<Seq<char>>),
    MirrorList(Seq<char>),
    Metalink(Seq<char>),
}

impl View for UrlSource {
    type V = UrlSourceView;

    open spec fn view(&self) -> UrlSourceView {
        match self {
            UrlSource::BaseUrl(v) => UrlSourceView::BaseUrl(urls_view(v@)),
            UrlSource::MirrorList(u) => UrlSourceView::MirrorList(u@),
            UrlSource::Metalink(u) => UrlSourceView::Metalink(u@),
        }
    }
}

// ============================================================================
// Numbers
// ============================================================================

/// Repository priority, 1 to 99 (lower is preferred).
#[derive(Debug, Copy, PartialEq, Eq, Structural, Hash, PartialOrd, Ord)]
pub struct Priority {
    value: i32,
}

/// Which constraint of [`Priority`] a value violates.
#[derive(Debug, Clone, Copy, PartialEq, Eq)]
pub enum PriorityError {
    GreaterOrEqualViolated,
    LessOrEqualViolated,
}

impl View for Priority {
    type V = i32;

    closed spec fn view(&self) -> i32 {
        self.value
    }
}

impl Priority {
    /// The values this type accepts.
    pub open spec fn accepts(v: i32) -> bool {
        1 <= v && v <= 99
    }

    #[verifier::type_invariant]
    spec fn well_formed(self) -> bool {
        Self::accepts(self.value)
    }

    /// Validate a value.
    pub fn try_new(v: i32) -> (r: std::result::Result<Priority, PriorityError>)
        ensures
            match r {
                Ok(x) => x@ == v && Self::accepts(v),
                Err(PriorityError::GreaterOrEqualViolated) => v < 1,
                Err(PriorityError::LessOrEqualViolated) => 1 <= v && v > 99,
            },
    {
        if v < 1 {
            return Err(PriorityError::GreaterOrEqualViolated);
        }
        if v > 99 {
            return Err(PriorityError::LessOrEqualViolated);
        }
        Ok(Priority { value: v })
    }

    /// The wrapped value (always accepted by `accepts`).
    /// The value in decimal.
    pub fn to_string(&self) -> (r: String)
        ensures
            r@ == spec_int_text(self@ as int),
    {
        int_text(self.into_inner() as i64)
    }

    pub fn into_inner(self) -> (r: i32)
        ensures
            r == self@,
            Self::accepts(r),
    {
        proof {
            use_type_invariant(&self);
        }
        self.value
    }
}

impl Clone for Priority {
    fn clone(&self) -> (r: Priority)
        ensures
            r@ == self@,
    {
        *self
    }
}

impl Default for Priority {
    fn default() -> (r: Priority)
        ensures
            r@ == 99,
    {
        Priority { value: 99 }
    }
}

/// Relative access cost, at least 0.
#[derive(Debug, Copy, PartialEq, Eq, Structural, Hash, PartialOrd, Ord)]
pub struct Cost {
    value: i32,
}

/// Which constraint of [`Cost`] a value violates.
#[derive(Debug, Clone, Copy, PartialEq, Eq)]
pub enum CostError {
    GreaterOrEqualViolated,
}

impl View for Cost {
    type V = i32;

    closed spec fn view(&self) -> i32 {
        self.value
    }
}

impl Cost {
    /// The values this type accepts.
    pub open spec fn accepts(v: i32) -> bool {
        0 <= v
    }

    #[verifier::type_invariant]
    spec fn well_formed(self) -> bool {
        Self::accepts(self.value)
    }

    /// Validate a value.
    pub fn try_new(v: i32) -> (r: std::result::Result<Cost, CostError>)
        ensures
            match r {
                Ok(x) => x@ == v && Self::accepts(v),
                Err(CostError::GreaterOrEqualViolated) => v < 0,
            },
    {
        if v < 0 {
            return Err(CostError::GreaterOrEqualViolated);
        }
        Ok(Cost { value: v })
    }

    /// The wrapped value (always accepted by `accepts`).
    /// The value in decimal.
    pub fn to_string(&self) -> (r: String)
        ensures
            r@ == spec_int_text(self@ as int),
    {
        int_text(self.into_inner() as i64)
    }

    pub fn into_inner(self) -> (r: i32)
        ensures
            r == self@,
            Self::accepts(r),
    {
        proof {
            use_type_invariant(&self);
        }
        self.value
    }
}

impl Clone for Cost {
    fn clone(&self) -> (r: Cost)
        ensures
            r@ == self@,
    {
        *self
    }
}

impl Default for Cost {
    fn default() -> (r: Cost)
        ensures
            r@ == 1000,
    {
        Cost { value: 1000 }
    }
}

/// Number of download retries.
#[derive(Debug, Copy, PartialEq, Eq, Structural, Hash)]
pub struct Retries {
    value: u32,
}

/// Which constraint of [`Retries`] a value violates.
#[derive(Debug, Clone, Copy, PartialEq, Eq)]
pub enum RetriesError {
    GreaterOrEqualViolated,
}

impl View for Retries {
    type V = u32;

    closed spec fn view(&self) -> u32 {
        self.value
    }
}

impl Retries {
    /// The values this type accepts.
    pub open spec fn accepts(v: u32) -> bool {
        true
    }

    #[verifier::type_invariant]
    spec fn well_formed(self) -> bool {
        Self::accepts(self.value)
    }

    /// Validate a value.
    pub fn try_new(v: u32) -> (r: std::result::Result<Retries, RetriesError>)
        ensures
            match r {
                Ok(x) => x@ == v && Self::accepts(v),
                Err(RetriesError::GreaterOrEqualViolated) => false,
            },
    {

        Ok(Retries { value: v })
    }

    /// The wrapped value (always accepted by `accepts`).
    /// The value in decimal.
    pub fn to_string(&self) -> (r: String)
        ensures
            r@ == spec_decimal(self@ as nat),
    {
        decimal_text(self.into_inner() as u64)
    }

    pub fn into_inner(self) -> (r: u32)
        ensures
            r == self@,
            Self::accepts(r),
    {
        proof {
            use_type_invariant(&self);
        }
        self.value
    }
}

impl Clone for Retries {
    fn clone(&self) -> (r: Retries)
        ensures
            r@ == self@,
    {
        *self
    }
}

impl Default for Retries {
    fn default() -> (r: Retries)
        ensures
            r@ == 10,
    {
        Retries { value: 10 }
    }
}

/// Network timeout in seconds.
#[derive(Debug, Copy, PartialEq, Eq, Structural, Hash, PartialOrd, Ord)]
pub struct TimeoutSeconds {
    value: u32,
}

/// Which constraint of [`TimeoutSeconds`] a value violates.
#[derive(Debug, Clone, Copy, PartialEq, Eq)]
pub enum TimeoutSecondsError {
    GreaterOrEqualViolated,
}

impl View for TimeoutSeconds {
    type V = u32;

    closed spec fn view(&self) -> u32 {
        self.value
    }
}

impl TimeoutSeconds {
    /// The values this type accepts.
    pub open spec fn accepts(v: u32) -> bool {
        true
    }

    #[verifier::type_invariant]
    spec fn well_formed(self) -> bool {
        Self::accepts(self.value)
    }

    /// Validate a value.
    pub fn try_new(v: u32) -> (r: std::result::Result<TimeoutSeconds, TimeoutSecondsError>)
        ensures
            match r {
                Ok(x) => x@ == v && Self::accepts(v),
                Err(TimeoutSecondsError::GreaterOrEqualViolated) => false,
            },
    {

        Ok(TimeoutSeconds { value: v })
    }

    /// The wrapped value (always accepted by `accepts`).
    /// The value in decimal.
    pub fn to_string(&self) -> (r: String)
        ensures
            r@ == spec_decimal(self@ as nat),
    {
        decimal_text(self.into_inner() as u64)
    }

    pub fn into_inner(self) -> (r: u32)
        ensures
            r == self@,
            Self::accepts(r),
    {
        proof {
            use_type_invariant(&self);
        }
        self.value
    }
}

impl Clone for TimeoutSeconds {
    fn clone(&self) -> (r: TimeoutSeconds)
        ensures
            r@ == self@,
    {
        *self
    }
}

impl Default for TimeoutSeconds {
    fn default() -> (r: TimeoutSeconds)
        ensures
            r@ == 30,
    {
        TimeoutSeconds { value: 30 }
    }
}

/// Delta RPM size threshold, 0 to 100 percent.
#[derive(Debug, Copy, PartialEq, Eq, Structural, Hash)]
pub struct DeltaRpmPercentage {
    value: u32,
}

/// Which constraint of [`DeltaRpmPercentage`] a value violates.
#[derive(Debug, Clone, Copy, PartialEq, Eq)]
pub enum DeltaRpmPercentageError {
    GreaterOrEqualViolated,
    LessOrEqualViolated,
}

impl View for DeltaRpmPercentage {
    type V = u32;

    closed spec fn view(&self) -> u32 {
        self.value
    }
}

impl DeltaRpmPercentage {
    /// The values this type accepts.
    pub open spec fn accepts(v: u32) -> bool {
        v <= 100
    }

    #[verifier::type_invariant]
    spec fn well_formed(self) -> bool {
        Self::accepts(self.value)
    }

    /// Validate a value.
    pub fn try_new(v: u32) -> (r: std::result::Result<DeltaRpmPercentage, DeltaRpmPercentageError>)
        ensures
            match r {
                Ok(x) => x@ == v && Self::accepts(v),
                Err(DeltaRpmPercentageError::GreaterOrEqualViolated) => false,
                Err(DeltaRpmPercentageError::LessOrEqualViolated) => v > 100,
            },
    {
        if v > 100 {
            return Err(DeltaRpmPercentageError::LessOrEqualViolated);
        }
        Ok(DeltaRpmPercentage { value: v })
    }

    /// The wrapped value (always accepted by `accepts`).
    /// The value in decimal.
    pub fn to_string(&self) -> (r: String)
        ensures
            r@ == spec_decimal(self@ as nat),
    {
        decimal_text(self.into_inner() as u64)
    }

    pub fn into_inner(self) -> (r: u32)
        ensures
            r == self@,
            Self::accepts(r),
    {
        proof {
            use_type_invariant(&self);
        }
        self.value
    }
}

impl Clone for DeltaRpmPercentage {
    fn clone(&self) -> (r: DeltaRpmPercentage)
        ensures
            r@ == self@,
    {
        *self
    }
}

impl Default for DeltaRpmPercentage {
    fn default() -> (r: DeltaRpmPercentage)
        ensures
            r@ == 75,
    {
        DeltaRpmPercentage { value: 75 }
    }
}

/// Maximum number of parallel downloads, 0 to 20.
#[derive(Debug, Copy, PartialEq, Eq, Structural, Hash)]
pub struct MaxParallelDownloads {
    value: u32,
}

/// Which constraint of [`MaxParallelDownloads`] a value violates.
#[derive(Debug, Clone, Copy, PartialEq, Eq)]
pub enum MaxParallelDownloadsError {
    GreaterOrEqualViolated,
    LessOrEqualViolated,
}

impl View for MaxParallelDownloads {
    type V = u32;

    closed spec fn view(&self) -> u32 {
        self.value
    }
}

impl MaxParallelDownloads {
    /// The values this type accepts.
    pub open spec fn accepts(v: u32) -> bool {
        v <= 20
    }

    #[verifier::type_invariant]
    spec fn well_formed(self) -> bool {
        Self::accepts(self.value)
    }

    /// Validate a value.
    pub fn try_new(v: u32) -> (r: std::result::Result<MaxParallelDownloads, MaxParallelDownloadsError>)
        ensures
            match r {
                Ok(x) => x@ == v && Self::accepts(v),
                Err(MaxParallelDownloadsError::GreaterOrEqualViolated) => false,
                Err(MaxParallelDownloadsError::LessOrEqualViolated) => v > 20,
            },
    {
        if v > 20 {
            return Err(MaxParallelDownloadsError::LessOrEqualViolated);
        }
        Ok(MaxParallelDownloads { value: v })
    }

    /// The wrapped value (always accepted by `accepts`).
    /// The value in decimal.
    pub fn to_string(&self) -> (r: String)
        ensures
            r@ == spec_decimal(self@ as nat),
    {
        decimal_text(self.into_inner() as u64)
    }

    pub fn into_inner(self) -> (r: u32)
        ensures
            r == self@,
            Self::accepts(r),
    {
        proof {
            use_type_invariant(&self);
        }
        self.value
    }
}

impl Clone for MaxParallelDownloads {
    fn clone(&self) -> (r: MaxParallelDownloads)
        ensures
            r@ == self@,
    {
        *self
    }
}

impl Default for MaxParallelDownloads {
    fn default() -> (r: MaxParallelDownloads)
        ensures
            r@ == 3,
    {
        MaxParallelDownloads { value: 3 }
    }
}

/// Debug output level, 0 to 10.
#[derive(Debug, Copy, PartialEq, Eq, Structural, Hash)]
pub struct DebugLevel {
    value: u8,
}

/// Which constraint of [`DebugLevel`] a value violates.
#[derive(Debug, Clone, Copy, PartialEq, Eq)]
pub enum DebugLevelError {
    GreaterOrEqualViolated,
    LessOrEqualViolated,
}

impl View for DebugLevel {
    type V = u8;

    closed spec fn view(&self) -> u8 {
        self.value
    }
}

impl DebugLevel {
    /// The values this type accepts.
    pub open spec fn accepts(v: u8) -> bool {
        v <= 10
    }

    #[verifier::type_invariant]
    spec fn well_formed(self) -> bool {
        Self::accepts(self.value)
    }

    /// Validate a value.
    pub fn try_new(v: u8) -> (r: std::result::Result<DebugLevel, DebugLevelError>)
        ensures
            match r {
                Ok(x) => x@ == v && Self::accepts(v),
                Err(DebugLevelError::GreaterOrEqualViolated) => false,
                Err(DebugLevelError::LessOrEqualViolated) => v > 10,
            },
    {
        if v > 10 {
            return Err(DebugLevelError::LessOrEqualViolated);
        }
        Ok(DebugLevel { value: v })
    }

    /// The wrapped value (always accepted by `accepts`).
    /// The value in decimal.
    pub fn to_string(&self) -> (r: String)
        ensures
            r@ == spec_decimal(self@ as nat),
    {
        decimal_text(self.into_inner() as u64)
    }

    pub fn into_inner(self) -> (r: u8)
        ensures
            r == self@,
            Self::accepts(r),
    {
        proof {
            use_type_invariant(&self);
        }
        self.value
    }
}

impl Clone for DebugLevel {
    fn clone(&self) -> (r: DebugLevel)
        ensures
            r@ == self@,
    {
        *self
    }
}

impl Default for DebugLevel {
    fn default() -> (r: DebugLevel)
        ensures
            r@ == 2,
    {
        DebugLevel { value: 2 }
    }
}

/// Log file level, 0 to 10.
#[derive(Debug, Copy, PartialEq, Eq, Structural, Hash)]
pub struct LogLevel {
    value: u8,
}

/// Which constraint of [`LogLevel`] a value violates.
#[derive(Debug, Clone, Copy, PartialEq, Eq)]
pub enum LogLevelError {
    GreaterOrEqualViolated,
    LessOrEqualViolated,
}

impl View for LogLevel {
    type V = u8;

    closed spec fn view(&self) -> u8 {
        self.value
    }
}

impl LogLevel {
    /// The values this type accepts.
    pub open spec fn accepts(v: u8) -> bool {
        v <= 10
    }

    #[verifier::type_invariant]
    spec fn well_formed(self) -> bool {
        Self::accepts(self.value)
    }

    /// Validate a value.
    pub fn try_new(v: u8) -> (r: std::result::Result<LogLevel, LogLevelError>)
        ensures
            match r {
                Ok(x) => x@ == v && Self::accepts(v),
                Err(LogLevelError::GreaterOrEqualViolated) => false,
                Err(LogLevelError::LessOrEqualViolated) => v > 10,
            },
    {
        if v > 10 {
            return Err(LogLevelError::LessOrEqualViolated);
        }
        Ok(LogLevel { value: v })
    }

    /// The wrapped value (always accepted by `accepts`).
    /// The value in decimal.
    pub fn to_string(&self) -> (r: String)
        ensures
            r@ == spec_decimal(self@ as nat),
    {
        decimal_text(self.into_inner() as u64)
    }

    pub fn into_inner(self) -> (r: u8)
        ensures
            r == self@,
            Self::accepts(r),
    {
        proof {
            use_type_invariant(&self);
        }
        self.value
    }
}

impl Clone for LogLevel {
    fn clone(&self) -> (r: LogLevel)
        ensures
            r@ == self@,
    {
        *self
    }
}

impl Default for LogLevel {
    fn default() -> (r: LogLevel)
        ensures
            r@ == 9,
    {
        LogLevel { value: 9 }
    }
}

/// Number of install-only packages kept; never 1.
#[derive(Debug, Copy, PartialEq, Eq, Structural, Hash)]
pub struct InstallOnlyLimit {
    value: u32,
}

/// Which constraint of [`InstallOnlyLimit`] a value violates.
#[derive(Debug, Clone, Copy, PartialEq, Eq)]
pub enum InstallOnlyLimitError {
    GreaterOrEqualViolated,
    PredicateViolated,
}

impl View for InstallOnlyLimit {
    type V = u32;

    closed spec fn view(&self) -> u32 {
        self.value
    }
}

impl InstallOnlyLimit {
    /// The values this type accepts.
    pub open spec fn accepts(v: u32) -> bool {
        v != 1
    }

    #[verifier::type_invariant]
    spec fn well_formed(self) -> bool {
        Self::accepts(self.value)
    }

    /// Validate a value.
    pub fn try_new(v: u32) -> (r: std::result::Result<InstallOnlyLimit, InstallOnlyLimitError>)
        ensures
            match r {
                Ok(x) => x@ == v && Self::accepts(v),
                Err(InstallOnlyLimitError::GreaterOrEqualViolated) => false,
                Err(InstallOnlyLimitError::PredicateViolated) => v == 1,
            },
    {
        if v == 1 {
            return Err(InstallOnlyLimitError::PredicateViolated);
        }
        Ok(InstallOnlyLimit { value: v })
    }

    /// The wrapped value (always accepted by `accepts`).
    /// The value in decimal.
    pub fn to_string(&self) -> (r: String)
        ensures
            r@ == spec_decimal(self@ as nat),
    {
        decimal_text(self.into_inner() as u64)
    }

    pub fn into_inner(self) -> (r: u32)
        ensures
            r == self@,
            Self::accepts(r),
    {
        proof {
            use_type_invariant(&self);
        }
        self.value
    }
}

impl Clone for InstallOnlyLimit {
    fn clone(&self) -> (r: InstallOnlyLimit)
        ensures
            r@ == self@,
    {
        *self
    }
}

impl Default for InstallOnlyLimit {
    fn default() -> (r: InstallOnlyLimit)
        ensures
            r@ == 3,
    {
        InstallOnlyLimit { value: 3 }
    }
}

/// Number of rotated log files kept.
#[derive(Debug, Copy, PartialEq, Eq, Structural, Hash)]
pub struct LogRotate {
    value: u32,
}

/// Which constraint of [`LogRotate`] a value violates.
#[derive(Debug, Clone, Copy, PartialEq, Eq)]
pub enum LogRotateError {
    GreaterOrEqualViolated,
}

impl View for LogRotate {
    type V = u32;

    closed spec fn view(&self) -> u32 {
        self.value
    }
}

impl LogRotate {
    /// The values this type accepts.
    pub open spec fn accepts(v: u32) -> bool {
        true
    }

    #[verifier::type_invariant]
    spec fn well_formed(self) -> bool {
        Self::accepts(self.value)
    }

    /// Validate a value.
    pub fn try_new(v: u32) -> (r: std::result::Result<LogRotate, LogRotateError>)
        ensures
            match r {
                Ok(x) => x@ == v && Self::accepts(v),
                Err(LogRotateError::GreaterOrEqualViolated) => false,
            },
    {

        Ok(LogRotate { value: v })
    }

    /// The wrapped value (always accepted by `accepts`).
    /// The value in decimal.
    pub fn to_string(&self) -> (r: String)
        ensures
            r@ == spec_decimal(self@ as nat),
    {
        decimal_text(self.into_inner() as u64)
    }

    pub fn into_inner(self) -> (r: u32)
        ensures
            r == self@,
            Self::accepts(r),
    {
        proof {
            use_type_invariant(&self);
        }
        self.value
    }
}

impl Clone for LogRotate {
    fn clone(&self) -> (r: LogRotate)
        ensures
            r@ == self@,
    {
        *self
    }
}

impl Default for LogRotate {
    fn default() -> (r: LogRotate)
        ensures
            r@ == 4,
    {
        LogRotate { value: 4 }
    }
}

/// Seconds between metadata timer syncs.
#[derive(Debug, Copy, PartialEq, Eq, Structural, Hash)]
pub struct MetadataTimerSync {
    value: u32,
}

/// Which constraint of [`MetadataTimerSync`] a value violates.
#[derive(Debug, Clone, Copy, PartialEq, Eq)]
pub enum MetadataTimerSyncError {
    GreaterOrEqualViolated,
}

impl View for MetadataTimerSync {
    type V = u32;

    closed spec fn view(&self) -> u32 {
        self.value
    }
}

impl MetadataTimerSync {
    /// The values this type accepts.
    pub open spec fn accepts(v: u32) -> bool {
        true
    }

    #[verifier::type_invariant]
    spec fn well_formed(self) -> bool {
        Self::accepts(self.value)
    }

    /// Validate a value.
    pub fn try_new(v: u32) -> (r: std::result::Result<MetadataTimerSync, MetadataTimerSyncError>)
        ensures
            match r {
                Ok(x) => x@ == v && Self::accepts(v),
                Err(MetadataTimerSyncError::GreaterOrEqualViolated) => false,
            },
    {

        Ok(MetadataTimerSync { value: v })
    }

    /// The wrapped value (always accepted by `accepts`).
    /// The value in decimal.
    pub fn to_string(&self) -> (r: String)
        ensures
            r@ == spec_decimal(self@ as nat),
    {
        decimal_text(self.into_inner() as u64)
    }

    pub fn into_inner(self) -> (r: u32)
        ensures
            r == self@,
            Self::accepts(r),
    {
        proof {
            use_type_invariant(&self);
        }
        self.value
    }
}

impl Clone for MetadataTimerSync {
    fn clone(&self) -> (r: MetadataTimerSync)
        ensures
            r@ == self@,
    {
        *self
    }
}

impl Default for MetadataTimerSync {
    fn default() -> (r: MetadataTimerSync)
        ensures
            r@ == 10800,
    {
        MetadataTimerSync { value: 10800 }
    }
}

/// Error output level, 0 to 10.
#[derive(Debug, Copy, PartialEq, Eq, Structural, Hash)]
pub struct ErrorLevel {
    value: u8,
}

/// Which constraint of [`ErrorLevel`] a value violates.
#[derive(Debug, Clone, Copy, PartialEq, Eq)]
pub enum ErrorLevelError {
    GreaterOrEqualViolated,
    LessOrEqualViolated,
}

impl View for ErrorLevel {
    type V = u8;

    closed spec fn view(&self) -> u8 {
        self.value
    }
}

impl ErrorLevel {
    /// The values this type accepts.
    pub open spec fn accepts(v: u8) -> bool {
        v <= 10
    }

    #[verifier::type_invariant]
    spec fn well_formed(self) -> bool {
        Self::accepts(self.value)
    }

    /// Validate a value.
    pub fn try_new(v: u8) -> (r: std::result::Result<ErrorLevel, ErrorLevelError>)
        ensures
            match r {
                Ok(x) => x@ == v && Self::accepts(v),
                Err(ErrorLevelError::GreaterOrEqualViolated) => false,
                Err(ErrorLevelError::LessOrEqualViolated) => v > 10,
            },
    {
        if v > 10 {
            return Err(ErrorLevelError::LessOrEqualViolated);
        }
        Ok(ErrorLevel { value: v })
    }

    /// The wrapped value (always accepted by `accepts`).
    /// The value in decimal.
    pub fn to_string(&self) -> (r: String)
        ensures
            r@ == spec_decimal(self@ as nat),
    {
        decimal_text(self.into_inner() as u64)
    }

    pub fn into_inner(self) -> (r: u8)
        ensures
            r == self@,
            Self::accepts(r),
    {
        proof {
            use_type_invariant(&self);
        }
        self.value
    }
}

impl Clone for ErrorLevel {
    fn clone(&self) -> (r: ErrorLevel)
        ensures
            r@ == self@,
    {
        *self
    }
}

impl Default for ErrorLevel {
    fn default() -> (r: ErrorLevel)
        ensures
            r@ == 3,
    {
        ErrorLevel { value: 3 }
    }
}

} // verus!
