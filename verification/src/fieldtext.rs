//! The text of each known option of a section as it is written from the
//! section's typed data: one value per line, in the words the reader
//! accepts back.

use crate::mainconfig::{MainConfig, MainConfigView};
use crate::repo::{Repo, RepoView};
use crate::text::{copy_strings, decimal_text, owned, push_char, spec_decimal, spec_int_text, str_eq, strings_view};
use crate::types::{
    spec_dnf_bool_text, urls_view, DnfBool, IpResolve, MetadataExpire, MultilibPolicy, Persistence,
    ProxyAuthMethod, ProxySetting, ProxyView, RepoMetadataType, RpmVerbosity, StorageSize, Throttle,
    TsFlag, Url,
};
use camino::Utf8PathBuf;
use vstd::prelude::*;

verus! {

// ============================================================================
// Values as texts
// ============================================================================

/// What `camino::Utf8PathBuf::as_str` returns for a path.
pub uninterp spec fn path_text(p: Utf8PathBuf) -> Seq<char>;

/// `Utf8PathBuf::as_str`, copied into a `String`; its text is named by
/// `path_text`.
#[verifier::external_body]
fn path_str(p: &Utf8PathBuf) -> (r: String)
    ensures
        r@ == path_text(*p),
{
    p.as_str().to_string()
}

/// No value, or the one value.
pub open spec fn opt_text(o: Option<Seq<char>>) -> Seq<Seq<char>> {
    match o {
        Some(s) => seq![s],
        None => seq![],
    }
}

pub open spec fn opt_bool_texts(o: Option<DnfBool>) -> Seq<Seq<char>> {
    match o {
        Some(b) => seq![spec_dnf_bool_text(b)],
        None => seq![],
    }
}

pub open spec fn opt_int_texts(o: Option<i32>) -> Seq<Seq<char>> {
    match o {
        Some(n) => seq![spec_int_text(n as int)],
        None => seq![],
    }
}

pub open spec fn opt_u32_texts(o: Option<u32>) -> Seq<Seq<char>> {
    match o {
        Some(n) => seq![spec_decimal(n as nat)],
        None => seq![],
    }
}

pub open spec fn opt_u8_texts(o: Option<u8>) -> Seq<Seq<char>> {
    match o {
        Some(n) => seq![spec_decimal(n as nat)],
        None => seq![],
    }
}

/// A size in bytes.
pub open spec fn storage_text(s: StorageSize) -> Seq<char> {
    spec_decimal(s.0 as nat)
}

pub open spec fn opt_storage_texts(o: Option<StorageSize>) -> Seq<Seq<char>> {
    match o {
        Some(s) => seq![storage_text(s)],
        None => seq![],
    }
}

/// A bandwidth limit: bytes, or a percentage followed by `%`.
pub open spec fn throttle_text(t: Throttle) -> Seq<char> {
    match t {
        Throttle::Absolute(s) => storage_text(s),
        Throttle::Percent(p) => spec_decimal(p as nat).push('%'),
    }
}

pub open spec fn opt_throttle_texts(o: Option<Throttle>) -> Seq<Seq<char>> {
    match o {
        Some(t) => seq![throttle_text(t)],
        None => seq![],
    }
}

/// Seconds, or `never`.
pub open spec fn expire_text(m: MetadataExpire) -> Seq<char> {
    match m {
        MetadataExpire::Duration(n) => spec_decimal(n as nat),
        MetadataExpire::Never => "never"@,
    }
}

pub open spec fn opt_expire_texts(o: Option<MetadataExpire>) -> Seq<Seq<char>> {
    match o {
        Some(m) => seq![expire_text(m)],
        None => seq![],
    }
}

pub open spec fn ip_text(v: IpResolve) -> Seq<char> {
    match v {
        IpResolve::V4 => "4"@,
        IpResolve::V6 => "6"@,
    }
}

pub open spec fn opt_ip_texts(o: Option<IpResolve>) -> Seq<Seq<char>> {
    match o {
        Some(v) => seq![ip_text(v)],
        None => seq![],
    }
}

pub open spec fn auth_text(v: ProxyAuthMethod) -> Seq<char> {
    match v {
        ProxyAuthMethod::Any => "any"@,
        ProxyAuthMethod::None_ => "none"@,
        ProxyAuthMethod::Basic => "basic"@,
        ProxyAuthMethod::Digest => "digest"@,
        ProxyAuthMethod::Negotiate => "negotiate"@,
        ProxyAuthMethod::Ntlm => "ntlm"@,
        ProxyAuthMethod::DigestIe => "digest_ie"@,
        ProxyAuthMethod::NtlmWb => "ntlm_wb"@,
    }
}

pub open spec fn opt_auth_texts(o: Option<ProxyAuthMethod>) -> Seq<Seq<char>> {
    match o {
        Some(v) => seq![auth_text(v)],
        None => seq![],
    }
}

pub open spec fn rtype_text(v: RepoMetadataType) -> Seq<char> {
    match v {
        RepoMetadataType::RpmMd => "rpm-md"@,
    }
}

pub open spec fn opt_rtype_texts(o: Option<RepoMetadataType>) -> Seq<Seq<char>> {
    match o {
        Some(v) => seq![rtype_text(v)],
        None => seq![],
    }
}

pub open spec fn multilib_text(v: MultilibPolicy) -> Seq<char> {
    match v {
        MultilibPolicy::Best => "best"@,
        MultilibPolicy::All => "all"@,
    }
}

pub open spec fn opt_multilib_texts(o: Option<MultilibPolicy>) -> Seq<Seq<char>> {
    match o {
        Some(v) => seq![multilib_text(v)],
        None => seq![],
    }
}

pub open spec fn persist_text(v: Persistence) -> Seq<char> {
    match v {
        Persistence::Auto => "auto"@,
        Persistence::Transient => "transient"@,
        Persistence::Persist => "persist"@,
    }
}

pub open spec fn opt_persist_texts(o: Option<Persistence>) -> Seq<Seq<char>> {
    match o {
        Some(v) => seq![persist_text(v)],
        None => seq![],
    }
}

pub open spec fn verbosity_text(v: RpmVerbosity) -> Seq<char> {
    match v {
        RpmVerbosity::Critical => "critical"@,
        RpmVerbosity::Emergency => "emergency"@,
        RpmVerbosity::Error => "error"@,
        RpmVerbosity::Warn => "warn"@,
        RpmVerbosity::Info => "info"@,
        RpmVerbosity::Debug => "debug"@,
    }
}

pub open spec fn opt_verbosity_texts(o: Option<RpmVerbosity>) -> Seq<Seq<char>> {
    match o {
        Some(v) => seq![verbosity_text(v)],
        None => seq![],
    }
}

pub open spec fn opt_path_texts(o: Option<Utf8PathBuf>) -> Seq<Seq<char>> {
    match o {
        Some(p) => seq![path_text(p)],
        None => seq![],
    }
}

pub open spec fn paths_texts(ps: Seq<Utf8PathBuf>) -> Seq<Seq<char>> {
    ps.map_values(|p: Utf8PathBuf| path_text(p))
}

/// A proxy: nothing when unset, `_none_` when disabled, else its text.
pub open spec fn proxy_texts(p: ProxyView) -> Seq<Seq<char>> {
    match p {
        ProxyView::Unset => seq![],
        ProxyView::Disabled => seq!["_none_"@],
        ProxyView::Url(u) => seq![u],
        ProxyView::Raw(s) => seq![s],
    }
}

pub open spec fn flag_text(f: TsFlag) -> Seq<char> {
    match f {
        TsFlag::NoScripts => "noscripts"@,
        TsFlag::Test => "test"@,
        TsFlag::NoTriggers => "notriggers"@,
        TsFlag::NoDocs => "nodocs"@,
        TsFlag::JustDb => "justdb"@,
        TsFlag::NoContexts => "nocontexts"@,
        TsFlag::NoCaps => "nocaps"@,
        TsFlag::NoCrypto => "nocrypto"@,
        TsFlag::Deploops => "deploops"@,
        TsFlag::NoPlugins => "noplugins"@,
    }
}

pub open spec fn flags_texts(fs: Seq<TsFlag>) -> Seq<Seq<char>> {
    fs.map_values(|f: TsFlag| flag_text(f))
}

fn no_texts() -> (r: Vec<String>)
    ensures
        strings_view(r@) == Seq::<Seq<char>>::empty(),
{
    let r: Vec<String> = Vec::new();
    assert(strings_view(r@) =~= Seq::<Seq<char>>::empty());
    r
}

fn one_text(s: &str) -> (r: Vec<String>)
    ensures
        strings_view(r@) == seq![s@],
{
    let mut r: Vec<String> = Vec::new();
    r.push(owned(s));
    assert(strings_view(r@) =~= seq![s@]);
    r
}

fn one_string(s: String) -> (r: Vec<String>)
    ensures
        strings_view(r@) == seq![s@],
{
    let ghost v = s@;
    let mut r: Vec<String> = Vec::new();
    r.push(s);
    assert(strings_view(r@) =~= seq![v]);
    r
}

fn opt_bool_texts_exec(o: Option<DnfBool>) -> (r: Vec<String>)
    ensures
        strings_view(r@) == opt_bool_texts(o),
{
    match o {
        Some(b) => one_string(b.to_string()),
        None => no_texts(),
    }
}

fn storage_text_exec(s: StorageSize) -> (r: String)
    ensures
        r@ == storage_text(s),
{
    decimal_text(s.0)
}

fn opt_storage_texts_exec(o: Option<StorageSize>) -> (r: Vec<String>)
    ensures
        strings_view(r@) == opt_storage_texts(o),
{
    match o {
        Some(s) => one_string(storage_text_exec(s)),
        None => no_texts(),
    }
}

fn opt_throttle_texts_exec(o: Option<Throttle>) -> (r: Vec<String>)
    ensures
        strings_view(r@) == opt_throttle_texts(o),
{
    match o {
        Some(Throttle::Absolute(s)) => one_string(storage_text_exec(s)),
        Some(Throttle::Percent(p)) => {
            let mut t = decimal_text(p as u64);
            push_char(&mut t, '%');
            one_string(t)
        },
        None => no_texts(),
    }
}

fn opt_expire_texts_exec(o: Option<MetadataExpire>) -> (r: Vec<String>)
    ensures
        strings_view(r@) == opt_expire_texts(o),
{
    match o {
        Some(MetadataExpire::Duration(n)) => one_string(decimal_text(n)),
        Some(MetadataExpire::Never) => one_text("never"),
        None => no_texts(),
    }
}

fn opt_ip_texts_exec(o: Option<IpResolve>) -> (r: Vec<String>)
    ensures
        strings_view(r@) == opt_ip_texts(o),
{
    match o {
        Some(IpResolve::V4) => one_text("4"),
        Some(IpResolve::V6) => one_text("6"),
        None => no_texts(),
    }
}

fn opt_auth_texts_exec(o: Option<ProxyAuthMethod>) -> (r: Vec<String>)
    ensures
        strings_view(r@) == opt_auth_texts(o),
{
    match o {
        Some(ProxyAuthMethod::Any) => one_text("any"),
        Some(ProxyAuthMethod::None_) => one_text("none"),
        Some(ProxyAuthMethod::Basic) => one_text("basic"),
        Some(ProxyAuthMethod::Digest) => one_text("digest"),
        Some(ProxyAuthMethod::Negotiate) => one_text("negotiate"),
        Some(ProxyAuthMethod::Ntlm) => one_text("ntlm"),
        Some(ProxyAuthMethod::DigestIe) => one_text("digest_ie"),
        Some(ProxyAuthMethod::NtlmWb) => one_text("ntlm_wb"),
        None => no_texts(),
    }
}

fn opt_rtype_texts_exec(o: Option<RepoMetadataType>) -> (r: Vec<String>)
    ensures
        strings_view(r@) == opt_rtype_texts(o),
{
    match o {
        Some(RepoMetadataType::RpmMd) => one_text("rpm-md"),
        None => no_texts(),
    }
}

fn opt_multilib_texts_exec(o: Option<MultilibPolicy>) -> (r: Vec<String>)
    ensures
        strings_view(r@) == opt_multilib_texts(o),
{
    match o {
        Some(MultilibPolicy::Best) => one_text("best"),
        Some(MultilibPolicy::All) => one_text("all"),
        None => no_texts(),
    }
}

fn opt_persist_texts_exec(o: Option<Persistence>) -> (r: Vec<String>)
    ensures
        strings_view(r@) == opt_persist_texts(o),
{
    match o {
        Some(Persistence::Auto) => one_text("auto"),
        Some(Persistence::Transient) => one_text("transient"),
        Some(Persistence::Persist) => one_text("persist"),
        None => no_texts(),
    }
}

fn opt_verbosity_texts_exec(o: Option<RpmVerbosity>) -> (r: Vec<String>)
    ensures
        strings_view(r@) == opt_verbosity_texts(o),
{
    match o {
        Some(RpmVerbosity::Critical) => one_text("critical"),
        Some(RpmVerbosity::Emergency) => one_text("emergency"),
        Some(RpmVerbosity::Error) => one_text("error"),
        Some(RpmVerbosity::Warn) => one_text("warn"),
        Some(RpmVerbosity::Info) => one_text("info"),
        Some(RpmVerbosity::Debug) => one_text("debug"),
        None => no_texts(),
    }
}

fn opt_path_texts_exec(o: &Option<Utf8PathBuf>) -> (r: Vec<String>)
    ensures
        strings_view(r@) == opt_path_texts(*o),
{
    match o {
        Some(p) => one_string(path_str(p)),
        None => no_texts(),
    }
}

fn paths_texts_exec(v: &Vec<Utf8PathBuf>) -> (r: Vec<String>)
    ensures
        strings_view(r@) == paths_texts(v@),
{
    let mut r: Vec<String> = Vec::new();
    let mut i: usize = 0;
    while i < v.len()
        invariant
            i <= v@.len(),
            strings_view(r@) == paths_texts(v@.subrange(0, i as int)),
        decreases v@.len() - i,
    {
        let ghost before = r@;
        let s = path_str(&v[i]);
        let ghost sv = s@;
        r.push(s);
        proof {
            assert(strings_view(r@) =~= strings_view(before).push(sv));
            assert(paths_texts(v@.subrange(0, i + 1)) =~= paths_texts(v@.subrange(0, i as int)).push(path_text(v@[i as int])));
        }
        i = i + 1;
    }
    assert(v@.subrange(0, v@.len() as int) =~= v@);
    r
}

fn url_texts(v: &Vec<Url>) -> (r: Vec<String>)
    ensures
        strings_view(r@) == urls_view(v@),
{
    let mut r: Vec<String> = Vec::new();
    let mut i: usize = 0;
    while i < v.len()
        invariant
            i <= v@.len(),
            strings_view(r@) == urls_view(v@.subrange(0, i as int)),
        decreases v@.len() - i,
    {
        let ghost before = r@;
        let s = owned(v[i].as_str());
        let ghost sv = s@;
        r.push(s);
        proof {
            assert(strings_view(r@) =~= strings_view(before).push(sv));
            assert(urls_view(v@.subrange(0, i + 1)) =~= urls_view(v@.subrange(0, i as int)).push(v@[i as int]@));
        }
        i = i + 1;
    }
    assert(v@.subrange(0, v@.len() as int) =~= v@);
    r
}

fn proxy_texts_exec(p: &ProxySetting) -> (r: Vec<String>)
    ensures
        strings_view(r@) == proxy_texts(p@),
{
    match p {
        ProxySetting::Unset => no_texts(),
        ProxySetting::Disabled => one_text("_none_"),
        ProxySetting::Url(u) => one_text(u.as_str()),
        ProxySetting::Raw(s) => one_text(s.as_str()),
    }
}

fn flag_text_exec(f: TsFlag) -> (r: String)
    ensures
        r@ == flag_text(f),
{
    match f {
        TsFlag::NoScripts => owned("noscripts"),
        TsFlag::Test => owned("test"),
        TsFlag::NoTriggers => owned("notriggers"),
        TsFlag::NoDocs => owned("nodocs"),
        TsFlag::JustDb => owned("justdb"),
        TsFlag::NoContexts => owned("nocontexts"),
        TsFlag::NoCaps => owned("nocaps"),
        TsFlag::NoCrypto => owned("nocrypto"),
        TsFlag::Deploops => owned("deploops"),
        TsFlag::NoPlugins => owned("noplugins"),
    }
}

fn flags_texts_exec(v: &Vec<TsFlag>) -> (r: Vec<String>)
    ensures
        strings_view(r@) == flags_texts(v@),
{
    let mut r: Vec<String> = Vec::new();
    let mut i: usize = 0;
    while i < v.len()
        invariant
            i <= v@.len(),
            strings_view(r@) == flags_texts(v@.subrange(0, i as int)),
        decreases v@.len() - i,
    {
        let ghost before = r@;
        let s = flag_text_exec(v[i]);
        let ghost sv = s@;
        r.push(s);
        proof {
            assert(strings_view(r@) =~= strings_view(before).push(sv));
            assert(flags_texts(v@.subrange(0, i + 1)) =~= flags_texts(v@.subrange(0, i as int)).push(flag_text(v@[i as int])));
        }
        i = i + 1;
    }
    assert(v@.subrange(0, v@.len() as int) =~= v@);
    r
}

// ============================================================================
// Options whose typed value differs from what the entries give
// ============================================================================

/// The table of changed keys, extended by `k` when its values `a` differ
/// from `b`.
pub open spec fn change_step(
    t: Seq<(Seq<char>, Seq<Seq<char>>)>,
    k: Seq<char>,
    a: Seq<Seq<char>>,
    b: Seq<Seq<char>>,
) -> Seq<(Seq<char>, Seq<Seq<char>>)> {
    if a == b {
        t
    } else {
        t.push((k, a))
    }
}

/// The plain-value model of a table of changed keys.
pub open spec fn changes_view(v: Seq<(String, Vec<String>)>) -> Seq<(Seq<char>, Seq<Seq<char>>)> {
    v.map_values(|p: (String, Vec<String>)| (p.0@, strings_view(p.1@)))
}

/// Whether two lists of texts are equal.
fn texts_eq(a: &Vec<String>, b: &Vec<String>) -> (r: bool)
    ensures
        r == (strings_view(a@) == strings_view(b@)),
{
    if a.len() != b.len() {
        assert(strings_view(a@).len() != strings_view(b@).len());
        return false;
    }
    let mut i: usize = 0;
    while i < a.len()
        invariant
            i <= a@.len() == b@.len(),
            forall|k: int| 0 <= k < i ==> a@[k]@ == b@[k]@,
        decreases a@.len() - i,
    {
        if !str_eq(a[i].as_str(), b[i].as_str()) {
            assert(strings_view(a@)[i as int] != strings_view(b@)[i as int]);
            return false;
        }
        i = i + 1;
    }
    assert(strings_view(a@) =~= strings_view(b@));
    true
}

/// Add `key` with the values `a` when they differ from `b`.
fn note_change(t: &mut Vec<(String, Vec<String>)>, key: &str, a: Vec<String>, b: Vec<String>)
    ensures
        changes_view(final(t)@) == change_step(changes_view(old(t)@), key@, strings_view(a@), strings_view(b@)),
{
    if !texts_eq(&a, &b) {
        let ghost before = t@;
        let ghost av = strings_view(a@);
        t.push((owned(key), a));
        assert(changes_view(t@) =~= changes_view(before).push((key@, av))) by {
            assert(t@ == before.push(t@.last()));
        }
    }
}

/// Part 1 of [`repo_changes`].
pub open spec fn repo_changes_0(d: RepoView, f: RepoView, t0: Seq<(Seq<char>, Seq<Seq<char>>)>) -> Seq<(Seq<char>, Seq<Seq<char>>)> {
    let t1 = change_step(t0, "name"@, opt_text(d.name), opt_text(f.name));
    let t2 = change_step(t1, "baseurl"@, d.baseurl, f.baseurl);
    let t3 = change_step(t2, "mirrorlist"@, opt_text(d.mirrorlist), opt_text(f.mirrorlist));
    let t4 = change_step(t3, "metalink"@, opt_text(d.metalink), opt_text(f.metalink));
    let t5 = change_step(t4, "gpgkey"@, d.gpgkey, f.gpgkey);
    let t6 = change_step(t5, "enabled"@, opt_bool_texts(d.enabled), opt_bool_texts(f.enabled));
    let t7 = change_step(t6, "priority"@, opt_int_texts(d.priority), opt_int_texts(f.priority));
    let t8 = change_step(t7, "cost"@, opt_int_texts(d.cost), opt_int_texts(f.cost));
    t8
}

/// Part 2 of [`repo_changes`].
pub open spec fn repo_changes_1(d: RepoView, f: RepoView, t0: Seq<(Seq<char>, Seq<Seq<char>>)>) -> Seq<(Seq<char>, Seq<Seq<char>>)> {
    let t1 = change_step(t0, "module_hotfixes"@, opt_bool_texts(d.module_hotfixes), opt_bool_texts(f.module_hotfixes));
    let t2 = change_step(t1, "type"@, opt_rtype_texts(d.metadata_type), opt_rtype_texts(f.metadata_type));
    let t3 = change_step(t2, "mediaid"@, opt_text(d.mediaid), opt_text(f.mediaid));
    let t4 = change_step(t3, "enabled_metadata"@, d.enabled_metadata, f.enabled_metadata);
    let t5 = change_step(t4, "excludepkgs"@, d.excludepkgs, f.excludepkgs);
    let t6 = change_step(t5, "includepkgs"@, d.includepkgs, f.includepkgs);
    let t7 = change_step(t6, "gpgcheck"@, opt_bool_texts(d.gpgcheck), opt_bool_texts(f.gpgcheck));
    let t8 = change_step(t7, "repo_gpgcheck"@, opt_bool_texts(d.repo_gpgcheck), opt_bool_texts(f.repo_gpgcheck));
    t8
}

/// Part 3 of [`repo_changes`].
pub open spec fn repo_changes_2(d: RepoView, f: RepoView, t0: Seq<(Seq<char>, Seq<Seq<char>>)>) -> Seq<(Seq<char>, Seq<Seq<char>>)> {
    let t1 = change_step(t0, "localpkg_gpgcheck"@, opt_bool_texts(d.localpkg_gpgcheck), opt_bool_texts(f.localpkg_gpgcheck));
    let t2 = change_step(t1, "skip_if_unavailable"@, opt_bool_texts(d.skip_if_unavailable), opt_bool_texts(f.skip_if_unavailable));
    let t3 = change_step(t2, "deltarpm"@, opt_bool_texts(d.deltarpm), opt_bool_texts(f.deltarpm));
    let t4 = change_step(t3, "deltarpm_percentage"@, opt_u32_texts(d.deltarpm_percentage), opt_u32_texts(f.deltarpm_percentage));
    let t5 = change_step(t4, "enablegroups"@, opt_bool_texts(d.enablegroups), opt_bool_texts(f.enablegroups));
    let t6 = change_step(t5, "fastestmirror"@, opt_bool_texts(d.fastestmirror), opt_bool_texts(f.fastestmirror));
    let t7 = change_step(t6, "countme"@, opt_bool_texts(d.countme), opt_bool_texts(f.countme));
    let t8 = change_step(t7, "bandwidth"@, opt_storage_texts(d.bandwidth), opt_storage_texts(f.bandwidth));
    t8
}

/// Part 4 of [`repo_changes`].
pub open spec fn repo_changes_3(d: RepoView, f: RepoView, t0: Seq<(Seq<char>, Seq<Seq<char>>)>) -> Seq<(Seq<char>, Seq<Seq<char>>)> {
    let t1 = change_step(t0, "throttle"@, opt_throttle_texts(d.throttle), opt_throttle_texts(f.throttle));
    let t2 = change_step(t1, "minrate"@, opt_storage_texts(d.minrate), opt_storage_texts(f.minrate));
    let t3 = change_step(t2, "retries"@, opt_u32_texts(d.retries), opt_u32_texts(f.retries));
    let t4 = change_step(t3, "timeout"@, opt_u32_texts(d.timeout), opt_u32_texts(f.timeout));
    let t5 = change_step(t4, "max_parallel_downloads"@, opt_u32_texts(d.max_parallel_downloads), opt_u32_texts(f.max_parallel_downloads));
    let t6 = change_step(t5, "metadata_expire"@, opt_expire_texts(d.metadata_expire), opt_expire_texts(f.metadata_expire));
    let t7 = change_step(t6, "ip_resolve"@, opt_ip_texts(d.ip_resolve), opt_ip_texts(f.ip_resolve));
    let t8 = change_step(t7, "sslverify"@, opt_bool_texts(d.sslverify), opt_bool_texts(f.sslverify));
    t8
}

/// Part 5 of [`repo_changes`].
pub open spec fn repo_changes_4(d: RepoView, f: RepoView, t0: Seq<(Seq<char>, Seq<Seq<char>>)>) -> Seq<(Seq<char>, Seq<Seq<char>>)> {
    let t1 = change_step(t0, "sslverifystatus"@, opt_bool_texts(d.sslverifystatus), opt_bool_texts(f.sslverifystatus));
    let t2 = change_step(t1, "sslcacert"@, opt_path_texts(d.sslcacert), opt_path_texts(f.sslcacert));
    let t3 = change_step(t2, "sslclientcert"@, opt_path_texts(d.sslclientcert), opt_path_texts(f.sslclientcert));
    let t4 = change_step(t3, "sslclientkey"@, opt_path_texts(d.sslclientkey), opt_path_texts(f.sslclientkey));
    let t5 = change_step(t4, "proxy"@, proxy_texts(d.proxy), proxy_texts(f.proxy));
    let t6 = change_step(t5, "proxy_username"@, opt_text(d.proxy_username), opt_text(f.proxy_username));
    let t7 = change_step(t6, "proxy_password"@, opt_text(d.proxy_password), opt_text(f.proxy_password));
    let t8 = change_step(t7, "proxy_auth_method"@, opt_auth_texts(d.proxy_auth_method), opt_auth_texts(f.proxy_auth_method));
    t8
}

/// Part 6 of [`repo_changes`].
pub open spec fn repo_changes_5(d: RepoView, f: RepoView, t0: Seq<(Seq<char>, Seq<Seq<char>>)>) -> Seq<(Seq<char>, Seq<Seq<char>>)> {
    let t1 = change_step(t0, "proxy_sslverify"@, opt_bool_texts(d.proxy_sslverify), opt_bool_texts(f.proxy_sslverify));
    let t2 = change_step(t1, "proxy_sslcacert"@, opt_path_texts(d.proxy_sslcacert), opt_path_texts(f.proxy_sslcacert));
    let t3 = change_step(t2, "proxy_sslclientcert"@, opt_path_texts(d.proxy_sslclientcert), opt_path_texts(f.proxy_sslclientcert));
    let t4 = change_step(t3, "proxy_sslclientkey"@, opt_path_texts(d.proxy_sslclientkey), opt_path_texts(f.proxy_sslclientkey));
    let t5 = change_step(t4, "username"@, opt_text(d.username), opt_text(f.username));
    let t6 = change_step(t5, "password"@, opt_text(d.password), opt_text(f.password));
    let t7 = change_step(t6, "user_agent"@, opt_text(d.user_agent), opt_text(f.user_agent));
    t7
}

/// The keys whose written values differ between two Repo values, each
/// with the values of the first, in field order.
pub open spec fn repo_changes(d: RepoView, f: RepoView) -> Seq<(Seq<char>, Seq<Seq<char>>)> {
    repo_changes_5(d, f, repo_changes_4(d, f, repo_changes_3(d, f, repo_changes_2(d, f, repo_changes_1(d, f, repo_changes_0(d, f, Seq::<(Seq<char>, Seq<Seq<char>>)>::empty()))))))
}

fn repo_changes_exec_0(d: &Repo, f: &Repo, t: &mut Vec<(String, Vec<String>)>)
    ensures
        changes_view(final(t)@) == repo_changes_0(d@, f@, changes_view(old(t)@)),
{
    note_change(t, "name", match &d.name { Some(v) => one_text(v.as_ref()), None => no_texts() }, match &f.name { Some(v) => one_text(v.as_ref()), None => no_texts() });
    note_change(t, "baseurl", url_texts(&d.baseurl), url_texts(&f.baseurl));
    note_change(t, "mirrorlist", match &d.mirrorlist { Some(v) => one_text(v.as_str()), None => no_texts() }, match &f.mirrorlist { Some(v) => one_text(v.as_str()), None => no_texts() });
    note_change(t, "metalink", match &d.metalink { Some(v) => one_text(v.as_str()), None => no_texts() }, match &f.metalink { Some(v) => one_text(v.as_str()), None => no_texts() });
    note_change(t, "gpgkey", copy_strings(&d.gpgkey), copy_strings(&f.gpgkey));
    note_change(t, "enabled", opt_bool_texts_exec(d.enabled), opt_bool_texts_exec(f.enabled));
    note_change(t, "priority", match &d.priority { Some(v) => one_string(v.to_string()), None => no_texts() }, match &f.priority { Some(v) => one_string(v.to_string()), None => no_texts() });
    note_change(t, "cost", match &d.cost { Some(v) => one_string(v.to_string()), None => no_texts() }, match &f.cost { Some(v) => one_string(v.to_string()), None => no_texts() });
}

fn repo_changes_exec_1(d: &Repo, f: &Repo, t: &mut Vec<(String, Vec<String>)>)
    ensures
        changes_view(final(t)@) == repo_changes_1(d@, f@, changes_view(old(t)@)),
{
    note_change(t, "module_hotfixes", opt_bool_texts_exec(d.module_hotfixes), opt_bool_texts_exec(f.module_hotfixes));
    note_change(t, "type", opt_rtype_texts_exec(d.metadata_type), opt_rtype_texts_exec(f.metadata_type));
    note_change(t, "mediaid", match &d.mediaid { Some(v) => one_text(v.as_str()), None => no_texts() }, match &f.mediaid { Some(v) => one_text(v.as_str()), None => no_texts() });
    note_change(t, "enabled_metadata", copy_strings(&d.enabled_metadata), copy_strings(&f.enabled_metadata));
    note_change(t, "excludepkgs", copy_strings(&d.excludepkgs), copy_strings(&f.excludepkgs));
    note_change(t, "includepkgs", copy_strings(&d.includepkgs), copy_strings(&f.includepkgs));
    note_change(t, "gpgcheck", opt_bool_texts_exec(d.gpgcheck), opt_bool_texts_exec(f.gpgcheck));
    note_change(t, "repo_gpgcheck", opt_bool_texts_exec(d.repo_gpgcheck), opt_bool_texts_exec(f.repo_gpgcheck));
}

fn repo_changes_exec_2(d: &Repo, f: &Repo, t: &mut Vec<(String, Vec<String>)>)
    ensures
        changes_view(final(t)@) == repo_changes_2(d@, f@, changes_view(old(t)@)),
{
    note_change(t, "localpkg_gpgcheck", opt_bool_texts_exec(d.localpkg_gpgcheck), opt_bool_texts_exec(f.localpkg_gpgcheck));
    note_change(t, "skip_if_unavailable", opt_bool_texts_exec(d.skip_if_unavailable), opt_bool_texts_exec(f.skip_if_unavailable));
    note_change(t, "deltarpm", opt_bool_texts_exec(d.deltarpm), opt_bool_texts_exec(f.deltarpm));
    note_change(t, "deltarpm_percentage", match &d.deltarpm_percentage { Some(v) => one_string(v.to_string()), None => no_texts() }, match &f.deltarpm_percentage { Some(v) => one_string(v.to_string()), None => no_texts() });
    note_change(t, "enablegroups", opt_bool_texts_exec(d.enablegroups), opt_bool_texts_exec(f.enablegroups));
    note_change(t, "fastestmirror", opt_bool_texts_exec(d.fastestmirror), opt_bool_texts_exec(f.fastestmirror));
    note_change(t, "countme", opt_bool_texts_exec(d.countme), opt_bool_texts_exec(f.countme));
    note_change(t, "bandwidth", opt_storage_texts_exec(d.bandwidth), opt_storage_texts_exec(f.bandwidth));
}

fn repo_changes_exec_3(d: &Repo, f: &Repo, t: &mut Vec<(String, Vec<String>)>)
    ensures
        changes_view(final(t)@) == repo_changes_3(d@, f@, changes_view(old(t)@)),
{
    note_change(t, "throttle", opt_throttle_texts_exec(d.throttle), opt_throttle_texts_exec(f.throttle));
    note_change(t, "minrate", opt_storage_texts_exec(d.minrate), opt_storage_texts_exec(f.minrate));
    note_change(t, "retries", match &d.retries { Some(v) => one_string(v.to_string()), None => no_texts() }, match &f.retries { Some(v) => one_string(v.to_string()), None => no_texts() });
    note_change(t, "timeout", match &d.timeout { Some(v) => one_string(v.to_string()), None => no_texts() }, match &f.timeout { Some(v) => one_string(v.to_string()), None => no_texts() });
    note_change(t, "max_parallel_downloads", match &d.max_parallel_downloads { Some(v) => one_string(v.to_string()), None => no_texts() }, match &f.max_parallel_downloads { Some(v) => one_string(v.to_string()), None => no_texts() });
    note_change(t, "metadata_expire", opt_expire_texts_exec(d.metadata_expire), opt_expire_texts_exec(f.metadata_expire));
    note_change(t, "ip_resolve", opt_ip_texts_exec(d.ip_resolve), opt_ip_texts_exec(f.ip_resolve));
    note_change(t, "sslverify", opt_bool_texts_exec(d.sslverify), opt_bool_texts_exec(f.sslverify));
}

fn repo_changes_exec_4(d: &Repo, f: &Repo, t: &mut Vec<(String, Vec<String>)>)
    ensures
        changes_view(final(t)@) == repo_changes_4(d@, f@, changes_view(old(t)@)),
{
    note_change(t, "sslverifystatus", opt_bool_texts_exec(d.sslverifystatus), opt_bool_texts_exec(f.sslverifystatus));
    note_change(t, "sslcacert", opt_path_texts_exec(&d.sslcacert), opt_path_texts_exec(&f.sslcacert));
    note_change(t, "sslclientcert", opt_path_texts_exec(&d.sslclientcert), opt_path_texts_exec(&f.sslclientcert));
    note_change(t, "sslclientkey", opt_path_texts_exec(&d.sslclientkey), opt_path_texts_exec(&f.sslclientkey));
    note_change(t, "proxy", proxy_texts_exec(&d.proxy), proxy_texts_exec(&f.proxy));
    note_change(t, "proxy_username", match &d.proxy_username { Some(v) => one_text(v.as_ref()), None => no_texts() }, match &f.proxy_username { Some(v) => one_text(v.as_ref()), None => no_texts() });
    note_change(t, "proxy_password", match &d.proxy_password { Some(v) => one_text(v.as_ref()), None => no_texts() }, match &f.proxy_password { Some(v) => one_text(v.as_ref()), None => no_texts() });
    note_change(t, "proxy_auth_method", opt_auth_texts_exec(d.proxy_auth_method), opt_auth_texts_exec(f.proxy_auth_method));
}

fn repo_changes_exec_5(d: &Repo, f: &Repo, t: &mut Vec<(String, Vec<String>)>)
    ensures
        changes_view(final(t)@) == repo_changes_5(d@, f@, changes_view(old(t)@)),
{
    note_change(t, "proxy_sslverify", opt_bool_texts_exec(d.proxy_sslverify), opt_bool_texts_exec(f.proxy_sslverify));
    note_change(t, "proxy_sslcacert", opt_path_texts_exec(&d.proxy_sslcacert), opt_path_texts_exec(&f.proxy_sslcacert));
    note_change(t, "proxy_sslclientcert", opt_path_texts_exec(&d.proxy_sslclientcert), opt_path_texts_exec(&f.proxy_sslclientcert));
    note_change(t, "proxy_sslclientkey", opt_path_texts_exec(&d.proxy_sslclientkey), opt_path_texts_exec(&f.proxy_sslclientkey));
    note_change(t, "username", match &d.username { Some(v) => one_text(v.as_ref()), None => no_texts() }, match &f.username { Some(v) => one_text(v.as_ref()), None => no_texts() });
    note_change(t, "password", match &d.password { Some(v) => one_text(v.as_ref()), None => no_texts() }, match &f.password { Some(v) => one_text(v.as_ref()), None => no_texts() });
    note_change(t, "user_agent", match &d.user_agent { Some(v) => one_text(v.as_ref()), None => no_texts() }, match &f.user_agent { Some(v) => one_text(v.as_ref()), None => no_texts() });
}

/// The keys whose written values differ between `d` and `f`, with the
/// values of `d`.
pub fn repo_changes_exec(d: &Repo, f: &Repo) -> (t: Vec<(String, Vec<String>)>)
    ensures
        changes_view(t@) == repo_changes(d@, f@),
{
    let mut t: Vec<(String, Vec<String>)> = Vec::new();
    assert(changes_view(t@) =~= Seq::<(Seq<char>, Seq<Seq<char>>)>::empty());
    repo_changes_exec_0(d, f, &mut t);
    repo_changes_exec_1(d, f, &mut t);
    repo_changes_exec_2(d, f, &mut t);
    repo_changes_exec_3(d, f, &mut t);
    repo_changes_exec_4(d, f, &mut t);
    repo_changes_exec_5(d, f, &mut t);
    t
}

/// Part 1 of [`main_changes`].
pub open spec fn main_changes_0(d: MainConfigView, f: MainConfigView, t0: Seq<(Seq<char>, Seq<Seq<char>>)>) -> Seq<(Seq<char>, Seq<Seq<char>>)> {
    let t1 = change_step(t0, "arch"@, opt_text(d.arch), opt_text(f.arch));
    let t2 = change_step(t1, "basearch"@, opt_text(d.basearch), opt_text(f.basearch));
    let t3 = change_step(t2, "releasever"@, opt_text(d.releasever), opt_text(f.releasever));
    let t4 = change_step(t3, "cachedir"@, opt_path_texts(d.cachedir), opt_path_texts(f.cachedir));
    let t5 = change_step(t4, "persistdir"@, opt_path_texts(d.persistdir), opt_path_texts(f.persistdir));
    let t6 = change_step(t5, "logdir"@, opt_path_texts(d.logdir), opt_path_texts(f.logdir));
    let t7 = change_step(t6, "config_file_path"@, opt_path_texts(d.config_file_path), opt_path_texts(f.config_file_path));
    let t8 = change_step(t7, "installroot"@, opt_path_texts(d.installroot), opt_path_texts(f.installroot));
    t8
}

/// Part 2 of [`main_changes`].
pub open spec fn main_changes_1(d: MainConfigView, f: MainConfigView, t0: Seq<(Seq<char>, Seq<Seq<char>>)>) -> Seq<(Seq<char>, Seq<Seq<char>>)> {
    let t1 = change_step(t0, "reposdir"@, paths_texts(d.reposdir), paths_texts(f.reposdir));
    let t2 = change_step(t1, "varsdir"@, paths_texts(d.varsdir), paths_texts(f.varsdir));
    let t3 = change_step(t2, "pluginconfpath"@, paths_texts(d.pluginconfpath), paths_texts(f.pluginconfpath));
    let t4 = change_step(t3, "pluginpath"@, paths_texts(d.pluginpath), paths_texts(f.pluginpath));
    let t5 = change_step(t4, "debuglevel"@, opt_u8_texts(d.debuglevel), opt_u8_texts(f.debuglevel));
    let t6 = change_step(t5, "logfilelevel"@, opt_u8_texts(d.logfilelevel), opt_u8_texts(f.logfilelevel));
    let t7 = change_step(t6, "log_rotate"@, opt_u32_texts(d.log_rotate), opt_u32_texts(f.log_rotate));
    let t8 = change_step(t7, "log_size"@, opt_storage_texts(d.log_size), opt_storage_texts(f.log_size));
    t8
}

/// Part 3 of [`main_changes`].
pub open spec fn main_changes_2(d: MainConfigView, f: MainConfigView, t0: Seq<(Seq<char>, Seq<Seq<char>>)>) -> Seq<(Seq<char>, Seq<Seq<char>>)> {
    let t1 = change_step(t0, "installonly_limit"@, opt_u32_texts(d.installonly_limit), opt_u32_texts(f.installonly_limit));
    let t2 = change_step(t1, "errorlevel"@, opt_u8_texts(d.errorlevel), opt_u8_texts(f.errorlevel));
    let t3 = change_step(t2, "metadata_timer_sync"@, opt_u32_texts(d.metadata_timer_sync), opt_u32_texts(f.metadata_timer_sync));
    let t4 = change_step(t3, "allow_vendor_change"@, opt_bool_texts(d.allow_vendor_change), opt_bool_texts(f.allow_vendor_change));
    let t5 = change_step(t4, "assumeno"@, opt_bool_texts(d.assumeno), opt_bool_texts(f.assumeno));
    let t6 = change_step(t5, "assumeyes"@, opt_bool_texts(d.assumeyes), opt_bool_texts(f.assumeyes));
    let t7 = change_step(t6, "autocheck_running_kernel"@, opt_bool_texts(d.autocheck_running_kernel), opt_bool_texts(f.autocheck_running_kernel));
    let t8 = change_step(t7, "best"@, opt_bool_texts(d.best), opt_bool_texts(f.best));
    t8
}

/// Part 4 of [`main_changes`].
pub open spec fn main_changes_3(d: MainConfigView, f: MainConfigView, t0: Seq<(Seq<char>, Seq<Seq<char>>)>) -> Seq<(Seq<char>, Seq<Seq<char>>)> {
    let t1 = change_step(t0, "cacheonly"@, opt_bool_texts(d.cacheonly), opt_bool_texts(f.cacheonly));
    let t2 = change_step(t1, "check_config_file_age"@, opt_bool_texts(d.check_config_file_age), opt_bool_texts(f.check_config_file_age));
    let t3 = change_step(t2, "clean_requirements_on_remove"@, opt_bool_texts(d.clean_requirements_on_remove), opt_bool_texts(f.clean_requirements_on_remove));
    let t4 = change_step(t3, "debug_solver"@, opt_bool_texts(d.debug_solver), opt_bool_texts(f.debug_solver));
    let t5 = change_step(t4, "defaultyes"@, opt_bool_texts(d.defaultyes), opt_bool_texts(f.defaultyes));
    let t6 = change_step(t5, "diskspacecheck"@, opt_bool_texts(d.diskspacecheck), opt_bool_texts(f.diskspacecheck));
    let t7 = change_step(t6, "exclude_from_weak_autodetect"@, opt_bool_texts(d.exclude_from_weak_autodetect), opt_bool_texts(f.exclude_from_weak_autodetect));
    let t8 = change_step(t7, "exit_on_lock"@, opt_bool_texts(d.exit_on_lock), opt_bool_texts(f.exit_on_lock));
    t8
}

/// Part 5 of [`main_changes`].
pub open spec fn main_changes_4(d: MainConfigView, f: MainConfigView, t0: Seq<(Seq<char>, Seq<Seq<char>>)>) -> Seq<(Seq<char>, Seq<Seq<char>>)> {
    let t1 = change_step(t0, "gpgkey_dns_verification"@, opt_bool_texts(d.gpgkey_dns_verification), opt_bool_texts(f.gpgkey_dns_verification));
    let t2 = change_step(t1, "ignorearch"@, opt_bool_texts(d.ignorearch), opt_bool_texts(f.ignorearch));
    let t3 = change_step(t2, "install_weak_deps"@, opt_bool_texts(d.install_weak_deps), opt_bool_texts(f.install_weak_deps));
    let t4 = change_step(t3, "keepcache"@, opt_bool_texts(d.keepcache), opt_bool_texts(f.keepcache));
    let t5 = change_step(t4, "log_compress"@, opt_bool_texts(d.log_compress), opt_bool_texts(f.log_compress));
    let t6 = change_step(t5, "module_obsoletes"@, opt_bool_texts(d.module_obsoletes), opt_bool_texts(f.module_obsoletes));
    let t7 = change_step(t6, "module_stream_switch"@, opt_bool_texts(d.module_stream_switch), opt_bool_texts(f.module_stream_switch));
    let t8 = change_step(t7, "obsoletes"@, opt_bool_texts(d.obsoletes), opt_bool_texts(f.obsoletes));
    t8
}

/// Part 6 of [`main_changes`].
pub open spec fn main_changes_5(d: MainConfigView, f: MainConfigView, t0: Seq<(Seq<char>, Seq<Seq<char>>)>) -> Seq<(Seq<char>, Seq<Seq<char>>)> {
    let t1 = change_step(t0, "plugins"@, opt_bool_texts(d.plugins), opt_bool_texts(f.plugins));
    let t2 = change_step(t1, "protect_running_kernel"@, opt_bool_texts(d.protect_running_kernel), opt_bool_texts(f.protect_running_kernel));
    let t3 = change_step(t2, "strict"@, opt_bool_texts(d.strict), opt_bool_texts(f.strict));
    let t4 = change_step(t3, "upgrade_group_objects_upgrade"@, opt_bool_texts(d.upgrade_group_objects_upgrade), opt_bool_texts(f.upgrade_group_objects_upgrade));
    let t5 = change_step(t4, "zchunk"@, opt_bool_texts(d.zchunk), opt_bool_texts(f.zchunk));
    let t6 = change_step(t5, "installonlypkgs"@, d.installonlypkgs, f.installonlypkgs);
    let t7 = change_step(t6, "protected_packages"@, d.protected_packages, f.protected_packages);
    let t8 = change_step(t7, "exclude_from_weak"@, d.exclude_from_weak, f.exclude_from_weak);
    t8
}

/// Part 7 of [`main_changes`].
pub open spec fn main_changes_6(d: MainConfigView, f: MainConfigView, t0: Seq<(Seq<char>, Seq<Seq<char>>)>) -> Seq<(Seq<char>, Seq<Seq<char>>)> {
    let t1 = change_step(t0, "group_package_types"@, d.group_package_types, f.group_package_types);
    let t2 = change_step(t1, "optional_metadata_types"@, d.optional_metadata_types, f.optional_metadata_types);
    let t3 = change_step(t2, "tsflags"@, flags_texts(d.tsflags), flags_texts(f.tsflags));
    let t4 = change_step(t3, "usr_drift_protected_paths"@, d.usr_drift_protected_paths, f.usr_drift_protected_paths);
    let t5 = change_step(t4, "multilib_policy"@, opt_multilib_texts(d.multilib_policy), opt_multilib_texts(f.multilib_policy));
    let t6 = change_step(t5, "persistence"@, opt_persist_texts(d.persistence), opt_persist_texts(f.persistence));
    let t7 = change_step(t6, "rpmverbosity"@, opt_verbosity_texts(d.rpmverbosity), opt_verbosity_texts(f.rpmverbosity));
    let t8 = change_step(t7, "module_platform_id"@, opt_text(d.module_platform_id), opt_text(f.module_platform_id));
    t8
}

/// The keys whose written values differ between two MainConfig values, each
/// with the values of the first, in field order.
pub open spec fn main_changes(d: MainConfigView, f: MainConfigView) -> Seq<(Seq<char>, Seq<Seq<char>>)> {
    main_changes_6(d, f, main_changes_5(d, f, main_changes_4(d, f, main_changes_3(d, f, main_changes_2(d, f, main_changes_1(d, f, main_changes_0(d, f, Seq::<(Seq<char>, Seq<Seq<char>>)>::empty())))))))
}

fn main_changes_exec_0(d: &MainConfig, f: &MainConfig, t: &mut Vec<(String, Vec<String>)>)
    ensures
        changes_view(final(t)@) == main_changes_0(d@, f@, changes_view(old(t)@)),
{
    note_change(t, "arch", match &d.arch { Some(v) => one_text(v.as_str()), None => no_texts() }, match &f.arch { Some(v) => one_text(v.as_str()), None => no_texts() });
    note_change(t, "basearch", match &d.basearch { Some(v) => one_text(v.as_str()), None => no_texts() }, match &f.basearch { Some(v) => one_text(v.as_str()), None => no_texts() });
    note_change(t, "releasever", match &d.releasever { Some(v) => one_text(v.as_str()), None => no_texts() }, match &f.releasever { Some(v) => one_text(v.as_str()), None => no_texts() });
    note_change(t, "cachedir", opt_path_texts_exec(&d.cachedir), opt_path_texts_exec(&f.cachedir));
    note_change(t, "persistdir", opt_path_texts_exec(&d.persistdir), opt_path_texts_exec(&f.persistdir));
    note_change(t, "logdir", opt_path_texts_exec(&d.logdir), opt_path_texts_exec(&f.logdir));
    note_change(t, "config_file_path", opt_path_texts_exec(&d.config_file_path), opt_path_texts_exec(&f.config_file_path));
    note_change(t, "installroot", opt_path_texts_exec(&d.installroot), opt_path_texts_exec(&f.installroot));
}

fn main_changes_exec_1(d: &MainConfig, f: &MainConfig, t: &mut Vec<(String, Vec<String>)>)
    ensures
        changes_view(final(t)@) == main_changes_1(d@, f@, changes_view(old(t)@)),
{
    note_change(t, "reposdir", paths_texts_exec(&d.reposdir), paths_texts_exec(&f.reposdir));
    note_change(t, "varsdir", paths_texts_exec(&d.varsdir), paths_texts_exec(&f.varsdir));
    note_change(t, "pluginconfpath", paths_texts_exec(&d.pluginconfpath), paths_texts_exec(&f.pluginconfpath));
    note_change(t, "pluginpath", paths_texts_exec(&d.pluginpath), paths_texts_exec(&f.pluginpath));
    note_change(t, "debuglevel", match &d.debuglevel { Some(v) => one_string(v.to_string()), None => no_texts() }, match &f.debuglevel { Some(v) => one_string(v.to_string()), None => no_texts() });
    note_change(t, "logfilelevel", match &d.logfilelevel { Some(v) => one_string(v.to_string()), None => no_texts() }, match &f.logfilelevel { Some(v) => one_string(v.to_string()), None => no_texts() });
    note_change(t, "log_rotate", match &d.log_rotate { Some(v) => one_string(v.to_string()), None => no_texts() }, match &f.log_rotate { Some(v) => one_string(v.to_string()), None => no_texts() });
    note_change(t, "log_size", opt_storage_texts_exec(d.log_size), opt_storage_texts_exec(f.log_size));
}

fn main_changes_exec_2(d: &MainConfig, f: &MainConfig, t: &mut Vec<(String, Vec<String>)>)
    ensures
        changes_view(final(t)@) == main_changes_2(d@, f@, changes_view(old(t)@)),
{
    note_change(t, "installonly_limit", match &d.installonly_limit { Some(v) => one_string(v.to_string()), None => no_texts() }, match &f.installonly_limit { Some(v) => one_string(v.to_string()), None => no_texts() });
    note_change(t, "errorlevel", match &d.errorlevel { Some(v) => one_string(v.to_string()), None => no_texts() }, match &f.errorlevel { Some(v) => one_string(v.to_string()), None => no_texts() });
    note_change(t, "metadata_timer_sync", match &d.metadata_timer_sync { Some(v) => one_string(v.to_string()), None => no_texts() }, match &f.metadata_timer_sync { Some(v) => one_string(v.to_string()), None => no_texts() });
    note_change(t, "allow_vendor_change", opt_bool_texts_exec(d.allow_vendor_change), opt_bool_texts_exec(f.allow_vendor_change));
    note_change(t, "assumeno", opt_bool_texts_exec(d.assumeno), opt_bool_texts_exec(f.assumeno));
    note_change(t, "assumeyes", opt_bool_texts_exec(d.assumeyes), opt_bool_texts_exec(f.assumeyes));
    note_change(t, "autocheck_running_kernel", opt_bool_texts_exec(d.autocheck_running_kernel), opt_bool_texts_exec(f.autocheck_running_kernel));
    note_change(t, "best", opt_bool_texts_exec(d.best), opt_bool_texts_exec(f.best));
}

fn main_changes_exec_3(d: &MainConfig, f: &MainConfig, t: &mut Vec<(String, Vec<String>)>)
    ensures
        changes_view(final(t)@) == main_changes_3(d@, f@, changes_view(old(t)@)),
{
    note_change(t, "cacheonly", opt_bool_texts_exec(d.cacheonly), opt_bool_texts_exec(f.cacheonly));
    note_change(t, "check_config_file_age", opt_bool_texts_exec(d.check_config_file_age), opt_bool_texts_exec(f.check_config_file_age));
    note_change(t, "clean_requirements_on_remove", opt_bool_texts_exec(d.clean_requirements_on_remove), opt_bool_texts_exec(f.clean_requirements_on_remove));
    note_change(t, "debug_solver", opt_bool_texts_exec(d.debug_solver), opt_bool_texts_exec(f.debug_solver));
    note_change(t, "defaultyes", opt_bool_texts_exec(d.defaultyes), opt_bool_texts_exec(f.defaultyes));
    note_change(t, "diskspacecheck", opt_bool_texts_exec(d.diskspacecheck), opt_bool_texts_exec(f.diskspacecheck));
    note_change(t, "exclude_from_weak_autodetect", opt_bool_texts_exec(d.exclude_from_weak_autodetect), opt_bool_texts_exec(f.exclude_from_weak_autodetect));
    note_change(t, "exit_on_lock", opt_bool_texts_exec(d.exit_on_lock), opt_bool_texts_exec(f.exit_on_lock));
}

fn main_changes_exec_4(d: &MainConfig, f: &MainConfig, t: &mut Vec<(String, Vec<String>)>)
    ensures
        changes_view(final(t)@) == main_changes_4(d@, f@, changes_view(old(t)@)),
{
    note_change(t, "gpgkey_dns_verification", opt_bool_texts_exec(d.gpgkey_dns_verification), opt_bool_texts_exec(f.gpgkey_dns_verification));
    note_change(t, "ignorearch", opt_bool_texts_exec(d.ignorearch), opt_bool_texts_exec(f.ignorearch));
    note_change(t, "install_weak_deps", opt_bool_texts_exec(d.install_weak_deps), opt_bool_texts_exec(f.install_weak_deps));
    note_change(t, "keepcache", opt_bool_texts_exec(d.keepcache), opt_bool_texts_exec(f.keepcache));
    note_change(t, "log_compress", opt_bool_texts_exec(d.log_compress), opt_bool_texts_exec(f.log_compress));
    note_change(t, "module_obsoletes", opt_bool_texts_exec(d.module_obsoletes), opt_bool_texts_exec(f.module_obsoletes));
    note_change(t, "module_stream_switch", opt_bool_texts_exec(d.module_stream_switch), opt_bool_texts_exec(f.module_stream_switch));
    note_change(t, "obsoletes", opt_bool_texts_exec(d.obsoletes), opt_bool_texts_exec(f.obsoletes));
}

fn main_changes_exec_5(d: &MainConfig, f: &MainConfig, t: &mut Vec<(String, Vec<String>)>)
    ensures
        changes_view(final(t)@) == main_changes_5(d@, f@, changes_view(old(t)@)),
{
    note_change(t, "plugins", opt_bool_texts_exec(d.plugins), opt_bool_texts_exec(f.plugins));
    note_change(t, "protect_running_kernel", opt_bool_texts_exec(d.protect_running_kernel), opt_bool_texts_exec(f.protect_running_kernel));
    note_change(t, "strict", opt_bool_texts_exec(d.strict), opt_bool_texts_exec(f.strict));
    note_change(t, "upgrade_group_objects_upgrade", opt_bool_texts_exec(d.upgrade_group_objects_upgrade), opt_bool_texts_exec(f.upgrade_group_objects_upgrade));
    note_change(t, "zchunk", opt_bool_texts_exec(d.zchunk), opt_bool_texts_exec(f.zchunk));
    note_change(t, "installonlypkgs", copy_strings(&d.installonlypkgs), copy_strings(&f.installonlypkgs));
    note_change(t, "protected_packages", copy_strings(&d.protected_packages), copy_strings(&f.protected_packages));
    note_change(t, "exclude_from_weak", copy_strings(&d.exclude_from_weak), copy_strings(&f.exclude_from_weak));
}

fn main_changes_exec_6(d: &MainConfig, f: &MainConfig, t: &mut Vec<(String, Vec<String>)>)
    ensures
        changes_view(final(t)@) == main_changes_6(d@, f@, changes_view(old(t)@)),
{
    note_change(t, "group_package_types", copy_strings(&d.group_package_types), copy_strings(&f.group_package_types));
    note_change(t, "optional_metadata_types", copy_strings(&d.optional_metadata_types), copy_strings(&f.optional_metadata_types));
    note_change(t, "tsflags", flags_texts_exec(&d.tsflags), flags_texts_exec(&f.tsflags));
    note_change(t, "usr_drift_protected_paths", copy_strings(&d.usr_drift_protected_paths), copy_strings(&f.usr_drift_protected_paths));
    note_change(t, "multilib_policy", opt_multilib_texts_exec(d.multilib_policy), opt_multilib_texts_exec(f.multilib_policy));
    note_change(t, "persistence", opt_persist_texts_exec(d.persistence), opt_persist_texts_exec(f.persistence));
    note_change(t, "rpmverbosity", opt_verbosity_texts_exec(d.rpmverbosity), opt_verbosity_texts_exec(f.rpmverbosity));
    note_change(t, "module_platform_id", match &d.module_platform_id { Some(v) => one_text(v.as_ref()), None => no_texts() }, match &f.module_platform_id { Some(v) => one_text(v.as_ref()), None => no_texts() });
}

/// The keys whose written values differ between `d` and `f`, with the
/// values of `d`.
pub fn main_changes_exec(d: &MainConfig, f: &MainConfig) -> (t: Vec<(String, Vec<String>)>)
    ensures
        changes_view(t@) == main_changes(d@, f@),
{
    let mut t: Vec<(String, Vec<String>)> = Vec::new();
    assert(changes_view(t@) =~= Seq::<(Seq<char>, Seq<Seq<char>>)>::empty());
    main_changes_exec_0(d, f, &mut t);
    main_changes_exec_1(d, f, &mut t);
    main_changes_exec_2(d, f, &mut t);
    main_changes_exec_3(d, f, &mut t);
    main_changes_exec_4(d, f, &mut t);
    main_changes_exec_5(d, f, &mut t);
    main_changes_exec_6(d, f, &mut t);
    t
}

} // verus!
