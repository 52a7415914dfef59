//! Reading the entries of a section into typed data: each known key sets
//! its field of [`Repo`] or [`MainConfig`] when the value is valid for it,
//! and unknown keys are kept in `extras`.

use crate::collections::{
    comment_entries, comments_insert, comments_new, map_get, map_insert, string_list_entries,
    string_lists_get, string_lists_insert,
};
use crate::mainconfig::{MainConfig, MainConfigView};
use crate::repo::{Repo, RepoView};
use crate::repofile::{entries_view, RawEntry, RawEntryView};
use crate::text::{chars_eq_str, chars_of, copy_string, copy_strings, spec_trim, strings_view};
use crate::types::{
    path_from, spec_dnf_bool, url_serialization, utf8_path_of, Cost, DebugLevel,
    DeltaRpmPercentage, DnfBool, ErrorLevel, InstallOnlyLimit, LogLevel, LogRotate,
    MaxParallelDownloads, MetadataTimerSync, ModulePlatformId, Password, Priority, ProxyPassword,
    ProxyUsername, RepoName, Retries, TimeoutSeconds, TsFlag, Url, UserAgent, Username,
};
use crate::values::{
    parse_cost, parse_debug_level, parse_deltarpm_percentage, parse_error_level,
    parse_install_only_limit, parse_ip_resolve, parse_log_level, parse_log_rotate,
    parse_max_parallel_downloads, parse_metadata_expire, parse_metadata_timer_sync,
    parse_multilib_policy, parse_persistence, parse_priority, parse_proxy,
    parse_proxy_auth_method, parse_repo_type, parse_retries, parse_rpmverbosity,
    parse_storage_size, parse_throttle, parse_timeout, parse_tsflags, spec_parse_cost,
    spec_parse_ip_resolve, spec_parse_metadata_expire, spec_parse_multilib_policy,
    spec_parse_persistence, spec_parse_priority, spec_parse_proxy, spec_parse_proxy_auth_method,
    spec_parse_repo_type, spec_parse_rpmverbosity, spec_parse_storage_size, spec_parse_throttle,
    spec_parse_tsflags, spec_parse_u32_with, spec_parse_u8_with,
};
use indexmap::IndexMap;
use vstd::prelude::*;

verus! {

/// Unknown options after appending `value` to the list under `key` (a new
/// key goes last).
pub open spec fn extras_append(
    e: Seq<(Seq<char>, Seq<Seq<char>>)>,
    key: Seq<char>,
    value: Seq<char>,
) -> Seq<(Seq<char>, Seq<Seq<char>>)> {
    match map_get(e, key) {
        Some(vs) => map_insert(e, key, vs.push(value)),
        None => map_insert(e, key, seq![value]),
    }
}

/// Append a value to the list stored under a key (creating the list).
pub fn extras_push(m: &mut IndexMap<String, Vec<String>>, key: &String, value: &String)
    ensures
        string_list_entries(*final(m)) == extras_append(string_list_entries(*old(m)), key@, value@),
{
    let ghost e = string_list_entries(*m);
    let mut vs = match string_lists_get(m, key.as_str()) {
        Some(v) => copy_strings(v),
        None => Vec::new(),
    };
    let ghost before = strings_view(vs@);
    proof {
        match map_get(e, key@) {
            Some(old_vs) => {
                assert(before == old_vs);
            },
            None => {
                assert(before =~= Seq::<Seq<char>>::empty());
            },
        }
    }
    let ghost pre = vs@;
    vs.push(copy_string(value));
    assert(strings_view(vs@) =~= before.push(value@)) by {
        assert(vs@ == pre.push(vs@.last()));
    }
    proof {
        if map_get(e, key@) is None {
            assert(before.push(value@) =~= seq![value@]);
        }
    }
    string_lists_insert(m, copy_string(key), vs);
}

fn append_flags(v: &mut Vec<TsFlag>, f: &Vec<TsFlag>)
    ensures
        final(v)@ == old(v)@ + f@,
{
    let mut i: usize = 0;
    while i < f.len()
        invariant
            i <= f@.len(),
            v@ == old(v)@ + f@.subrange(0, i as int),
        decreases f@.len() - i,
    {
        v.push(f[i]);
        i = i + 1;
    }
    assert(f@.subrange(0, f@.len() as int) =~= f@);
}

/// The repository after reading one `key=value` entry: known keys set their typed
/// field when the value is valid for it; unknown keys are appended to `extras`.
pub open spec fn repo_apply(r: RepoView, key: Seq<char>, value: Seq<char>) -> RepoView {
    if key == "name"@ {
        if spec_trim(value).len() > 0 { RepoView { name: Some(spec_trim(value)), ..r } } else { r }
    } else if key == "mediaid"@ {
        { RepoView { mediaid: Some(value), ..r } }
    } else if key == "baseurl"@ {
        match url_serialization(value) { Some(u) => RepoView { baseurl: r.baseurl.push(u), ..r }, None => r }
    } else if key == "mirrorlist"@ {
        match url_serialization(value) { Some(u) => RepoView { mirrorlist: Some(u), ..r }, None => r }
    } else if key == "metalink"@ {
        match url_serialization(value) { Some(u) => RepoView { metalink: Some(u), ..r }, None => r }
    } else if key == "gpgkey"@ {
        { RepoView { gpgkey: r.gpgkey.push(value), ..r } }
    } else if key == "enabled_metadata"@ {
        { RepoView { enabled_metadata: r.enabled_metadata.push(value), ..r } }
    } else if key == "excludepkgs"@ {
        { RepoView { excludepkgs: r.excludepkgs.push(value), ..r } }
    } else if key == "includepkgs"@ {
        { RepoView { includepkgs: r.includepkgs.push(value), ..r } }
    } else if key == "enabled"@ {
        match spec_dnf_bool(value) { Some(b) => RepoView { enabled: Some(b), ..r }, None => r }
    } else if key == "module_hotfixes"@ {
        match spec_dnf_bool(value) { Some(b) => RepoView { module_hotfixes: Some(b), ..r }, None => r }
    } else if key == "gpgcheck"@ {
        match spec_dnf_bool(value) { Some(b) => RepoView { gpgcheck: Some(b), ..r }, None => r }
    } else if key == "repo_gpgcheck"@ {
        match spec_dnf_bool(value) { Some(b) => RepoView { repo_gpgcheck: Some(b), ..r }, None => r }
    } else if key == "localpkg_gpgcheck"@ {
        match spec_dnf_bool(value) { Some(b) => RepoView { localpkg_gpgcheck: Some(b), ..r }, None => r }
    } else if key == "skip_if_unavailable"@ {
        match spec_dnf_bool(value) { Some(b) => RepoView { skip_if_unavailable: Some(b), ..r }, None => r }
    } else if key == "deltarpm"@ {
        match spec_dnf_bool(value) { Some(b) => RepoView { deltarpm: Some(b), ..r }, None => r }
    } else if key == "enablegroups"@ {
        match spec_dnf_bool(value) { Some(b) => RepoView { enablegroups: Some(b), ..r }, None => r }
    } else if key == "fastestmirror"@ {
        match spec_dnf_bool(value) { Some(b) => RepoView { fastestmirror: Some(b), ..r }, None => r }
    } else if key == "countme"@ {
        match spec_dnf_bool(value) { Some(b) => RepoView { countme: Some(b), ..r }, None => r }
    } else if key == "sslverify"@ {
        match spec_dnf_bool(value) { Some(b) => RepoView { sslverify: Some(b), ..r }, None => r }
    } else if key == "sslverifystatus"@ {
        match spec_dnf_bool(value) { Some(b) => RepoView { sslverifystatus: Some(b), ..r }, None => r }
    } else if key == "proxy_sslverify"@ {
        match spec_dnf_bool(value) { Some(b) => RepoView { proxy_sslverify: Some(b), ..r }, None => r }
    } else if key == "priority"@ {
        match spec_parse_priority(value) { Some(n) => RepoView { priority: Some(n), ..r }, None => r }
    } else if key == "cost"@ {
        match spec_parse_cost(value) { Some(n) => RepoView { cost: Some(n), ..r }, None => r }
    } else if key == "deltarpm_percentage"@ {
        match spec_parse_u32_with(value, |x: u32| DeltaRpmPercentage::accepts(x)) { Some(n) => RepoView { deltarpm_percentage: Some(n), ..r }, None => r }
    } else if key == "retries"@ {
        match spec_parse_u32_with(value, |x: u32| Retries::accepts(x)) { Some(n) => RepoView { retries: Some(n), ..r }, None => r }
    } else if key == "timeout"@ {
        match spec_parse_u32_with(value, |x: u32| TimeoutSeconds::accepts(x)) { Some(n) => RepoView { timeout: Some(n), ..r }, None => r }
    } else if key == "max_parallel_downloads"@ {
        match spec_parse_u32_with(value, |x: u32| MaxParallelDownloads::accepts(x)) { Some(n) => RepoView { max_parallel_downloads: Some(n), ..r }, None => r }
    } else if key == "bandwidth"@ {
        match spec_parse_storage_size(value) { Some(x) => RepoView { bandwidth: Some(x), ..r }, None => r }
    } else if key == "minrate"@ {
        match spec_parse_storage_size(value) { Some(x) => RepoView { minrate: Some(x), ..r }, None => r }
    } else if key == "throttle"@ {
        match spec_parse_throttle(value) { Some(x) => RepoView { throttle: Some(x), ..r }, None => r }
    } else if key == "metadata_expire"@ {
        match spec_parse_metadata_expire(value) { Some(x) => RepoView { metadata_expire: Some(x), ..r }, None => r }
    } else if key == "ip_resolve"@ {
        match spec_parse_ip_resolve(value) { Some(x) => RepoView { ip_resolve: Some(x), ..r }, None => r }
    } else if key == "sslcacert"@ {
        { RepoView { sslcacert: Some(utf8_path_of(value)), ..r } }
    } else if key == "sslclientcert"@ {
        { RepoView { sslclientcert: Some(utf8_path_of(value)), ..r } }
    } else if key == "sslclientkey"@ {
        { RepoView { sslclientkey: Some(utf8_path_of(value)), ..r } }
    } else if key == "proxy"@ {
        { RepoView { proxy: spec_parse_proxy(value), ..r } }
    } else if key == "proxy_username"@ {
        { RepoView { proxy_username: Some(spec_trim(value)), ..r } }
    } else if key == "proxy_password"@ {
        { RepoView { proxy_password: Some(value), ..r } }
    } else if key == "proxy_auth_method"@ {
        match spec_parse_proxy_auth_method(value) { Some(x) => RepoView { proxy_auth_method: Some(x), ..r }, None => r }
    } else if key == "proxy_sslcacert"@ {
        { RepoView { proxy_sslcacert: Some(utf8_path_of(value)), ..r } }
    } else if key == "proxy_sslclientcert"@ {
        { RepoView { proxy_sslclientcert: Some(utf8_path_of(value)), ..r } }
    } else if key == "proxy_sslclientkey"@ {
        { RepoView { proxy_sslclientkey: Some(utf8_path_of(value)), ..r } }
    } else if key == "username"@ {
        { RepoView { username: Some(spec_trim(value)), ..r } }
    } else if key == "password"@ {
        { RepoView { password: Some(value), ..r } }
    } else if key == "user_agent"@ {
        { RepoView { user_agent: Some(spec_trim(value)), ..r } }
    } else if key == "type"@ {
        match spec_parse_repo_type(value) { Some(x) => RepoView { metadata_type: Some(x), ..r }, None => r }
    } else {
        RepoView { extras: extras_append(r.extras, key, value), ..r }
    }
}

/// The `[main]` configuration after reading one `key=value` entry.
pub open spec fn main_apply(r: MainConfigView, key: Seq<char>, value: Seq<char>) -> MainConfigView {
    if key == "arch"@ {
        { MainConfigView { arch: Some(value), ..r } }
    } else if key == "basearch"@ {
        { MainConfigView { basearch: Some(value), ..r } }
    } else if key == "releasever"@ {
        { MainConfigView { releasever: Some(value), ..r } }
    } else if key == "cachedir"@ {
        { MainConfigView { cachedir: Some(utf8_path_of(value)), ..r } }
    } else if key == "persistdir"@ {
        { MainConfigView { persistdir: Some(utf8_path_of(value)), ..r } }
    } else if key == "logdir"@ {
        { MainConfigView { logdir: Some(utf8_path_of(value)), ..r } }
    } else if key == "config_file_path"@ {
        { MainConfigView { config_file_path: Some(utf8_path_of(value)), ..r } }
    } else if key == "installroot"@ {
        { MainConfigView { installroot: Some(utf8_path_of(value)), ..r } }
    } else if key == "reposdir"@ {
        { MainConfigView { reposdir: r.reposdir.push(utf8_path_of(value)), ..r } }
    } else if key == "varsdir"@ {
        { MainConfigView { varsdir: r.varsdir.push(utf8_path_of(value)), ..r } }
    } else if key == "pluginconfpath"@ {
        { MainConfigView { pluginconfpath: r.pluginconfpath.push(utf8_path_of(value)), ..r } }
    } else if key == "pluginpath"@ {
        { MainConfigView { pluginpath: r.pluginpath.push(utf8_path_of(value)), ..r } }
    } else if key == "installonlypkgs"@ {
        { MainConfigView { installonlypkgs: r.installonlypkgs.push(value), ..r } }
    } else if key == "protected_packages"@ {
        { MainConfigView { protected_packages: r.protected_packages.push(value), ..r } }
    } else if key == "exclude_from_weak"@ {
        { MainConfigView { exclude_from_weak: r.exclude_from_weak.push(value), ..r } }
    } else if key == "group_package_types"@ {
        { MainConfigView { group_package_types: r.group_package_types.push(value), ..r } }
    } else if key == "optional_metadata_types"@ {
        { MainConfigView { optional_metadata_types: r.optional_metadata_types.push(value), ..r } }
    } else if key == "usr_drift_protected_paths"@ {
        { MainConfigView { usr_drift_protected_paths: r.usr_drift_protected_paths.push(value), ..r } }
    } else if key == "allow_vendor_change"@ {
        match spec_dnf_bool(value) { Some(b) => MainConfigView { allow_vendor_change: Some(b), ..r }, None => r }
    } else if key == "assumeno"@ {
        match spec_dnf_bool(value) { Some(b) => MainConfigView { assumeno: Some(b), ..r }, None => r }
    } else if key == "assumeyes"@ {
        match spec_dnf_bool(value) { Some(b) => MainConfigView { assumeyes: Some(b), ..r }, None => r }
    } else if key == "autocheck_running_kernel"@ {
        match spec_dnf_bool(value) { Some(b) => MainConfigView { autocheck_running_kernel: Some(b), ..r }, None => r }
    } else if key == "best"@ {
        match spec_dnf_bool(value) { Some(b) => MainConfigView { best: Some(b), ..r }, None => r }
    } else if key == "cacheonly"@ {
        match spec_dnf_bool(value) { Some(b) => MainConfigView { cacheonly: Some(b), ..r }, None => r }
    } else if key == "check_config_file_age"@ {
        match spec_dnf_bool(value) { Some(b) => MainConfigView { check_config_file_age: Some(b), ..r }, None => r }
    } else if key == "clean_requirements_on_remove"@ {
        match spec_dnf_bool(value) { Some(b) => MainConfigView { clean_requirements_on_remove: Some(b), ..r }, None => r }
    } else if key == "debug_solver"@ {
        match spec_dnf_bool(value) { Some(b) => MainConfigView { debug_solver: Some(b), ..r }, None => r }
    } else if key == "defaultyes"@ {
        match spec_dnf_bool(value) { Some(b) => MainConfigView { defaultyes: Some(b), ..r }, None => r }
    } else if key == "diskspacecheck"@ {
        match spec_dnf_bool(value) { Some(b) => MainConfigView { diskspacecheck: Some(b), ..r }, None => r }
    } else if key == "exclude_from_weak_autodetect"@ {
        match spec_dnf_bool(value) { Some(b) => MainConfigView { exclude_from_weak_autodetect: Some(b), ..r }, None => r }
    } else if key == "exit_on_lock"@ {
        match spec_dnf_bool(value) { Some(b) => MainConfigView { exit_on_lock: Some(b), ..r }, None => r }
    } else if key == "gpgkey_dns_verification"@ {
        match spec_dnf_bool(value) { Some(b) => MainConfigView { gpgkey_dns_verification: Some(b), ..r }, None => r }
    } else if key == "ignorearch"@ {
        match spec_dnf_bool(value) { Some(b) => MainConfigView { ignorearch: Some(b), ..r }, None => r }
    } else if key == "install_weak_deps"@ {
        match spec_dnf_bool(value) { Some(b) => MainConfigView { install_weak_deps: Some(b), ..r }, None => r }
    } else if key == "keepcache"@ {
        match spec_dnf_bool(value) { Some(b) => MainConfigView { keepcache: Some(b), ..r }, None => r }
    } else if key == "log_compress"@ {
        match spec_dnf_bool(value) { Some(b) => MainConfigView { log_compress: Some(b), ..r }, None => r }
    } else if key == "module_obsoletes"@ {
        match spec_dnf_bool(value) { Some(b) => MainConfigView { module_obsoletes: Some(b), ..r }, None => r }
    } else if key == "module_stream_switch"@ {
        match spec_dnf_bool(value) { Some(b) => MainConfigView { module_stream_switch: Some(b), ..r }, None => r }
    } else if key == "obsoletes"@ {
        match spec_dnf_bool(value) { Some(b) => MainConfigView { obsoletes: Some(b), ..r }, None => r }
    } else if key == "plugins"@ {
        match spec_dnf_bool(value) { Some(b) => MainConfigView { plugins: Some(b), ..r }, None => r }
    } else if key == "protect_running_kernel"@ {
        match spec_dnf_bool(value) { Some(b) => MainConfigView { protect_running_kernel: Some(b), ..r }, None => r }
    } else if key == "strict"@ {
        match spec_dnf_bool(value) { Some(b) => MainConfigView { strict: Some(b), ..r }, None => r }
    } else if key == "upgrade_group_objects_upgrade"@ {
        match spec_dnf_bool(value) { Some(b) => MainConfigView { upgrade_group_objects_upgrade: Some(b), ..r }, None => r }
    } else if key == "zchunk"@ {
        match spec_dnf_bool(value) { Some(b) => MainConfigView { zchunk: Some(b), ..r }, None => r }
    } else if key == "debuglevel"@ {
        match spec_parse_u8_with(value, |x: u8| DebugLevel::accepts(x)) { Some(n) => MainConfigView { debuglevel: Some(n), ..r }, None => r }
    } else if key == "logfilelevel"@ {
        match spec_parse_u8_with(value, |x: u8| LogLevel::accepts(x)) { Some(n) => MainConfigView { logfilelevel: Some(n), ..r }, None => r }
    } else if key == "log_rotate"@ {
        match spec_parse_u32_with(value, |x: u32| LogRotate::accepts(x)) { Some(n) => MainConfigView { log_rotate: Some(n), ..r }, None => r }
    } else if key == "installonly_limit"@ {
        match spec_parse_u32_with(value, |x: u32| InstallOnlyLimit::accepts(x)) { Some(n) => MainConfigView { installonly_limit: Some(n), ..r }, None => r }
    } else if key == "errorlevel"@ {
        match spec_parse_u8_with(value, |x: u8| ErrorLevel::accepts(x)) { Some(n) => MainConfigView { errorlevel: Some(n), ..r }, None => r }
    } else if key == "metadata_timer_sync"@ {
        match spec_parse_u32_with(value, |x: u32| MetadataTimerSync::accepts(x)) { Some(n) => MainConfigView { metadata_timer_sync: Some(n), ..r }, None => r }
    } else if key == "log_size"@ {
        match spec_parse_storage_size(value) { Some(x) => MainConfigView { log_size: Some(x), ..r }, None => r }
    } else if key == "multilib_policy"@ {
        match spec_parse_multilib_policy(value) { Some(x) => MainConfigView { multilib_policy: Some(x), ..r }, None => r }
    } else if key == "persistence"@ {
        match spec_parse_persistence(value) { Some(x) => MainConfigView { persistence: Some(x), ..r }, None => r }
    } else if key == "rpmverbosity"@ {
        match spec_parse_rpmverbosity(value) { Some(x) => MainConfigView { rpmverbosity: Some(x), ..r }, None => r }
    } else if key == "tsflags"@ {
        { MainConfigView { tsflags: r.tsflags + spec_parse_tsflags(value), ..r } }
    } else if key == "module_platform_id"@ {
        { MainConfigView { module_platform_id: Some(spec_trim(value)), ..r } }
    } else {
        MainConfigView { extras: extras_append(r.extras, key, value), ..r }
    }
}

/// Record one entry in the typed data.
fn apply_repo_entry(data: &mut Repo, key: &String, value: &String)
    ensures
        final(data)@ == repo_apply(old(data)@, key@, value@),
{
    let kc = chars_of(key.as_str());
    let k = kc.as_slice();
    let vcv = chars_of(value.as_str());
    let vc = vcv.as_slice();
    if chars_eq_str(k, "name") {
        match RepoName::try_new(value.as_str()) { Ok(n) => { data.name = Some(n); }, Err(_) => {} }
    } else if chars_eq_str(k, "mediaid") {
        data.mediaid = Some(copy_string(value));
    } else if chars_eq_str(k, "baseurl") {
        match Url::parse(value.as_str()) { Some(u) => { data.baseurl.push(u); }, None => {} }
    } else if chars_eq_str(k, "mirrorlist") {
        match Url::parse(value.as_str()) { Some(u) => { data.mirrorlist = Some(u); }, None => {} }
    } else if chars_eq_str(k, "metalink") {
        match Url::parse(value.as_str()) { Some(u) => { data.metalink = Some(u); }, None => {} }
    } else if chars_eq_str(k, "gpgkey") {
        data.gpgkey.push(copy_string(value));
    } else if chars_eq_str(k, "enabled_metadata") {
        data.enabled_metadata.push(copy_string(value));
    } else if chars_eq_str(k, "excludepkgs") {
        data.excludepkgs.push(copy_string(value));
    } else if chars_eq_str(k, "includepkgs") {
        data.includepkgs.push(copy_string(value));
    } else if chars_eq_str(k, "enabled") {
        match DnfBool::parse(value.as_str()) { Ok(b) => { data.enabled = Some(b); }, Err(_) => {} }
    } else if chars_eq_str(k, "module_hotfixes") {
        match DnfBool::parse(value.as_str()) { Ok(b) => { data.module_hotfixes = Some(b); }, Err(_) => {} }
    } else if chars_eq_str(k, "gpgcheck") {
        match DnfBool::parse(value.as_str()) { Ok(b) => { data.gpgcheck = Some(b); }, Err(_) => {} }
    } else if chars_eq_str(k, "repo_gpgcheck") {
        match DnfBool::parse(value.as_str()) { Ok(b) => { data.repo_gpgcheck = Some(b); }, Err(_) => {} }
    } else if chars_eq_str(k, "localpkg_gpgcheck") {
        match DnfBool::parse(value.as_str()) { Ok(b) => { data.localpkg_gpgcheck = Some(b); }, Err(_) => {} }
    } else if chars_eq_str(k, "skip_if_unavailable") {
        match DnfBool::parse(value.as_str()) { Ok(b) => { data.skip_if_unavailable = Some(b); }, Err(_) => {} }
    } else if chars_eq_str(k, "deltarpm") {
        match DnfBool::parse(value.as_str()) { Ok(b) => { data.deltarpm = Some(b); }, Err(_) => {} }
    } else if chars_eq_str(k, "enablegroups") {
        match DnfBool::parse(value.as_str()) { Ok(b) => { data.enablegroups = Some(b); }, Err(_) => {} }
    } else if chars_eq_str(k, "fastestmirror") {
        match DnfBool::parse(value.as_str()) { Ok(b) => { data.fastestmirror = Some(b); }, Err(_) => {} }
    } else if chars_eq_str(k, "countme") {
        match DnfBool::parse(value.as_str()) { Ok(b) => { data.countme = Some(b); }, Err(_) => {} }
    } else if chars_eq_str(k, "sslverify") {
        match DnfBool::parse(value.as_str()) { Ok(b) => { data.sslverify = Some(b); }, Err(_) => {} }
    } else if chars_eq_str(k, "sslverifystatus") {
        match DnfBool::parse(value.as_str()) { Ok(b) => { data.sslverifystatus = Some(b); }, Err(_) => {} }
    } else if chars_eq_str(k, "proxy_sslverify") {
        match DnfBool::parse(value.as_str()) { Ok(b) => { data.proxy_sslverify = Some(b); }, Err(_) => {} }
    } else if chars_eq_str(k, "priority") {
        match parse_priority(vc) { Some(n) => { data.priority = Some(n); }, None => {} }
    } else if chars_eq_str(k, "cost") {
        match parse_cost(vc) { Some(n) => { data.cost = Some(n); }, None => {} }
    } else if chars_eq_str(k, "deltarpm_percentage") {
        match parse_deltarpm_percentage(vc) { Some(n) => { data.deltarpm_percentage = Some(n); }, None => {} }
    } else if chars_eq_str(k, "retries") {
        match parse_retries(vc) { Some(n) => { data.retries = Some(n); }, None => {} }
    } else if chars_eq_str(k, "timeout") {
        match parse_timeout(vc) { Some(n) => { data.timeout = Some(n); }, None => {} }
    } else if chars_eq_str(k, "max_parallel_downloads") {
        match parse_max_parallel_downloads(vc) { Some(n) => { data.max_parallel_downloads = Some(n); }, None => {} }
    } else if chars_eq_str(k, "bandwidth") {
        match parse_storage_size(vc) { Some(n) => { data.bandwidth = Some(n); }, None => {} }
    } else if chars_eq_str(k, "minrate") {
        match parse_storage_size(vc) { Some(n) => { data.minrate = Some(n); }, None => {} }
    } else if chars_eq_str(k, "throttle") {
        match parse_throttle(vc) { Some(n) => { data.throttle = Some(n); }, None => {} }
    } else if chars_eq_str(k, "metadata_expire") {
        match parse_metadata_expire(vc) { Some(n) => { data.metadata_expire = Some(n); }, None => {} }
    } else if chars_eq_str(k, "ip_resolve") {
        match parse_ip_resolve(vc) { Some(n) => { data.ip_resolve = Some(n); }, None => {} }
    } else if chars_eq_str(k, "sslcacert") {
        data.sslcacert = Some(path_from(value.as_str()));
    } else if chars_eq_str(k, "sslclientcert") {
        data.sslclientcert = Some(path_from(value.as_str()));
    } else if chars_eq_str(k, "sslclientkey") {
        data.sslclientkey = Some(path_from(value.as_str()));
    } else if chars_eq_str(k, "proxy") {
        data.proxy = parse_proxy(vc);
    } else if chars_eq_str(k, "proxy_username") {
        data.proxy_username = Some(ProxyUsername::new(value.as_str()));
    } else if chars_eq_str(k, "proxy_password") {
        data.proxy_password = Some(ProxyPassword::new(value.as_str()));
    } else if chars_eq_str(k, "proxy_auth_method") {
        match parse_proxy_auth_method(vc) { Some(n) => { data.proxy_auth_method = Some(n); }, None => {} }
    } else if chars_eq_str(k, "proxy_sslcacert") {
        data.proxy_sslcacert = Some(path_from(value.as_str()));
    } else if chars_eq_str(k, "proxy_sslclientcert") {
        data.proxy_sslclientcert = Some(path_from(value.as_str()));
    } else if chars_eq_str(k, "proxy_sslclientkey") {
        data.proxy_sslclientkey = Some(path_from(value.as_str()));
    } else if chars_eq_str(k, "username") {
        data.username = Some(Username::new(value.as_str()));
    } else if chars_eq_str(k, "password") {
        data.password = Some(Password::new(value.as_str()));
    } else if chars_eq_str(k, "user_agent") {
        data.user_agent = Some(UserAgent::new(value.as_str()));
    } else if chars_eq_str(k, "type") {
        match parse_repo_type(vc) { Some(n) => { data.metadata_type = Some(n); }, None => {} }
    } else {
        extras_push(&mut data.extras, key, value);
    }
}

/// Record one entry in the typed data.
fn apply_main_entry(data: &mut MainConfig, key: &String, value: &String)
    ensures
        final(data)@ == main_apply(old(data)@, key@, value@),
{
    let kc = chars_of(key.as_str());
    let k = kc.as_slice();
    let vcv = chars_of(value.as_str());
    let vc = vcv.as_slice();
    if chars_eq_str(k, "arch") {
        data.arch = Some(copy_string(value));
    } else if chars_eq_str(k, "basearch") {
        data.basearch = Some(copy_string(value));
    } else if chars_eq_str(k, "releasever") {
        data.releasever = Some(copy_string(value));
    } else if chars_eq_str(k, "cachedir") {
        data.cachedir = Some(path_from(value.as_str()));
    } else if chars_eq_str(k, "persistdir") {
        data.persistdir = Some(path_from(value.as_str()));
    } else if chars_eq_str(k, "logdir") {
        data.logdir = Some(path_from(value.as_str()));
    } else if chars_eq_str(k, "config_file_path") {
        data.config_file_path = Some(path_from(value.as_str()));
    } else if chars_eq_str(k, "installroot") {
        data.installroot = Some(path_from(value.as_str()));
    } else if chars_eq_str(k, "reposdir") {
        data.reposdir.push(path_from(value.as_str()));
    } else if chars_eq_str(k, "varsdir") {
        data.varsdir.push(path_from(value.as_str()));
    } else if chars_eq_str(k, "pluginconfpath") {
        data.pluginconfpath.push(path_from(value.as_str()));
    } else if chars_eq_str(k, "pluginpath") {
        data.pluginpath.push(path_from(value.as_str()));
    } else if chars_eq_str(k, "installonlypkgs") {
        data.installonlypkgs.push(copy_string(value));
    } else if chars_eq_str(k, "protected_packages") {
        data.protected_packages.push(copy_string(value));
    } else if chars_eq_str(k, "exclude_from_weak") {
        data.exclude_from_weak.push(copy_string(value));
    } else if chars_eq_str(k, "group_package_types") {
        data.group_package_types.push(copy_string(value));
    } else if chars_eq_str(k, "optional_metadata_types") {
        data.optional_metadata_types.push(copy_string(value));
    } else if chars_eq_str(k, "usr_drift_protected_paths") {
        data.usr_drift_protected_paths.push(copy_string(value));
    } else if chars_eq_str(k, "allow_vendor_change") {
        match DnfBool::parse(value.as_str()) { Ok(b) => { data.allow_vendor_change = Some(b); }, Err(_) => {} }
    } else if chars_eq_str(k, "assumeno") {
        match DnfBool::parse(value.as_str()) { Ok(b) => { data.assumeno = Some(b); }, Err(_) => {} }
    } else if chars_eq_str(k, "assumeyes") {
        match DnfBool::parse(value.as_str()) { Ok(b) => { data.assumeyes = Some(b); }, Err(_) => {} }
    } else if chars_eq_str(k, "autocheck_running_kernel") {
        match DnfBool::parse(value.as_str()) { Ok(b) => { data.autocheck_running_kernel = Some(b); }, Err(_) => {} }
    } else if chars_eq_str(k, "best") {
        match DnfBool::parse(value.as_str()) { Ok(b) => { data.best = Some(b); }, Err(_) => {} }
    } else if chars_eq_str(k, "cacheonly") {
        match DnfBool::parse(value.as_str()) { Ok(b) => { data.cacheonly = Some(b); }, Err(_) => {} }
    } else if chars_eq_str(k, "check_config_file_age") {
        match DnfBool::parse(value.as_str()) { Ok(b) => { data.check_config_file_age = Some(b); }, Err(_) => {} }
    } else if chars_eq_str(k, "clean_requirements_on_remove") {
        match DnfBool::parse(value.as_str()) { Ok(b) => { data.clean_requirements_on_remove = Some(b); }, Err(_) => {} }
    } else if chars_eq_str(k, "debug_solver") {
        match DnfBool::parse(value.as_str()) { Ok(b) => { data.debug_solver = Some(b); }, Err(_) => {} }
    } else if chars_eq_str(k, "defaultyes") {
        match DnfBool::parse(value.as_str()) { Ok(b) => { data.defaultyes = Some(b); }, Err(_) => {} }
    } else if chars_eq_str(k, "diskspacecheck") {
        match DnfBool::parse(value.as_str()) { Ok(b) => { data.diskspacecheck = Some(b); }, Err(_) => {} }
    } else if chars_eq_str(k, "exclude_from_weak_autodetect") {
        match DnfBool::parse(value.as_str()) { Ok(b) => { data.exclude_from_weak_autodetect = Some(b); }, Err(_) => {} }
    } else if chars_eq_str(k, "exit_on_lock") {
        match DnfBool::parse(value.as_str()) { Ok(b) => { data.exit_on_lock = Some(b); }, Err(_) => {} }
    } else if chars_eq_str(k, "gpgkey_dns_verification") {
        match DnfBool::parse(value.as_str()) { Ok(b) => { data.gpgkey_dns_verification = Some(b); }, Err(_) => {} }
    } else if chars_eq_str(k, "ignorearch") {
        match DnfBool::parse(value.as_str()) { Ok(b) => { data.ignorearch = Some(b); }, Err(_) => {} }
    } else if chars_eq_str(k, "install_weak_deps") {
        match DnfBool::parse(value.as_str()) { Ok(b) => { data.install_weak_deps = Some(b); }, Err(_) => {} }
    } else if chars_eq_str(k, "keepcache") {
        match DnfBool::parse(value.as_str()) { Ok(b) => { data.keepcache = Some(b); }, Err(_) => {} }
    } else if chars_eq_str(k, "log_compress") {
        match DnfBool::parse(value.as_str()) { Ok(b) => { data.log_compress = Some(b); }, Err(_) => {} }
    } else if chars_eq_str(k, "module_obsoletes") {
        match DnfBool::parse(value.as_str()) { Ok(b) => { data.module_obsoletes = Some(b); }, Err(_) => {} }
    } else if chars_eq_str(k, "module_stream_switch") {
        match DnfBool::parse(value.as_str()) { Ok(b) => { data.module_stream_switch = Some(b); }, Err(_) => {} }
    } else if chars_eq_str(k, "obsoletes") {
        match DnfBool::parse(value.as_str()) { Ok(b) => { data.obsoletes = Some(b); }, Err(_) => {} }
    } else if chars_eq_str(k, "plugins") {
        match DnfBool::parse(value.as_str()) { Ok(b) => { data.plugins = Some(b); }, Err(_) => {} }
    } else if chars_eq_str(k, "protect_running_kernel") {
        match DnfBool::parse(value.as_str()) { Ok(b) => { data.protect_running_kernel = Some(b); }, Err(_) => {} }
    } else if chars_eq_str(k, "strict") {
        match DnfBool::parse(value.as_str()) { Ok(b) => { data.strict = Some(b); }, Err(_) => {} }
    } else if chars_eq_str(k, "upgrade_group_objects_upgrade") {
        match DnfBool::parse(value.as_str()) { Ok(b) => { data.upgrade_group_objects_upgrade = Some(b); }, Err(_) => {} }
    } else if chars_eq_str(k, "zchunk") {
        match DnfBool::parse(value.as_str()) { Ok(b) => { data.zchunk = Some(b); }, Err(_) => {} }
    } else if chars_eq_str(k, "debuglevel") {
        match parse_debug_level(vc) { Some(n) => { data.debuglevel = Some(n); }, None => {} }
    } else if chars_eq_str(k, "logfilelevel") {
        match parse_log_level(vc) { Some(n) => { data.logfilelevel = Some(n); }, None => {} }
    } else if chars_eq_str(k, "log_rotate") {
        match parse_log_rotate(vc) { Some(n) => { data.log_rotate = Some(n); }, None => {} }
    } else if chars_eq_str(k, "installonly_limit") {
        match parse_install_only_limit(vc) { Some(n) => { data.installonly_limit = Some(n); }, None => {} }
    } else if chars_eq_str(k, "errorlevel") {
        match parse_error_level(vc) { Some(n) => { data.errorlevel = Some(n); }, None => {} }
    } else if chars_eq_str(k, "metadata_timer_sync") {
        match parse_metadata_timer_sync(vc) { Some(n) => { data.metadata_timer_sync = Some(n); }, None => {} }
    } else if chars_eq_str(k, "log_size") {
        match parse_storage_size(vc) { Some(n) => { data.log_size = Some(n); }, None => {} }
    } else if chars_eq_str(k, "multilib_policy") {
        match parse_multilib_policy(vc) { Some(n) => { data.multilib_policy = Some(n); }, None => {} }
    } else if chars_eq_str(k, "persistence") {
        match parse_persistence(vc) { Some(n) => { data.persistence = Some(n); }, None => {} }
    } else if chars_eq_str(k, "rpmverbosity") {
        match parse_rpmverbosity(vc) { Some(n) => { data.rpmverbosity = Some(n); }, None => {} }
    } else if chars_eq_str(k, "tsflags") {
        let flags = parse_tsflags(vc);
        append_flags(&mut data.tsflags, &flags);
    } else if chars_eq_str(k, "module_platform_id") {
        data.module_platform_id = Some(ModulePlatformId::new(value.as_str()));
    } else {
        extras_push(&mut data.extras, key, value);
    }
}

/// The repository after reading the entries in order.
pub open spec fn repo_from_entries(r: RepoView, es: Seq<RawEntryView>) -> RepoView
    decreases es.len(),
{
    if es.len() == 0 {
        r
    } else {
        repo_apply(repo_from_entries(r, es.drop_last()), es.last().key, es.last().value)
    }
}

/// The `[main]` configuration after reading the entries in order.
pub open spec fn main_from_entries(r: MainConfigView, es: Seq<RawEntryView>) -> MainConfigView
    decreases es.len(),
{
    if es.len() == 0 {
        r
    } else {
        main_apply(main_from_entries(r, es.drop_last()), es.last().key, es.last().value)
    }
}

/// The inline comments of the entries, by key (a later comment for the same
/// key replaces an earlier one).
pub open spec fn comments_of(es: Seq<RawEntryView>) -> Seq<(Seq<char>, Seq<char>)>
    decreases es.len(),
{
    if es.len() == 0 {
        seq![]
    } else {
        let prev = comments_of(es.drop_last());
        match es.last().inline_comment {
            Some(c) => map_insert(prev, es.last().key, c),
            None => prev,
        }
    }
}

/// The keys of the entries, in order.
pub open spec fn keys_of(es: Seq<RawEntryView>) -> Seq<Seq<char>> {
    es.map_values(|e: RawEntryView| e.key)
}

/// Read the entries of a repository section into `repo`; return the key
/// order, the inline comments by key and a copy of the raw entries.
pub fn parse_entries_into_repo(repo: &mut Repo, entries: &Vec<RawEntry>) -> (r: (
    Vec<String>,
    IndexMap<String, String>,
    Vec<RawEntry>,
))
    ensures
        final(repo)@ == repo_from_entries(old(repo)@, entries_view(entries@)),
        strings_view(r.0@) == keys_of(entries_view(entries@)),
        comment_entries(r.1) == comments_of(entries_view(entries@)),
        entries_view(r.2@) == entries_view(entries@),
{
    let mut item_order: Vec<String> = Vec::new();
    let mut item_comments: IndexMap<String, String> = comments_new();
    let mut raw_entries: Vec<RawEntry> = Vec::new();
    let mut i: usize = 0;
    while i < entries.len()
        invariant
            i <= entries@.len(),
            repo@ == repo_from_entries(old(repo)@, entries_view(entries@.subrange(0, i as int))),
            strings_view(item_order@) == keys_of(entries_view(entries@.subrange(0, i as int))),
            comment_entries(item_comments) == comments_of(entries_view(entries@.subrange(0, i as int))),
            entries_view(raw_entries@) == entries_view(entries@.subrange(0, i as int)),
        decreases entries@.len() - i,
    {
        let entry = &entries[i];
        let ghost prev = entries_view(entries@.subrange(0, i as int));
        let ghost next = entries_view(entries@.subrange(0, i + 1));
        assert(next.drop_last() =~= prev);
        assert(next.last() == entry@);
        let ghost old_raw = raw_entries@;
        let ghost old_order = item_order@;
        let cl = entry.clone();
        raw_entries.push(cl);
        item_order.push(copy_string(&entry.key));
        assert(entries_view(raw_entries@) =~= entries_view(old_raw).push(entry@)) by {
            assert(raw_entries@ == old_raw.push(raw_entries@.last()));
        }
        assert(strings_view(item_order@) =~= strings_view(old_order).push(entry@.key)) by {
            assert(item_order@ == old_order.push(item_order@.last()));
        }
        match &entry.inline_comment {
            Some(ic) => comments_insert(&mut item_comments, copy_string(&entry.key), copy_string(ic)),
            None => {},
        }
        apply_repo_entry(repo, &entry.key, &entry.value);
        assert(entries_view(raw_entries@) =~= next);
        assert(strings_view(item_order@) =~= keys_of(next));
        i = i + 1;
    }
    assert(entries@.subrange(0, entries@.len() as int) =~= entries@);
    (item_order, item_comments, raw_entries)
}

/// Read the entries of the `[main]` section into `config`; return the key
/// order, the inline comments by key and a copy of the raw entries.
pub fn parse_entries_into_mainconfig(config: &mut MainConfig, entries: &Vec<RawEntry>) -> (r: (
    Vec<String>,
    IndexMap<String, String>,
    Vec<RawEntry>,
))
    ensures
        final(config)@ == main_from_entries(old(config)@, entries_view(entries@)),
        strings_view(r.0@) == keys_of(entries_view(entries@)),
        comment_entries(r.1) == comments_of(entries_view(entries@)),
        entries_view(r.2@) == entries_view(entries@),
{
    let mut item_order: Vec<String> = Vec::new();
    let mut item_comments: IndexMap<String, String> = comments_new();
    let mut raw_entries: Vec<RawEntry> = Vec::new();
    let mut i: usize = 0;
    while i < entries.len()
        invariant
            i <= entries@.len(),
            config@ == main_from_entries(old(config)@, entries_view(entries@.subrange(0, i as int))),
            strings_view(item_order@) == keys_of(entries_view(entries@.subrange(0, i as int))),
            comment_entries(item_comments) == comments_of(entries_view(entries@.subrange(0, i as int))),
            entries_view(raw_entries@) == entries_view(entries@.subrange(0, i as int)),
        decreases entries@.len() - i,
    {
        let entry = &entries[i];
        let ghost prev = entries_view(entries@.subrange(0, i as int));
        let ghost next = entries_view(entries@.subrange(0, i + 1));
        assert(next.drop_last() =~= prev);
        assert(next.last() == entry@);
        let ghost old_raw = raw_entries@;
        let ghost old_order = item_order@;
        let cl = entry.clone();
        raw_entries.push(cl);
        item_order.push(copy_string(&entry.key));
        assert(entries_view(raw_entries@) =~= entries_view(old_raw).push(entry@)) by {
            assert(raw_entries@ == old_raw.push(raw_entries@.last()));
        }
        assert(strings_view(item_order@) =~= strings_view(old_order).push(entry@.key)) by {
            assert(item_order@ == old_order.push(item_order@.last()));
        }
        match &entry.inline_comment {
            Some(ic) => comments_insert(&mut item_comments, copy_string(&entry.key), copy_string(ic)),
            None => {},
        }
        apply_main_entry(config, &entry.key, &entry.value);
        assert(entries_view(raw_entries@) =~= next);
        assert(strings_view(item_order@) =~= keys_of(next));
        i = i + 1;
    }
    assert(entries@.subrange(0, entries@.len() as int) =~= entries@);
    (item_order, item_comments, raw_entries)
}

} // verus!
