//! Merging one `.repo` file into another.
//!
//! The `[main]` section of the other file fills the gaps of this one: a
//! field that is unset (or an empty list) here takes the other's value, and
//! unknown keys and inline comments missing here are added. Repository
//! sections of the other file replace those with the same ID here, and new
//! ones are appended in order.

use crate::collections::{
    comment_entries, comments_contains, comments_get_index, comments_insert, comments_len,
    map_get, map_insert, repo_block_entries, repo_blocks_get_index, repo_blocks_insert,
    repo_blocks_len, string_list_entries, string_lists_contains, string_lists_get_index,
    string_lists_clone, string_lists_insert, string_lists_len,
};
use crate::mainconfig::{copy_flags, copy_paths, MainConfig, MainConfigView};
use crate::repofile::{RepoFile, RepoFileView, SectionBlock, SectionBlockView};
use crate::text::{copy_string, copy_strings, strings_view};
use crate::types::{clone_path, opt_view, ModulePlatformId, TsFlag};
use camino::Utf8PathBuf;
use indexmap::IndexMap;
use vstd::prelude::*;

verus! {

/// The entries of `d` with each entry of `s` whose key `d` lacks added in
/// order.
pub open spec fn fill_missing<V>(d: Seq<(Seq<char>, V)>, s: Seq<(Seq<char>, V)>) -> Seq<(Seq<char>, V)>
    decreases s.len(),
{
    if s.len() == 0 {
        d
    } else {
        let acc = fill_missing(d, s.drop_last());
        if map_get(acc, s.last().0) is None {
            map_insert(acc, s.last().0, s.last().1)
        } else {
            acc
        }
    }
}

/// The entries of `d` after inserting each entry of `s` in order.
pub open spec fn insert_all<V>(d: Seq<(Seq<char>, V)>, s: Seq<(Seq<char>, V)>) -> Seq<(Seq<char>, V)>
    decreases s.len(),
{
    if s.len() == 0 {
        d
    } else {
        map_insert(insert_all(d, s.drop_last()), s.last().0, s.last().1)
    }
}

/// `d` with its gaps filled from `s`: each unset option takes the value of
/// `s`, each empty list the list of `s`, and unknown keys missing from `d`
/// are added.
pub open spec fn merge_main_view(d: MainConfigView, s: MainConfigView) -> MainConfigView {
    MainConfigView {
        arch: if d.arch is None { s.arch } else { d.arch },
        basearch: if d.basearch is None { s.basearch } else { d.basearch },
        releasever: if d.releasever is None { s.releasever } else { d.releasever },
        cachedir: if d.cachedir is None { s.cachedir } else { d.cachedir },
        persistdir: if d.persistdir is None { s.persistdir } else { d.persistdir },
        logdir: if d.logdir is None { s.logdir } else { d.logdir },
        config_file_path: if d.config_file_path is None { s.config_file_path } else { d.config_file_path },
        installroot: if d.installroot is None { s.installroot } else { d.installroot },
        reposdir: if d.reposdir.len() == 0 { s.reposdir } else { d.reposdir },
        varsdir: if d.varsdir.len() == 0 { s.varsdir } else { d.varsdir },
        pluginconfpath: if d.pluginconfpath.len() == 0 { s.pluginconfpath } else { d.pluginconfpath },
        pluginpath: if d.pluginpath.len() == 0 { s.pluginpath } else { d.pluginpath },
        debuglevel: if d.debuglevel is None { s.debuglevel } else { d.debuglevel },
        logfilelevel: if d.logfilelevel is None { s.logfilelevel } else { d.logfilelevel },
        log_rotate: if d.log_rotate is None { s.log_rotate } else { d.log_rotate },
        log_size: if d.log_size is None { s.log_size } else { d.log_size },
        installonly_limit: if d.installonly_limit is None { s.installonly_limit } else { d.installonly_limit },
        errorlevel: if d.errorlevel is None { s.errorlevel } else { d.errorlevel },
        metadata_timer_sync: if d.metadata_timer_sync is None { s.metadata_timer_sync } else { d.metadata_timer_sync },
        allow_vendor_change: if d.allow_vendor_change is None { s.allow_vendor_change } else { d.allow_vendor_change },
        assumeno: if d.assumeno is None { s.assumeno } else { d.assumeno },
        assumeyes: if d.assumeyes is None { s.assumeyes } else { d.assumeyes },
        autocheck_running_kernel: if d.autocheck_running_kernel is None { s.autocheck_running_kernel } else { d.autocheck_running_kernel },
        best: if d.best is None { s.best } else { d.best },
        cacheonly: if d.cacheonly is None { s.cacheonly } else { d.cacheonly },
        check_config_file_age: if d.check_config_file_age is None { s.check_config_file_age } else { d.check_config_file_age },
        clean_requirements_on_remove: if d.clean_requirements_on_remove is None { s.clean_requirements_on_remove } else { d.clean_requirements_on_remove },
        debug_solver: if d.debug_solver is None { s.debug_solver } else { d.debug_solver },
        defaultyes: if d.defaultyes is None { s.defaultyes } else { d.defaultyes },
        diskspacecheck: if d.diskspacecheck is None { s.diskspacecheck } else { d.diskspacecheck },
        exclude_from_weak_autodetect: if d.exclude_from_weak_autodetect is None { s.exclude_from_weak_autodetect } else { d.exclude_from_weak_autodetect },
        exit_on_lock: if d.exit_on_lock is None { s.exit_on_lock } else { d.exit_on_lock },
        gpgkey_dns_verification: if d.gpgkey_dns_verification is None { s.gpgkey_dns_verification } else { d.gpgkey_dns_verification },
        ignorearch: if d.ignorearch is None { s.ignorearch } else { d.ignorearch },
        install_weak_deps: if d.install_weak_deps is None { s.install_weak_deps } else { d.install_weak_deps },
        keepcache: if d.keepcache is None { s.keepcache } else { d.keepcache },
        log_compress: if d.log_compress is None { s.log_compress } else { d.log_compress },
        module_obsoletes: if d.module_obsoletes is None { s.module_obsoletes } else { d.module_obsoletes },
        module_stream_switch: if d.module_stream_switch is None { s.module_stream_switch } else { d.module_stream_switch },
        obsoletes: if d.obsoletes is None { s.obsoletes } else { d.obsoletes },
        plugins: if d.plugins is None { s.plugins } else { d.plugins },
        protect_running_kernel: if d.protect_running_kernel is None { s.protect_running_kernel } else { d.protect_running_kernel },
        strict: if d.strict is None { s.strict } else { d.strict },
        upgrade_group_objects_upgrade: if d.upgrade_group_objects_upgrade is None { s.upgrade_group_objects_upgrade } else { d.upgrade_group_objects_upgrade },
        zchunk: if d.zchunk is None { s.zchunk } else { d.zchunk },
        installonlypkgs: if d.installonlypkgs.len() == 0 { s.installonlypkgs } else { d.installonlypkgs },
        protected_packages: if d.protected_packages.len() == 0 { s.protected_packages } else { d.protected_packages },
        exclude_from_weak: if d.exclude_from_weak.len() == 0 { s.exclude_from_weak } else { d.exclude_from_weak },
        group_package_types: if d.group_package_types.len() == 0 { s.group_package_types } else { d.group_package_types },
        optional_metadata_types: if d.optional_metadata_types.len() == 0 { s.optional_metadata_types } else { d.optional_metadata_types },
        tsflags: if d.tsflags.len() == 0 { s.tsflags } else { d.tsflags },
        usr_drift_protected_paths: if d.usr_drift_protected_paths.len() == 0 { s.usr_drift_protected_paths } else { d.usr_drift_protected_paths },
        multilib_policy: if d.multilib_policy is None { s.multilib_policy } else { d.multilib_policy },
        persistence: if d.persistence is None { s.persistence } else { d.persistence },
        rpmverbosity: if d.rpmverbosity is None { s.rpmverbosity } else { d.rpmverbosity },
        module_platform_id: if d.module_platform_id is None { s.module_platform_id } else { d.module_platform_id },
        extras: fill_missing(d.extras, s.extras),
    }
}

/// The `[main]` block after merging another one into it.
pub open spec fn merge_main_block(
    d: SectionBlockView<MainConfigView>,
    s: SectionBlockView<MainConfigView>,
) -> SectionBlockView<MainConfigView> {
    SectionBlockView {
        data: merge_main_view(d.data, s.data),
        item_comments: fill_missing(d.item_comments, s.item_comments),
        ..d
    }
}

/// The file after merging `b` into `a`.
pub open spec fn spec_merge(a: RepoFileView, b: RepoFileView) -> RepoFileView {
    RepoFileView {
        preamble: a.preamble,
        main: match b.main {
            Some(om) => match a.main {
                Some(sm) => Some(merge_main_block(sm, om)),
                None => Some(om),
            },
            None => a.main,
        },
        repos: insert_all(a.repos, b.repos),
    }
}

/// Add the lists of `src` whose key `dest` lacks.
fn fill_missing_lists(dest: &mut IndexMap<String, Vec<String>>, src: &IndexMap<String, Vec<String>>)
    ensures
        string_list_entries(*final(dest)) == fill_missing(
            string_list_entries(*old(dest)),
            string_list_entries(*src),
        ),
{
    let ghost s = string_list_entries(*src);
    let ghost d0 = string_list_entries(*dest);
    let n = string_lists_len(src);
    let mut i: usize = 0;
    while i < n
        invariant
            i <= n == s.len(),
            s == string_list_entries(*src),
            string_list_entries(*dest) == fill_missing(d0, s.subrange(0, i as int)),
        decreases n - i,
    {
        match string_lists_get_index(src, i) {
            Some((k, v)) => {
                if !string_lists_contains(dest, k.as_str()) {
                    string_lists_insert(dest, copy_string(k), copy_strings(v));
                }
            },
            None => {},
        }
        assert(s.subrange(0, i + 1).drop_last() =~= s.subrange(0, i as int));
        i = i + 1;
    }
    assert(s.subrange(0, n as int) =~= s);
}

/// Add the inline comments of `src` whose key `dest` lacks.
fn fill_missing_comments(dest: &mut IndexMap<String, String>, src: &IndexMap<String, String>)
    ensures
        comment_entries(*final(dest)) == fill_missing(comment_entries(*old(dest)), comment_entries(*src)),
{
    let ghost s = comment_entries(*src);
    let ghost d0 = comment_entries(*dest);
    let n = comments_len(src);
    let mut i: usize = 0;
    while i < n
        invariant
            i <= n == s.len(),
            s == comment_entries(*src),
            comment_entries(*dest) == fill_missing(d0, s.subrange(0, i as int)),
        decreases n - i,
    {
        match comments_get_index(src, i) {
            Some((k, v)) => {
                if !comments_contains(dest, k.as_str()) {
                    comments_insert(dest, copy_string(k), copy_string(v));
                }
            },
            None => {},
        }
        assert(s.subrange(0, i + 1).drop_last() =~= s.subrange(0, i as int));
        i = i + 1;
    }
    assert(s.subrange(0, n as int) =~= s);
}

/// An unset option takes the other value.
fn fill_copy<T: Copy>(d: Option<T>, s: Option<T>) -> (r: Option<T>)
    ensures
        r == (if d is None { s } else { d }),
{
    if d.is_none() {
        s
    } else {
        d
    }
}

/// An unset text option takes a copy of the other text.
fn fill_string(d: &Option<String>, s: &Option<String>) -> (r: Option<String>)
    ensures
        opt_view(r) == (if d is None { opt_view(*s) } else { opt_view(*d) }),
{
    let src = if d.is_none() { s } else { d };
    match src {
        Some(v) => Some(copy_string(v)),
        None => None,
    }
}

/// An unset path option takes a copy of the other path.
fn fill_path(d: &Option<Utf8PathBuf>, s: &Option<Utf8PathBuf>) -> (r: Option<Utf8PathBuf>)
    ensures
        r == (if d is None { *s } else { *d }),
{
    let src = if d.is_none() { s } else { d };
    match src {
        Some(p) => Some(clone_path(p)),
        None => None,
    }
}

/// An unset platform ID takes a copy of the other one.
fn fill_platform_id(d: &Option<ModulePlatformId>, s: &Option<ModulePlatformId>) -> (r: Option<
    ModulePlatformId,
>)
    ensures
        opt_view(r) == (if d is None { opt_view(*s) } else { opt_view(*d) }),
{
    let src = if d.is_none() { s } else { d };
    match src {
        Some(v) => Some(v.clone()),
        None => None,
    }
}

/// An empty path list takes a copy of the other list.
fn fill_paths(d: &Vec<Utf8PathBuf>, s: &Vec<Utf8PathBuf>) -> (r: Vec<Utf8PathBuf>)
    ensures
        r@ == (if d@.len() == 0 { s@ } else { d@ }),
{
    if d.len() == 0 {
        copy_paths(s)
    } else {
        copy_paths(d)
    }
}

/// An empty text list takes a copy of the other list.
fn fill_strings(d: &Vec<String>, s: &Vec<String>) -> (r: Vec<String>)
    ensures
        strings_view(r@) == (if d@.len() == 0 { strings_view(s@) } else { strings_view(d@) }),
{
    if d.len() == 0 {
        copy_strings(s)
    } else {
        copy_strings(d)
    }
}

/// An empty flag list takes a copy of the other list.
fn fill_flags(d: &Vec<TsFlag>, s: &Vec<TsFlag>) -> (r: Vec<TsFlag>)
    ensures
        r@ == (if d@.len() == 0 { s@ } else { d@ }),
{
    if d.len() == 0 {
        copy_flags(s)
    } else {
        copy_flags(d)
    }
}

/// Fill the gaps of `dest` from `src` (see [`merge_main_view`]).
#[verifier::rlimit(40)]
pub fn merge_mainconfig(dest: &mut MainConfig, src: &MainConfig)
    ensures
        final(dest)@ == merge_main_view(old(dest)@, src@),
{
    let mut extras = string_lists_clone(&dest.extras);
    fill_missing_lists(&mut extras, &src.extras);
    let merged = MainConfig {
        arch: fill_string(&dest.arch, &src.arch),
        basearch: fill_string(&dest.basearch, &src.basearch),
        releasever: fill_string(&dest.releasever, &src.releasever),
        cachedir: fill_path(&dest.cachedir, &src.cachedir),
        persistdir: fill_path(&dest.persistdir, &src.persistdir),
        logdir: fill_path(&dest.logdir, &src.logdir),
        config_file_path: fill_path(&dest.config_file_path, &src.config_file_path),
        installroot: fill_path(&dest.installroot, &src.installroot),
        reposdir: fill_paths(&dest.reposdir, &src.reposdir),
        varsdir: fill_paths(&dest.varsdir, &src.varsdir),
        pluginconfpath: fill_paths(&dest.pluginconfpath, &src.pluginconfpath),
        pluginpath: fill_paths(&dest.pluginpath, &src.pluginpath),
        debuglevel: fill_copy(dest.debuglevel, src.debuglevel),
        logfilelevel: fill_copy(dest.logfilelevel, src.logfilelevel),
        log_rotate: fill_copy(dest.log_rotate, src.log_rotate),
        log_size: fill_copy(dest.log_size, src.log_size),
        installonly_limit: fill_copy(dest.installonly_limit, src.installonly_limit),
        errorlevel: fill_copy(dest.errorlevel, src.errorlevel),
        metadata_timer_sync: fill_copy(dest.metadata_timer_sync, src.metadata_timer_sync),
        allow_vendor_change: fill_copy(dest.allow_vendor_change, src.allow_vendor_change),
        assumeno: fill_copy(dest.assumeno, src.assumeno),
        assumeyes: fill_copy(dest.assumeyes, src.assumeyes),
        autocheck_running_kernel: fill_copy(dest.autocheck_running_kernel, src.autocheck_running_kernel),
        best: fill_copy(dest.best, src.best),
        cacheonly: fill_copy(dest.cacheonly, src.cacheonly),
        check_config_file_age: fill_copy(dest.check_config_file_age, src.check_config_file_age),
        clean_requirements_on_remove: fill_copy(dest.clean_requirements_on_remove, src.clean_requirements_on_remove),
        debug_solver: fill_copy(dest.debug_solver, src.debug_solver),
        defaultyes: fill_copy(dest.defaultyes, src.defaultyes),
        diskspacecheck: fill_copy(dest.diskspacecheck, src.diskspacecheck),
        exclude_from_weak_autodetect: fill_copy(dest.exclude_from_weak_autodetect, src.exclude_from_weak_autodetect),
        exit_on_lock: fill_copy(dest.exit_on_lock, src.exit_on_lock),
        gpgkey_dns_verification: fill_copy(dest.gpgkey_dns_verification, src.gpgkey_dns_verification),
        ignorearch: fill_copy(dest.ignorearch, src.ignorearch),
        install_weak_deps: fill_copy(dest.install_weak_deps, src.install_weak_deps),
        keepcache: fill_copy(dest.keepcache, src.keepcache),
        log_compress: fill_copy(dest.log_compress, src.log_compress),
        module_obsoletes: fill_copy(dest.module_obsoletes, src.module_obsoletes),
        module_stream_switch: fill_copy(dest.module_stream_switch, src.module_stream_switch),
        obsoletes: fill_copy(dest.obsoletes, src.obsoletes),
        plugins: fill_copy(dest.plugins, src.plugins),
        protect_running_kernel: fill_copy(dest.protect_running_kernel, src.protect_running_kernel),
        strict: fill_copy(dest.strict, src.strict),
        upgrade_group_objects_upgrade: fill_copy(dest.upgrade_group_objects_upgrade, src.upgrade_group_objects_upgrade),
        zchunk: fill_copy(dest.zchunk, src.zchunk),
        installonlypkgs: fill_strings(&dest.installonlypkgs, &src.installonlypkgs),
        protected_packages: fill_strings(&dest.protected_packages, &src.protected_packages),
        exclude_from_weak: fill_strings(&dest.exclude_from_weak, &src.exclude_from_weak),
        group_package_types: fill_strings(&dest.group_package_types, &src.group_package_types),
        optional_metadata_types: fill_strings(&dest.optional_metadata_types, &src.optional_metadata_types),
        tsflags: fill_flags(&dest.tsflags, &src.tsflags),
        usr_drift_protected_paths: fill_strings(&dest.usr_drift_protected_paths, &src.usr_drift_protected_paths),
        multilib_policy: fill_copy(dest.multilib_policy, src.multilib_policy),
        persistence: fill_copy(dest.persistence, src.persistence),
        rpmverbosity: fill_copy(dest.rpmverbosity, src.rpmverbosity),
        module_platform_id: fill_platform_id(&dest.module_platform_id, &src.module_platform_id),
        extras: extras,
    };
    assert(merged@ =~= merge_main_view(dest@, src@));
    *dest = merged;
}

impl RepoFile {
    /// Merge another file into this one.
    ///
    /// The other `[main]` section fills the gaps of this one (or becomes
    /// it, when this file has none), and its inline comments are added
    /// where missing. The other's repositories replace those with the same
    /// ID and new ones are appended.
    pub fn merge(&mut self, other: RepoFile)
        ensures
            final(self)@ == spec_merge(old(self)@, other@),
    {
        let ghost a = self@;
        let ghost b = other@;
        let mut cur: Option<SectionBlock<MainConfig>> = None;
        std::mem::swap(&mut cur, &mut self.main);
        let merged: Option<SectionBlock<MainConfig>> = match other.main {
            Some(om) => match cur {
                Some(mut sm) => {
                    merge_mainconfig(&mut sm.data, &om.data);
                    fill_missing_comments(&mut sm.item_comments, &om.item_comments);
                    Some(sm)
                },
                None => Some(om),
            },
            None => cur,
        };
        self.main = merged;
        let ghost s = b.repos;
        let ghost d0 = a.repos;
        let n = repo_blocks_len(&other.repos);
        let mut i: usize = 0;
        while i < n
            invariant
                i <= n == s.len(),
                s == repo_block_entries(other.repos),
                repo_block_entries(self.repos) == insert_all(d0, s.subrange(0, i as int)),
                self@.preamble == a.preamble,
                self@.main == spec_merge(a, b).main,
            decreases n - i,
        {
            match repo_blocks_get_index(&other.repos, i) {
                Some((id, blk)) => {
                    repo_blocks_insert(&mut self.repos, id.clone(), blk.clone());
                },
                None => {},
            }
            assert(s.subrange(0, i + 1).drop_last() =~= s.subrange(0, i as int));
            i = i + 1;
        }
        assert(s.subrange(0, n as int) =~= s);
        assert(self@ =~= spec_merge(a, b));
    }
}

} // verus!
