//! The DNF `[main]` configuration section.

use crate::collections::{string_list_entries, string_lists_clone, string_lists_new};
use crate::text::{copy_string, copy_strings, strings_view};
use crate::types::{
    clone_path, opt_view, DebugLevel, DnfBool, ErrorLevel, InstallOnlyLimit, LogLevel, LogRotate,
    MetadataTimerSync, ModulePlatformId, MultilibPolicy, Persistence, RpmVerbosity, StorageSize,
    TsFlag,
};
use camino::Utf8PathBuf;
use indexmap::IndexMap;
use vstd::prelude::*;

verus! {

/// DNF `[main]` configuration section: every known option as an optional
/// (or list) typed field; unknown keys are kept in `extras`.
#[derive(Debug, PartialEq, Eq)]
pub struct MainConfig {
    pub arch: Option<String>,
    pub basearch: Option<String>,
    pub releasever: Option<String>,
    pub cachedir: Option<Utf8PathBuf>,
    pub persistdir: Option<Utf8PathBuf>,
    pub logdir: Option<Utf8PathBuf>,
    pub config_file_path: Option<Utf8PathBuf>,
    pub installroot: Option<Utf8PathBuf>,
    pub reposdir: Vec<Utf8PathBuf>,
    pub varsdir: Vec<Utf8PathBuf>,
    pub pluginconfpath: Vec<Utf8PathBuf>,
    pub pluginpath: Vec<Utf8PathBuf>,
    pub debuglevel: Option<DebugLevel>,
    pub logfilelevel: Option<LogLevel>,
    pub log_rotate: Option<LogRotate>,
    pub log_size: Option<StorageSize>,
    pub installonly_limit: Option<InstallOnlyLimit>,
    pub errorlevel: Option<ErrorLevel>,
    pub metadata_timer_sync: Option<MetadataTimerSync>,
    pub allow_vendor_change: Option<DnfBool>,
    pub assumeno: Option<DnfBool>,
    pub assumeyes: Option<DnfBool>,
    pub autocheck_running_kernel: Option<DnfBool>,
    pub best: Option<DnfBool>,
    pub cacheonly: Option<DnfBool>,
    pub check_config_file_age: Option<DnfBool>,
    pub clean_requirements_on_remove: Option<DnfBool>,
    pub debug_solver: Option<DnfBool>,
    pub defaultyes: Option<DnfBool>,
    pub diskspacecheck: Option<DnfBool>,
    pub exclude_from_weak_autodetect: Option<DnfBool>,
    pub exit_on_lock: Option<DnfBool>,
    pub gpgkey_dns_verification: Option<DnfBool>,
    pub ignorearch: Option<DnfBool>,
    pub install_weak_deps: Option<DnfBool>,
    pub keepcache: Option<DnfBool>,
    pub log_compress: Option<DnfBool>,
    pub module_obsoletes: Option<DnfBool>,
    pub module_stream_switch: Option<DnfBool>,
    pub obsoletes: Option<DnfBool>,
    pub plugins: Option<DnfBool>,
    pub protect_running_kernel: Option<DnfBool>,
    pub strict: Option<DnfBool>,
    pub upgrade_group_objects_upgrade: Option<DnfBool>,
    pub zchunk: Option<DnfBool>,
    pub installonlypkgs: Vec<String>,
    pub protected_packages: Vec<String>,
    pub exclude_from_weak: Vec<String>,
    pub group_package_types: Vec<String>,
    pub optional_metadata_types: Vec<String>,
    pub tsflags: Vec<TsFlag>,
    pub usr_drift_protected_paths: Vec<String>,
    pub multilib_policy: Option<MultilibPolicy>,
    pub persistence: Option<Persistence>,
    pub rpmverbosity: Option<RpmVerbosity>,
    pub module_platform_id: Option<ModulePlatformId>,
    pub extras: IndexMap<String, Vec<String>>,
}

/// The plain-value model of a [`MainConfig`].
#[verifier::ext_equal]
pub struct MainConfigView {
    pub arch: Option<Seq<char>>,
    pub basearch: Option<Seq<char>>,
    pub releasever: Option<Seq<char>>,
    pub cachedir: Option<Utf8PathBuf>,
    pub persistdir: Option<Utf8PathBuf>,
    pub logdir: Option<Utf8PathBuf>,
    pub config_file_path: Option<Utf8PathBuf>,
    pub installroot: Option<Utf8PathBuf>,
    pub reposdir: Seq<Utf8PathBuf>,
    pub varsdir: Seq<Utf8PathBuf>,
    pub pluginconfpath: Seq<Utf8PathBuf>,
    pub pluginpath: Seq<Utf8PathBuf>,
    pub debuglevel: Option<u8>,
    pub logfilelevel: Option<u8>,
    pub log_rotate: Option<u32>,
    pub log_size: Option<StorageSize>,
    pub installonly_limit: Option<u32>,
    pub errorlevel: Option<u8>,
    pub metadata_timer_sync: Option<u32>,
    pub allow_vendor_change: Option<DnfBool>,
    pub assumeno: Option<DnfBool>,
    pub assumeyes: Option<DnfBool>,
    pub autocheck_running_kernel: Option<DnfBool>,
    pub best: Option<DnfBool>,
    pub cacheonly: Option<DnfBool>,
    pub check_config_file_age: Option<DnfBool>,
    pub clean_requirements_on_remove: Option<DnfBool>,
    pub debug_solver: Option<DnfBool>,
    pub defaultyes: Option<DnfBool>,
    pub diskspacecheck: Option<DnfBool>,
    pub exclude_from_weak_autodetect: Option<DnfBool>,
    pub exit_on_lock: Option<DnfBool>,
    pub gpgkey_dns_verification: Option<DnfBool>,
    pub ignorearch: Option<DnfBool>,
    pub install_weak_deps: Option<DnfBool>,
    pub keepcache: Option<DnfBool>,
    pub log_compress: Option<DnfBool>,
    pub module_obsoletes: Option<DnfBool>,
    pub module_stream_switch: Option<DnfBool>,
    pub obsoletes: Option<DnfBool>,
    pub plugins: Option<DnfBool>,
    pub protect_running_kernel: Option<DnfBool>,
    pub strict: Option<DnfBool>,
    pub upgrade_group_objects_upgrade: Option<DnfBool>,
    pub zchunk: Option<DnfBool>,
    pub installonlypkgs: Seq<Seq<char>>,
    pub protected_packages: Seq<Seq<char>>,
    pub exclude_from_weak: Seq<Seq<char>>,
    pub group_package_types: Seq<Seq<char>>,
    pub optional_metadata_types: Seq<Seq<char>>,
    pub tsflags: Seq<TsFlag>,
    pub usr_drift_protected_paths: Seq<Seq<char>>,
    pub multilib_policy: Option<MultilibPolicy>,
    pub persistence: Option<Persistence>,
    pub rpmverbosity: Option<RpmVerbosity>,
    pub module_platform_id: Option<Seq<char>>,
    pub extras: Seq<(Seq<char>, Seq<Seq<char>>)>,
}

impl Clone for MainConfig {
    fn clone(&self) -> (r: MainConfig)
        ensures
            r@ == self@,
    {
        self.duplicate()
    }
}

impl View for MainConfig {
    type V = MainConfigView;

    open spec fn view(&self) -> MainConfigView {
        MainConfigView {
            arch: opt_view(self.arch),
            basearch: opt_view(self.basearch),
            releasever: opt_view(self.releasever),
            cachedir: self.cachedir,
            persistdir: self.persistdir,
            logdir: self.logdir,
            config_file_path: self.config_file_path,
            installroot: self.installroot,
            reposdir: self.reposdir@,
            varsdir: self.varsdir@,
            pluginconfpath: self.pluginconfpath@,
            pluginpath: self.pluginpath@,
            debuglevel: opt_view(self.debuglevel),
            logfilelevel: opt_view(self.logfilelevel),
            log_rotate: opt_view(self.log_rotate),
            log_size: self.log_size,
            installonly_limit: opt_view(self.installonly_limit),
            errorlevel: opt_view(self.errorlevel),
            metadata_timer_sync: opt_view(self.metadata_timer_sync),
            allow_vendor_change: self.allow_vendor_change,
            assumeno: self.assumeno,
            assumeyes: self.assumeyes,
            autocheck_running_kernel: self.autocheck_running_kernel,
            best: self.best,
            cacheonly: self.cacheonly,
            check_config_file_age: self.check_config_file_age,
            clean_requirements_on_remove: self.clean_requirements_on_remove,
            debug_solver: self.debug_solver,
            defaultyes: self.defaultyes,
            diskspacecheck: self.diskspacecheck,
            exclude_from_weak_autodetect: self.exclude_from_weak_autodetect,
            exit_on_lock: self.exit_on_lock,
            gpgkey_dns_verification: self.gpgkey_dns_verification,
            ignorearch: self.ignorearch,
            install_weak_deps: self.install_weak_deps,
            keepcache: self.keepcache,
            log_compress: self.log_compress,
            module_obsoletes: self.module_obsoletes,
            module_stream_switch: self.module_stream_switch,
            obsoletes: self.obsoletes,
            plugins: self.plugins,
            protect_running_kernel: self.protect_running_kernel,
            strict: self.strict,
            upgrade_group_objects_upgrade: self.upgrade_group_objects_upgrade,
            zchunk: self.zchunk,
            installonlypkgs: strings_view(self.installonlypkgs@),
            protected_packages: strings_view(self.protected_packages@),
            exclude_from_weak: strings_view(self.exclude_from_weak@),
            group_package_types: strings_view(self.group_package_types@),
            optional_metadata_types: strings_view(self.optional_metadata_types@),
            tsflags: self.tsflags@,
            usr_drift_protected_paths: strings_view(self.usr_drift_protected_paths@),
            multilib_policy: self.multilib_policy,
            persistence: self.persistence,
            rpmverbosity: self.rpmverbosity,
            module_platform_id: opt_view(self.module_platform_id),
            extras: string_list_entries(self.extras),
        }
    }
}

/// The model of a `[main]` section with nothing set.
pub open spec fn empty_main_view() -> MainConfigView {
    MainConfigView {
        arch: None,
        basearch: None,
        releasever: None,
        cachedir: None,
        persistdir: None,
        logdir: None,
        config_file_path: None,
        installroot: None,
        reposdir: Seq::empty(),
        varsdir: Seq::empty(),
        pluginconfpath: Seq::empty(),
        pluginpath: Seq::empty(),
        debuglevel: None,
        logfilelevel: None,
        log_rotate: None,
        log_size: None,
        installonly_limit: None,
        errorlevel: None,
        metadata_timer_sync: None,
        allow_vendor_change: None,
        assumeno: None,
        assumeyes: None,
        autocheck_running_kernel: None,
        best: None,
        cacheonly: None,
        check_config_file_age: None,
        clean_requirements_on_remove: None,
        debug_solver: None,
        defaultyes: None,
        diskspacecheck: None,
        exclude_from_weak_autodetect: None,
        exit_on_lock: None,
        gpgkey_dns_verification: None,
        ignorearch: None,
        install_weak_deps: None,
        keepcache: None,
        log_compress: None,
        module_obsoletes: None,
        module_stream_switch: None,
        obsoletes: None,
        plugins: None,
        protect_running_kernel: None,
        strict: None,
        upgrade_group_objects_upgrade: None,
        zchunk: None,
        installonlypkgs: Seq::empty(),
        protected_packages: Seq::empty(),
        exclude_from_weak: Seq::empty(),
        group_package_types: Seq::empty(),
        optional_metadata_types: Seq::empty(),
        tsflags: Seq::empty(),
        usr_drift_protected_paths: Seq::empty(),
        multilib_policy: None,
        persistence: None,
        rpmverbosity: None,
        module_platform_id: None,
        extras: Seq::empty(),
    }
}

/// Copy a list of paths.
pub fn copy_paths(v: &Vec<Utf8PathBuf>) -> (r: Vec<Utf8PathBuf>)
    ensures
        r@ == v@,
{
    let mut r: Vec<Utf8PathBuf> = Vec::new();
    let mut i: usize = 0;
    while i < v.len()
        invariant
            i <= v@.len(),
            r@ == v@.subrange(0, i as int),
        decreases v@.len() - i,
    {
        r.push(clone_path(&v[i]));
        i = i + 1;
    }
    assert(v@.subrange(0, v@.len() as int) =~= v@);
    r
}

/// Copy a list of transaction flags.
pub fn copy_flags(v: &Vec<TsFlag>) -> (r: Vec<TsFlag>)
    ensures
        r@ == v@,
{
    let mut r: Vec<TsFlag> = Vec::new();
    let mut i: usize = 0;
    while i < v.len()
        invariant
            i <= v@.len(),
            r@ == v@.subrange(0, i as int),
        decreases v@.len() - i,
    {
        r.push(v[i]);
        i = i + 1;
    }
    assert(v@.subrange(0, v@.len() as int) =~= v@);
    r
}

impl MainConfig {
    /// A `[main]` section with nothing set.
    pub fn new() -> (r: MainConfig)
        ensures
            r@ == empty_main_view(),
    {
        let r = MainConfig {
            arch: None,
            basearch: None,
            releasever: None,
            cachedir: None,
            persistdir: None,
            logdir: None,
            config_file_path: None,
            installroot: None,
            reposdir: Vec::new(),
            varsdir: Vec::new(),
            pluginconfpath: Vec::new(),
            pluginpath: Vec::new(),
            debuglevel: None,
            logfilelevel: None,
            log_rotate: None,
            log_size: None,
            installonly_limit: None,
            errorlevel: None,
            metadata_timer_sync: None,
            allow_vendor_change: None,
            assumeno: None,
            assumeyes: None,
            autocheck_running_kernel: None,
            best: None,
            cacheonly: None,
            check_config_file_age: None,
            clean_requirements_on_remove: None,
            debug_solver: None,
            defaultyes: None,
            diskspacecheck: None,
            exclude_from_weak_autodetect: None,
            exit_on_lock: None,
            gpgkey_dns_verification: None,
            ignorearch: None,
            install_weak_deps: None,
            keepcache: None,
            log_compress: None,
            module_obsoletes: None,
            module_stream_switch: None,
            obsoletes: None,
            plugins: None,
            protect_running_kernel: None,
            strict: None,
            upgrade_group_objects_upgrade: None,
            zchunk: None,
            installonlypkgs: Vec::new(),
            protected_packages: Vec::new(),
            exclude_from_weak: Vec::new(),
            group_package_types: Vec::new(),
            optional_metadata_types: Vec::new(),
            tsflags: Vec::new(),
            usr_drift_protected_paths: Vec::new(),
            multilib_policy: None,
            persistence: None,
            rpmverbosity: None,
            module_platform_id: None,
            extras: string_lists_new(),
        };
        assert(r@ =~= empty_main_view());
        r
    }

    /// A copy of this configuration.
    pub fn duplicate(&self) -> (r: MainConfig)
        ensures
            r@ == self@,
    {
        MainConfig {
            arch: match &self.arch { Some(v) => Some(copy_string(v)), None => None },
            basearch: match &self.basearch { Some(v) => Some(copy_string(v)), None => None },
            releasever: match &self.releasever { Some(v) => Some(copy_string(v)), None => None },
            cachedir: match &self.cachedir { Some(p) => Some(clone_path(p)), None => None },
            persistdir: match &self.persistdir { Some(p) => Some(clone_path(p)), None => None },
            logdir: match &self.logdir { Some(p) => Some(clone_path(p)), None => None },
            config_file_path: match &self.config_file_path { Some(p) => Some(clone_path(p)), None => None },
            installroot: match &self.installroot { Some(p) => Some(clone_path(p)), None => None },
            reposdir: copy_paths(&self.reposdir),
            varsdir: copy_paths(&self.varsdir),
            pluginconfpath: copy_paths(&self.pluginconfpath),
            pluginpath: copy_paths(&self.pluginpath),
            debuglevel: self.debuglevel,
            logfilelevel: self.logfilelevel,
            log_rotate: self.log_rotate,
            log_size: self.log_size,
            installonly_limit: self.installonly_limit,
            errorlevel: self.errorlevel,
            metadata_timer_sync: self.metadata_timer_sync,
            allow_vendor_change: self.allow_vendor_change,
            assumeno: self.assumeno,
            assumeyes: self.assumeyes,
            autocheck_running_kernel: self.autocheck_running_kernel,
            best: self.best,
            cacheonly: self.cacheonly,
            check_config_file_age: self.check_config_file_age,
            clean_requirements_on_remove: self.clean_requirements_on_remove,
            debug_solver: self.debug_solver,
            defaultyes: self.defaultyes,
            diskspacecheck: self.diskspacecheck,
            exclude_from_weak_autodetect: self.exclude_from_weak_autodetect,
            exit_on_lock: self.exit_on_lock,
            gpgkey_dns_verification: self.gpgkey_dns_verification,
            ignorearch: self.ignorearch,
            install_weak_deps: self.install_weak_deps,
            keepcache: self.keepcache,
            log_compress: self.log_compress,
            module_obsoletes: self.module_obsoletes,
            module_stream_switch: self.module_stream_switch,
            obsoletes: self.obsoletes,
            plugins: self.plugins,
            protect_running_kernel: self.protect_running_kernel,
            strict: self.strict,
            upgrade_group_objects_upgrade: self.upgrade_group_objects_upgrade,
            zchunk: self.zchunk,
            installonlypkgs: copy_strings(&self.installonlypkgs),
            protected_packages: copy_strings(&self.protected_packages),
            exclude_from_weak: copy_strings(&self.exclude_from_weak),
            group_package_types: copy_strings(&self.group_package_types),
            optional_metadata_types: copy_strings(&self.optional_metadata_types),
            tsflags: copy_flags(&self.tsflags),
            usr_drift_protected_paths: copy_strings(&self.usr_drift_protected_paths),
            multilib_policy: self.multilib_policy,
            persistence: self.persistence,
            rpmverbosity: self.rpmverbosity,
            module_platform_id: match &self.module_platform_id { Some(v) => Some(v.clone()), None => None },
            extras: string_lists_clone(&self.extras),
        }
    }
}

impl Default for MainConfig {
    fn default() -> (r: MainConfig)
        ensures
            r@ == empty_main_view(),
    {
        MainConfig::new()
    }
}

} // verus!
