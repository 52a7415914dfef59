//! The fully typed `[repo-id]` section.

use crate::collections::{string_list_entries, string_lists_clone, string_lists_new};
use crate::text::{copy_string, copy_strings, strings_view};
use crate::types::{
    clone_path, copy_opt_url, copy_urls, opt_view, urls_view, Cost, DeltaRpmPercentage, DnfBool,
    IpResolve, MaxParallelDownloads, MetadataExpire, Password, Priority, ProxyAuthMethod,
    ProxyPassword, ProxySetting, ProxyUsername, ProxyView, RepoId, RepoMetadataType, RepoName,
    Retries, StorageSize, Throttle, TimeoutSeconds, Url, UrlSource, UrlSourceView, UserAgent,
    Username,
};
use camino::Utf8PathBuf;
use indexmap::IndexMap;
use vstd::prelude::*;

verus! {

/// A fully typed `[repo-id]` section.
#[derive(Debug, PartialEq, Eq)]
pub struct Repo {
    pub id: RepoId,
    pub name: Option<RepoName>,
    pub baseurl: Vec<Url>,
    pub mirrorlist: Option<Url>,
    pub metalink: Option<Url>,
    pub gpgkey: Vec<String>,
    pub enabled: Option<DnfBool>,
    pub priority: Option<Priority>,
    pub cost: Option<Cost>,
    pub module_hotfixes: Option<DnfBool>,
    pub metadata_type: Option<RepoMetadataType>,
    pub mediaid: Option<String>,
    pub enabled_metadata: Vec<String>,
    pub excludepkgs: Vec<String>,
    pub includepkgs: Vec<String>,
    pub gpgcheck: Option<DnfBool>,
    pub repo_gpgcheck: Option<DnfBool>,
    pub localpkg_gpgcheck: Option<DnfBool>,
    pub skip_if_unavailable: Option<DnfBool>,
    pub deltarpm: Option<DnfBool>,
    pub deltarpm_percentage: Option<DeltaRpmPercentage>,
    pub enablegroups: Option<DnfBool>,
    pub fastestmirror: Option<DnfBool>,
    pub countme: Option<DnfBool>,
    pub bandwidth: Option<StorageSize>,
    pub throttle: Option<Throttle>,
    pub minrate: Option<StorageSize>,
    pub retries: Option<Retries>,
    pub timeout: Option<TimeoutSeconds>,
    pub max_parallel_downloads: Option<MaxParallelDownloads>,
    pub metadata_expire: Option<MetadataExpire>,
    pub ip_resolve: Option<IpResolve>,
    pub sslverify: Option<DnfBool>,
    pub sslverifystatus: Option<DnfBool>,
    pub sslcacert: Option<Utf8PathBuf>,
    pub sslclientcert: Option<Utf8PathBuf>,
    pub sslclientkey: Option<Utf8PathBuf>,
    pub proxy: ProxySetting,
    pub proxy_username: Option<ProxyUsername>,
    pub proxy_password: Option<ProxyPassword>,
    pub proxy_auth_method: Option<ProxyAuthMethod>,
    pub proxy_sslverify: Option<DnfBool>,
    pub proxy_sslcacert: Option<Utf8PathBuf>,
    pub proxy_sslclientcert: Option<Utf8PathBuf>,
    pub proxy_sslclientkey: Option<Utf8PathBuf>,
    pub username: Option<Username>,
    pub password: Option<Password>,
    pub user_agent: Option<UserAgent>,
    pub extras: IndexMap<String, Vec<String>>,
}

/// The plain-value model of a [`Repo`]: texts as character sequences,
/// validated numbers as their values, unknown options as ordered entries.
#[verifier::ext_equal]
pub struct RepoView {
    pub id: Seq<char>,
    pub name: Option<Seq<char>>,
    pub baseurl: Seq<Seq<char>>,
    pub mirrorlist: Option<Seq<char>>,
    pub metalink: Option<Seq<char>>,
    pub gpgkey: Seq<Seq<char>>,
    pub enabled: Option<DnfBool>,
    pub priority: Option<i32>,
    pub cost: Option<i32>,
    pub module_hotfixes: Option<DnfBool>,
    pub metadata_type: Option<RepoMetadataType>,
    pub mediaid: Option<Seq<char>>,
    pub enabled_metadata: Seq<Seq<char>>,
    pub excludepkgs: Seq<Seq<char>>,
    pub includepkgs: Seq<Seq<char>>,
    pub gpgcheck: Option<DnfBool>,
    pub repo_gpgcheck: Option<DnfBool>,
    pub localpkg_gpgcheck: Option<DnfBool>,
    pub skip_if_unavailable: Option<DnfBool>,
    pub deltarpm: Option<DnfBool>,
    pub deltarpm_percentage: Option<u32>,
    pub enablegroups: Option<DnfBool>,
    pub fastestmirror: Option<DnfBool>,
    pub countme: Option<DnfBool>,
    pub bandwidth: Option<StorageSize>,
    pub throttle: Option<Throttle>,
    pub minrate: Option<StorageSize>,
    pub retries: Option<u32>,
    pub timeout: Option<u32>,
    pub max_parallel_downloads: Option<u32>,
    pub metadata_expire: Option<MetadataExpire>,
    pub ip_resolve: Option<IpResolve>,
    pub sslverify: Option<DnfBool>,
    pub sslverifystatus: Option<DnfBool>,
    pub sslcacert: Option<Utf8PathBuf>,
    pub sslclientcert: Option<Utf8PathBuf>,
    pub sslclientkey: Option<Utf8PathBuf>,
    pub proxy: ProxyView,
    pub proxy_username: Option<Seq<char>>,
    pub proxy_password: Option<Seq<char>>,
    pub proxy_auth_method: Option<ProxyAuthMethod>,
    pub proxy_sslverify: Option<DnfBool>,
    pub proxy_sslcacert: Option<Utf8PathBuf>,
    pub proxy_sslclientcert: Option<Utf8PathBuf>,
    pub proxy_sslclientkey: Option<Utf8PathBuf>,
    pub username: Option<Seq<char>>,
    pub password: Option<Seq<char>>,
    pub user_agent: Option<Seq<char>>,
    pub extras: Seq<(Seq<char>, Seq<Seq<char>>)>,
}

impl Clone for Repo {
    fn clone(&self) -> (r: Repo)
        ensures
            r@ == self@,
    {
        self.duplicate()
    }
}

impl View for Repo {
    type V = RepoView;

    open spec fn view(&self) -> RepoView {
        RepoView {
            id: self.id@,
            name: opt_view(self.name),
            baseurl: urls_view(self.baseurl@),
            mirrorlist: opt_view(self.mirrorlist),
            metalink: opt_view(self.metalink),
            gpgkey: strings_view(self.gpgkey@),
            enabled: self.enabled,
            priority: opt_view(self.priority),
            cost: opt_view(self.cost),
            module_hotfixes: self.module_hotfixes,
            metadata_type: self.metadata_type,
            mediaid: opt_view(self.mediaid),
            enabled_metadata: strings_view(self.enabled_metadata@),
            excludepkgs: strings_view(self.excludepkgs@),
            includepkgs: strings_view(self.includepkgs@),
            gpgcheck: self.gpgcheck,
            repo_gpgcheck: self.repo_gpgcheck,
            localpkg_gpgcheck: self.localpkg_gpgcheck,
            skip_if_unavailable: self.skip_if_unavailable,
            deltarpm: self.deltarpm,
            deltarpm_percentage: opt_view(self.deltarpm_percentage),
            enablegroups: self.enablegroups,
            fastestmirror: self.fastestmirror,
            countme: self.countme,
            bandwidth: self.bandwidth,
            throttle: self.throttle,
            minrate: self.minrate,
            retries: opt_view(self.retries),
            timeout: opt_view(self.timeout),
            max_parallel_downloads: opt_view(self.max_parallel_downloads),
            metadata_expire: self.metadata_expire,
            ip_resolve: self.ip_resolve,
            sslverify: self.sslverify,
            sslverifystatus: self.sslverifystatus,
            sslcacert: self.sslcacert,
            sslclientcert: self.sslclientcert,
            sslclientkey: self.sslclientkey,
            proxy: self.proxy@,
            proxy_username: opt_view(self.proxy_username),
            proxy_password: opt_view(self.proxy_password),
            proxy_auth_method: self.proxy_auth_method,
            proxy_sslverify: self.proxy_sslverify,
            proxy_sslcacert: self.proxy_sslcacert,
            proxy_sslclientcert: self.proxy_sslclientcert,
            proxy_sslclientkey: self.proxy_sslclientkey,
            username: opt_view(self.username),
            password: opt_view(self.password),
            user_agent: opt_view(self.user_agent),
            extras: string_list_entries(self.extras),
        }
    }
}

/// The model of a repository that has an ID and nothing else set.
pub open spec fn empty_repo_view(id: Seq<char>) -> RepoView {
    RepoView {
        id: id,
        name: None,
        baseurl: Seq::empty(),
        mirrorlist: None,
        metalink: None,
        gpgkey: Seq::empty(),
        enabled: None,
        priority: None,
        cost: None,
        module_hotfixes: None,
        metadata_type: None,
        mediaid: None,
        enabled_metadata: Seq::empty(),
        excludepkgs: Seq::empty(),
        includepkgs: Seq::empty(),
        gpgcheck: None,
        repo_gpgcheck: None,
        localpkg_gpgcheck: None,
        skip_if_unavailable: None,
        deltarpm: None,
        deltarpm_percentage: None,
        enablegroups: None,
        fastestmirror: None,
        countme: None,
        bandwidth: None,
        throttle: None,
        minrate: None,
        retries: None,
        timeout: None,
        max_parallel_downloads: None,
        metadata_expire: None,
        ip_resolve: None,
        sslverify: None,
        sslverifystatus: None,
        sslcacert: None,
        sslclientcert: None,
        sslclientkey: None,
        proxy: ProxyView::Unset,
        proxy_username: None,
        proxy_password: None,
        proxy_auth_method: None,
        proxy_sslverify: None,
        proxy_sslcacert: None,
        proxy_sslclientcert: None,
        proxy_sslclientkey: None,
        username: None,
        password: None,
        user_agent: None,
        extras: Seq::empty(),
    }
}

/// Where a repository's metadata comes from: its base URLs if it has any,
/// else its mirror list, else its metalink.
pub open spec fn spec_url_source(r: RepoView) -> Option<UrlSourceView> {
    if r.baseurl.len() > 0 {
        Some(UrlSourceView::BaseUrl(r.baseurl))
    } else if r.mirrorlist is Some {
        Some(UrlSourceView::MirrorList(r.mirrorlist->0))
    } else if r.metalink is Some {
        Some(UrlSourceView::Metalink(r.metalink->0))
    } else {
        None
    }
}

impl Repo {
    /// Create a repository with only an ID; every other field is unset.
    pub fn new(id: RepoId) -> (r: Repo)
        ensures
            r@ == empty_repo_view(id@),
    {
        let id_view = Ghost(id@);
        let r = Repo {
            id,
            name: None,
            baseurl: Vec::new(),
            mirrorlist: None,
            metalink: None,
            gpgkey: Vec::new(),
            enabled: None,
            priority: None,
            cost: None,
            module_hotfixes: None,
            metadata_type: None,
            mediaid: None,
            enabled_metadata: Vec::new(),
            excludepkgs: Vec::new(),
            includepkgs: Vec::new(),
            gpgcheck: None,
            repo_gpgcheck: None,
            localpkg_gpgcheck: None,
            skip_if_unavailable: None,
            deltarpm: None,
            deltarpm_percentage: None,
            enablegroups: None,
            fastestmirror: None,
            countme: None,
            bandwidth: None,
            throttle: None,
            minrate: None,
            retries: None,
            timeout: None,
            max_parallel_downloads: None,
            metadata_expire: None,
            ip_resolve: None,
            sslverify: None,
            sslverifystatus: None,
            sslcacert: None,
            sslclientcert: None,
            sslclientkey: None,
            proxy: ProxySetting::Unset,
            proxy_username: None,
            proxy_password: None,
            proxy_auth_method: None,
            proxy_sslverify: None,
            proxy_sslcacert: None,
            proxy_sslclientcert: None,
            proxy_sslclientkey: None,
            username: None,
            password: None,
            user_agent: None,
            extras: string_lists_new(),
        };
        assert(r@ =~= empty_repo_view(id_view@));
        r
    }

    /// Determine the URL source for this repo.
    pub fn url_source(&self) -> (r: Option<UrlSource>)
        ensures
            opt_view(r) == spec_url_source(self@),
    {
        if self.baseurl.len() > 0 {
            Some(UrlSource::BaseUrl(copy_urls(&self.baseurl)))
        } else {
            match &self.mirrorlist {
                Some(u) => Some(UrlSource::MirrorList(u.duplicate())),
                None => match &self.metalink {
                    Some(u) => Some(UrlSource::Metalink(u.duplicate())),
                    None => None,
                },
            }
        }
    }

    /// A copy of this repository.
    pub fn duplicate(&self) -> (r: Repo)
        ensures
            r@ == self@,
    {
        Repo {
            id: self.id.clone(),
            name: match &self.name { Some(v) => Some(v.clone()), None => None },
            baseurl: copy_urls(&self.baseurl),
            mirrorlist: copy_opt_url(&self.mirrorlist),
            metalink: copy_opt_url(&self.metalink),
            gpgkey: copy_strings(&self.gpgkey),
            enabled: self.enabled,
            priority: self.priority,
            cost: self.cost,
            module_hotfixes: self.module_hotfixes,
            metadata_type: self.metadata_type,
            mediaid: match &self.mediaid { Some(v) => Some(copy_string(v)), None => None },
            enabled_metadata: copy_strings(&self.enabled_metadata),
            excludepkgs: copy_strings(&self.excludepkgs),
            includepkgs: copy_strings(&self.includepkgs),
            gpgcheck: self.gpgcheck,
            repo_gpgcheck: self.repo_gpgcheck,
            localpkg_gpgcheck: self.localpkg_gpgcheck,
            skip_if_unavailable: self.skip_if_unavailable,
            deltarpm: self.deltarpm,
            deltarpm_percentage: self.deltarpm_percentage,
            enablegroups: self.enablegroups,
            fastestmirror: self.fastestmirror,
            countme: self.countme,
            bandwidth: self.bandwidth,
            throttle: self.throttle,
            minrate: self.minrate,
            retries: self.retries,
            timeout: self.timeout,
            max_parallel_downloads: self.max_parallel_downloads,
            metadata_expire: self.metadata_expire,
            ip_resolve: self.ip_resolve,
            sslverify: self.sslverify,
            sslverifystatus: self.sslverifystatus,
            sslcacert: match &self.sslcacert { Some(p) => Some(clone_path(p)), None => None },
            sslclientcert: match &self.sslclientcert { Some(p) => Some(clone_path(p)), None => None },
            sslclientkey: match &self.sslclientkey { Some(p) => Some(clone_path(p)), None => None },
            proxy: self.proxy.duplicate(),
            proxy_username: match &self.proxy_username { Some(v) => Some(v.clone()), None => None },
            proxy_password: match &self.proxy_password { Some(v) => Some(v.clone()), None => None },
            proxy_auth_method: self.proxy_auth_method,
            proxy_sslverify: self.proxy_sslverify,
            proxy_sslcacert: match &self.proxy_sslcacert { Some(p) => Some(clone_path(p)), None => None },
            proxy_sslclientcert: match &self.proxy_sslclientcert { Some(p) => Some(clone_path(p)), None => None },
            proxy_sslclientkey: match &self.proxy_sslclientkey { Some(p) => Some(clone_path(p)), None => None },
            username: match &self.username { Some(v) => Some(v.clone()), None => None },
            password: match &self.password { Some(v) => Some(v.clone()), None => None },
            user_agent: match &self.user_agent { Some(v) => Some(v.clone()), None => None },
            extras: string_lists_clone(&self.extras),
        }
    }
}

} // verus!
