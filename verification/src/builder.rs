//! A fluent builder for [`Repo`] values.

use crate::repo::{Repo, RepoView};
use crate::sections::{extras_append, extras_push};
use crate::text::{owned, strings_view};
use crate::types::{
    urls_view, Cost, DnfBool, MaxParallelDownloads, Password, Priority, ProxySetting, RepoId,
    RepoMetadataType, RepoName, Retries, TimeoutSeconds, Url, Username,
};
use vstd::prelude::*;

verus! {

/// Builds a [`Repo`] one option at a time.
#[derive(Debug)]
pub struct RepoBuilder {
    repo: Repo,
}

impl View for RepoBuilder {
    type V = RepoView;

    closed spec fn view(&self) -> RepoView {
        self.repo@
    }
}

impl Clone for RepoBuilder {
    fn clone(&self) -> (r: RepoBuilder)
        ensures
            r@ == self@,
    {
        RepoBuilder { repo: self.repo.duplicate() }
    }
}

impl RepoBuilder {
    /// A builder for a repository with this ID and nothing else set.
    pub fn new(id: RepoId) -> (r: RepoBuilder)
        ensures
            r@ == crate::repo::empty_repo_view(id@),
    {
        RepoBuilder { repo: Repo::new(id) }
    }

    /// A builder starting from a copy of an existing repository.
    pub fn from(existing: &Repo) -> (r: RepoBuilder)
        ensures
            r@ == existing@,
    {
        RepoBuilder { repo: existing.duplicate() }
    }

    /// The repository built so far.
    pub fn build(self) -> (r: Repo)
        ensures
            r@ == self@,
    {
        self.repo
    }

    /// The builder that sets the display name.
    pub fn name(self, v: RepoName) -> (r: RepoBuilder)
        ensures
            r@ == (RepoView { name: Some(v@), ..self@ }),
    {
        let mut b = self;
        b.repo.name = Some(v);
        b
    }

    /// The builder that appends a base URL.
    pub fn baseurl(self, v: Url) -> (r: RepoBuilder)
        ensures
            r@ == (RepoView { baseurl: self@.baseurl.push(v@), ..self@ }),
    {
        let mut b = self;
        let ghost old_v = b.repo.baseurl@;
        let ghost uv = v@;
        b.repo.baseurl.push(v);
        assert(urls_view(b.repo.baseurl@) =~= urls_view(old_v).push(uv));
        b
    }

    /// The builder that replaces the base URLs.
    pub fn baseurls(self, v: Vec<Url>) -> (r: RepoBuilder)
        ensures
            r@ == (RepoView { baseurl: urls_view(v@), ..self@ }),
    {
        let mut b = self;
        b.repo.baseurl = v;
        b
    }

    /// The builder that sets the mirror list URL.
    pub fn mirrorlist(self, v: Url) -> (r: RepoBuilder)
        ensures
            r@ == (RepoView { mirrorlist: Some(v@), ..self@ }),
    {
        let mut b = self;
        b.repo.mirrorlist = Some(v);
        b
    }

    /// The builder that sets the metalink URL.
    pub fn metalink(self, v: Url) -> (r: RepoBuilder)
        ensures
            r@ == (RepoView { metalink: Some(v@), ..self@ }),
    {
        let mut b = self;
        b.repo.metalink = Some(v);
        b
    }

    /// The builder that appends a GPG key location.
    pub fn gpgkey(self, v: &str) -> (r: RepoBuilder)
        ensures
            r@ == (RepoView { gpgkey: self@.gpgkey.push(v@), ..self@ }),
    {
        let mut b = self;
        let ghost old_v = b.repo.gpgkey@;
        b.repo.gpgkey.push(owned(v));
        assert(strings_view(b.repo.gpgkey@) =~= strings_view(old_v).push(v@));
        b
    }

    /// The builder that replaces the GPG key locations.
    pub fn gpgkeys(self, v: Vec<String>) -> (r: RepoBuilder)
        ensures
            r@ == (RepoView { gpgkey: strings_view(v@), ..self@ }),
    {
        let mut b = self;
        b.repo.gpgkey = v;
        b
    }

    /// The builder that sets `enabled`.
    pub fn enabled(self, v: DnfBool) -> (r: RepoBuilder)
        ensures
            r@ == (RepoView { enabled: Some(v), ..self@ }),
    {
        let mut b = self;
        b.repo.enabled = Some(v);
        b
    }

    /// The builder that sets `gpgcheck`.
    pub fn gpgcheck(self, v: DnfBool) -> (r: RepoBuilder)
        ensures
            r@ == (RepoView { gpgcheck: Some(v), ..self@ }),
    {
        let mut b = self;
        b.repo.gpgcheck = Some(v);
        b
    }

    /// The builder that sets `repo_gpgcheck`.
    pub fn repo_gpgcheck(self, v: DnfBool) -> (r: RepoBuilder)
        ensures
            r@ == (RepoView { repo_gpgcheck: Some(v), ..self@ }),
    {
        let mut b = self;
        b.repo.repo_gpgcheck = Some(v);
        b
    }

    /// The builder that sets the priority.
    pub fn priority(self, v: Priority) -> (r: RepoBuilder)
        ensures
            r@ == (RepoView { priority: Some(v@), ..self@ }),
    {
        let mut b = self;
        b.repo.priority = Some(v);
        b
    }

    /// The builder that sets the cost.
    pub fn cost(self, v: Cost) -> (r: RepoBuilder)
        ensures
            r@ == (RepoView { cost: Some(v@), ..self@ }),
    {
        let mut b = self;
        b.repo.cost = Some(v);
        b
    }

    /// The builder that sets `module_hotfixes`.
    pub fn module_hotfixes(self, v: DnfBool) -> (r: RepoBuilder)
        ensures
            r@ == (RepoView { module_hotfixes: Some(v), ..self@ }),
    {
        let mut b = self;
        b.repo.module_hotfixes = Some(v);
        b
    }

    /// The builder that sets the metadata type.
    pub fn metadata_type(self, v: RepoMetadataType) -> (r: RepoBuilder)
        ensures
            r@ == (RepoView { metadata_type: Some(v), ..self@ }),
    {
        let mut b = self;
        b.repo.metadata_type = Some(v);
        b
    }

    /// The builder that sets the media ID.
    pub fn mediaid(self, v: &str) -> (r: RepoBuilder)
        ensures
            r@ == (RepoView { mediaid: Some(v@), ..self@ }),
    {
        let mut b = self;
        b.repo.mediaid = Some(owned(v));
        b
    }

    /// The builder that appends an exclude pattern.
    pub fn excludepkgs(self, v: &str) -> (r: RepoBuilder)
        ensures
            r@ == (RepoView { excludepkgs: self@.excludepkgs.push(v@), ..self@ }),
    {
        let mut b = self;
        let ghost old_v = b.repo.excludepkgs@;
        b.repo.excludepkgs.push(owned(v));
        assert(strings_view(b.repo.excludepkgs@) =~= strings_view(old_v).push(v@));
        b
    }

    /// The builder that appends an include pattern.
    pub fn includepkgs(self, v: &str) -> (r: RepoBuilder)
        ensures
            r@ == (RepoView { includepkgs: self@.includepkgs.push(v@), ..self@ }),
    {
        let mut b = self;
        let ghost old_v = b.repo.includepkgs@;
        b.repo.includepkgs.push(owned(v));
        assert(strings_view(b.repo.includepkgs@) =~= strings_view(old_v).push(v@));
        b
    }

    /// The builder that sets `skip_if_unavailable`.
    pub fn skip_if_unavailable(self, v: DnfBool) -> (r: RepoBuilder)
        ensures
            r@ == (RepoView { skip_if_unavailable: Some(v), ..self@ }),
    {
        let mut b = self;
        b.repo.skip_if_unavailable = Some(v);
        b
    }

    /// The builder that sets the retry count.
    pub fn retries(self, v: Retries) -> (r: RepoBuilder)
        ensures
            r@ == (RepoView { retries: Some(v@), ..self@ }),
    {
        let mut b = self;
        b.repo.retries = Some(v);
        b
    }

    /// The builder that sets the timeout.
    pub fn timeout(self, v: TimeoutSeconds) -> (r: RepoBuilder)
        ensures
            r@ == (RepoView { timeout: Some(v@), ..self@ }),
    {
        let mut b = self;
        b.repo.timeout = Some(v);
        b
    }

    /// The builder that sets the download parallelism.
    pub fn max_parallel_downloads(self, v: MaxParallelDownloads) -> (r: RepoBuilder)
        ensures
            r@ == (RepoView { max_parallel_downloads: Some(v@), ..self@ }),
    {
        let mut b = self;
        b.repo.max_parallel_downloads = Some(v);
        b
    }

    /// The builder that sets the proxy.
    pub fn proxy(self, v: ProxySetting) -> (r: RepoBuilder)
        ensures
            r@ == (RepoView { proxy: v@, ..self@ }),
    {
        let mut b = self;
        b.repo.proxy = v;
        b
    }

    /// The builder that sets the user name.
    pub fn username(self, v: Username) -> (r: RepoBuilder)
        ensures
            r@ == (RepoView { username: Some(v@), ..self@ }),
    {
        let mut b = self;
        b.repo.username = Some(v);
        b
    }

    /// The builder that sets the password.
    pub fn password(self, v: Password) -> (r: RepoBuilder)
        ensures
            r@ == (RepoView { password: Some(v@), ..self@ }),
    {
        let mut b = self;
        b.repo.password = Some(v);
        b
    }

    /// The builder that adds a value under an unknown option name (after
    /// the values it already has).
    pub fn extra(self, key: &str, value: &str) -> (r: RepoBuilder)
        ensures
            r@ == (RepoView { extras: extras_append(self@.extras, key@, value@), ..self@ }),
    {
        let mut b = self;
        let k = owned(key);
        let v = owned(value);
        extras_push(&mut b.repo.extras, &k, &v);
        b
    }
}

} // verus!
