//! Validation of repository and `[main]` configurations.
//!
//! Rules for a repository:
//! - **Error**: no URL source (no `baseurl`, `mirrorlist` or `metalink`).
//! - **Warning**: `baseurl` set together with `mirrorlist` or `metalink`.
//! - **Warning**: `gpgkey` set while neither `gpgcheck` nor `repo_gpgcheck`
//!   is enabled.

use crate::mainconfig::MainConfig;
use crate::repo::{spec_url_source, Repo, RepoView};
use crate::text::{copy_string, owned};
use crate::types::{DnfBool, RepoId};
use vstd::prelude::*;

verus! {

/// Severity of a finding.
#[derive(Debug, Clone, Copy, PartialEq, Eq, Structural)]
pub enum IssueLevel {
    /// The configuration is invalid.
    Error,
    /// The configuration may work but is suspicious.
    Warning,
}

/// Where a finding was made.
#[derive(Debug)]
pub enum IssueLocation {
    /// A `.repo` file, by name.
    File(String),
    /// A repository section.
    Repo(RepoId),
    /// The `[main]` section.
    Main,
}

/// The plain-value model of an [`IssueLocation`].
pub enum LocationView {
    File(Seq<char>),
    Repo(Seq<char>),
    Main,
}

impl View for IssueLocation {
    type V = LocationView;

    open spec fn view(&self) -> LocationView {
        match self {
            IssueLocation::File(f) => LocationView::File(f@),
            IssueLocation::Repo(id) => LocationView::Repo(id@),
            IssueLocation::Main => LocationView::Main,
        }
    }
}

impl Clone for IssueLocation {
    fn clone(&self) -> (r: IssueLocation)
        ensures
            r@ == self@,
    {
        match self {
            IssueLocation::File(f) => IssueLocation::File(copy_string(f)),
            IssueLocation::Repo(id) => IssueLocation::Repo(id.clone()),
            IssueLocation::Main => IssueLocation::Main,
        }
    }
}

/// One finding: its severity, location, option name and message.
#[derive(Debug)]
pub struct ValidationIssue {
    pub level: IssueLevel,
    pub location: IssueLocation,
    pub field: Option<String>,
    pub message: String,
}

/// The plain-value model of a [`ValidationIssue`].
pub struct IssueView {
    pub level: IssueLevel,
    pub location: LocationView,
    pub field: Option<Seq<char>>,
    pub message: Seq<char>,
}

impl View for ValidationIssue {
    type V = IssueView;

    open spec fn view(&self) -> IssueView {
        IssueView {
            level: self.level,
            location: self.location@,
            field: crate::types::opt_view(self.field),
            message: self.message@,
        }
    }
}

impl Clone for ValidationIssue {
    fn clone(&self) -> (r: ValidationIssue)
        ensures
            r@ == self@,
    {
        ValidationIssue {
            level: self.level,
            location: self.location.clone(),
            field: match &self.field {
                Some(f) => Some(copy_string(f)),
                None => None,
            },
            message: copy_string(&self.message),
        }
    }
}

/// The models of a list of findings.
pub open spec fn issues_view(v: Seq<ValidationIssue>) -> Seq<IssueView> {
    v.map_values(|i: ValidationIssue| i@)
}

/// Copy a list of findings.
pub fn copy_issues(v: &Vec<ValidationIssue>) -> (r: Vec<ValidationIssue>)
    ensures
        issues_view(r@) == issues_view(v@),
{
    let mut r: Vec<ValidationIssue> = Vec::new();
    let mut i: usize = 0;
    while i < v.len()
        invariant
            i <= v@.len(),
            r@.len() == i,
            forall|k: int| 0 <= k < i ==> #[trigger] r@[k]@ == v@[k]@,
        decreases v@.len() - i,
    {
        r.push(v[i].clone());
        i = i + 1;
    }
    assert(issues_view(r@) =~= issues_view(v@));
    r
}

/// The findings of a validation: errors and warnings.
#[derive(Debug)]
pub struct ValidationReport {
    /// Findings that make the configuration invalid.
    pub errors: Vec<ValidationIssue>,
    /// Advisory findings.
    pub warnings: Vec<ValidationIssue>,
}

/// The plain-value model of a [`ValidationReport`].
pub struct ReportView {
    pub errors: Seq<IssueView>,
    pub warnings: Seq<IssueView>,
}

impl View for ValidationReport {
    type V = ReportView;

    open spec fn view(&self) -> ReportView {
        ReportView { errors: issues_view(self.errors@), warnings: issues_view(self.warnings@) }
    }
}

impl Clone for ValidationReport {
    fn clone(&self) -> (r: ValidationReport)
        ensures
            r@ == self@,
    {
        ValidationReport { errors: copy_issues(&self.errors), warnings: copy_issues(&self.warnings) }
    }
}

/// A report with no findings.
pub open spec fn empty_report() -> ReportView {
    ReportView { errors: seq![], warnings: seq![] }
}

impl ValidationReport {
    /// A report with no findings.
    pub fn new() -> (r: ValidationReport)
        ensures
            r@ == empty_report(),
    {
        let r = ValidationReport { errors: Vec::new(), warnings: Vec::new() };
        assert(r@.errors =~= Seq::<IssueView>::empty());
        assert(r@.warnings =~= Seq::<IssueView>::empty());
        r
    }

    /// Whether there is no error (warnings do not count).
    pub fn is_ok(&self) -> (r: bool)
        ensures
            r == (self@.errors.len() == 0),
    {
        self.errors.len() == 0
    }

    /// Whether there is any finding, error or warning.
    pub fn has_issues(&self) -> (r: bool)
        ensures
            r == (self@.errors.len() > 0 || self@.warnings.len() > 0),
    {
        self.errors.len() > 0 || self.warnings.len() > 0
    }
}

impl Default for ValidationReport {
    fn default() -> (r: ValidationReport)
        ensures
            r@ == empty_report(),
    {
        ValidationReport::new()
    }
}

/// The message of a repository without a URL source.
pub open spec fn no_url_message() -> Seq<char> {
    "repo must have at least one URL source (baseurl, mirrorlist, or metalink)"@
}

/// The message of a repository with both `baseurl` and a mirror source.
pub open spec fn both_urls_message() -> Seq<char> {
    "baseurl and mirrorlist/metalink both set; DNF may ignore mirrorlist/metalink"@
}

/// The message of a repository with keys but no signature checking.
pub open spec fn unchecked_key_message() -> Seq<char> {
    "gpgkey is set but gpgcheck and repo_gpgcheck are not enabled"@
}

/// A finding about a repository's option.
pub open spec fn repo_issue(level: IssueLevel, id: Seq<char>, field: Seq<char>, message: Seq<char>) -> IssueView {
    IssueView {
        level: level,
        location: LocationView::Repo(id),
        field: Some(field),
        message: message,
    }
}

/// The report on a repository.
pub open spec fn spec_validate_repo(r: RepoView) -> ReportView {
    let no_url = r.baseurl.len() == 0 && r.mirrorlist is None && r.metalink is None;
    let both = r.baseurl.len() > 0 && (r.mirrorlist is Some || r.metalink is Some);
    let unchecked = r.gpgkey.len() > 0 && r.gpgcheck != Some(DnfBool::True) && r.repo_gpgcheck
        != Some(DnfBool::True);
    let w1: Seq<IssueView> = if both {
        seq![repo_issue(IssueLevel::Warning, r.id, "baseurl"@, both_urls_message())]
    } else {
        seq![]
    };
    let w2: Seq<IssueView> = if unchecked {
        seq![repo_issue(IssueLevel::Warning, r.id, "gpgkey"@, unchecked_key_message())]
    } else {
        seq![]
    };
    ReportView {
        errors: if no_url {
            seq![repo_issue(IssueLevel::Error, r.id, "baseurl"@, no_url_message())]
        } else {
            seq![]
        },
        warnings: w1 + w2,
    }
}

fn push_issue(v: &mut Vec<ValidationIssue>, issue: ValidationIssue)
    ensures
        issues_view(final(v)@) == issues_view(old(v)@).push(issue@),
{
    let ghost old_v = v@;
    let ghost iv = issue@;
    v.push(issue);
    assert(issues_view(v@) =~= issues_view(old_v).push(iv));
}

fn is_true(b: Option<DnfBool>) -> (r: bool)
    ensures
        r == (b == Some(DnfBool::True)),
{
    match b {
        Some(DnfBool::True) => true,
        _ => false,
    }
}

impl Repo {
    /// Check the repository: an error when it has no URL source, a warning
    /// when `baseurl` is set with `mirrorlist` or `metalink`, and a warning
    /// when `gpgkey` is set but neither `gpgcheck` nor `repo_gpgcheck` is
    /// enabled.
    pub fn validate(&self) -> (r: ValidationReport)
        ensures
            r@ == spec_validate_repo(self@),
    {
        let mut r = ValidationReport::new();
        if self.baseurl.len() == 0 && self.mirrorlist.is_none() && self.metalink.is_none() {
            push_issue(
                &mut r.errors,
                ValidationIssue {
                    level: IssueLevel::Error,
                    location: IssueLocation::Repo(self.id.clone()),
                    field: Some(owned("baseurl")),
                    message: owned(
                        "repo must have at least one URL source (baseurl, mirrorlist, or metalink)",
                    ),
                },
            );
        }
        let ghost w0 = r@.warnings;
        if self.baseurl.len() > 0 && (self.mirrorlist.is_some() || self.metalink.is_some()) {
            push_issue(
                &mut r.warnings,
                ValidationIssue {
                    level: IssueLevel::Warning,
                    location: IssueLocation::Repo(self.id.clone()),
                    field: Some(owned("baseurl")),
                    message: owned(
                        "baseurl and mirrorlist/metalink both set; DNF may ignore mirrorlist/metalink",
                    ),
                },
            );
        }
        let ghost w1 = r@.warnings;
        if self.gpgkey.len() > 0 && !is_true(self.gpgcheck) && !is_true(self.repo_gpgcheck) {
            push_issue(
                &mut r.warnings,
                ValidationIssue {
                    level: IssueLevel::Warning,
                    location: IssueLocation::Repo(self.id.clone()),
                    field: Some(owned("gpgkey")),
                    message: owned("gpgkey is set but gpgcheck and repo_gpgcheck are not enabled"),
                },
            );
        }
        proof {
            let s = spec_validate_repo(self@);
            assert(r@.errors =~= s.errors);
            assert(r@.warnings =~= s.warnings);
        }
        r
    }
}

impl MainConfig {
    /// Check the `[main]` configuration; no rule applies to it yet, so the
    /// report is empty.
    pub fn validate(&self) -> (r: ValidationReport)
        ensures
            r@ == empty_report(),
    {
        ValidationReport::new()
    }
}

/// A repository is valid (its report has no error) exactly when it has a
/// URL source.
pub proof fn lemma_valid_iff_url_source(r: RepoView)
    ensures
        (spec_validate_repo(r).errors.len() == 0) == (spec_url_source(r) is Some),
{
}


/// The warning given to a repository whose `baseurl` is set together with a
/// `mirrorlist` or `metalink`.
pub open spec fn both_urls_warning(id: Seq<char>) -> IssueView {
    IssueView {
        level: IssueLevel::Warning,
        location: LocationView::Repo(id),
        field: Some("baseurl"@),
        message: "baseurl and mirrorlist/metalink both set; DNF may ignore mirrorlist/metalink"@,
    }
}

/// A repository gets the warning that `baseurl` is set together with a
/// `mirrorlist` or `metalink` exactly when it has a non-empty `baseurl` and
/// a `mirrorlist` or a `metalink`; that warning never comes as an error.
pub proof fn lemma_both_urls_warning(r: RepoView)
    ensures
        spec_validate_repo(r).warnings.contains(both_urls_warning(r.id)) <==> (r.baseurl.len() > 0 && (
        r.mirrorlist is Some || r.metalink is Some)),
        !spec_validate_repo(r).errors.contains(both_urls_warning(r.id)),
{
    let rep = spec_validate_repo(r);
    reveal_strlit("baseurl");
    reveal_strlit("gpgkey");
    assert("gpgkey"@.len() != "baseurl"@.len());
    if r.baseurl.len() > 0 && (r.mirrorlist is Some || r.metalink is Some) {
        assert(rep.warnings[0] == both_urls_warning(r.id));
    } else {
        assert forall|i: int| 0 <= i < rep.warnings.len() implies rep.warnings[i] != both_urls_warning(r.id) by {
            assert(rep.warnings[i].field == Some("gpgkey"@));
        }
    }
    assert forall|i: int| 0 <= i < rep.errors.len() implies rep.errors[i] != both_urls_warning(r.id) by {
        assert(rep.errors[i].level == IssueLevel::Error);
    }
}


/// The warning given to a repository with keys but no signature checking.
pub open spec fn unchecked_key_warning(id: Seq<char>) -> IssueView {
    IssueView {
        level: IssueLevel::Warning,
        location: LocationView::Repo(id),
        field: Some("gpgkey"@),
        message: "gpgkey is set but gpgcheck and repo_gpgcheck are not enabled"@,
    }
}

/// The error given to a repository without a URL source.
pub open spec fn no_url_error(id: Seq<char>) -> IssueView {
    IssueView {
        level: IssueLevel::Error,
        location: LocationView::Repo(id),
        field: Some("baseurl"@),
        message: "repo must have at least one URL source (baseurl, mirrorlist, or metalink)"@,
    }
}

/// A repository gets the warning about unchecked keys exactly when it has a
/// `gpgkey` but neither `gpgcheck` nor `repo_gpgcheck` is enabled; it gets
/// an error exactly when it has no `baseurl`, `mirrorlist` or `metalink`,
/// and that error is the only one; its warnings are the two warnings of
/// this module, in order, when they apply.
pub proof fn lemma_repo_report(r: RepoView)
    ensures
        spec_validate_repo(r).warnings.contains(unchecked_key_warning(r.id)) <==> (r.gpgkey.len() > 0
            && r.gpgcheck != Some(DnfBool::True) && r.repo_gpgcheck != Some(DnfBool::True)),
        spec_validate_repo(r).errors.len() > 0 <==> (r.baseurl.len() == 0 && r.mirrorlist is None
            && r.metalink is None),
        spec_validate_repo(r).errors.len() > 0 ==> spec_validate_repo(r).errors == seq![no_url_error(r.id)],
        forall|i: int| 0 <= i < spec_validate_repo(r).warnings.len() ==> (#[trigger] spec_validate_repo(r).warnings[i]
            == both_urls_warning(r.id) || spec_validate_repo(r).warnings[i] == unchecked_key_warning(r.id)),
{
    let rep = spec_validate_repo(r);
    reveal_strlit("baseurl");
    reveal_strlit("gpgkey");
    assert("gpgkey"@.len() != "baseurl"@.len());
    let unchecked = r.gpgkey.len() > 0 && r.gpgcheck != Some(DnfBool::True) && r.repo_gpgcheck != Some(DnfBool::True);
    if unchecked {
        let k = rep.warnings.len() - 1;
        assert(rep.warnings[k] == unchecked_key_warning(r.id));
    } else {
        assert forall|i: int| 0 <= i < rep.warnings.len() implies rep.warnings[i] != unchecked_key_warning(r.id) by {
            assert(rep.warnings[i].field == Some("baseurl"@));
        }
    }
}

} // verus!
