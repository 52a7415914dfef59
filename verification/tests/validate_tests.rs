#![allow(unused_imports)]
use dnf_repofile::{
    detect_variables, diff_files, diff_main, diff_repos, expand_variables, ConfigDiff, Cost,
    CostError, DebugLevel, DeltaRpmPercentage, DnfBool, Error, ErrorLevel, ExpandError, FileDiff,
    InstallOnlyLimit, IpResolve, IssueLevel, IssueLocation, LogLevel, LogRotate, MainConfig,
    MaxParallelDownloads, MetadataExpire, MetadataTimerSync, ModulePlatformId, MultilibPolicy,
    ParseBoolError, ParseError, Password, Persistence, Priority, ProxyAuthMethod, ProxyPassword,
    ProxySetting, ProxyUsername, RawEntry, Repo, RepoBuilder, RepoDiff, RepoFile, RepoId,
    RepoMetadataType, RepoName, ReposDir, Retries, RpmVerbosity, SectionBlock, StorageSize,
    Throttle, TimeoutSeconds, TsFlag, Url, UrlSource, UserAgent, Username, ValidationIssue,
    ValidationReport,
};

#[test]
fn test_validate_repo_no_url_source() {
    let repo = Repo::new(RepoId::try_new("testrepo").unwrap());
    let report = repo.validate();
    assert!(!report.is_ok());
    assert!(report.errors.iter().any(|e| e.message.contains("URL")));
}

#[test]
fn test_validate_repo_with_baseurl_passes() {
    let mut repo = Repo::new(RepoId::try_new("testrepo").unwrap());
    repo.baseurl
        .push("https://example.com/repo/".parse().unwrap());
    assert!(repo.validate().is_ok());
}

#[test]
fn test_validate_gpgkey_without_gpgcheck_warns() {
    let mut repo = Repo::new(RepoId::try_new("testrepo").unwrap());
    repo.baseurl
        .push("https://example.com/repo/".parse().unwrap());
    repo.gpgkey.push("https://example.com/key".to_string());
    repo.gpgcheck = Some(DnfBool::False);
    assert!(repo
        .validate()
        .warnings
        .iter()
        .any(|w| w.message.contains("gpg")));
}
