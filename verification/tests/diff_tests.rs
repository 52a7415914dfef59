#![allow(unused_imports)]
use dnf_repofile::{
    detect_variables, diff_files, diff_main, diff_repos, expand_variables, ConfigDiff, Cost,
    CostError, DebugLevel, DeltaRpmPercentage, DnfBool, Error, ErrorLevel, ExpandError, FileDiff,
    InstallOnlyLimit, IpResolve, IssueLevel, IssueLocation, LogLevel, LogRotate, MainConfig,
    MaxParallelDownloads, MetadataExpire, MetadataTimerSync, ModulePlatformId, MultilibPolicy,
    ParseBoolError, ParseError, Password, Persistence, Priority, ProxyAuthMethod, ProxyPassword,
    ProxySetting, ProxyUsername, RawEntry, Repo, RepoBuilder, RepoDiff, RepoFile, RepoId,
    RepoMetadataType, RepoName, ReposDir, Retries, RpmVerbosity, SectionBlock, StorageSize,
    Throttle, TimeoutSeconds, TsFlag, Url, UrlSource, UserAgent, Username, ValidationIssue,
    ValidationReport,
};

#[test]
fn test_diff_repos_changed_option() {
    let a = RepoBuilder::new(RepoId::try_new("test").unwrap())
        .name(RepoName::try_new("Old").unwrap())
        .baseurl("https://x.com/".parse().unwrap())
        .build();
    let b = RepoBuilder::new(RepoId::try_new("test").unwrap())
        .name(RepoName::try_new("New").unwrap())
        .baseurl("https://x.com/".parse().unwrap())
        .build();
    let d = diff_repos(&a, &b);
    assert!(d.has_changes);
    assert_eq!(d.changed[0].0, "name");
}

#[test]
fn test_diff_repos_no_changes() {
    let a = RepoBuilder::new(RepoId::try_new("test").unwrap())
        .name(RepoName::try_new("T").unwrap())
        .baseurl("https://x.com/".parse().unwrap())
        .build();
    assert!(!diff_repos(&a, &a).has_changes);
}

#[test]
fn test_diff_files_added_repo() {
    let mut b = RepoFile::new();
    let repo = RepoBuilder::new(RepoId::try_new("newrepo").unwrap())
        .name(RepoName::try_new("N").unwrap())
        .baseurl("https://x.com/".parse().unwrap())
        .build();
    b.add(repo).unwrap();
    let d = diff_files(&RepoFile::new(), &b);
    assert!(d.has_changes);
    assert_eq!(d.repos_added.len(), 1);
}
