#![allow(unused_imports)]
use dnf_repofile::{
    detect_variables, diff_files, diff_main, diff_repos, expand_variables, ConfigDiff, Cost,
    CostError, DebugLevel, DeltaRpmPercentage, DnfBool, Error, ErrorLevel, ExpandError, FileDiff,
    InstallOnlyLimit, IpResolve, IssueLevel, IssueLocation, LogLevel, LogRotate, MainConfig,
    MaxParallelDownloads, MetadataExpire, MetadataTimerSync, ModulePlatformId, MultilibPolicy,
    ParseBoolError, ParseError, Password, Persistence, Priority, ProxyAuthMethod, ProxyPassword,
    ProxySetting, ProxyUsername, RawEntry, Repo, RepoBuilder, RepoDiff, RepoFile, RepoId,
    RepoMetadataType, RepoName, ReposDir, Retries, RpmVerbosity, SectionBlock, StorageSize,
    Throttle, TimeoutSeconds, TsFlag, Url, UrlSource, UserAgent, Username, ValidationIssue,
    ValidationReport,
};

#[test]
fn test_builder_basic() {
    let repo = RepoBuilder::new(RepoId::try_new("myrepo").unwrap())
        .name(RepoName::try_new("My Repo").unwrap())
        .enabled(DnfBool::True)
        .gpgcheck(DnfBool::True)
        .baseurl("https://example.com/repo/".parse().unwrap())
        .gpgkey("https://example.com/RPM-GPG-KEY")
        .priority(Priority::try_new(50).unwrap())
        .build();
    assert_eq!(repo.id.as_ref(), "myrepo");
    assert_eq!(repo.name.unwrap().as_ref(), "My Repo");
    assert_eq!(repo.baseurl[0].as_str(), "https://example.com/repo/");
    assert_eq!(repo.gpgkey[0], "https://example.com/RPM-GPG-KEY");
}

#[test]
fn test_builder_from_existing() {
    let existing = RepoBuilder::new(RepoId::try_new("myrepo").unwrap())
        .name(RepoName::try_new("Original").unwrap())
        .enabled(DnfBool::True)
        .baseurl("https://example.com/".parse().unwrap())
        .build();
    let modified = RepoBuilder::from(&existing).enabled(DnfBool::False).build();
    assert_eq!(modified.name.unwrap().as_ref(), "Original");
    assert_eq!(modified.enabled.unwrap(), DnfBool::False);
}
