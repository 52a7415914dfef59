#![allow(unused_imports)]
use dnf_repofile::{
    detect_variables, diff_files, diff_main, diff_repos, expand_variables, ConfigDiff, Cost,
    CostError, DebugLevel, DeltaRpmPercentage, DnfBool, Error, ErrorLevel, ExpandError, FileDiff,
    InstallOnlyLimit, IpResolve, IssueLevel, IssueLocation, LogLevel, LogRotate, MainConfig,
    MaxParallelDownloads, MetadataExpire, MetadataTimerSync, ModulePlatformId, MultilibPolicy,
    ParseBoolError, ParseError, Password, Persistence, Priority, ProxyAuthMethod, ProxyPassword,
    ProxySetting, ProxyUsername, RawEntry, Repo, RepoBuilder, RepoDiff, RepoFile, RepoId,
    RepoMetadataType, RepoName, ReposDir, Retries, RpmVerbosity, SectionBlock, StorageSize,
    Throttle, TimeoutSeconds, TsFlag, Url, UrlSource, UserAgent, Username, ValidationIssue,
    ValidationReport,
};

#[test]
fn test_mainconfig_defaults() {
    let mc = MainConfig::default();
    assert!(mc.arch.is_none());
    assert!(mc.best.is_none());
    assert!(mc.installonly_limit.is_none());
}

#[test]
#[allow(clippy::field_reassign_with_default)]
fn test_mainconfig_set_debuglevel() {
    let mut mc = MainConfig {
        debuglevel: Some(DebugLevel::try_new(5).unwrap()),
        ..Default::default()
    };
    mc.debuglevel = Some(DebugLevel::try_new(5).unwrap());
    assert_eq!(mc.debuglevel.unwrap().into_inner(), 5);
}

#[test]
fn test_mainconfig_extras() {
    let mut mc = MainConfig::default();
    mc.extras.insert("custom".into(), vec!["value1".into()]);
    assert_eq!(mc.extras.get("custom").unwrap()[0], "value1");
}
