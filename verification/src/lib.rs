//! Parsing, rendering, validating and diffing of DNF/YUM `.repo` files.
//!
//! A `.repo` file is an INI-style text: an optional `[main]` section with
//! the global DNF options and one section per repository. [`RepoFile`]
//! keeps the typed options of every section together with its comments,
//! blank lines and raw entries, so that a parsed file renders back to the
//! text it came from.

pub mod builder;
pub mod collections;
pub mod diff;
pub mod error;
pub mod fieldtext;
pub mod laws;
pub mod mainconfig;
pub mod merge;
pub mod parse;
pub mod render;
pub mod repo;
pub mod repofile;
pub mod reposdir;
pub mod rewrite;
pub mod roundtrip;
pub mod sections;
pub mod text;
pub mod types;
pub mod validate;
pub mod values;
pub mod variables;

pub use builder::RepoBuilder;
pub use diff::{diff_files, diff_main, diff_repos, ConfigDiff, FileDiff, RepoDiff};
pub use error::{Error, ErrorSource, ExpandError, ParseBoolError, ParseError, Result};
pub use mainconfig::MainConfig;
pub use repo::Repo;
pub use repofile::{RawEntry, RepoFile, SectionBlock};
pub use reposdir::ReposDir;
pub use types::{
    Cost, CostError, DebugLevel, DebugLevelError, DeltaRpmPercentage, DeltaRpmPercentageError,
    DnfBool, ErrorLevel, ErrorLevelError, InstallOnlyLimit, InstallOnlyLimitError, IpResolve,
    LogLevel, LogLevelError, LogRotate, LogRotateError, MaxParallelDownloads,
    MaxParallelDownloadsError, MetadataExpire, MetadataTimerSync, MetadataTimerSyncError,
    ModulePlatformId, MultilibPolicy, Password, Persistence, Priority, PriorityError, ProxyAuthMethod,
    ProxyPassword, ProxySetting, ProxyUsername, RepoId, RepoIdError, RepoMetadataType, RepoName,
    RepoNameError, Retries, RetriesError, RpmVerbosity, StorageSize, Throttle, TimeoutSeconds,
    TimeoutSecondsError, TsFlag, Url, UrlParseError, UrlSource, UserAgent, Username,
};
pub use validate::{IssueLevel, IssueLocation, ValidationIssue, ValidationReport};
pub use variables::{detect_variables, expand_variables};
