#![allow(unused_imports)]
use dnf_repofile::{
    detect_variables, diff_files, diff_main, diff_repos, expand_variables, ConfigDiff, Cost,
    CostError, DebugLevel, DeltaRpmPercentage, DnfBool, Error, ErrorLevel, ExpandError, FileDiff,
    InstallOnlyLimit, IpResolve, IssueLevel, IssueLocation, LogLevel, LogRotate, MainConfig,
    MaxParallelDownloads, MetadataExpire, MetadataTimerSync, ModulePlatformId, MultilibPolicy,
    ParseBoolError, ParseError, Password, Persistence, Priority, ProxyAuthMethod, ProxyPassword,
    ProxySetting, ProxyUsername, RawEntry, Repo, RepoBuilder, RepoDiff, RepoFile, RepoId,
    RepoMetadataType, RepoName, ReposDir, Retries, RpmVerbosity, SectionBlock, StorageSize,
    Throttle, TimeoutSeconds, TsFlag, Url, UrlSource, UserAgent, Username, ValidationIssue,
    ValidationReport,
};
use std::collections::HashMap;

#[test]
fn render_exact_text() {
    let input = "# top\n[main]\ngpgcheck=1\n[r]\n; lead\nname=R  # note\nbaseurl=http://x.com/\n";
    let rf = RepoFile::parse(input).unwrap();
    assert_eq!(
        rf.render(),
        "# top\n[main]\ngpgcheck=1\n[r]\n; lead\nname=R #note\nbaseurl=http://x.com/\n"
    );
}

#[test]
fn render_puts_main_first() {
    let rf = RepoFile::parse("[r]\nname=R\n[main]\nbest=1\n").unwrap();
    assert_eq!(rf.render(), "[main]\nbest=1\n[r]\nname=R\n");
}

#[test]
fn parse_missing_equals_reports_line() {
    match RepoFile::parse("[r]\nname=R\nbroken line\n") {
        Err(ParseError::MissingEquals { line, line_text }) => {
            assert_eq!(line, 3);
            assert_eq!(line_text, "broken line");
        }
        other => panic!("unexpected {:?}", other),
    }
}

#[test]
fn parse_empty_key_reports_missing_equals() {
    assert!(matches!(RepoFile::parse("[r]\n  = v\n"), Err(ParseError::MissingEquals { line: 2, .. })));
}

#[test]
fn parse_empty_section_name() {
    assert!(matches!(RepoFile::parse("[ ]\n"), Err(ParseError::EmptySectionName)));
}

#[test]
fn parse_invalid_repo_id() {
    match RepoFile::parse("[bad id]\n") {
        Err(ParseError::InvalidRepoId { id, reason }) => {
            assert_eq!(id, "bad id");
            assert_eq!(reason, "invalid characters in repo ID");
        }
        other => panic!("unexpected {:?}", other),
    }
}

#[test]
fn parse_quoted_hash_is_not_a_comment() {
    let rf = RepoFile::parse("[r]\nname=\"a # b\" # c\n").unwrap();
    let e = &rf.get(&RepoId::try_new("r").unwrap()).unwrap().raw_entries[0];
    assert_eq!(e.value, "\"a # b\"");
    assert_eq!(e.inline_comment, Some("c".to_string()));
}

#[test]
fn parse_leading_comments_and_item_order() {
    let rf = RepoFile::parse("[r]\n# one\n\nname=R # n\ngpgcheck=1\n").unwrap();
    let b = rf.get(&RepoId::try_new("r").unwrap()).unwrap();
    assert_eq!(b.raw_entries[0].leading_comments, vec!["# one".to_string(), String::new()]);
    assert_eq!(b.item_order, vec!["name".to_string(), "gpgcheck".to_string()]);
    assert_eq!(b.item_comments.get("name"), Some(&"n".to_string()));
}

#[test]
fn storage_size_units() {
    let rf = RepoFile::parse("[r]\nbandwidth=2G\nminrate=3k\nthrottle=40%\n").unwrap();
    let r = &rf.get(&RepoId::try_new("r").unwrap()).unwrap().data;
    assert_eq!(r.bandwidth, Some(StorageSize(2 * 1024 * 1024 * 1024)));
    assert_eq!(r.minrate, Some(StorageSize(3 * 1024)));
    assert_eq!(r.throttle, Some(Throttle::Percent(40)));
}

#[test]
fn storage_size_overflow_is_not_a_size() {
    let rf = RepoFile::parse("[r]\nbandwidth=99999999999999999G\n").unwrap();
    let r = &rf.get(&RepoId::try_new("r").unwrap()).unwrap().data;
    assert_eq!(r.bandwidth, None);
}

#[test]
fn proxy_values() {
    let rf = RepoFile::parse("[a]\nproxy=_none_\n[b]\nproxy=not a url\n[c]\nproxy=\n").unwrap();
    let a = &rf.get(&RepoId::try_new("a").unwrap()).unwrap().data;
    let b = &rf.get(&RepoId::try_new("b").unwrap()).unwrap().data;
    let c = &rf.get(&RepoId::try_new("c").unwrap()).unwrap().data;
    assert!(matches!(a.proxy, ProxySetting::Disabled));
    assert!(matches!(&b.proxy, ProxySetting::Raw(s) if s == "not a url"));
    assert!(matches!(c.proxy, ProxySetting::Disabled));
}

#[test]
fn url_is_normalized_by_the_url_crate() {
    let u: Url = "HTTP://Example.COM".parse().unwrap();
    assert_eq!(u.as_str(), "http://example.com/");
    assert!("not a url".parse::<Url>().is_err());
}

#[test]
fn ip_resolve_is_case_insensitive() {
    let rf = RepoFile::parse("[r]\nip_resolve=IPV6\n").unwrap();
    assert_eq!(rf.get(&RepoId::try_new("r").unwrap()).unwrap().data.ip_resolve, Some(IpResolve::V6));
}

#[test]
fn unicode_whitespace_is_trimmed() {
    let n = RepoName::try_new("\u{3000}Name\u{00A0}").unwrap();
    assert_eq!(n.as_ref(), "Name");
}

#[test]
fn main_paths_are_read() {
    let rf = RepoFile::parse("[main]\ncachedir=/var/cache/dnf\n").unwrap();
    let m = &rf.main().unwrap().data;
    assert_eq!(m.cachedir, Some(camino::Utf8PathBuf::from("/var/cache/dnf")));
}

#[test]
fn merge_copies_paths_into_gaps() {
    let mut a = RepoFile::parse("[main]\nbest=1\n").unwrap();
    let b = RepoFile::parse("[main]\ncachedir=/c\n").unwrap();
    a.merge(b);
    assert_eq!(a.main().unwrap().data.cachedir, Some(camino::Utf8PathBuf::from("/c")));
}

#[test]
fn expand_nested_default_and_unicode_names() {
    let mut vars = HashMap::new();
    vars.insert("b".to_string(), "B".to_string());
    vars.insert("\u{e4}_x".to_string(), "U".to_string());
    assert_eq!(expand_variables("${a:-x${b}y}", &vars).unwrap(), "xBy");
    assert_eq!(expand_variables("$\u{e4}_x-", &vars).unwrap(), "U-");
    assert_eq!(detect_variables("$\u{e4}_x-${b}"), vec!["\u{e4}_x".to_string(), "b".to_string()]);
}

#[test]
fn expand_trailing_dollar_is_malformed_and_backslash_literal() {
    let vars = HashMap::new();
    assert!(matches!(
        expand_variables("http://x.com/$", &vars),
        Err(ExpandError::MalformedExpression { expr }) if expr == "$"
    ));
    assert_eq!(expand_variables("cost\\$", &vars).unwrap(), "cost$");
    assert_eq!(expand_variables("a\\", &vars).unwrap(), "a\\");
    assert_eq!(expand_variables("a\\\\b", &vars).unwrap(), "a\\b");
}

#[test]
fn expand_errors() {
    let mut vars = HashMap::new();
    match expand_variables("x$y", &vars) {
        Err(ExpandError::VariableNotFound { name }) => assert_eq!(name, "y"),
        other => panic!("unexpected {:?}", other),
    }
    match expand_variables("a$-b", &vars) {
        Err(ExpandError::MalformedExpression { expr }) => assert_eq!(expr, "$-b"),
        other => panic!("unexpected {:?}", other),
    }
    vars.insert("a".to_string(), "${a:-z}".to_string());
    match expand_variables("${a:-z}", &vars) {
        Err(ExpandError::MaxDepthExceeded { depth, expr }) => {
            assert_eq!(depth, 33);
            assert_eq!(expr, "${a:-z}");
        }
        other => panic!("unexpected {:?}", other),
    }
}

#[test]
fn expand_error_messages() {
    let e = ExpandError::MaxDepthExceeded { depth: 33, expr: "$x".into() };
    assert_eq!(e.to_string(), "maximum recursion depth (33) exceeded while expanding '$x'");
    let p = ParseError::MissingEquals { line: 12, line_text: "oops".into() };
    assert_eq!(p.to_string(), "missing '=' in key-value pair at line 12: 'oops'");
}

#[test]
fn io_error_display_is_included() {
    let e: Error = std::io::Error::new(std::io::ErrorKind::Other, "disk gone").into();
    assert_eq!(e.to_string(), "IO error: disk gone");
}

#[test]
fn repo_id_errors() {
    assert_eq!(RepoId::try_new("  "), Err(dnf_repofile::RepoIdError::NotEmptyViolated));
    assert_eq!(RepoId::try_new("a b"), Err(dnf_repofile::RepoIdError::RegexViolated));
}

#[test]
fn numeric_errors_and_texts() {
    assert_eq!(Priority::try_new(0).unwrap_err(), dnf_repofile::PriorityError::GreaterOrEqualViolated);
    assert_eq!(Priority::try_new(100).unwrap_err(), dnf_repofile::PriorityError::LessOrEqualViolated);
    assert_eq!(Cost::try_new(-5).unwrap_err(), CostError::GreaterOrEqualViolated);
    assert_eq!(Cost::try_new(-5).is_err(), true);
    assert_eq!(Priority::try_new(7).unwrap().to_string(), "7");
    assert_eq!(Cost::try_new(1234).unwrap().to_string(), "1234");
}

#[test]
fn dnf_bool_parse_error_keeps_input() {
    let e = DnfBool::parse("Maybe").unwrap_err();
    assert_eq!(e.input, "Maybe");
    assert_eq!(e.to_string(), "invalid boolean value: 'Maybe'");
}

#[test]
fn diff_reports_changed_added_removed() {
    let a = RepoFile::parse("[r]\nname=A\nenabled=1\npriority=5\n[gone]\nname=G\n").unwrap();
    let b = RepoFile::parse("[r]\nname=B\ngpgcheck=0\npriority=5\n[new]\nname=N\n").unwrap();
    let d = diff_files(&a, &b);
    assert!(d.has_changes);
    let ids = |v: &Vec<RepoId>| v.iter().map(|i| i.as_ref().to_string()).collect::<Vec<_>>();
    assert_eq!(ids(&d.repos_added), vec!["new"]);
    assert_eq!(ids(&d.repos_removed), vec!["gone"]);
    let rd = d.repos_modified.get(&RepoId::try_new("r").unwrap()).unwrap();
    assert_eq!(rd.changed, vec![("name".to_string(), "A".to_string(), "B".to_string())]);
    assert_eq!(rd.added, vec![("gpgcheck".to_string(), "0".to_string())]);
    assert_eq!(rd.removed, vec![("enabled".to_string(), "1".to_string())]);
}

#[test]
fn diff_joins_lists() {
    let a = RepoFile::parse("[r]\nbaseurl=http://a/\nbaseurl=http://b/\ngpgkey=k1\n").unwrap();
    let b = RepoFile::parse("[r]\nbaseurl=http://a/\ngpgkey=k1\ngpgkey=k2\n").unwrap();
    let id = RepoId::try_new("r").unwrap();
    let d = diff_repos(&a.get(&id).unwrap().data, &b.get(&id).unwrap().data);
    assert_eq!(
        d.changed,
        vec![
            ("baseurl".to_string(), "http://a/, http://b/".to_string(), "http://a/".to_string()),
            ("gpgkey".to_string(), "k1".to_string(), "k1, k2".to_string()),
        ]
    );
}

#[test]
fn diff_main_fields() {
    let a = RepoFile::parse("[main]\ndebuglevel=2\n").unwrap();
    let b = RepoFile::parse("[main]\ndebuglevel=3\nbest=1\n").unwrap();
    let d = diff_main(&a.main().unwrap().data, &b.main().unwrap().data);
    assert_eq!(d.changed, vec![("debuglevel".to_string(), "2".to_string(), "3".to_string())]);
    assert_eq!(d.added, vec![("best".to_string(), "1".to_string())]);
    assert!(d.has_changes);
}

#[test]
fn validation_messages() {
    let mut repo = Repo::new(RepoId::try_new("r").unwrap());
    let report = repo.validate();
    assert_eq!(report.errors.len(), 1);
    assert_eq!(report.errors[0].field, Some("baseurl".to_string()));
    repo.baseurl.push("http://a/".parse().unwrap());
    repo.metalink = Some("http://m/".parse().unwrap());
    repo.gpgkey.push("k".to_string());
    repo.repo_gpgcheck = Some(DnfBool::True);
    let report = repo.validate();
    assert!(report.is_ok());
    assert_eq!(report.warnings.len(), 1);
    assert_eq!(
        report.warnings[0].message,
        "baseurl and mirrorlist/metalink both set; DNF may ignore mirrorlist/metalink"
    );
}

#[test]
fn reposdir_picks_sorted_repo_files() {
    let names = vec!["z.repo".to_string(), "a.repo".to_string(), "x.txt".to_string(), ".repo".to_string(), "m.repo".to_string()];
    let picked = dnf_repofile::reposdir::repo_file_names(&names);
    assert_eq!(picked, vec![".repo".to_string(), "a.repo".to_string(), "m.repo".to_string(), "z.repo".to_string()]);
}

#[test]
fn reposdir_queries_across_files() {
    let loaded = vec![
        ("a.repo".to_string(), "[dupe]\nbaseurl=http://a/\n[one]\nbaseurl=http://1/\n".to_string()),
        ("b.repo".to_string(), "[dupe]\nbaseurl=http://b/\n".to_string()),
        ("bad.repo".to_string(), "[bad id]\n".to_string()),
    ];
    let mut rd = ReposDir::from_loaded("/etc/yum.repos.d", loaded);
    assert_eq!(rd.file_names(), vec!["a.repo", "b.repo"]);
    assert_eq!(rd.repo_count(), 3);
    let (f, _) = rd.find_repo(&RepoId::try_new("dupe").unwrap()).unwrap();
    assert_eq!(f, "a.repo");
    assert_eq!(rd.file_for_repo(&RepoId::try_new("one").unwrap()), Some("a.repo"));
    assert!(rd.find_repo(&RepoId::try_new("none").unwrap()).is_none());
    let report = rd.validate();
    assert_eq!(report.errors.len(), 1);
    assert_eq!(report.errors[0].message, "duplicate repo ID 'dupe' already defined in 'a.repo'");
    let all: Vec<(&str, &str)> = rd.all_repos().into_iter().map(|(f, r)| (f, r.id.as_ref())).collect();
    assert_eq!(all, vec![("a.repo", "dupe"), ("a.repo", "one"), ("b.repo", "dupe")]);
    let texts = rd.render_all();
    assert_eq!(texts[1], ("b.repo".to_string(), "[dupe]\nbaseurl=http://b/\n".to_string()));
    assert!(rd.remove_file("a.repo").is_some());
    assert_eq!(rd.repo_count(), 1);
    assert_eq!(rd.rendered("a.repo"), None);
    assert_eq!(rd.path(), "/etc/yum.repos.d");
}

#[test]
fn builder_sets_every_option() {
    let repo = RepoBuilder::new(RepoId::try_new("b").unwrap())
        .gpgkeys(vec!["k1".to_string(), "k2".to_string()])
        .mediaid("m")
        .excludepkgs("x*")
        .includepkgs("y*")
        .cost(Cost::try_new(10).unwrap())
        .retries(Retries::try_new(3).unwrap())
        .timeout(TimeoutSeconds::try_new(30).unwrap())
        .max_parallel_downloads(MaxParallelDownloads::try_new(4).unwrap())
        .proxy(ProxySetting::Disabled)
        .username(Username::new("u"))
        .password(Password::new("p"))
        .extra("k", "v1")
        .extra("k", "v2")
        .build();
    assert_eq!(repo.gpgkey, vec!["k1".to_string(), "k2".to_string()]);
    assert_eq!(repo.mediaid.as_deref(), Some("m"));
    assert_eq!(repo.excludepkgs, vec!["x*".to_string()]);
    assert_eq!(repo.includepkgs, vec!["y*".to_string()]);
    assert_eq!(repo.cost.unwrap().into_inner(), 10);
    assert_eq!(repo.extras.get("k").unwrap(), &vec!["v1".to_string(), "v2".to_string()]);
    assert!(matches!(repo.proxy, ProxySetting::Disabled));
}

#[test]
fn builder_replaces_base_urls() {
    let repo = RepoBuilder::new(RepoId::try_new("b").unwrap())
        .baseurl("http://old/".parse().unwrap())
        .baseurls(vec!["http://a/".parse().unwrap(), "http://b/".parse().unwrap()])
        .build();
    let urls: Vec<&str> = repo.baseurl.iter().map(|u| u.as_str()).collect();
    assert_eq!(urls, vec!["http://a/", "http://b/"]);
}

#[test]
fn reposdir_set_and_edit_files() {
    let mut rd = ReposDir::from_loaded("/d", Vec::new());
    rd.set_file("x.repo", RepoFile::parse("[x]\nname=X\n").unwrap());
    rd.set_file("y.repo", RepoFile::new());
    rd.set_file("x.repo", RepoFile::parse("[x2]\nname=X2\n").unwrap());
    assert_eq!(rd.file_names(), vec!["x.repo", "y.repo"]);
    {
        let f = rd.get_file_mut("y.repo").unwrap();
        f.set(Repo::new(RepoId::try_new("y").unwrap()));
    }
    assert!(rd.get_file_mut("none.repo").is_none());
    assert_eq!(rd.file_for_repo(&RepoId::try_new("y").unwrap()), Some("y.repo"));
    assert_eq!(rd.file_for_repo(&RepoId::try_new("x").unwrap()), None);
    assert_eq!(rd.rendered("x.repo"), Some("[x2]\nname=X2\n".to_string()));
}

#[test]
fn metadata_expire_minus_one_means_never() {
    let rf = RepoFile::parse("[r]\nmetadata_expire= -1 \n").unwrap();
    let block = rf.get(&RepoId::try_new("r").unwrap()).unwrap();
    assert_eq!(block.data.metadata_expire, Some(MetadataExpire::Never));
    let rf = RepoFile::parse("[r]\nmetadata_expire=-2\n").unwrap();
    let block = rf.get(&RepoId::try_new("r").unwrap()).unwrap();
    assert_eq!(block.data.metadata_expire, None);
}

#[test]
fn render_writes_edited_typed_data() {
    let mut rf =
        RepoFile::parse("[epel]\nname=EPEL\nbaseurl=https://example.com/\nenabled=1 # on\n").unwrap();
    rf.get_mut(&RepoId::try_new("epel").unwrap()).unwrap().data.enabled = Some(DnfBool::False);
    let text = rf.render();
    let lines: Vec<&str> = text.lines().collect();
    assert!(lines.contains(&"enabled=0"));
    assert!(!lines.contains(&"enabled=1 # on"));
    assert_eq!(text, "[epel]\nname=EPEL\nbaseurl=https://example.com/\nenabled=0\n");
    let again = RepoFile::parse(&text).unwrap();
    let block = again.get(&RepoId::try_new("epel").unwrap()).unwrap();
    assert_eq!(block.data.enabled, Some(DnfBool::False));
}

#[test]
fn render_writes_a_built_repository_and_new_options() {
    let mut rf = RepoFile::new();
    let repo = RepoBuilder::new(RepoId::try_new("custom").unwrap())
        .name(RepoName::try_new("Custom Repository").unwrap())
        .baseurl("https://custom.example.com/".parse().unwrap())
        .gpgcheck(DnfBool::yes())
        .enabled(DnfBool::yes())
        .priority(Priority::try_new(50).unwrap())
        .build();
    rf.add(repo.clone()).unwrap();
    let text = rf.render();
    assert_eq!(
        text,
        "[custom]\nname=Custom Repository\nbaseurl=https://custom.example.com/\nenabled=1\npriority=50\ngpgcheck=1\n"
    );
    let again = RepoFile::parse(&text).unwrap();
    let block = again.get(&RepoId::try_new("custom").unwrap()).unwrap();
    assert_eq!(block.data, repo);
}

#[test]
fn render_rewrites_a_list_option_in_place_and_drops_a_cleared_one() {
    let mut rf = RepoFile::parse(
        "[r]\n# keys\ngpgkey=https://a/1\nname=R\ngpgkey=https://a/2\nproxy=_none_\n",
    )
    .unwrap();
    {
        let b = rf.get_mut(&RepoId::try_new("r").unwrap()).unwrap();
        b.data.gpgkey = vec!["https://b/1".to_string()];
        b.data.proxy = ProxySetting::Unset;
        b.data.metadata_expire = Some(MetadataExpire::Never);
    }
    assert_eq!(
        rf.render(),
        "[r]\n# keys\ngpgkey=https://b/1\nname=R\nmetadata_expire=never\n"
    );
}
