#![allow(unused_imports)]
use dnf_repofile::{
    detect_variables, diff_files, diff_main, diff_repos, expand_variables, ConfigDiff, Cost,
    CostError, DebugLevel, DeltaRpmPercentage, DnfBool, Error, ErrorLevel, ExpandError, FileDiff,
    InstallOnlyLimit, IpResolve, IssueLevel, IssueLocation, LogLevel, LogRotate, MainConfig,
    MaxParallelDownloads, MetadataExpire, MetadataTimerSync, ModulePlatformId, MultilibPolicy,
    ParseBoolError, ParseError, Password, Persistence, Priority, ProxyAuthMethod, ProxyPassword,
    ProxySetting, ProxyUsername, RawEntry, Repo, RepoBuilder, RepoDiff, RepoFile, RepoId,
    RepoMetadataType, RepoName, ReposDir, Retries, RpmVerbosity, SectionBlock, StorageSize,
    Throttle, TimeoutSeconds, TsFlag, Url, UrlSource, UserAgent, Username, ValidationIssue,
    ValidationReport,
};
use std::collections::HashMap;

const SAMPLE: &str = "# preamble comment\n\
\n\
[main]\n\
gpgcheck=1\n\
# comment before a repo\n\
[base]\n\
name=Base OS\n\
; leading comment\n\
baseurl=http://example.com/base/ # the mirror\n\
gpgkey=\"key#1\" # quoted hash\n\
custom=value\n\
\n\
[extra]\n\
enabled=0\n\
";

#[test]
fn law_parse_render_parse_is_identity() {
    let rf = RepoFile::parse(SAMPLE).unwrap();
    let again = RepoFile::parse(&rf.render()).unwrap();
    assert_eq!(again, rf);
}

#[test]
fn law_round_trip_with_crlf_lines() {
    let rf = RepoFile::parse("[a]\r\nname=A\r\n# c\r\nenabled=1\r\n").unwrap();
    let again = RepoFile::parse(&rf.render()).unwrap();
    assert_eq!(again, rf);
}

#[test]
fn round_trip_moves_comments_before_first_section_into_preamble() {
    // The only section is also the last one: trailing comments become its
    // header comments and are written before its header.
    let rf = RepoFile::parse("[a]\nname=A\n# trailing\n").unwrap();
    let block = rf.get(&RepoId::try_new("a").unwrap()).unwrap();
    assert_eq!(block.header_comments, vec!["# trailing".to_string()]);
    assert_eq!(rf.render(), "# trailing\n[a]\nname=A\n");
    let again = RepoFile::parse(&rf.render()).unwrap();
    assert_eq!(again.preamble, vec!["# trailing".to_string()]);
}

#[test]
fn round_trip_drops_a_final_carriage_return() {
    let rf = RepoFile::parse("[a]\nname=A\n# c\r").unwrap();
    let again = RepoFile::parse(&rf.render()).unwrap();
    assert_ne!(again, rf);
}

#[test]
fn law_repo_id_revalidates() {
    let id = RepoId::try_new("  fedora-updates_1.x:y ").unwrap();
    assert_eq!(id.as_ref(), "fedora-updates_1.x:y");
    assert_eq!(RepoId::try_new(id.as_ref()).unwrap(), id);
}

#[test]
fn law_dnf_bool_text_reads_back() {
    for b in [DnfBool::True, DnfBool::False] {
        assert_eq!(DnfBool::parse(&b.to_string()).unwrap(), b);
        assert_eq!(DnfBool::from(b.as_bool()), b);
    }
}

#[test]
fn law_add_then_get_and_remove() {
    let mut rf = RepoFile::parse(SAMPLE).unwrap();
    let original = rf.clone();
    let before = rf.len();
    let id = RepoId::try_new("new-one").unwrap();
    let repo = RepoBuilder::new(id.clone()).name(RepoName::try_new("N").unwrap()).build();
    rf.add(repo.clone()).unwrap();
    assert_eq!(rf.len(), before + 1);
    let block = rf.get(&id).unwrap();
    assert_eq!(block.data, repo);
    assert!(block.header_comments.is_empty());
    assert!(block.raw_entries.is_empty());
    // other sections are untouched
    assert!(rf.contains(&RepoId::try_new("base").unwrap()));
    let removed = rf.remove(&id).unwrap();
    assert_eq!(removed.data, repo);
    assert!(!rf.contains(&id));
    assert_eq!(rf.len(), before);
    assert_eq!(rf, original);
    assert!(rf.remove(&id).is_none());
}

#[test]
fn law_add_duplicate_is_refused_without_change() {
    let mut rf = RepoFile::parse(SAMPLE).unwrap();
    let copy = rf.clone();
    let err = rf.add(Repo::new(RepoId::try_new("base").unwrap())).unwrap_err();
    assert!(matches!(&err, Error::DuplicateRepo(name) if name == "base"));
    assert_eq!(err.to_string(), "repo 'base' already exists in file");
    assert_eq!(rf, copy);
}

#[test]
fn law_set_replaces_in_place() {
    let mut rf = RepoFile::parse(SAMPLE).unwrap();
    let id = RepoId::try_new("base").unwrap();
    let repo = RepoBuilder::new(id.clone()).name(RepoName::try_new("Replaced").unwrap()).build();
    let before = rf.get(&id).unwrap().header_comments.clone();
    assert_eq!(before, vec!["# comment before a repo".to_string()]);
    rf.set(repo.clone());
    assert_eq!(rf.get(&id).unwrap().data, repo);
    assert_eq!(rf.get(&id).unwrap().header_comments, before);
    assert!(rf.get(&id).unwrap().raw_entries.is_empty());
    let ids: Vec<&str> = rf.repo_ids().into_iter().map(|i| i.as_ref()).collect();
    assert_eq!(ids, vec!["base", "extra"]);
}

#[test]
fn law_merge_with_itself_changes_nothing() {
    let mut rf = RepoFile::parse(SAMPLE).unwrap();
    let copy = rf.clone();
    rf.merge(copy.clone());
    assert_eq!(rf, copy);
}

#[test]
fn law_merge_takes_other_repos_and_fills_main_gaps() {
    let mut a = RepoFile::parse("[main]\ngpgcheck=1\n[r1]\nname=A1\n[r2]\nname=A2\n").unwrap();
    let b = RepoFile::parse("[main]\ngpgcheck=0\nbest=1\n[r2]\nname=B2\n[r3]\nname=B3\n").unwrap();
    a.merge(b);
    let ids: Vec<&str> = a.repo_ids().into_iter().map(|i| i.as_ref()).collect();
    assert_eq!(ids, vec!["r1", "r2", "r3"]);
    let r2 = a.get(&RepoId::try_new("r2").unwrap()).unwrap();
    assert_eq!(r2.data.name.as_ref().unwrap().as_ref(), "B2");
    let main = a.main().unwrap();
    assert_eq!(main.data.extras.get("gpgcheck").unwrap(), &vec!["1".to_string()]);
    assert_eq!(main.data.best, Some(DnfBool::True));
}

#[test]
fn merge_fills_list_and_extra_gaps() {
    let mut a = RepoFile::parse("[main]\nfoo=1\n").unwrap();
    let b = RepoFile::parse("[main]\nreposdir=/etc/yum.repos.d\nfoo=2\nbar=3\ntsflags=nodocs\n").unwrap();
    a.merge(b);
    let main = a.main().unwrap();
    assert_eq!(main.data.reposdir.len(), 1);
    assert_eq!(main.data.tsflags, vec![TsFlag::NoDocs]);
    assert_eq!(main.data.extras.get("foo").unwrap(), &vec!["1".to_string()]);
    assert_eq!(main.data.extras.get("bar").unwrap(), &vec!["3".to_string()]);
}

#[test]
fn law_diff_of_a_file_with_itself_is_empty() {
    let rf = RepoFile::parse(SAMPLE).unwrap();
    let d = diff_files(&rf, &rf);
    assert!(!d.has_changes);
    assert!(d.main_changes.is_none());
    assert!(d.repos_added.is_empty() && d.repos_removed.is_empty() && d.repos_modified.is_empty());
    let unchanged: Vec<&str> = d.repos_unchanged.iter().map(|i| i.as_ref()).collect();
    assert_eq!(unchanged, vec!["base", "extra"]);
}

#[test]
fn law_plain_text_expands_to_itself() {
    let vars: HashMap<String, String> = HashMap::new();
    assert_eq!(expand_variables("http://example.com/a b/c", &vars).unwrap(), "http://example.com/a b/c");
    assert!(detect_variables("http://example.com/\\x").is_empty());
}

#[test]
fn law_valid_exactly_when_a_url_source_exists() {
    let mut repo = Repo::new(RepoId::try_new("r").unwrap());
    assert_eq!(repo.validate().is_ok(), repo.url_source().is_some());
    repo.mirrorlist = Some("https://example.com/ml".parse().unwrap());
    assert_eq!(repo.validate().is_ok(), repo.url_source().is_some());
    assert!(repo.validate().is_ok());
}

#[test]
fn law_new_file_is_empty() {
    let rf = RepoFile::new();
    assert!(rf.is_empty());
    assert!(rf.main().is_none());
    assert_eq!(rf.render(), "");
    assert_eq!(RepoFile::default(), rf);
}

#[test]
fn parse_keeps_comment_above_last_section_and_trailing_comments() {
    let rf = RepoFile::parse("[a]\nk=v\n# about b\n[b]\nk=v\n# trailing\n").unwrap();
    let b = rf.get(&RepoId::try_new("b").unwrap()).unwrap();
    assert_eq!(b.header_comments, vec!["# about b".to_string(), "# trailing".to_string()]);
    assert_eq!(rf.render(), "[a]\nk=v\n# about b\n# trailing\n[b]\nk=v\n");
}

#[test]
fn law_reread_keeps_sections_of_a_file_ending_in_a_comment() {
    let rf = RepoFile::parse("[a]\nk=v\n# end\n").unwrap();
    let again = RepoFile::parse(&rf.render()).unwrap();
    assert_eq!(again.repo_ids(), rf.repo_ids());
    assert_eq!(again.main().is_some(), rf.main().is_some());
    let id = RepoId::try_new("a").unwrap();
    assert_eq!(again.get(&id).unwrap().data, rf.get(&id).unwrap().data);
    assert_eq!(again.get(&id).unwrap().raw_entries, rf.get(&id).unwrap().raw_entries);
    // the header comments of the first section join the preamble
    assert_eq!(again.preamble, vec!["# end".to_string()]);
    assert!(again.get(&id).unwrap().header_comments.is_empty());
}

#[test]
fn law_reread_keeps_sections_despite_carriage_returns() {
    let rf = RepoFile::parse("# top\r\r\n[main]\ngpgcheck=1\n[r]\nname=R\n# last\r").unwrap();
    let again = RepoFile::parse(&rf.render()).unwrap();
    assert_eq!(again.repo_ids(), rf.repo_ids());
    let id = RepoId::try_new("r").unwrap();
    assert_eq!(again.get(&id).unwrap().data, rf.get(&id).unwrap().data);
    assert_eq!(again.get(&id).unwrap().raw_entries, rf.get(&id).unwrap().raw_entries);
    assert_eq!(again.main().unwrap().data, rf.main().unwrap().data);
    assert_eq!(again.get(&id).unwrap().header_comments, vec!["# last".to_string()]);
}

#[test]
fn law_missing_variable_is_detected() {
    let mut vars = HashMap::new();
    vars.insert("a".to_string(), String::new());
    let err = expand_variables("x${a:-pre-$bvar}y", &vars).unwrap_err();
    match err {
        ExpandError::VariableNotFound { name } => {
            assert_eq!(name, "bvar");
            assert!(detect_variables("x${a:-pre-$bvar}y").contains(&name));
        }
        other => panic!("unexpected {other:?}"),
    }
}

#[test]
fn law_diff_repos_swap() {
    let a = RepoBuilder::new(RepoId::try_new("x").unwrap())
        .name(RepoName::try_new("A").unwrap())
        .enabled(DnfBool::yes())
        .build();
    let b = RepoBuilder::new(RepoId::try_new("x").unwrap())
        .name(RepoName::try_new("B").unwrap())
        .gpgcheck(DnfBool::no())
        .build();
    let d1 = diff_repos(&a, &b);
    let d2 = diff_repos(&b, &a);
    assert_eq!(d2.added, d1.removed);
    assert_eq!(d2.removed, d1.added);
    assert_eq!(d1.changed.len(), d2.changed.len());
    for (x, y) in d1.changed.iter().zip(d2.changed.iter()) {
        assert_eq!((&x.0, &x.1, &x.2), (&y.0, &y.2, &y.1));
    }
    assert_eq!(d1.has_changes, d2.has_changes);
}

#[test]
fn law_edited_file_reads_back_written_entries() {
    let mut rf = RepoFile::parse("# top\n[a]\n# the name\nname=A\nenabled=1\ncustom=x\n[b]\nname=B\n").unwrap();
    {
        let blk = rf.get_mut(&RepoId::try_new("a").unwrap()).unwrap();
        blk.data.enabled = Some(DnfBool::False);
        blk.data.priority = Some(Priority::try_new(7).unwrap());
    }
    let again = RepoFile::parse(&rf.render()).unwrap();
    let a = again.get(&RepoId::try_new("a").unwrap()).unwrap();
    let keys: Vec<(&str, &str)> = a.raw_entries.iter().map(|e| (e.key.as_str(), e.value.as_str())).collect();
    assert_eq!(keys, vec![("name", "A"), ("enabled", "0"), ("custom", "x"), ("priority", "7")]);
    assert_eq!(a.data.enabled, Some(DnfBool::False));
    assert_eq!(a.data.priority.unwrap().to_string(), "7");
    assert_eq!(a.raw_entries[0].leading_comments, vec!["# the name".to_string()]);
    assert_eq!(again.get(&RepoId::try_new("b").unwrap()).unwrap().data, rf.get(&RepoId::try_new("b").unwrap()).unwrap().data);
}

#[test]
fn law_render_is_stable_after_an_edit() {
    let mut rf = RepoFile::parse("# top\n[main]\nbest=1\n# about a\n[a]\nname=A\ngpgkey=k1\ngpgkey=k2\n").unwrap();
    {
        let blk = rf.get_mut(&RepoId::try_new("a").unwrap()).unwrap();
        blk.data.gpgkey = vec!["k3".to_string()];
        blk.data.skip_if_unavailable = Some(DnfBool::True);
    }
    let text = rf.render();
    assert_eq!(text, "# top\n[main]\nbest=1\n# about a\n[a]\nname=A\ngpgkey=k3\nskip_if_unavailable=1\n");
    let again = RepoFile::parse(&text).unwrap();
    assert_eq!(again.render(), text);
}
