// Directory scenarios: each listing and file body is handed to the library as
// the loader in app/ would hand it over after reading the directory.
use dnf_repofile::reposdir::repo_file_names;
use dnf_repofile::{RepoId, ReposDir};

fn load(listing: &[(&str, &str)]) -> ReposDir {
    let names: Vec<String> = listing.iter().map(|(n, _)| n.to_string()).collect();
    let picked = repo_file_names(&names);
    let loaded: Vec<(String, String)> = picked
        .into_iter()
        .map(|n| {
            let body = listing.iter().find(|(m, _)| *m == n).unwrap().1;
            (n, body.to_string())
        })
        .collect();
    ReposDir::from_loaded("/etc/yum.repos.d", loaded)
}

#[test]
fn test_load_directory() {
    let rd = load(&[("test.repo", "[epel]\nname=EPEL\nbaseurl=https://x.com/\n")]);
    assert_eq!(rd.file_names().len(), 1);
}

#[test]
fn test_find_repo_cross_files() {
    let rd = load(&[
        ("a.repo", "[ra]\nname=A\nbaseurl=https://a.com/\n"),
        ("b.repo", "[rb]\nname=B\nbaseurl=https://b.com/\n"),
    ]);
    let (fname, repo) = rd.find_repo(&RepoId::try_new("rb").unwrap()).unwrap();
    assert!(fname.contains("b.repo"));
    assert_eq!(repo.name.as_ref().unwrap().as_ref(), "B");
}

#[test]
fn test_repo_count() {
    let rd = load(&[(
        "m.repo",
        "[r1]\nname=R1\nbaseurl=https://1.com/\n[r2]\nname=R2\nbaseurl=https://2.com/\n",
    )]);
    assert_eq!(rd.repo_count(), 2);
}

#[test]
fn test_validate_detects_duplicate_ids() {
    let rd = load(&[
        ("a.repo", "[dupe]\nname=A\nbaseurl=https://a.com/\n"),
        ("b.repo", "[dupe]\nname=B\nbaseurl=https://b.com/\n"),
    ]);
    assert!(!rd.validate().is_ok());
}
