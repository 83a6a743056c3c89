use fork_chain::errors::ResolveError;
use fork_chain::repo::RepoRef;

fn make(host: &str, owner: &str, name: &str) -> RepoRef {
    RepoRef { host: host.to_string(), owner: owner.to_string(), name: name.to_string() }
}

#[test]
fn parse_plain_url() {
    let r = RepoRef::parse("https://github.com/alice/project").unwrap();
    assert_eq!(r.host, "github.com");
    assert_eq!(r.owner, "alice");
    assert_eq!(r.name, "project");
}

#[test]
fn parse_strips_git_suffix() {
    let plain = RepoRef::parse("https://github.com/alice/project").unwrap();
    let suffixed = RepoRef::parse("https://github.com/alice/project.git").unwrap();
    assert_eq!(plain.host, suffixed.host);
    assert_eq!(plain.owner, suffixed.owner);
    assert_eq!(plain.name, suffixed.name);
}

#[test]
fn parse_strips_only_one_git_suffix() {
    let r = RepoRef::parse("https://github.com/alice/tool.git.git").unwrap();
    assert_eq!(r.name, "tool.git");
}

#[test]
fn parse_discards_fragment() {
    let r = RepoRef::parse("https://github.com/a/b#c/d").unwrap();
    assert_eq!(r.host, "github.com");
    assert_eq!(r.owner, "a");
    assert_eq!(r.name, "b");
}

#[test]
fn parse_discards_query() {
    let r = RepoRef::parse("https://github.com/alice/project?tab=readme").unwrap();
    assert_eq!(r.name, "project");
    let r = RepoRef::parse("https://github.com/a/b?q=/z").unwrap();
    assert_eq!(r.owner, "a");
    assert_eq!(r.name, "b");
}

#[test]
fn parse_strips_git_suffix_before_query() {
    let r = RepoRef::parse("https://github.com/a/b.git?ref=main").unwrap();
    assert_eq!(r.name, "b");
}

#[test]
fn parse_drops_port_from_host() {
    let r = RepoRef::parse("https://github.com:8080/a/b").unwrap();
    assert_eq!(r.host, "github.com");
    assert_eq!(r.owner, "a");
    assert_eq!(r.name, "b");
}

#[test]
fn parse_drops_userinfo_from_host() {
    let r = RepoRef::parse("https://user@github.com/a/b").unwrap();
    assert_eq!(r.host, "github.com");
    let r = RepoRef::parse("https://user:pw@github.com:443/a/b").unwrap();
    assert_eq!(r.host, "github.com");
}

#[test]
fn parse_rejects_empty_host_after_stripping() {
    assert!(RepoRef::parse("https://:8080/a/b").is_err());
    assert!(RepoRef::parse("https://@/a/b").is_err());
    assert!(RepoRef::parse("https://user@:80/a/b").is_err());
}

#[test]
fn parse_rejects_query_mark_before_scheme() {
    assert!(RepoRef::parse("a?b://x/y").is_err());
}

#[test]
fn parse_rejects_path_cut_short_by_fragment() {
    assert!(RepoRef::parse("https://github.com/a#b/c").is_err());
}

#[test]
fn parse_rejects_missing_host() {
    assert!(matches!(RepoRef::parse("https:///alice/project"), Err(ResolveError::InvalidRepoUrl)));
    assert!(RepoRef::parse("alice/project").is_err());
    assert!(RepoRef::parse("").is_err());
}

#[test]
fn parse_rejects_wrong_segment_count() {
    assert!(RepoRef::parse("https://github.com").is_err());
    assert!(RepoRef::parse("https://github.com/alice").is_err());
    assert!(RepoRef::parse("https://github.com/alice/project/extra").is_err());
    assert!(RepoRef::parse("https://github.com/alice/project/").is_err());
    assert!(RepoRef::parse("https://github.com//project").is_err());
}

#[test]
fn parse_error_kind_is_invalid_repo_url() {
    match RepoRef::parse("https://github.com/alice") {
        Err(e) => assert_eq!(e, ResolveError::InvalidRepoUrl),
        Ok(_) => panic!("expected an error"),
    }
}

#[test]
fn to_repo_info_exact_values() {
    let info = make("github.com", "bob", "project").to_repo_info();
    assert_eq!(info.git_url, "https://github.com/bob/project.git");
    assert_eq!(info.local_dir, "github.com/bob/project");
    assert_eq!(info.remote_name, "bob");
}

#[test]
fn parse_inverts_git_url_construction() {
    let r = make("github.com", "alice", "project");
    let back = RepoRef::parse(&r.to_repo_info().git_url).unwrap();
    assert_eq!(back.host, r.host);
    assert_eq!(back.owner, r.owner);
    assert_eq!(back.name, r.name);
}

#[test]
fn parse_inverts_git_url_construction_for_git_name() {
    let r = make("example.org", "carol", "notes.git");
    let back = RepoRef::parse(&r.to_repo_info().git_url).unwrap();
    assert_eq!(back.host, r.host);
    assert_eq!(back.owner, r.owner);
    assert_eq!(back.name, r.name);
}

#[test]
fn local_dirs_of_distinct_repos_differ() {
    let a = make("github.com", "alice", "project").to_repo_info();
    let b = make("github.com", "bob", "project").to_repo_info();
    let c = make("example.org", "alice", "project").to_repo_info();
    let d = make("github.com", "alice", "other").to_repo_info();
    assert_ne!(a.local_dir, b.local_dir);
    assert_ne!(a.local_dir, c.local_dir);
    assert_ne!(a.local_dir, d.local_dir);
}

#[test]
fn slug_is_owner_slash_name() {
    assert_eq!(make("github.com", "alice", "project").slug(), "alice/project");
}

#[test]
fn duplicate_preserves_fields() {
    let r = make("github.com", "alice", "project");
    let d = r.duplicate();
    assert_eq!(d.host, r.host);
    assert_eq!(d.owner, r.owner);
    assert_eq!(d.name, r.name);
}
