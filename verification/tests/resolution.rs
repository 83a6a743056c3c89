use fork_chain::config::Config;
use fork_chain::config::ForkResolutionMethod;
use fork_chain::config::HostEntry;
use fork_chain::errors::ResolveError;
use fork_chain::repo::RepoInfo;
use fork_chain::repo::RepoRef;
use fork_chain::resolver::ForkWalk;
use fork_chain::resolver::ParentLookup;
use fork_chain::resolver::ParentQueryReply;
use fork_chain::resolver::api_endpoint;
use fork_chain::resolver::interpret_parent_response;
use fork_chain::resolver::resolve_forks;

fn make(host: &str, owner: &str, name: &str) -> RepoRef {
    RepoRef { host: host.to_string(), owner: owner.to_string(), name: name.to_string() }
}

fn github_config() -> Config {
    Config {
        local_src_dir: "src".to_string(),
        hosts: vec![HostEntry {
            host: "github.com".to_string(),
            fork_resolution: ForkResolutionMethod::Github { api_token: "token-a".to_string() },
        }],
    }
}

fn assert_same_info(a: &RepoInfo, b: &RepoInfo) {
    assert_eq!(a.git_url, b.git_url);
    assert_eq!(a.local_dir, b.local_dir);
    assert_eq!(a.remote_name, b.remote_name);
}

#[test]
fn no_parent_on_first_call_gives_empty_children() {
    let config = github_config();
    let res = resolve_forks(&config, "https://github.com/alice/project", &vec![]).unwrap();
    assert!(res.children.is_empty());
    let expected = make("github.com", "alice", "project").to_repo_info();
    assert_same_info(&res.base, &expected);
}

#[test]
fn chain_of_two_parents() {
    let config = github_config();
    let parents = vec![make("github.com", "bob", "project"), make("github.com", "carol", "project")];
    let res = resolve_forks(&config, "https://github.com/alice/project", &parents).unwrap();
    assert_eq!(res.children.len(), 2);
    assert_same_info(&res.children[0], &make("github.com", "alice", "project").to_repo_info());
    assert_same_info(&res.children[1], &make("github.com", "bob", "project").to_repo_info());
    assert_same_info(&res.base, &make("github.com", "carol", "project").to_repo_info());
}

#[test]
fn scenario_alice_forked_from_bob() {
    let config = github_config();
    let parents = vec![make("github.com", "bob", "project")];
    let res = resolve_forks(&config, "https://github.com/alice/project", &parents).unwrap();
    assert_eq!(res.base.git_url, "https://github.com/bob/project.git");
    assert_eq!(res.base.local_dir, "github.com/bob/project");
    assert_eq!(res.base.remote_name, "bob");
    assert_eq!(res.children.len(), 1);
    assert_eq!(res.children[0].git_url, "https://github.com/alice/project.git");
    assert_eq!(res.children[0].local_dir, "github.com/alice/project");
    assert_eq!(res.children[0].remote_name, "alice");
}

#[test]
fn missing_credential_at_first_hop() {
    let config = Config { local_src_dir: "src".to_string(), hosts: vec![] };
    let r = resolve_forks(&config, "https://github.com/alice/project", &vec![]);
    assert_eq!(r.map(|_| ()), Err(ResolveError::MissingCredential));
}

#[test]
fn missing_credential_mid_walk() {
    // The chain crosses to a host that is not configured: the walk
    // aborts at that hop with exactly MissingCredential.
    let config = github_config();
    let parents = vec![make("github.com", "bob", "project"), make("example.org", "carol", "project")];
    let r = resolve_forks(&config, "https://github.com/alice/project", &parents);
    assert_eq!(r.map(|_| ()), Err(ResolveError::MissingCredential));
}

#[test]
fn invalid_url_rejected_before_any_hop() {
    let config = github_config();
    let r = resolve_forks(&config, "https://github.com/alice", &vec![]);
    assert_eq!(r.map(|_| ()), Err(ResolveError::InvalidRepoUrl));
}

#[test]
fn walk_steps_match_scripted_resolution() {
    let mut walk = ForkWalk::start(make("github.com", "alice", "project"));
    assert_eq!(walk.current().owner, "alice");
    walk.advance(make("github.com", "bob", "project"));
    assert_eq!(walk.current().owner, "bob");
    let res = walk.into_resolution();
    assert_eq!(res.base.remote_name, "bob");
    assert_eq!(res.children.len(), 1);
    assert_eq!(res.children[0].remote_name, "alice");
}

#[test]
fn hop_token_reads_the_configured_token() {
    let walk = ForkWalk::start(make("github.com", "alice", "project"));
    assert_eq!(walk.hop_token(&github_config()), Ok("token-a".to_string()));
    let empty = Config { local_src_dir: "src".to_string(), hosts: vec![] };
    assert_eq!(walk.hop_token(&empty), Err(ResolveError::MissingCredential));
}

#[test]
fn interpret_missing_data_is_request_failure() {
    let current = make("github.com", "alice", "project");
    let r = interpret_parent_response(&current, ParentQueryReply::MissingData);
    assert_eq!(r.map(|_| ()), Err(ResolveError::ApiRequestFailed));
}

#[test]
fn interpret_missing_repository_is_not_found() {
    let current = make("github.com", "alice", "project");
    let r = interpret_parent_response(&current, ParentQueryReply::RepositoryMissing);
    assert_eq!(r.map(|_| ()), Err(ResolveError::RepositoryNotFound));
}

#[test]
fn interpret_no_parent() {
    let current = make("github.com", "alice", "project");
    match interpret_parent_response(&current, ParentQueryReply::NoParentReported) {
        Ok(ParentLookup::NoParent) => {},
        _ => panic!("expected NoParent"),
    }
}

#[test]
fn interpret_parent_keeps_host_and_takes_names_as_is() {
    let current = make("github.com", "alice", "project");
    let reply = ParentQueryReply::ParentReported {
        owner: "bob".to_string(),
        name: "project".to_string(),
    };
    match interpret_parent_response(&current, reply) {
        Ok(ParentLookup::Parent(p)) => {
            assert_eq!(p.host, "github.com");
            assert_eq!(p.owner, "bob");
            assert_eq!(p.name, "project");
        },
        _ => panic!("expected a parent"),
    }
}

#[test]
fn error_descriptions() {
    assert_eq!(ResolveError::InvalidRepoUrl.describe(), "invalid repository url");
    assert_eq!(ResolveError::MissingCredential.describe(), "missing credential for host");
    assert_eq!(ResolveError::ApiRequestFailed.describe(), "fork-parent api request failed");
    assert_eq!(ResolveError::RepositoryNotFound.describe(), "repository not found");
}

#[test]
fn api_endpoint_for_host() {
    assert_eq!(api_endpoint("github.com"), "https://api.github.com/graphql");
}
