use actions_github::context::{
    get_context, get_env, get_env_or, get_repo, parse_payload, repo_from_fields,
    repo_from_repository,
};
use actions_github::environment::Environment;
use actions_github::error::ActionsError;

fn full_env() -> Environment {
    let mut env = Environment::new();
    env.set("GITHUB_EVENT_NAME", "push");
    env.set("GITHUB_SHA", "abc123");
    env.set("GITHUB_REF", "refs/heads/main");
    env.set("GITHUB_WORKFLOW", "CI");
    env.set("GITHUB_ACTION", "run");
    env.set("GITHUB_ACTOR", "octocat");
    env.set("GITHUB_JOB", "build");
    env.set("GITHUB_RUN_ATTEMPT", "2");
    env.set("GITHUB_RUN_NUMBER", "17");
    env.set("GITHUB_RUN_ID", "9876543210");
    env.set("GITHUB_REPOSITORY", "owner/project");
    env
}

#[test]
fn context_from_environment() {
    let c = get_context(&full_env(), json::JsonValue::Null).unwrap();
    assert_eq!(c.event_name, "push");
    assert_eq!(c.sha, "abc123");
    assert_eq!(c.ref_, "refs/heads/main");
    assert_eq!(c.workflow, "CI");
    assert_eq!(c.action, "run");
    assert_eq!(c.actor, "octocat");
    assert_eq!(c.job, "build");
    assert_eq!(c.run_attempt, 2);
    assert_eq!(c.run_number, 17);
    assert_eq!(c.run_id, 9876543210);
    assert_eq!(c.api_url, "https://api.github.com");
    assert_eq!(c.server_url, "https://github.com");
    assert_eq!(c.graphql_url, "https://api.github.com/graphql");
    assert_eq!(c.repo.owner, "owner");
    assert_eq!(c.repo.repo, "project");
}

#[test]
fn context_urls_from_environment() {
    let mut env = full_env();
    env.set("GITHUB_API_URL", "https://ghe.example/api");
    let c = get_context(&env, json::JsonValue::Null).unwrap();
    assert_eq!(c.api_url, "https://ghe.example/api");
    assert_eq!(get_env_or(&env, "GITHUB_SERVER_URL", "d"), "d");
}

#[test]
fn context_names_missing_variable() {
    let mut env = full_env();
    env.set("GITHUB_RUN_ATTEMPT", "300");
    match get_context(&env, json::JsonValue::Null) {
        Err(ActionsError::Context(m)) => assert_eq!(m, "GITHUB_RUN_ATTEMPT"),
        other => panic!("unexpected {:?}", other),
    }
    match get_env(&Environment::new(), "GITHUB_SHA") {
        Err(ActionsError::Context(m)) => assert_eq!(m, "GITHUB_SHA"),
        other => panic!("unexpected {:?}", other),
    }
}

#[test]
fn repository_variable_is_split() {
    let r = repo_from_repository("owner/repo").unwrap();
    assert_eq!((r.owner.as_str(), r.repo.as_str()), ("owner", "repo"));
    let r = repo_from_repository("a/b/c").unwrap();
    assert_eq!((r.owner.as_str(), r.repo.as_str()), ("a", "b"));
    let r = repo_from_repository("/").unwrap();
    assert_eq!((r.owner.as_str(), r.repo.as_str()), ("", ""));
    assert!(repo_from_repository("noslash").is_err());
}

#[test]
fn repository_from_payload() {
    let payload =
        parse_payload("{\"repository\":{\"name\":\"proj\",\"login\":{\"login\":\"me\"}}}").unwrap();
    let r = get_repo(&Environment::new(), &payload).unwrap();
    assert_eq!((r.owner.as_str(), r.repo.as_str()), ("me", "proj"));
    let payload = parse_payload("{\"repository\":{\"name\":\"proj\"}}").unwrap();
    match get_repo(&Environment::new(), &payload) {
        Err(ActionsError::Context(m)) => assert_eq!(
            m,
            "context.repo requires a GITHUB_REPOSITORY environment variable like 'owner/repo'"
        ),
        other => panic!("unexpected {:?}", other),
    }
}

#[test]
fn repository_fields() {
    let r = repo_from_fields(Some(String::from("o")), Some(String::from("n"))).unwrap();
    assert_eq!((r.owner.as_str(), r.repo.as_str()), ("o", "n"));
    assert!(repo_from_fields(None, Some(String::from("n"))).is_err());
    assert!(repo_from_fields(Some(String::from("o")), None).is_err());
}

#[test]
fn bad_payload_is_reported() {
    let e = parse_payload("{").unwrap_err();
    assert!(e.starts_with("Failed to parse JSON "));
    assert!(e.len() > "Failed to parse JSON ".len());
}

#[test]
fn context_error_names_first_missing_variable() {
    let mut env = Environment::new();
    env.set("GITHUB_REPOSITORY", "owner/project");
    env.set("GITHUB_SHA", "abc123");
    match get_context(&env, json::JsonValue::Null) {
        Err(ActionsError::Context(m)) => assert_eq!(m, "GITHUB_EVENT_NAME"),
        other => panic!("unexpected {:?}", other),
    }
    let mut env = full_env();
    env.set("GITHUB_RUN_ATTEMPT", "abc");
    env.set("GITHUB_RUN_ID", "x");
    match get_context(&env, json::JsonValue::Null) {
        Err(ActionsError::Context(m)) => assert_eq!(m, "GITHUB_RUN_ATTEMPT"),
        other => panic!("unexpected {:?}", other),
    }
}

#[test]
fn context_repository_without_slash_fails() {
    let mut env = full_env();
    env.set("GITHUB_REPOSITORY", "noslash");
    match get_context(&env, json::JsonValue::Null) {
        Err(ActionsError::Context(m)) => assert_eq!(
            m,
            "context.repo requires a GITHUB_REPOSITORY environment variable like 'owner/repo'"
        ),
        other => panic!("unexpected {:?}", other),
    }
}

#[test]
fn context_carries_the_payload() {
    let payload = parse_payload("{\"action\":\"opened\",\"number\":3}").unwrap();
    let c = get_context(&full_env(), payload.clone()).unwrap();
    assert_eq!(c.payload, payload);
    assert_eq!(c.payload["action"].as_str(), Some("opened"));
    let copy = c.clone();
    assert_eq!(copy.payload, payload);
    assert_eq!(copy.repo.owner, "owner");
    let c = get_context(&full_env(), json::JsonValue::Null).unwrap();
    assert!(c.payload.is_null());
}
