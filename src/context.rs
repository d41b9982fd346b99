//! The run's context: what the runner hands every step about the run.
use vstd::prelude::*;

use crate::environment::Environment;
use crate::error::ActionsError;
use crate::util::{number_at_most, parse_number};

verus! {

#[verifier::external_type_specification]
#[verifier::external_body]
pub struct ExJsonValue(json::JsonValue);

#[verifier::external_type_specification]
#[verifier::external_body]
pub struct ExJsonError(json::Error);

/// Relies on the derived `Clone` of `json::JsonValue`, which copies the value.
pub assume_specification[ <json::JsonValue as Clone>::clone ](v: &json::JsonValue) -> (r:
    json::JsonValue);

/// Relies on `json::JsonValue::is_null`, which tells the null value apart.
pub assume_specification[ json::JsonValue::is_null ](v: &json::JsonValue) -> (r: bool);

/// Whether `json::parse` accepts a text as a JSON document.
pub uninterp spec fn json_parses(content: Seq<char>) -> bool;

/// Relies on `json::parse`, which reads a JSON document; whether it succeeds
/// depends on the text alone.
#[verifier::external_body]
fn parse_json(content: &str) -> (r: Result<json::JsonValue, json::Error>)
    ensures
        r is Ok == json_parses(content@),
{
    json::parse(content)
}

/// Relies on `Index<&str>` of `json::JsonValue`: the member `key` of an
/// object, else null.
#[verifier::external_body]
fn member(v: &json::JsonValue, key: &str) -> (r: json::JsonValue) {
    v[key].clone()
}

/// Relies on the `Display` of `json::JsonValue`: a string as it stands, any
/// other value as JSON text.
#[verifier::external_body]
fn json_text(v: &json::JsonValue) -> (r: String) {
    v.to_string()
}

/// Relies on the `Display` of `json::Error`, which describes the error.
#[verifier::external_body]
fn json_error_text(e: &json::Error) -> (r: String) {
    e.to_string()
}

/// Relies on `str::split_once`: the text before the first `/`, and the text
/// after it.
#[verifier::external_body]
fn split_at_slash(s: &str) -> (r: Option<(&str, &str)>)
    ensures
        match r {
            None => !s@.contains('/'),
            Some((a, b)) => first_field(s@, a@, b@),
        },
{
    s.split_once('/')
}

/// `s` is `f`, a `/` and `rest`, where `f` holds no `/`.
pub open spec fn first_field(s: Seq<char>, f: Seq<char>, rest: Seq<char>) -> bool {
    s == f + seq!['/'] + rest && !f.contains('/')
}

/// `owner` and `repo` are the first two `/`-separated fields of `s`.
pub open spec fn owner_repo(s: Seq<char>, owner: Seq<char>, repo: Seq<char>) -> bool {
    exists|rest: Seq<char>|
        first_field(s, owner, rest) && if rest.contains('/') {
            exists|tail: Seq<char>| first_field(rest, repo, tail)
        } else {
            repo == rest
        }
}

/// The error text given where no repository can be derived.
pub open spec fn repo_message() -> Seq<char> {
    "context.repo requires a GITHUB_REPOSITORY environment variable like 'owner/repo'"@
}

/// Owner and name of a repository.
#[derive(Debug, Clone)]
pub struct Repo {
    pub owner: String,
    pub repo: String,
}

fn repo_error() -> (r: ActionsError)
    ensures
        r matches ActionsError::Context(m) && m@ == repo_message(),
{
    ActionsError::Context(
        String::from_str(
            "context.repo requires a GITHUB_REPOSITORY environment variable like 'owner/repo'",
        ),
    )
}

/// The repository named `owner/repo`; fields after the second are ignored.
/// Fails where `repository` holds no `/`.
pub fn repo_from_repository(repository: &str) -> (r: Result<Repo, ActionsError>)
    ensures
        match r {
            Ok(p) => repository@.contains('/') && owner_repo(repository@, p.owner@, p.repo@),
            Err(e) => !repository@.contains('/') && (e matches ActionsError::Context(m) && m@
                == repo_message()),
        },
{
    match split_at_slash(repository) {
        None => Err(repo_error()),
        Some((owner, rest)) => {
            let repo = match split_at_slash(rest) {
                None => String::from_str(rest),
                Some((name, tail)) => {
                    assert(rest@[name@.len() as int] == '/');
                    assert(first_field(rest@, name@, tail@));
                    String::from_str(name)
                },
            };
            assert(first_field(repository@, owner@, rest@));
            assert(repository@[owner@.len() as int] == '/');
            Ok(Repo { owner: String::from_str(owner), repo })
        },
    }
}

/// The repository from the owner and name read from the event payload;
/// fails where either is missing.
pub fn repo_from_fields(owner: Option<String>, name: Option<String>) -> (r: Result<
    Repo,
    ActionsError,
>)
    ensures
        match (owner, name) {
            (Some(o), Some(n)) => r matches Ok(p) && p.owner@ == o@ && p.repo@ == n@,
            _ => r matches Err(ActionsError::Context(m)) && m@ == repo_message(),
        },
{
    match (owner, name) {
        (Some(o), Some(n)) => Ok(Repo { owner: o, repo: n }),
        _ => Err(repo_error()),
    }
}

fn text_unless_null(v: &json::JsonValue) -> (r: Option<String>) {
    if v.is_null() {
        None
    } else {
        Some(json_text(v))
    }
}

/// The repository of the run: from `GITHUB_REPOSITORY` where it is set, else
/// from the event payload.
pub fn get_repo(env: &Environment, payload: &json::JsonValue) -> (r: Result<Repo, ActionsError>)
    ensures
        match env.var("GITHUB_REPOSITORY"@) {
            Some(s) => match r {
                Ok(p) => s.contains('/') && owner_repo(s, p.owner@, p.repo@),
                Err(e) => !s.contains('/') && (e matches ActionsError::Context(m) && m@
                    == repo_message()),
            },
            None => r is Ok || (r matches Err(ActionsError::Context(m)) && m@ == repo_message()),
        },
{
    match env.get("GITHUB_REPOSITORY") {
        Some(repository) => repo_from_repository(repository.as_str()),
        None => {
            let repository = member(payload, "repository");
            let owner = member(&member(&repository, "login"), "login");
            let name = member(&repository, "name");
            repo_from_fields(text_unless_null(&owner), text_unless_null(&name))
        },
    }
}

/// The event payload in `content`, or the message that tells why it could
/// not be read.
pub fn parse_payload(content: &str) -> (r: Result<json::JsonValue, String>)
    ensures
        r is Ok == json_parses(content@),
        r matches Err(m) ==> exists|t: Seq<char>| m@ == "Failed to parse JSON "@ + t,
{
    match parse_json(content) {
        Ok(v) => Ok(v),
        Err(e) => {
            let mut m = String::from_str("Failed to parse JSON ");
            m.append(json_error_text(&e).as_str());
            Err(m)
        },
    }
}

/// The run's context, as the runner hands it over.
#[derive(Debug, Clone)]
pub struct Context {
    pub payload: json::JsonValue,
    pub event_name: String,
    pub sha: String,
    pub ref_: String,
    pub workflow: String,
    pub action: String,
    pub actor: String,
    pub job: String,
    pub run_attempt: u8,
    pub run_number: u8,
    pub run_id: u128,
    pub api_url: String,
    pub server_url: String,
    pub graphql_url: String,
    pub repo: Repo,
}

/// The variable `name`; fails, naming it, where it is not set.
pub fn get_env(env: &Environment, name: &str) -> (r: Result<String, ActionsError>)
    ensures
        match env.var(name@) {
            Some(v) => r matches Ok(s) && s@ == v,
            None => r matches Err(ActionsError::Context(m)) && m@ == name@,
        },
{
    match env.get(name) {
        Some(v) => Ok(v),
        None => Err(ActionsError::Context(String::from_str(name))),
    }
}

/// The variable `name`, or `default` where it is not set.
pub fn get_env_or(env: &Environment, name: &str, default: &str) -> (r: String)
    ensures
        r@ == match env.var(name@) {
            Some(v) => v,
            None => default@,
        },
{
    match env.get(name) {
        Some(v) => v,
        None => String::from_str(default),
    }
}

/// The number of at most `max` held in the variable `name`.
pub open spec fn env_number(env: &Environment, name: Seq<char>, max: nat) -> Option<nat> {
    match env.var(name) {
        Some(v) => number_at_most(v, max),
        None => None,
    }
}

/// The number of at most `max` held in the variable `name`; fails, naming
/// it, where it is not set or holds no such number.
pub fn get_env_number(env: &Environment, name: &str, max: u128) -> (r: Result<u128, ActionsError>)
    ensures
        match env_number(env, name@, max as nat) {
            Some(n) => r == Ok::<u128, ActionsError>(n as u128),
            None => r matches Err(ActionsError::Context(m)) && m@ == name@,
        },
{
    match env.get(name) {
        Some(v) => match parse_number(v.as_str(), max) {
            Some(n) => Ok(n),
            None => Err(ActionsError::Context(String::from_str(name))),
        },
        None => Err(ActionsError::Context(String::from_str(name))),
    }
}

/// The first variable, in the order the context reads them, that is not
/// set or, for a number, does not hold one that fits its field.
pub open spec fn first_unreadable(env: &Environment) -> Option<Seq<char>> {
    if env.var("GITHUB_EVENT_NAME"@) is None {
        Some("GITHUB_EVENT_NAME"@)
    } else if env.var("GITHUB_SHA"@) is None {
        Some("GITHUB_SHA"@)
    } else if env.var("GITHUB_REF"@) is None {
        Some("GITHUB_REF"@)
    } else if env.var("GITHUB_WORKFLOW"@) is None {
        Some("GITHUB_WORKFLOW"@)
    } else if env.var("GITHUB_ACTION"@) is None {
        Some("GITHUB_ACTION"@)
    } else if env.var("GITHUB_ACTOR"@) is None {
        Some("GITHUB_ACTOR"@)
    } else if env.var("GITHUB_JOB"@) is None {
        Some("GITHUB_JOB"@)
    } else if env_number(env, "GITHUB_RUN_ATTEMPT"@, 255) is None {
        Some("GITHUB_RUN_ATTEMPT"@)
    } else if env_number(env, "GITHUB_RUN_NUMBER"@, 255) is None {
        Some("GITHUB_RUN_NUMBER"@)
    } else if env_number(env, "GITHUB_RUN_ID"@, u128::MAX as nat) is None {
        Some("GITHUB_RUN_ID"@)
    } else {
        None
    }
}

/// Every field of `c` read from `env` holds what the variable gives.
pub open spec fn context_matches(env: &Environment, c: Context) -> bool {
    &&& env.var("GITHUB_EVENT_NAME"@) == Some(c.event_name@)
    &&& env.var("GITHUB_SHA"@) == Some(c.sha@)
    &&& env.var("GITHUB_REF"@) == Some(c.ref_@)
    &&& env.var("GITHUB_WORKFLOW"@) == Some(c.workflow@)
    &&& env.var("GITHUB_ACTION"@) == Some(c.action@)
    &&& env.var("GITHUB_ACTOR"@) == Some(c.actor@)
    &&& env.var("GITHUB_JOB"@) == Some(c.job@)
    &&& env_number(env, "GITHUB_RUN_ATTEMPT"@, 255) == Some(c.run_attempt as nat)
    &&& env_number(env, "GITHUB_RUN_NUMBER"@, 255) == Some(c.run_number as nat)
    &&& env_number(env, "GITHUB_RUN_ID"@, u128::MAX as nat) == Some(c.run_id as nat)
    &&& c.api_url@ == match env.var("GITHUB_API_URL"@) {
        Some(v) => v,
        None => "https://api.github.com"@,
    }
    &&& c.server_url@ == match env.var("GITHUB_SERVER_URL"@) {
        Some(v) => v,
        None => "https://github.com"@,
    }
    &&& c.graphql_url@ == match env.var("GITHUB_GRAPHQL_URL"@) {
        Some(v) => v,
        None => "https://api.github.com/graphql"@,
    }
    &&& match env.var("GITHUB_REPOSITORY"@) {
        Some(s) => owner_repo(s, c.repo.owner@, c.repo.repo@),
        None => true,
    }
}

/// The run's context, read from `env`, with the event payload that the
/// runner named (null where there is none).
pub fn get_context(env: &Environment, payload: json::JsonValue) -> (r: Result<
    Context,
    ActionsError,
>)
    ensures
        match r {
            Ok(c) => first_unreadable(env) is None && context_matches(env, c) && c.payload
                == payload,
            Err(e) => e matches ActionsError::Context(m) && (m@ == repo_message() || Some(m@)
                == first_unreadable(env)),
        },
        env.var("GITHUB_REPOSITORY"@) matches Some(s) && s.contains('/') ==> match first_unreadable(
            env,
        ) {
            Some(v) => r matches Err(ActionsError::Context(m)) && m@ == v,
            None => r is Ok,
        },
        env.var("GITHUB_REPOSITORY"@) matches Some(s) && !s.contains('/') ==> (r matches Err(
            ActionsError::Context(m),
        ) && m@ == repo_message()),
{
    let repo = get_repo(env, &payload)?;
    let event_name = get_env(env, "GITHUB_EVENT_NAME")?;
    let sha = get_env(env, "GITHUB_SHA")?;
    let ref_ = get_env(env, "GITHUB_REF")?;
    let workflow = get_env(env, "GITHUB_WORKFLOW")?;
    let action = get_env(env, "GITHUB_ACTION")?;
    let actor = get_env(env, "GITHUB_ACTOR")?;
    let job = get_env(env, "GITHUB_JOB")?;
    let run_attempt = get_env_number(env, "GITHUB_RUN_ATTEMPT", 255)? as u8;
    let run_number = get_env_number(env, "GITHUB_RUN_NUMBER", 255)? as u8;
    let run_id = get_env_number(env, "GITHUB_RUN_ID", u128::MAX)?;
    let api_url = get_env_or(env, "GITHUB_API_URL", "https://api.github.com");
    let server_url = get_env_or(env, "GITHUB_SERVER_URL", "https://github.com");
    let graphql_url = get_env_or(env, "GITHUB_GRAPHQL_URL", "https://api.github.com/graphql");
    Ok(
        Context {
            payload,
            event_name,
            sha,
            ref_,
            workflow,
            action,
            actor,
            job,
            run_attempt,
            run_number,
            run_id,
            api_url,
            server_url,
            graphql_url,
            repo,
        },
    )
}

} // verus!
