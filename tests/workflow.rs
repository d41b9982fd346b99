use actions_github::environment::Environment;
use actions_github::error::ActionsError;
use actions_github::util::{Delimiters, LineEnding};
use actions_github::workflow::{
    file_command_path, file_failure, get_input, input_variable, set_output, Delivery,
    FileFailure,
};

#[test]
fn returns_input_when_env_is_set() {
    let mut env = Environment::new();
    env.set("INPUT_EXAMPLE", "test");
    let input = get_input(&env, "example");
    assert_eq!(input.unwrap(), "test")
}

#[test]
fn returns_error_when_env_is_not_set() {
    let env = Environment::new();
    let input = get_input(&env, "test");
    assert!(input.is_err())
}

#[test]
fn writes_output() {
    let env = Environment::new();
    assert!(set_output(&env, "hi", "bye", LineEnding::Lf, &mut Delimiters::new()).is_ok());
}

#[test]
fn input_with_space_in_name() {
    let mut env = Environment::new();
    env.set("INPUT_RELEASE_NAME", "v1");
    assert_eq!(input_variable("release name"), "INPUT_RELEASE_NAME");
    assert_eq!(get_input(&env, "release name").unwrap(), "v1");
}

#[test]
fn missing_input_names_the_input() {
    let env = Environment::new();
    match get_input(&env, "missing") {
        Err(ActionsError::InputNotFound(name)) => assert_eq!(name, "missing"),
        other => panic!("unexpected {:?}", other),
    }
    let e = get_input(&env, "missing").unwrap_err();
    assert_eq!(e.to_string(), "Input required and not supplied: missing");
}

#[test]
fn later_setting_overrides() {
    let mut env = Environment::new();
    env.set("A", "1");
    env.set("B", "2");
    env.set("A", "3");
    assert_eq!(env.get("A"), Some(String::from("3")));
    assert_eq!(env.get("B"), Some(String::from("2")));
    assert_eq!(env.get("C"), None);
}

#[test]
fn output_goes_to_file_when_runner_names_one() {
    let mut env = Environment::new();
    env.set("GITHUB_OUTPUT", "/tmp/out");
    match set_output(&env, "hi", "bye", LineEnding::Lf, &mut Delimiters::new()).unwrap() {
        Delivery::File { path, record } => {
            assert_eq!(path, "/tmp/out");
            let lines: Vec<&str> = record.split('\n').collect();
            assert_eq!(lines.len(), 4);
            assert_eq!(lines[0], format!("hi<<{}", lines[2]));
            assert!(lines[2].starts_with("ghadelimiter_"));
            assert_eq!(lines[1], "bye");
            assert_eq!(lines[3], "");
        }
        other => panic!("unexpected {:?}", other),
    }
}

#[test]
fn output_goes_to_stdout_without_output_file() {
    let env = Environment::new();
    match set_output(&env, "hi", "bye", LineEnding::Lf, &mut Delimiters::new()).unwrap() {
        Delivery::Stdout { text } => assert_eq!(text, "\n::set-output name=hi::bye\n"),
        other => panic!("unexpected {:?}", other),
    }
    match set_output(&env, "hi", "bye", LineEnding::CrLf, &mut Delimiters::new()).unwrap() {
        Delivery::Stdout { text } => assert_eq!(text, "\r\n::set-output name=hi::bye\r\n"),
        other => panic!("unexpected {:?}", other),
    }
}

#[test]
fn file_command_needs_its_variable() {
    let mut env = Environment::new();
    assert_eq!(
        file_command_path(&env, "OUTPUT").unwrap_err(),
        "Unable to find environment variable for file command OUTPUT"
    );
    env.set("GITHUB_OUTPUT", "/tmp/o");
    assert_eq!(file_command_path(&env, "OUTPUT").unwrap(), "/tmp/o");
}

#[test]
fn file_failures_name_the_path() {
    let texts = [
        (FileFailure::Missing, "Missing file at path: /p"),
        (FileFailure::CannotOpen, "Unable to open file at path: /p"),
        (FileFailure::CannotWrite, "Unable to write to file at path: /p"),
    ];
    for (failure, text) in texts {
        match file_failure(failure, "/p") {
            ActionsError::Output(m) => assert_eq!(m, text),
            other => panic!("unexpected {:?}", other),
        }
    }
}

#[test]
fn error_texts() {
    assert_eq!(
        ActionsError::Context(String::from("GITHUB_SHA")).to_string(),
        "Problem while generating the context: GITHUB_SHA"
    );
    assert_eq!(ActionsError::Output(String::from("x")).to_string(), "x");
}
