//! Inputs of the action, and the outputs it hands to later steps.
use vstd::prelude::*;

use crate::environment::Environment;
use crate::error::ActionsError;
use crate::util::{
    framed, has_substring, is_delimiter, key_value_outcome, legacy_command, old_command_message,
    prepare_key_value_message, Delimiters, LineEnding,
};

verus! {

/// `s` with every space turned into an underscore.
pub open spec fn spaces_to_underscores(s: Seq<char>) -> Seq<char> {
    s.map_values(|c: char| if c == ' ' { '_' } else { c })
}

/// What `str::to_uppercase` gives for a text.
pub uninterp spec fn upper_of(s: Seq<char>) -> Seq<char>;

/// Relies on `str::replace`, which replaces every match of the pattern.
#[verifier::external_body]
fn underscore_spaces(s: &str) -> (r: String)
    ensures
        r@ == spaces_to_underscores(s@),
{
    s.replace(' ', "_")
}

/// Relies on `str::to_uppercase`: its result depends on the characters alone.
#[verifier::external_body]
fn uppercase(s: &str) -> (r: String)
    ensures
        r@ == upper_of(s@),
{
    s.to_uppercase()
}

/// The variable that holds the input `name`.
pub open spec fn input_variable_text(name: Seq<char>) -> Seq<char> {
    upper_of("INPUT_"@ + spaces_to_underscores(name))
}

/// The name of the variable that holds the input `name`: `INPUT_` and the
/// name with spaces turned into underscores, upper-cased.
pub fn input_variable(name: &str) -> (r: String)
    ensures
        r@ == input_variable_text(name@),
{
    let mut v = String::from_str("INPUT_");
    v.append(underscore_spaces(name).as_str());
    uppercase(v.as_str())
}

/// The input `name`, read from the variable `variable`.
pub fn input_from(env: &Environment, variable: &str, name: &str) -> (r: Result<
    String,
    ActionsError,
>)
    ensures
        match env.var(variable@) {
            Some(v) => r matches Ok(s) && s@ == v,
            None => r matches Err(ActionsError::InputNotFound(n)) && n@ == name@,
        },
{
    match env.get(variable) {
        Some(v) => Ok(v),
        None => Err(ActionsError::InputNotFound(String::from_str(name))),
    }
}

/// The input `name`, which the runner hands over in a variable; fails,
/// naming the input, where the variable is not set.
pub fn get_input(env: &Environment, name: &str) -> (r: Result<String, ActionsError>)
    ensures
        match env.var(input_variable_text(name@)) {
            Some(v) => r matches Ok(s) && s@ == v,
            None => r matches Err(ActionsError::InputNotFound(n)) && n@ == name@,
        },
{
    let variable = input_variable(name);
    input_from(env, variable.as_str(), name)
}

/// How a message reaches the runner.
#[derive(Debug)]
pub enum Delivery {
    /// Append `record` to the file at `path`, which must already exist.
    File { path: String, record: String },
    /// Write `text` to standard output.
    Stdout { text: String },
}

/// The variable that names the file of the file command `command`.
pub open spec fn file_command_variable(command: Seq<char>) -> Seq<char> {
    "GITHUB_"@ + command
}

/// The error given where the file command `command` has no variable.
pub open spec fn missing_variable_message(command: Seq<char>) -> Seq<char> {
    "Unable to find environment variable for file command "@ + command
}

/// The path of the file that the file command `command` appends to; fails,
/// naming the command, where its variable is not set.
pub fn file_command_path(env: &Environment, command: &str) -> (r: Result<String, String>)
    ensures
        match env.var(file_command_variable(command@)) {
            Some(p) => r matches Ok(s) && s@ == p,
            None => r matches Err(e) && e@ == missing_variable_message(command@),
        },
{
    let mut variable = String::from_str("GITHUB_");
    variable.append(command);
    match env.get(variable.as_str()) {
        Some(p) => Ok(p),
        None => {
            let mut e = String::from_str("Unable to find environment variable for file command ");
            e.append(command);
            Err(e)
        },
    }
}

/// Why a record could not be appended to the file of a file command.
#[derive(Clone, Copy, Debug, PartialEq, Eq, Structural)]
pub enum FileFailure {
    /// No file stands at the path.
    Missing,
    /// The file could not be opened for appending.
    CannotOpen,
    /// The record could not be written.
    CannotWrite,
}

/// The error text for `failure` at `path`.
pub open spec fn failure_text(failure: FileFailure, path: Seq<char>) -> Seq<char> {
    match failure {
        FileFailure::Missing => "Missing file at path: "@ + path,
        FileFailure::CannotOpen => "Unable to open file at path: "@ + path,
        FileFailure::CannotWrite => "Unable to write to file at path: "@ + path,
    }
}

/// The error for `failure` at `path`, which names the path.
pub fn file_failure(failure: FileFailure, path: &str) -> (r: ActionsError)
    ensures
        r matches ActionsError::Output(m) && m@ == failure_text(failure, path@),
{
    let mut m = match failure {
        FileFailure::Missing => String::from_str("Missing file at path: "),
        FileFailure::CannotOpen => String::from_str("Unable to open file at path: "),
        FileFailure::CannotWrite => String::from_str("Unable to write to file at path: "),
    };
    m.append(path);
    ActionsError::Output(m)
}

/// What setting an output does, given the path of the output file (if the
/// runner gave one) and the delimiter `d` that was drawn.
pub open spec fn output_outcome(
    path: Option<Seq<char>>,
    name: Seq<char>,
    value: Seq<char>,
    d: Seq<char>,
    eol: Seq<char>,
    r: Result<Delivery, ActionsError>,
) -> bool {
    match path {
        Some(p) => match key_value_outcome(name, value, d, eol) {
            Ok(m) => r matches Ok(Delivery::File { path, record }) && path@ == p && record@ == m
                + eol,
            Err(e) => r matches Err(ActionsError::Output(msg)) && msg@ == e,
        },
        None => r matches Ok(Delivery::Stdout { text }) && text@ == eol + legacy_command(
            "set-output"@,
            name,
            value,
        ) + eol,
    }
}

/// Sets the output `name` to `value`. Where the runner names an output file,
/// the result is a heredoc record to append to it, framed with one delimiter
/// drawn from `delimiters`; else it is a line of the single-line form, after a
/// line break, for standard output, and nothing is drawn.
pub fn set_output(
    env: &Environment,
    name: &str,
    value: &str,
    eol: LineEnding,
    delimiters: &mut Delimiters,
) -> (r: Result<Delivery, ActionsError>)
    ensures
        match env.var("GITHUB_OUTPUT"@) {
            Some(_) => {
                &&& final(delimiters).drawn().len() == old(delimiters).drawn().len() + 1
                &&& final(delimiters).drawn().drop_last() == old(delimiters).drawn()
                &&& is_delimiter(final(delimiters).drawn().last())
            },
            None => final(delimiters).drawn() == old(delimiters).drawn(),
        },
        output_outcome(
            env.var("GITHUB_OUTPUT"@),
            name@,
            value@,
            final(delimiters).drawn().last(),
            eol.text(),
            r,
        ),
{
    let ghost out = env.var("GITHUB_OUTPUT"@);
    proof {
        reveal_strlit("GITHUB_");
        reveal_strlit("OUTPUT");
        reveal_strlit("GITHUB_OUTPUT");
        assert(file_command_variable("OUTPUT"@) =~= "GITHUB_OUTPUT"@);
    }
    match file_command_path(env, "OUTPUT") {
        Ok(path) => {
            let r = prepare_key_value_message(name, value, eol, delimiters);
            let ghost d = delimiters.drawn().last();
            match r {
                Ok(m) => {
                    let record = eol.terminate(m.as_str());
                    let res = Ok(Delivery::File { path, record });
                    assert(output_outcome(out, name@, value@, d, eol.text(), res));
                    res
                },
                Err(e) => {
                    let res = Err(ActionsError::Output(e));
                    assert(output_outcome(out, name@, value@, d, eol.text(), res));
                    res
                },
            }
        },
        Err(_) => {
            let line = old_command_message("set-output", name, value);
            let mut text = String::from_str(eol.as_str());
            text.append(eol.terminate(line.as_str()).as_str());
            assert(text@ =~= eol.text() + legacy_command("set-output"@, name@, value@) + eol.text());
            let res = Ok(Delivery::Stdout { text });
            assert(output_outcome(out, name@, value@, delimiters.drawn().last(), eol.text(), res));
            res
        },
    }
}

/// Setting an output goes to the output file where the runner names one, as
/// exactly one record, the framed value and a line ending, unless the name or
/// the value holds the delimiter; where it names none, it goes to standard
/// output as exactly one single-line command, after a line break.
pub proof fn lemma_output_channel(
    path: Option<Seq<char>>,
    name: Seq<char>,
    value: Seq<char>,
    d: Seq<char>,
    eol: Seq<char>,
    r: Result<Delivery, ActionsError>,
)
    requires
        output_outcome(path, name, value, d, eol, r),
    ensures
        path is Some && !has_substring(name, d) && !has_substring(value, d) ==> (r matches Ok(
            Delivery::File { path: p, record },
        ) && Some(p@) == path && record@ == framed(name, value, d, eol) + eol),
        path is Some && (has_substring(name, d) || has_substring(value, d)) ==> r matches Err(
            ActionsError::Output(_),
        ),
        path is None ==> (r matches Ok(Delivery::Stdout { text }) && text@ == eol
            + legacy_command("set-output"@, name, value) + eol),
{
}

} // verus!
