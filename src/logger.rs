//! Log messages and annotations, encoded as workflow commands.
use vstd::prelude::*;

use crate::environment::Environment;
use crate::util::{decimal, decimal_text};

verus! {

/// Where an annotation points: a title, a file and a range of lines.
#[derive(Debug)]
pub struct LogParameters {
    /// Custom title
    pub title: String,
    /// File name
    pub file: String,
    /// Line number, starting at 1
    pub line: u16,
    /// End line number
    pub end_line: u16,
}

/// The properties of an annotation, in the fixed order file, line, endLine, title.
pub open spec fn properties_text(p: LogParameters) -> Seq<char> {
    "file="@ + p.file@ + ",line="@ + decimal_text(p.line as nat) + ",endLine="@ + decimal_text(
        p.end_line as nat,
    ) + ",title="@ + p.title@
}

/// `::{command}::{msg}`, or `::{command} {properties}::{msg}` where there are
/// properties.
pub open spec fn annotation(command: Seq<char>, msg: Seq<char>, params: Option<LogParameters>) -> Seq<
    char,
> {
    match params {
        None => "::"@ + command + "::"@ + msg,
        Some(p) => "::"@ + command + " "@ + properties_text(p) + "::"@ + msg,
    }
}

impl LogParameters {
    /// The properties as they stand in an annotation.
    pub fn to_string(&self) -> (r: String)
        ensures
            r@ == properties_text(*self),
    {
        let mut s = String::from_str("file=");
        s.append(self.file.as_str());
        s.append(",line=");
        s.append(decimal(self.line as u64).as_str());
        s.append(",endLine=");
        s.append(decimal(self.end_line as u64).as_str());
        s.append(",title=");
        s.append(self.title.as_str());
        s
    }
}

impl Default for LogParameters {
    fn default() -> (r: LogParameters)
        ensures
            r.title@ == ""@,
            r.file@ == ".github"@,
            r.line == 1,
            r.end_line == 1,
    {
        LogParameters {
            title: String::from_str(""),
            file: String::from_str(".github"),
            line: 1,
            end_line: 1,
        }
    }
}

/// Encodes an annotation command.
pub fn annotation_message(command: &str, msg: &str, parameters: Option<LogParameters>) -> (r:
    String)
    ensures
        r@ == annotation(command@, msg@, parameters),
{
    let mut s = String::from_str("::");
    s.append(command);
    match &parameters {
        None => {},
        Some(p) => {
            s.append(" ");
            s.append(p.to_string().as_str());
        },
    }
    s.append("::");
    s.append(msg);
    s
}

/// The debug message for `msg`; a debug message never carries properties.
pub fn debug_log(msg: &str) -> (r: String)
    ensures
        r@ == annotation("debug"@, msg@, None),
{
    annotation_message("debug", msg, None)
}

/// The warning annotation for `msg`.
pub fn warn_log(msg: &str, parameters: Option<LogParameters>) -> (r: String)
    ensures
        r@ == annotation("warning"@, msg@, parameters),
{
    annotation_message("warning", msg, parameters)
}

/// The error annotation for `msg`.
pub fn error_log(msg: &str, parameters: Option<LogParameters>) -> (r: String)
    ensures
        r@ == annotation("error"@, msg@, parameters),
{
    annotation_message("error", msg, parameters)
}

/// The notice annotation for `msg`.
pub fn notice_log(msg: &str, parameters: Option<LogParameters>) -> (r: String)
    ensures
        r@ == annotation("notice"@, msg@, parameters),
{
    annotation_message("notice", msg, parameters)
}

/// Whether the runner shows debug messages: `RUNNER_DEBUG` is `1`. Where the
/// variable is not set at all, debug messages are shown.
pub fn is_debug(env: &Environment) -> (r: bool)
    ensures
        r == match env.var("RUNNER_DEBUG"@) {
            Some(v) => v == "1"@,
            None => true,
        },
{
    match env.get("RUNNER_DEBUG") {
        Some(v) => v == String::from_str("1"),
        None => true,
    }
}

/// An annotation without properties has `::` right after the command, with
/// no space; with properties, a space follows the command and the properties
/// come in the order file, line, endLine, title.
pub proof fn lemma_annotation_shape(command: Seq<char>, msg: Seq<char>, params: Option<LogParameters>)
    ensures
        match params {
            None => annotation(command, msg, params) == "::"@ + command + "::"@ + msg,
            Some(p) => annotation(command, msg, params) == "::"@ + command + " file="@ + p.file@
                + ",line="@ + decimal_text(p.line as nat) + ",endLine="@ + decimal_text(
                p.end_line as nat,
            ) + ",title="@ + p.title@ + "::"@ + msg,
        },
        params is None ==> annotation(command, msg, params)[command.len() + 2int] == ':',
        params is Some ==> annotation(command, msg, params)[command.len() + 2int] == ' ',
{
    reveal_strlit("::");
    reveal_strlit(" ");
    reveal_strlit("file=");
    reveal_strlit(" file=");
    let a = annotation(command, msg, params);
    match params {
        None => {
            assert(a =~= "::"@ + command + "::"@ + msg);
            assert(a[command.len() + 2int] == ("::"@ + command + "::"@ + msg)[command.len() + 2int]);
        },
        Some(p) => {
            let rest = properties_text(p) + "::"@ + msg;
            assert(a =~= "::"@ + command + " file="@ + p.file@ + ",line="@ + decimal_text(
                p.line as nat,
            ) + ",endLine="@ + decimal_text(p.end_line as nat) + ",title="@ + p.title@ + "::"@
                + msg);
            assert(a =~= "::"@ + command + " "@ + rest);
        },
    }
}

} // verus!
