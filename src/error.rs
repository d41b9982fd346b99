//! The errors of the library.
use vstd::prelude::*;

verus! {

/// What went wrong while running the action.
#[derive(Debug)]
#[non_exhaustive]
pub enum ActionsError {
    /// A value of the run's context could not be read; names what was missing.
    Context(String),
    /// The input was not found; holds the input's name.
    InputNotFound(String),
    /// The output could not be encoded or delivered.
    Output(String),
}

impl ActionsError {
    /// The text shown for the error.
    pub open spec fn text(&self) -> Seq<char> {
        match self {
            ActionsError::Context(msg) => "Problem while generating the context: "@ + msg@,
            ActionsError::InputNotFound(input) => "Input required and not supplied: "@ + input@,
            ActionsError::Output(msg) => msg@,
        }
    }

    /// The text shown for the error.
    pub fn to_string(&self) -> (r: String)
        ensures
            r@ == self.text(),
    {
        match self {
            ActionsError::Context(msg) => {
                let mut s = String::from_str("Problem while generating the context: ");
                s.append(msg.as_str());
                s
            },
            ActionsError::InputNotFound(input) => {
                let mut s = String::from_str("Input required and not supplied: ");
                s.append(input.as_str());
                s
            },
            ActionsError::Output(msg) => msg.clone(),
        }
    }
}

} // verus!
