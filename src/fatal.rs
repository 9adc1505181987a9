//! The conditions that stop the process, and what it says and returns then.
use vstd::prelude::*;
use crate::render::{list_debug, render_list};

verus! {

/// A condition after which the service never serves (again).
pub enum Fatal {
    /// Required variables that are absent or blank, all of them.
    MissingVars(Vec<String>),
    /// The logging facility could not be started; the text says why.
    LoggerInit(String),
    /// The listener could not take its address; the text says why.
    Bind(String),
    /// The serve loop ended with an error; the text says which.
    Serve(String),
}

impl Fatal {
    /// What is reported for the condition.
    pub open spec fn message_of(&self) -> Seq<char> {
        match self {
            Fatal::MissingVars(v) => "Exiting due to missing or empty environment variables: "@
                + list_debug(v.deep_view()),
            Fatal::LoggerInit(e) => "Failed to initialize logger: "@ + e@,
            Fatal::Bind(e) => "Failed to bind listener: "@ + e@,
            Fatal::Serve(e) => "Server error: "@ + e@,
        }
    }

    /// The status that the process exits with: every fatal condition gives 1.
    pub fn exit_code(&self) -> (r: i32)
        ensures
            r == 1,
    {
        1
    }

    /// The line reported for the condition.
    pub fn message(&self) -> (r: String)
        ensures
            r@ == self.message_of(),
    {
        match self {
            Fatal::MissingVars(v) => {
                let mut out = String::from_str(
                    "Exiting due to missing or empty environment variables: ",
                );
                let list = render_list(v);
                out.append(list.as_str());
                out
            },
            Fatal::LoggerInit(e) => {
                let mut out = String::from_str("Failed to initialize logger: ");
                out.append(e.as_str());
                out
            },
            Fatal::Bind(e) => {
                let mut out = String::from_str("Failed to bind listener: ");
                out.append(e.as_str());
                out
            },
            Fatal::Serve(e) => {
                let mut out = String::from_str("Server error: ");
                out.append(e.as_str());
                out
            },
        }
    }
}

} // verus!
