//! An interactive assistant core: a scanner that extracts tool invocations
//! from model output, a dispatcher that runs them against a registry of
//! capabilities, and a turn controller that drives the conversation.
use vstd::prelude::*;

pub mod agent;
pub mod chat;
pub mod config;
pub mod llm_api;
pub mod text;
pub mod tools;

verus! {

#[verifier::external_type_specification]
#[verifier::external_body]
pub struct ExIoError(std::io::Error);

/// The library's errors.
#[derive(Debug)]
pub enum Error {
    Io(std::io::Error),
    Llm(String),
    ChatControl(String),
    Git(String),
    Tool(String),
}

impl From<std::io::Error> for Error {
    fn from(error: std::io::Error) -> (r: Self)
        ensures
            r == Error::Io(error),
    {
        Error::Io(error)
    }
}

impl vstd::std_specs::convert::FromSpecImpl<std::io::Error> for Error {
    open spec fn obeys_from_spec() -> bool {
        true
    }

    open spec fn from_spec(v: std::io::Error) -> Error {
        Error::Io(v)
    }
}

/// Relies on `std::io::Error`'s `Display`: the system's description of the failure.
#[verifier::external_body]
fn io_error_text(e: &std::io::Error) -> (r: String) {
    e.to_string()
}

/// The label that a message of each kind is prefixed with.
pub open spec fn error_prefix(e: Error) -> Seq<char> {
    match e {
        Error::Io(_) => "IO error: "@,
        Error::Llm(_) => "LLM error: "@,
        Error::ChatControl(_) => "Chat control error: "@,
        Error::Git(_) => "Error while processing git command: "@,
        Error::Tool(_) => "Tool error: "@,
    }
}

impl Error {
    /// The message shown for this error: its label, then the detail.
    pub fn message(&self) -> (r: String)
        ensures
            match self {
                Error::Io(_) => r@.len() >= error_prefix(*self).len() && r@.take(
                    error_prefix(*self).len() as int,
                ) == error_prefix(*self),
                Error::Llm(m) => r@ == error_prefix(*self) + m@,
                Error::ChatControl(m) => r@ == error_prefix(*self) + m@,
                Error::Git(m) => r@ == error_prefix(*self) + m@,
                Error::Tool(m) => r@ == error_prefix(*self) + m@,
            },
    {
        let (label, detail) = match self {
            Error::Io(e) => ("IO error: ", io_error_text(e)),
            Error::Llm(m) => ("LLM error: ", m.clone()),
            Error::ChatControl(m) => ("Chat control error: ", m.clone()),
            Error::Git(m) => ("Error while processing git command: ", m.clone()),
            Error::Tool(m) => ("Tool error: ", m.clone()),
        };
        let r = String::from_str(label).concat(detail.as_str());
        proof {
            assert(r@.take(label@.len() as int) =~= label@);
        }
        r
    }
}

} // verus!
