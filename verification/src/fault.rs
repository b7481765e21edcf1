//! Failures as text: what went wrong, and the error below it.

use crate::text::joined;
use vstd::prelude::*;
use vstd::string::*;

verus! {

/// A failure: its message and, where another error lies below it, that error's text.
#[derive(Debug, Clone)]
pub struct Fault {
    pub message: String,
    pub cause: Option<String>,
}

/// The characters of a failure.
pub struct FaultView {
    pub message: Seq<char>,
    pub cause: Option<Seq<char>>,
}

/// The view of an optional text.
pub open spec fn optional_view(text: Option<String>) -> Option<Seq<char>> {
    match text {
        Some(inner) => Some(inner@),
        None => None,
    }
}

impl View for Fault {
    type V = FaultView;

    open spec fn view(&self) -> FaultView {
        FaultView { message: self.message@, cause: optional_view(self.cause) }
    }
}

/// A failure without an error below it.
pub open spec fn plain(message: Seq<char>) -> FaultView {
    FaultView { message, cause: None }
}

/// A failure with an error below it.
pub open spec fn caused(message: Seq<char>, cause: Seq<char>) -> FaultView {
    FaultView { message, cause: Some(cause) }
}

impl FaultView {
    /// The message and the error below it, parted by a colon.
    pub open spec fn chain(self) -> Seq<char> {
        match self.cause {
            Some(cause) => self.message + ": "@ + cause,
            None => self.message,
        }
    }
}

impl Fault {
    /// A failure without an error below it.
    pub fn plain(message: &str) -> (fault: Fault)
        ensures
            fault@ == plain(message@),
    {
        Fault { message: message.to_owned(), cause: None }
    }

    /// A failure with an error below it.
    pub fn caused(message: &str, cause: &str) -> (fault: Fault)
        ensures
            fault@ == caused(message@, cause@),
    {
        Fault { message: message.to_owned(), cause: Some(cause.to_owned()) }
    }

    /// The message and the error below it, parted by a colon.
    pub fn chain(&self) -> (text: String)
        ensures
            text@ == self@.chain(),
    {
        match &self.cause {
            Some(cause) => joined(joined(self.message.as_str(), ": ").as_str(), cause.as_str()),
            None => self.message.clone(),
        }
    }
}

/// What asking the operating system about one thing came to: the thing, that it is not
/// there, or another failure by its text.
#[derive(Debug, Clone)]
pub enum Probe<T> {
    Found(T),
    Missing,
    Failed(String),
}

/// A failure is told as its message, and where an error lies below it, a colon, a space and
/// that error.
pub proof fn causes_follow_messages(message: Seq<char>, cause: Seq<char>)
    ensures
        plain(message).chain() == message,
        caused(message, cause).chain() == message + seq![':', ' '] + cause,
{
    reveal_strlit(": ");
    assert(": "@ =~= seq![':', ' ']);
}

/// A failure shows its message and the error below it, and an optional text is the text or
/// nothing.
pub proof fn faults_show_what_they_hold(fault: Fault, text: String)
    ensures
        fault@.message == fault.message@,
        fault.cause matches Some(cause) ==> fault@.cause == Some(cause@),
        fault.cause is None ==> fault@.cause is None,
        optional_view(Some(text)) == Some(text@),
        optional_view(None) is None,
{
}

} // verus!
