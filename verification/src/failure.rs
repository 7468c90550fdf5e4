//! Failures of the user's requests, and the messages that report them.

use vstd::prelude::*;
use vstd::string::StringExecFns;

verus! {

/// What went wrong while a request of the user was served.
#[derive(Clone, Copy, Debug, PartialEq, Eq, Structural)]
pub enum FailureKind {
    /// The store did not create the regiment.
    InsertRegiment,
    /// The store did not hand out the history.
    LoadHistory,
    /// The history could not be put into text.
    Serialization,
    /// The active-piece register could not be locked.
    LockRegister,
}

impl FailureKind {
    /// The words with which the message of such a failure begins.
    pub open spec fn prefix_text(self) -> Seq<char> {
        match self {
            FailureKind::InsertRegiment => "Failed to insert regiment in command: "@,
            FailureKind::LoadHistory => "Failed to load data: "@,
            FailureKind::Serialization => "Serialization failed: "@,
            FailureKind::LockRegister => "Failed to lock mutex: "@,
        }
    }

    /// The words with which the message of such a failure begins.
    pub fn prefix(self) -> (words: &'static str)
        ensures
            words@ == self.prefix_text(),
    {
        match self {
            FailureKind::InsertRegiment => "Failed to insert regiment in command: ",
            FailureKind::LoadHistory => "Failed to load data: ",
            FailureKind::Serialization => "Serialization failed: ",
            FailureKind::LockRegister => "Failed to lock mutex: ",
        }
    }

    /// The message for the user: the kind's opening words, then what the failing
    /// part reported.
    pub fn message(self, detail: &str) -> (text: String)
        ensures
            text@ == self.prefix_text() + detail@,
    {
        let mut text: String = self.prefix().to_owned();
        text.append(detail);
        text
    }
}

} // verus!
