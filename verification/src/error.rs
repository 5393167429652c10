//! What can go wrong in the store and around a reminder.

use vstd::prelude::*;

verus! {

#[derive(Clone, Copy, Debug, PartialEq, Eq, Structural)]
pub enum Error {
    /// No record has the id that the operation was given.
    NotFound,
    /// A field does not hold what its format asks for.
    MalformedField,
    /// The store cannot take the operation.
    StorageUnavailable,
    /// A notification sink refused a reminder.
    NotificationFailure,
    /// A point in time lies outside what a time stamp can express.
    TimeOutOfRange,
}

impl Error {
    /// The text of `message`, by variant.
    pub open spec fn spec_message(self) -> Seq<char> {
        match self {
            Error::NotFound => "bookmark not found"@,
            Error::MalformedField => "malformed field"@,
            Error::StorageUnavailable => "storage unavailable"@,
            Error::NotificationFailure => "notification failed"@,
            Error::TimeOutOfRange => "time out of range"@,
        }
    }

    /// The error as the text that a caller across a process boundary gets.
    pub fn message(&self) -> (text: String)
        ensures
            text@ == self.spec_message(),
    {
        match self {
            Error::NotFound => "bookmark not found".to_owned(),
            Error::MalformedField => "malformed field".to_owned(),
            Error::StorageUnavailable => "storage unavailable".to_owned(),
            Error::NotificationFailure => "notification failed".to_owned(),
            Error::TimeOutOfRange => "time out of range".to_owned(),
        }
    }
}

} // verus!
