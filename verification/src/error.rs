//! The engine's error type.
use vstd::prelude::*;
use vstd::string::*;

verus! {

/// Why a stored payload does not have the expected JSON shape.
#[derive(Debug, Clone, Copy, PartialEq, Eq, Structural)]
pub enum PayloadFault {
    /// The payload is neither null, an object, nor a positional array.
    NotARecord,
    /// A positional payload has more elements than there are fields.
    TooManyFields,
    /// `tags` is not an array.
    TagsNotAnArray,
    /// An element of `tags` is not a string.
    TagNotAString,
    /// `errors` is not an array.
    ErrorsNotAnArray,
}

/// An error of the storage engine.
#[derive(Debug)]
pub enum AwaError {
    /// A request or a stored fact breaks a rule of the engine.
    Validation(String),
    /// A uniqueness claim is already held.
    UniqueConflict { constraint: Option<String> },
    /// No parked attempt answers to the callback id.
    CallbackNotFound { callback_id: String },
    /// A stored payload cannot be read.
    Serialization(PayloadFault),
    /// Any other failure that the database reported.
    Database { code: Option<String>, message: String },
}

/// `err` is a validation error with exactly the text `text`.
pub open spec fn is_validation(err: AwaError, text: Seq<char>) -> bool {
    err matches AwaError::Validation(m) && m@ == text
}

/// `err` is a uniqueness conflict on the job-uniqueness index.
pub open spec fn is_job_unique_conflict(err: AwaError) -> bool {
    err matches AwaError::UniqueConflict { constraint: Some(c) } && c@ == "idx_awa_jobs_unique"@
}

/// `err` says that no parked attempt answers to `callback_id`.
pub open spec fn is_callback_not_found(err: AwaError, callback_id: Seq<char>) -> bool {
    err matches AwaError::CallbackNotFound { callback_id: c } && c@ == callback_id
}

/// The conflict reported when a job's unique key is held by another job.
pub fn job_unique_conflict() -> (err: AwaError)
    ensures
        is_job_unique_conflict(err),
{
    AwaError::UniqueConflict { constraint: Some("idx_awa_jobs_unique".to_owned()) }
}

/// A validation error with the given text.
pub fn validation(text: &str) -> (err: AwaError)
    ensures
        is_validation(err, text@),
{
    AwaError::Validation(text.to_owned())
}

/// What the database said about a failed statement, as plain values.
pub struct DatabaseFailure {
    /// The SQLSTATE code, when the server sent one.
    pub code: Option<String>,
    /// The constraint that the statement violated, when the server named one.
    pub constraint: Option<String>,
    /// The failure in words.
    pub message: String,
}

/// The failure carries exactly this SQLSTATE code.
pub open spec fn has_code(failure: DatabaseFailure, code: Seq<char>) -> bool {
    failure.code matches Some(c) && c@ == code
}

fn code_is(code: &Option<String>, expected: &str) -> (r: bool)
    ensures
        r == (code matches Some(c) && c@ == expected@),
{
    match code {
        Some(c) => *c == expected.to_owned(),
        None => false,
    }
}

/// The engine error for a database failure: a unique violation (23505) is a
/// conflict that names the violated constraint, anything else is passed on.
pub open spec fn mapped(failure: DatabaseFailure) -> AwaError {
    if has_code(failure, "23505"@) {
        AwaError::UniqueConflict { constraint: failure.constraint }
    } else {
        AwaError::Database { code: failure.code, message: failure.message }
    }
}

/// Maps a database failure to an engine error.
pub fn map_database_error(failure: DatabaseFailure) -> (err: AwaError)
    ensures
        err == mapped(failure),
{
    if code_is(&failure.code, "23505") {
        AwaError::UniqueConflict { constraint: failure.constraint }
    } else {
        AwaError::Database { code: failure.code, message: failure.message }
    }
}

/// Whether a statement failed because a lock could not be had in time (55P03).
pub fn is_lock_contention(failure: &DatabaseFailure) -> (r: bool)
    ensures
        r == has_code(*failure, "55P03"@),
{
    code_is(&failure.code, "55P03")
}

impl AwaError {
    /// The error's text in full.
    pub open spec fn text(self) -> Seq<char> {
        match self {
            AwaError::Validation(m) => m@,
            AwaError::UniqueConflict { constraint: Some(c) } => "unique conflict on "@ + c@,
            AwaError::UniqueConflict { constraint: None } => "unique conflict"@,
            AwaError::CallbackNotFound { callback_id } => "callback not found: "@ + callback_id@,
            AwaError::Serialization(PayloadFault::NotARecord) => "payload is not a record"@,
            AwaError::Serialization(PayloadFault::TooManyFields) => "payload has too many fields"@,
            AwaError::Serialization(PayloadFault::TagsNotAnArray) => "payload tags must be an array"@,
            AwaError::Serialization(PayloadFault::TagNotAString) => "payload tags must be strings"@,
            AwaError::Serialization(PayloadFault::ErrorsNotAnArray) =>
                "payload errors must be an array"@,
            AwaError::Database { code, message } => message@,
        }
    }

    /// The error in words.
    pub fn message(&self) -> (s: String)
        ensures
            s@ == self.text(),
    {
        match self {
            AwaError::Validation(m) => m.clone(),
            AwaError::UniqueConflict { constraint } => match constraint {
                Some(c) => "unique conflict on ".to_owned().concat(c.as_str()),
                None => "unique conflict".to_owned(),
            },
            AwaError::CallbackNotFound { callback_id } => "callback not found: ".to_owned().concat(
                callback_id.as_str(),
            ),
            AwaError::Serialization(fault) => match fault {
                PayloadFault::NotARecord => "payload is not a record".to_owned(),
                PayloadFault::TooManyFields => "payload has too many fields".to_owned(),
                PayloadFault::TagsNotAnArray => "payload tags must be an array".to_owned(),
                PayloadFault::TagNotAString => "payload tags must be strings".to_owned(),
                PayloadFault::ErrorsNotAnArray => "payload errors must be an array".to_owned(),
            },
            AwaError::Database { code, message } => message.clone(),
        }
    }
}

} // verus!
