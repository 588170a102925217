use vstd::prelude::*;

verus! {

/// Failure reported by a command runner: carries the message that describes
/// why the invocation failed (spawn failure, non-zero exit, transport error).
#[derive(Debug)]
pub struct ExecFailure {
    pub message: String,
}

/// Everything that can abort a backup cycle. Each fatal condition has its own
/// variant so a failure can be attributed to a named step.
#[derive(Debug)]
pub enum SyncError {
    /// The underlying command invocation failed.
    ExecError(ExecFailure),
    /// A directory-listing line could not be split into a timestamp token.
    SplitError,
    /// A delete was requested for a forbidden path; the delete was not issued.
    PathDeletionError(String),
    /// A configured path could not be represented as a command argument.
    PathConversionError(String),
    /// A listing entry's timestamp prefix failed to parse.
    TimestampParseError,
    /// Summing a retention window's components overflowed.
    DurationConversionError,
}

/// The human-readable description `SyncError::message` returns.
pub open spec fn message_of(e: &SyncError) -> Seq<char> {
    match e {
        SyncError::ExecError(f) => f.message@,
        SyncError::SplitError => "split error"@,
        SyncError::PathDeletionError(p) => "path deletion error ("@ + p@ + ")"@,
        SyncError::PathConversionError(p) => "error converting path to string ("@ + p@ + ")"@,
        SyncError::TimestampParseError => "timestamp parse error"@,
        SyncError::DurationConversionError => "duration conversion error"@,
    }
}

impl SyncError {
    /// A description of the failure, with the offending path where one exists.
    pub fn message(&self) -> (r: String)
        ensures
            r@ == message_of(self),
    {
        match self {
            SyncError::ExecError(f) => String::from_str(f.message.as_str()),
            SyncError::SplitError => String::from_str("split error"),
            SyncError::PathDeletionError(p) => {
                let mut s = String::from_str("path deletion error (");
                s.append(p.as_str());
                s.append(")");
                s
            },
            SyncError::PathConversionError(p) => {
                let mut s = String::from_str("error converting path to string (");
                s.append(p.as_str());
                s.append(")");
                s
            },
            SyncError::TimestampParseError => String::from_str("timestamp parse error"),
            SyncError::DurationConversionError => String::from_str("duration conversion error"),
        }
    }
}

} // verus!
