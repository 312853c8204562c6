use vstd::prelude::*;

verus! {

/// Why an operation was refused. A refused operation has no effect.
#[derive(Clone, Copy, Debug, PartialEq, Eq, Structural)]
pub enum QuizError {
    /// A required signature is missing, or the caller is not the session's host.
    Unauthorized,
    /// A supplied record address is not the one derived for that record.
    AddressMismatch,
    /// The session is in the wrong phase for the operation.
    InvalidState,
    /// The instruction or its account list cannot be read as asked:
    /// unknown discriminator, undecodable payload, wrong answer count,
    /// too few accounts.
    MalformedInput,
    /// A record could not be read from, or does not fit into, its account.
    StoreFailure,
}

impl QuizError {
    /// A short description of the failure.
    pub fn message(&self) -> (s: &'static str)
        ensures
            s@ == match *self {
                QuizError::Unauthorized => "unauthorized"@,
                QuizError::AddressMismatch => "address mismatch"@,
                QuizError::InvalidState => "invalid state"@,
                QuizError::MalformedInput => "malformed input"@,
                QuizError::StoreFailure => "store failure"@,
            },
    {
        match self {
            QuizError::Unauthorized => "unauthorized",
            QuizError::AddressMismatch => "address mismatch",
            QuizError::InvalidState => "invalid state",
            QuizError::MalformedInput => "malformed input",
            QuizError::StoreFailure => "store failure",
        }
    }
}

} // verus!
