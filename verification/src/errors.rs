//! Errors the assistant reports, with the stable codes the interface shows.

use vstd::prelude::*;

verus! {

#[derive(Debug, Clone, PartialEq, Eq)]
pub enum ApplicationError {
    Validation(String),
    Storage(String),
    ClientUnavailable(String),
    ClientAccess(String),
    Integration(String),
}

#[derive(Debug, Clone, PartialEq, Eq)]
pub enum LeagueClientReadError {
    ClientUnavailable(String),
    ClientAccess(String),
    Integration(String),
}

#[derive(Debug, Clone, PartialEq, Eq)]
pub enum RankedChampionDataError {
    Unavailable(String),
    InvalidData(String),
}

impl ApplicationError {
    pub open spec fn spec_code(&self) -> Seq<char> {
        match self {
            ApplicationError::Validation(_) => "validation"@,
            ApplicationError::Storage(_) => "storage"@,
            ApplicationError::ClientUnavailable(_) => "clientUnavailable"@,
            ApplicationError::ClientAccess(_) => "clientAccess"@,
            ApplicationError::Integration(_) => "integration"@,
        }
    }

    pub open spec fn spec_message(&self) -> Seq<char> {
        match self {
            ApplicationError::Validation(m) => m@,
            ApplicationError::Storage(m) => m@,
            ApplicationError::ClientUnavailable(m) => m@,
            ApplicationError::ClientAccess(m) => m@,
            ApplicationError::Integration(m) => m@,
        }
    }

    /// The stable code of this error.
    pub fn code(&self) -> (r: &'static str)
        ensures
            r@ == self.spec_code(),
    {
        match self {
            ApplicationError::Validation(_) => "validation",
            ApplicationError::Storage(_) => "storage",
            ApplicationError::ClientUnavailable(_) => "clientUnavailable",
            ApplicationError::ClientAccess(_) => "clientAccess",
            ApplicationError::Integration(_) => "integration",
        }
    }

    /// The message of this error, as its text form shows it.
    pub fn message(&self) -> (r: String)
        ensures
            r@ == self.spec_message(),
    {
        match self {
            ApplicationError::Validation(m) => m.clone(),
            ApplicationError::Storage(m) => m.clone(),
            ApplicationError::ClientUnavailable(m) => m.clone(),
            ApplicationError::ClientAccess(m) => m.clone(),
            ApplicationError::Integration(m) => m.clone(),
        }
    }

    /// The error a failed League Client read becomes: the same kind, the same
    /// message.
    pub open spec fn spec_from_read(error: LeagueClientReadError) -> ApplicationError {
        match error {
            LeagueClientReadError::ClientUnavailable(m) => ApplicationError::ClientUnavailable(m),
            LeagueClientReadError::ClientAccess(m) => ApplicationError::ClientAccess(m),
            LeagueClientReadError::Integration(m) => ApplicationError::Integration(m),
        }
    }

    pub fn from_read_error(error: LeagueClientReadError) -> (r: ApplicationError)
        ensures
            r == ApplicationError::spec_from_read(error),
    {
        match error {
            LeagueClientReadError::ClientUnavailable(m) => ApplicationError::ClientUnavailable(m),
            LeagueClientReadError::ClientAccess(m) => ApplicationError::ClientAccess(m),
            LeagueClientReadError::Integration(m) => ApplicationError::Integration(m),
        }
    }

    /// Whether this is a validation error with exactly the message `m`.
    pub open spec fn is_validation(&self, m: Seq<char>) -> bool {
        self matches ApplicationError::Validation(s) && s@ == m
    }
}

/// Whether `r` failed with a validation error whose message is `m`.
pub open spec fn validation_err<T>(r: Result<T, ApplicationError>, m: Seq<char>) -> bool {
    r matches Err(e) && e.is_validation(m)
}

impl From<LeagueClientReadError> for ApplicationError {
    fn from(error: LeagueClientReadError) -> (r: ApplicationError) {
        ApplicationError::from_read_error(error)
    }
}

impl vstd::std_specs::convert::FromSpecImpl<LeagueClientReadError> for ApplicationError {
    open spec fn obeys_from_spec() -> bool {
        true
    }

    open spec fn from_spec(v: LeagueClientReadError) -> ApplicationError {
        ApplicationError::spec_from_read(v)
    }
}

impl LeagueClientReadError {
    pub open spec fn spec_message(&self) -> Seq<char> {
        match self {
            LeagueClientReadError::ClientUnavailable(m) => m@,
            LeagueClientReadError::ClientAccess(m) => m@,
            LeagueClientReadError::Integration(m) => m@,
        }
    }

    pub fn message(&self) -> (r: String)
        ensures
            r@ == self.spec_message(),
    {
        match self {
            LeagueClientReadError::ClientUnavailable(m) => m.clone(),
            LeagueClientReadError::ClientAccess(m) => m.clone(),
            LeagueClientReadError::Integration(m) => m.clone(),
        }
    }
}

impl RankedChampionDataError {
    pub open spec fn spec_message(&self) -> Seq<char> {
        match self {
            RankedChampionDataError::Unavailable(m) => m@,
            RankedChampionDataError::InvalidData(m) => m@,
        }
    }

    pub fn message(&self) -> (r: String)
        ensures
            r@ == self.spec_message(),
    {
        match self {
            RankedChampionDataError::Unavailable(m) => m.clone(),
            RankedChampionDataError::InvalidData(m) => m.clone(),
        }
    }
}

/// A failed ranked data refresh becomes an integration error with the
/// provider's message.
pub fn ranked_provider_error(error: RankedChampionDataError) -> (r: ApplicationError)
    ensures
        r matches ApplicationError::Integration(m) && m@ == error.spec_message(),
{
    match error {
        RankedChampionDataError::Unavailable(message) => ApplicationError::Integration(message),
        RankedChampionDataError::InvalidData(message) => ApplicationError::Integration(message),
    }
}

} // verus!

verus! {

/// An error as the desktop commands report it: its stable code and its
/// message.
#[derive(Debug, Clone, PartialEq, Eq)]
pub struct CommandError {
    pub code: &'static str,
    pub message: String,
}

impl CommandError {
    pub fn from(error: ApplicationError) -> (r: CommandError)
        ensures
            r.code@ == error.spec_code(),
            r.message@ == error.spec_message(),
    {
        CommandError { code: error.code(), message: error.message() }
    }
}

} // verus!
