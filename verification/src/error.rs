//! The failure kinds that a request can end in.

use crate::filter::FilterError;
use crate::timestamp::DateParseError;
use vstd::prelude::*;

verus! {

/// What can go wrong while a feed is fetched, normalised and filtered.
#[derive(Debug)]
pub enum Error {
    /// The feed could not be fetched.
    UpstreamFailure,
    /// The feed refused the credentials it was asked with.
    AuthenticationFailure,
    /// The feed holds data that cannot be interpreted.
    Inconsistency,
    /// The caller's parameters are malformed; the text says how.
    BadRequest(String),
}

/// The mathematical content of an [`Error`].
pub enum ErrorModel {
    UpstreamFailure,
    AuthenticationFailure,
    Inconsistency,
    BadRequest(Seq<char>),
}

impl View for Error {
    type V = ErrorModel;

    open spec fn view(&self) -> ErrorModel {
        match self {
            Error::UpstreamFailure => ErrorModel::UpstreamFailure,
            Error::AuthenticationFailure => ErrorModel::AuthenticationFailure,
            Error::Inconsistency => ErrorModel::Inconsistency,
            Error::BadRequest(text) => ErrorModel::BadRequest(text@),
        }
    }
}

impl ErrorModel {
    /// The HTTP status that answers a request which ends in this error: 503
    /// where the feed could not be fetched, 400 where the caller is at
    /// fault, 500 for the rest.
    pub open spec fn status(self) -> u16 {
        match self {
            ErrorModel::UpstreamFailure => 503,
            ErrorModel::AuthenticationFailure => 500,
            ErrorModel::Inconsistency => 500,
            ErrorModel::BadRequest(_) => 400,
        }
    }
}

/// A timestamp that does not normalise makes the feed inconsistent.
impl From<DateParseError> for Error {
    fn from(error: DateParseError) -> (failure: Error) {
        Error::Inconsistency
    }
}

impl vstd::std_specs::convert::FromSpecImpl<DateParseError> for Error {
    open spec fn obeys_from_spec() -> bool {
        true
    }

    open spec fn from_spec(error: DateParseError) -> Error {
        Error::Inconsistency
    }
}

/// A rejected filter is the caller's fault. The request is answered with
/// the whole of the rejection: its kind, its text and its diagnostic.
impl From<FilterError> for Error {
    fn from(error: FilterError) -> (failure: Error)
        ensures
            failure@ == ErrorModel::BadRequest(error@.message()),
    {
        Error::BadRequest(error.message())
    }
}

/// The conversion is stated by content: it gives a bad request whose text
/// is the rejection's message. Which of the equal texts it gives is open.
impl vstd::std_specs::convert::FromSpecImpl<FilterError> for Error {
    open spec fn obeys_from_spec() -> bool {
        false
    }

    open spec fn from_spec(error: FilterError) -> Error {
        choose|failure: Error| failure@ == ErrorModel::BadRequest(error@.message())
    }
}

impl Error {
    /// The HTTP status that answers a request which ends in this error.
    pub fn status_code(&self) -> (code: u16)
        ensures
            code == self@.status(),
    {
        match self {
            Error::UpstreamFailure => 503,
            Error::AuthenticationFailure => 500,
            Error::Inconsistency => 500,
            Error::BadRequest(_) => 400,
        }
    }

    /// The same error once more.
    pub fn duplicate(&self) -> (copy: Error)
        ensures
            copy@ == self@,
    {
        match self {
            Error::UpstreamFailure => Error::UpstreamFailure,
            Error::AuthenticationFailure => Error::AuthenticationFailure,
            Error::Inconsistency => Error::Inconsistency,
            Error::BadRequest(text) => Error::BadRequest(text.clone()),
        }
    }
}

} // verus!
