//! Why a request failed.

use vstd::prelude::*;

verus! {

/// A failed request.
#[derive(Debug)]
pub enum ObscuraNetError {
    /// The response may not be shared with the page that asked for it.
    Cors(String),
    /// The transport failed, or the server answered nonsense.
    Network(String),
    /// The interceptor refused the request for this URL.
    Blocked(String),
    /// The chain of redirects that started at this URL is too long.
    TooManyRedirects(String),
    /// The body of this URL exceeds the limit set for it.
    ResponseTooLarge { url: String, limit: usize },
    /// A check of the surrounding network stack refused the request.
    Policy(String),
}

/// An error by its texts.
pub enum ErrorModel {
    Cors(Seq<char>),
    Network(Seq<char>),
    Blocked(Seq<char>),
    TooManyRedirects(Seq<char>),
    ResponseTooLarge { url: Seq<char>, limit: nat },
    Policy(Seq<char>),
}

impl View for ObscuraNetError {
    type V = ErrorModel;

    open spec fn view(&self) -> ErrorModel {
        match *self {
            ObscuraNetError::Cors(s) => ErrorModel::Cors(s@),
            ObscuraNetError::Network(s) => ErrorModel::Network(s@),
            ObscuraNetError::Blocked(s) => ErrorModel::Blocked(s@),
            ObscuraNetError::TooManyRedirects(s) => ErrorModel::TooManyRedirects(s@),
            ObscuraNetError::ResponseTooLarge { url, limit } => ErrorModel::ResponseTooLarge {
                url: url@,
                limit: limit as nat,
            },
            ObscuraNetError::Policy(s) => ErrorModel::Policy(s@),
        }
    }
}

/// The outcome of a check by its texts.
pub open spec fn check_model(check: Result<(), ObscuraNetError>) -> Result<(), ErrorModel> {
    match check {
        Ok(_) => Ok(()),
        Err(e) => Err(e@),
    }
}

} // verus!
