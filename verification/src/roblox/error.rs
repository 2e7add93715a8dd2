//! What can go wrong with a request.

use crate::text::cat2;
use vstd::prelude::*;

verus! {

#[derive(Debug)]
pub enum Error {
    /// The request never got an answer.
    Http(String),
    /// The answer could not be decoded.
    Decode(String),
    /// The cookie is no longer valid. This is a state, not an incident: the user
    /// is asked to sign in again.
    Expired,
    RateLimited,
    /// The service wants a captcha solved before it accepts this write. The
    /// action has to be completed in a browser.
    Challenge(String),
    /// The service said no, and this is why.
    Api(String),
}

pub type Result<T> = std::result::Result<T, Error>;

impl Error {
    /// The words shown for this error.
    pub open spec fn words(&self) -> Seq<char> {
        match self {
            Error::Http(e) => "network: "@ + e@,
            Error::Decode(e) => "decode: "@ + e@,
            Error::Expired => "session expired"@,
            Error::RateLimited => "rate limited"@,
            Error::Challenge(e) => e@,
            Error::Api(e) => "roblox: "@ + e@,
        }
    }

    /// The words shown for this error.
    pub fn message(&self) -> (s: String)
        ensures
            s@ == self.words(),
    {
        match self {
            Error::Http(e) => cat2("network: ", e.as_str()),
            Error::Decode(e) => cat2("decode: ", e.as_str()),
            Error::Expired => "session expired".to_owned(),
            Error::RateLimited => "rate limited".to_owned(),
            Error::Challenge(e) => e.clone(),
            Error::Api(e) => cat2("roblox: ", e.as_str()),
        }
    }
}

/// What is shown for each error: where it came from and why.
pub proof fn law_error_words(e: Error)
    ensures
        match e {
            Error::Http(t) => e.words() == "network: "@ + t@,
            Error::Decode(t) => e.words() == "decode: "@ + t@,
            Error::Expired => e.words() == "session expired"@,
            Error::RateLimited => e.words() == "rate limited"@,
            Error::Challenge(t) => e.words() == t@,
            Error::Api(t) => e.words() == "roblox: "@ + t@,
        },
{
}

} // verus!
