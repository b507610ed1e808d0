//! The failures that a fetch or a URL resolution can end in, and their wording.

use crate::text::{decimal, decimal_digits};
use vstd::prelude::*;

verus! {

/// Why a fetch gave up.
#[derive(Debug, Clone, PartialEq, Eq)]
pub enum FetchError {
    /// The request could not be sent; `cause` is the transport's account of the
    /// last attempt.
    Network { attempts: u32, cause: String },
    /// The server answered the last attempt with a status outside 200 to 299.
    Status { code: u16, attempts: u32 },
    /// The last attempt got a successful status, but its body could not be read.
    BodyRead { attempts: u32, cause: String },
    /// No attempt was allowed at all.
    RetriesExhausted { attempts: u32, url: String },
}

/// `FetchError` as a mathematical value.
pub enum FetchErrorView {
    Network { attempts: u32, cause: Seq<char> },
    Status { code: u16, attempts: u32 },
    BodyRead { attempts: u32, cause: Seq<char> },
    RetriesExhausted { attempts: u32, url: Seq<char> },
}

impl View for FetchError {
    type V = FetchErrorView;

    open spec fn view(&self) -> FetchErrorView {
        match *self {
            FetchError::Network { attempts, cause } => FetchErrorView::Network {
                attempts,
                cause: cause@,
            },
            FetchError::Status { code, attempts } => FetchErrorView::Status { code, attempts },
            FetchError::BodyRead { attempts, cause } => FetchErrorView::BodyRead {
                attempts,
                cause: cause@,
            },
            FetchError::RetriesExhausted { attempts, url } => FetchErrorView::RetriesExhausted {
                attempts,
                url: url@,
            },
        }
    }
}

/// The reason phrase that HTTP registers for a status code, if it registers one.
pub uninterp spec fn registered_reason(code: u16) -> Option<Seq<char>>;

/// Looks up the reason phrase of a status code. Trusted: `StatusCode::from_u16`
/// and `StatusCode::canonical_reason`, which reqwest hands on from the `http`
/// crate. The first refuses every number outside 100 to 999; the second reads
/// the phrase from a fixed table, which has none for many codes. The phrase
/// depends on the code alone.
#[verifier::external_body]
fn reason_phrase(code: u16) -> (phrase: Option<String>)
    ensures
        phrase is Some <==> registered_reason(code) is Some,
        phrase is Some ==> phrase->0@ == registered_reason(code)->0,
        !(100 <= code <= 999) ==> phrase is None,
{
    match reqwest::StatusCode::from_u16(code) {
        Ok(status) => status.canonical_reason().map(|reason| reason.to_string()),
        Err(_) => None,
    }
}

/// How a status is written out, given the reason phrase that is registered
/// for it: the number, a space, and the phrase or, for want of one,
/// `<unknown status code>`.
pub open spec fn status_line_with(code: u16, reason: Option<Seq<char>>) -> Seq<char> {
    decimal_digits(code as nat) + " "@ + match reason {
        Some(phrase) => phrase,
        None => "<unknown status code>"@,
    }
}

/// How a status is written out.
pub open spec fn status_line(code: u16) -> Seq<char> {
    status_line_with(code, registered_reason(code))
}

/// Writes a status out, given the reason phrase that is registered for it.
pub fn write_status(code: u16, reason: Option<String>) -> (text: String)
    ensures
        text@ == status_line_with(
            code,
            match reason {
                Some(phrase) => Some(phrase@),
                None => None,
            },
        ),
{
    let mut text = decimal(code as u64);
    text.append(" ");
    match reason {
        Some(phrase) => {
            text.append(phrase.as_str());
        },
        None => {
            text.append("<unknown status code>");
        },
    }
    text
}

/// Writes a status out as `status_line` has it.
pub fn status_text(code: u16) -> (text: String)
    ensures
        text@ == status_line(code),
{
    write_status(code, reason_phrase(code))
}

impl FetchErrorView {
    /// How many attempts had been made when the fetch gave up.
    pub open spec fn attempts(self) -> u32 {
        match self {
            FetchErrorView::Network { attempts, .. } => attempts,
            FetchErrorView::Status { attempts, .. } => attempts,
            FetchErrorView::BodyRead { attempts, .. } => attempts,
            FetchErrorView::RetriesExhausted { attempts, .. } => attempts,
        }
    }

    /// The sentence that reports this failure.
    pub open spec fn message(self) -> Seq<char> {
        match self {
            FetchErrorView::Network { attempts, cause } => "Network error after "@
                + decimal_digits(attempts as nat) + " attempts: "@ + cause,
            FetchErrorView::Status { code, attempts } => "Server returned non-success status "@
                + status_line(code) + " after "@ + decimal_digits(attempts as nat) + " attempts"@,
            FetchErrorView::BodyRead { attempts, cause } =>
                "Failed to read response body after "@ + decimal_digits(attempts as nat)
                    + " attempts: "@ + cause,
            FetchErrorView::RetriesExhausted { attempts, url } => "Exhausted all retries ("@
                + decimal_digits(attempts as nat) + " attempts) for URL: "@ + url,
        }
    }
}

impl FetchError {
    /// How many attempts had been made when the fetch gave up.
    pub fn attempts(&self) -> (n: u32)
        ensures
            n == self@.attempts(),
    {
        match self {
            FetchError::Network { attempts, .. } => *attempts,
            FetchError::Status { attempts, .. } => *attempts,
            FetchError::BodyRead { attempts, .. } => *attempts,
            FetchError::RetriesExhausted { attempts, .. } => *attempts,
        }
    }

    /// The sentence that reports this failure.
    pub fn message(&self) -> (text: String)
        ensures
            text@ == self@.message(),
    {
        match self {
            FetchError::Network { attempts, cause } => {
                let mut text = "Network error after ".to_string();
                text.append(decimal(*attempts as u64).as_str());
                text.append(" attempts: ");
                text.append(cause.as_str());
                text
            },
            FetchError::Status { code, attempts } => {
                let mut text = "Server returned non-success status ".to_string();
                text.append(status_text(*code).as_str());
                text.append(" after ");
                text.append(decimal(*attempts as u64).as_str());
                text.append(" attempts");
                text
            },
            FetchError::BodyRead { attempts, cause } => {
                let mut text = "Failed to read response body after ".to_string();
                text.append(decimal(*attempts as u64).as_str());
                text.append(" attempts: ");
                text.append(cause.as_str());
                text
            },
            FetchError::RetriesExhausted { attempts, url } => {
                let mut text = "Exhausted all retries (".to_string();
                text.append(decimal(*attempts as u64).as_str());
                text.append(" attempts) for URL: ");
                text.append(url.as_str());
                text
            },
        }
    }
}

} // verus!
