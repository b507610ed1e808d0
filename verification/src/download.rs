//! Fetching a file: one attempt, no retry.

use crate::error::{FetchError, FetchErrorView};
use vstd::prelude::*;

verus! {

/// What a download comes to, given what its single attempt met.
pub open spec fn downloaded(received: Result<Seq<u8>, Seq<char>>) -> Result<
    Seq<u8>,
    FetchErrorView,
> {
    match received {
        Ok(bytes) => Ok(bytes),
        Err(cause) => Err(FetchErrorView::Network { attempts: 1, cause }),
    }
}

/// The mathematical value of what the transport handed over.
pub open spec fn received_view(received: Result<Vec<u8>, String>) -> Result<Seq<u8>, Seq<char>> {
    match received {
        Ok(bytes) => Ok(bytes@),
        Err(cause) => Err(cause@),
    }
}

/// The mathematical value of what a download gave.
pub open spec fn download_view(result: Result<Vec<u8>, FetchError>) -> Result<
    Seq<u8>,
    FetchErrorView,
> {
    match result {
        Ok(bytes) => Ok(bytes@),
        Err(error) => Err(error@),
    }
}

/// Settles a download from what its single attempt met: the bytes of the body
/// as they came, whatever the status, or the transport's failure as a network
/// failure after one attempt. A download is never tried again.
pub fn download_url(received: Result<Vec<u8>, String>) -> (result: Result<Vec<u8>, FetchError>)
    ensures
        download_view(result) == downloaded(received_view(received)),
{
    match received {
        Ok(bytes) => Ok(bytes),
        Err(cause) => Err(FetchError::Network { attempts: 1, cause }),
    }
}

} // verus!
