//! The resilient fetch layer of a book-metadata scraper, verified with Verus.
//!
//! - `fetch`: a page fetch with bounded retries and a fixed delay, as a machine
//!   that decides while its driver does the network's work.
//! - `replay`: what such a fetch comes to against a given row of replies, and
//!   the laws that hold of it.
//! - `bypass`: the choice between the page itself and the anti-bot helper.
//! - `download`: the single-attempt download of a file.
//! - `resolve`: making the links found on a page absolute.
//! - `config`: the settings, and how they are read from the environment.
//! - `error`: the failures of a fetch and their wording.
//! - `text`: the string helpers that the others rest on.

pub mod bypass;
pub mod config;
pub mod download;
pub mod error;
pub mod fetch;
pub mod replay;
pub mod resolve;
pub mod text;
