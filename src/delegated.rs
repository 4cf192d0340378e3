//! Decoding of the answers of an outside store that resolves range
//! containment itself.
//!
//! The query (`address BETWEEN start AND end`) runs outside the library;
//! its outcome comes back as the raw bytes of the `country_code` and
//! `city` columns of its first row, no row, or the message of a transport
//! or driver failure.
use vstd::prelude::*;
use vstd::utf8::{decode_utf8, valid_utf8};

use crate::error::Error;
use crate::record::{join_payload, joined};

verus! {

/// Relies on `std::str::from_utf8`: it succeeds exactly on valid UTF-8,
/// and then holds the decoded characters.
#[verifier::external_body]
fn utf8_text(b: &[u8]) -> (r: Option<String>)
    ensures
        r is Some <==> valid_utf8(b@),
        r matches Some(s) ==> s@ == decode_utf8(b@),
{
    match std::str::from_utf8(b) {
        Ok(s) => Some(s.to_string()),
        Err(_) => None,
    }
}

/// What the store's answer means: the row's two columns joined by a comma;
/// `ParseError` if either is not UTF-8; `LookupError` when no row came back;
/// a failure of the store, passed on as a `BackendError` with its message.
pub open spec fn query_answer(outcome: Result<Option<(Seq<u8>, Seq<u8>)>, String>) -> Result<
    Seq<char>,
    Error,
> {
    match outcome {
        Err(m) => Err(Error::BackendError(m)),
        Ok(None) => Err(Error::LookupError),
        Ok(Some((country, city))) => if valid_utf8(country) && valid_utf8(city) {
            Ok(joined(decode_utf8(country), decode_utf8(city)))
        } else {
            Err(Error::ParseError)
        },
    }
}

/// The outcome of a query with its columns as byte sequences.
pub open spec fn outcome_view(outcome: Result<Option<(Vec<u8>, Vec<u8>)>, String>) -> Result<
    Option<(Seq<u8>, Seq<u8>)>,
    String,
> {
    match outcome {
        Err(m) => Err(m),
        Ok(None) => Ok(None),
        Ok(Some((a, b))) => Ok(Some((a@, b@))),
    }
}

/// Turns the outcome of the store's query into an answer.
pub fn answer_of_row(outcome: Result<Option<(Vec<u8>, Vec<u8>)>, String>) -> (r: Result<
    String,
    Error,
>)
    ensures
        crate::answer_view(r) == query_answer(outcome_view(outcome)),
{
    match outcome {
        Err(m) => Err(Error::BackendError(m)),
        Ok(None) => Err(Error::LookupError),
        Ok(Some((country, city))) => {
            let c = match utf8_text(country.as_slice()) {
                Some(s) => s,
                None => return Err(Error::ParseError),
            };
            let t = match utf8_text(city.as_slice()) {
                Some(s) => s,
                None => return Err(Error::ParseError),
            };
            Ok(join_payload(c.as_str(), t.as_str()))
        },
    }
}

} // verus!
