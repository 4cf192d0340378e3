//! # Geoloc
//!
//! Resolves IPv4 addresses to geographic records through a small
//! line-oriented command protocol. A [`database::Database`] session owns one
//! lookup backend, a [`QueryDriver`]: an in-memory table
//! ([`cached::CachedTable`]), a resumable scan over the dataset's rows
//! ([`streaming::StreamingScan`]), or a query to an outside store whose
//! rows are decoded by [`delegated`].
use vstd::prelude::*;

pub mod cached;
pub mod command;
pub mod database;
pub mod delegated;
pub mod error;
pub mod protocol;
pub mod record;
pub mod streaming;
pub mod text;

pub use self::error::Error;

verus! {

/// An answer of a backend as a mathematical value.
pub open spec fn answer_view(r: Result<String, Error>) -> Result<Seq<char>, Error> {
    match r {
        Ok(s) => Ok(s@),
        Err(e) => Err(e),
    }
}

/// A lookup backend: resolves an address to its `country_code,city`.
pub trait QueryDriver: Sized {
    /// Whether the backend is ready to answer. By default, always.
    open spec fn ready(&self) -> bool {
        true
    }

    /// Whether `r` is what the backend answers to `address`, moving to
    /// `next`. By default any answer: a backend that asks an outside store
    /// can promise nothing more of it.
    open spec fn answers(&self, address: u32, r: Result<Seq<char>, Error>, next: Self) -> bool {
        true
    }

    /// Finds the record of an address.
    fn find_ip(&mut self, address: u32) -> (r: Result<String, Error>)
        requires
            old(self).ready(),
        ensures
            final(self).ready(),
            old(self).answers(address, answer_view(r), *final(self)),
    ;
}

} // verus!
