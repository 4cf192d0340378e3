//! The session protocol: what each command does to a session.
use vstd::prelude::*;

use crate::error::Error;
use crate::{answer_view, QueryDriver};

verus! {

/// The text `OK`.
pub open spec fn ok_text() -> Seq<char> {
    seq!['O', 'K']
}

/// The operations of a session that holds a backend of type `D`.
pub trait Protocol<D: QueryDriver>: Sized {
    /// The backend that the session holds, if a dataset was loaded.
    spec fn driver_of(&self) -> Option<D>;

    /// The session with `driver` installed and nothing else changed.
    spec fn with_driver(&self, driver: D) -> Self;

    /// Installs a freshly loaded backend, replacing any earlier one.
    fn load(&mut self, driver: D) -> (r: Result<&'static str, Error>)
        ensures
            *final(self) == old(self).with_driver(driver),
            final(self).driver_of() == Some(driver),
            r matches Ok(s) && s@ == ok_text(),
    ;

    /// Acknowledges the end of the session.
    fn exit(&self) -> (r: &'static str)
        ensures
            r@ == ok_text(),
    ;

    /// Looks up an address in the loaded dataset.
    fn lookup(&mut self, address: u32) -> (r: Result<String, Error>)
        requires
            old(self).driver_of() matches Some(d) ==> d.ready(),
        ensures
            match old(self).driver_of() {
                None => r == Err::<String, Error>(Error::UnloadedDatabaseError) && *final(self)
                    == *old(self),
                Some(d) => (final(self).driver_of() matches Some(n) && n.ready() && *final(self)
                    == old(self).with_driver(n) && d.answers(address, answer_view(r), n)),
            },
    ;
}

} // verus!
