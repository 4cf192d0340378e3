//! The session: one backend, the `Unloaded` / `Loaded` state machine, and
//! the textual response to each command.
use vstd::prelude::*;
use vstd::string::StringExecFns;

use crate::command::Command;
use crate::error::Error;
use crate::protocol::{ok_text, Protocol};
use crate::{answer_view, QueryDriver};

verus! {

/// The text `ERR`.
pub open spec fn err_text() -> Seq<char> {
    seq!['E', 'R', 'R']
}

/// The line that the transcript shows for a response.
pub open spec fn rendered(r: Result<Seq<char>, Error>) -> Seq<char> {
    match r {
        Ok(s) => s,
        Err(_) => err_text(),
    }
}

/// Whether `r` is what session `db` answers to a lookup of `address`,
/// moving to `next`.
pub open spec fn lookup_answers<D: QueryDriver>(
    db: Database<D>,
    address: u32,
    r: Result<Seq<char>, Error>,
    next: Database<D>,
) -> bool {
    match db.driver_of() {
        None => r == Err::<Seq<char>, Error>(Error::UnloadedDatabaseError) && next == db,
        Some(d) => (next.driver_of() matches Some(n) && next == db.with_driver(n)
            && next.path_view() == db.path_view() && d.answers(address, r, n)),
    }
}

/// Whether `r` is what session `db` answers to `cmd`, moving to `next`;
/// `opened` is the outcome of opening the dataset for a `Load`.
pub open spec fn responds<D: QueryDriver>(
    db: Database<D>,
    cmd: Command,
    opened: Option<Result<D, Error>>,
    r: Result<Seq<char>, Error>,
    next: Database<D>,
) -> bool {
    match cmd {
        Command::Load => match opened {
            Some(Ok(d)) => next == db.with_driver(d) && next.driver_of() == Some(d)
                && next.path_view() == db.path_view() && r == Ok::<Seq<char>, Error>(ok_text()),
            Some(Err(e)) => next == db && r == Err::<Seq<char>, Error>(e),
            None => false,
        },
        Command::Exit => next == db && r == Ok::<Seq<char>, Error>(ok_text()),
        Command::Lookup(a) => lookup_answers(db, a, r, next),
    }
}

/// A session over a dataset: `Unloaded` until a backend is installed by
/// `Load`, then `Loaded`.
pub struct Database<D> {
    /// Where the dataset lives.
    path: String,
    /// The backend, once a dataset was loaded.
    driver: Option<D>,
}

impl<D: QueryDriver> Database<D> {
    /// The path of the dataset.
    pub closed spec fn path_view(&self) -> Seq<char> {
        self.path@
    }

    /// A session's backend is always ready to answer.
    pub open spec fn wf(&self) -> bool {
        self.driver_of() matches Some(d) ==> d.ready()
    }

    /// A new session over the dataset at `path`, in state `Unloaded`.
    pub fn new(path: String) -> (r: Self)
        ensures
            r.path_view() == path@,
            r.driver_of() is None,
            r.wf(),
    {
        Database { path, driver: None }
    }

    /// The path of the dataset.
    pub fn path(&self) -> (r: &String)
        ensures
            r@ == self.path_view(),
    {
        &self.path
    }

    /// Whether a dataset is loaded.
    pub fn is_loaded(&self) -> (r: bool)
        ensures
            r == self.driver_of() is Some,
    {
        self.driver.is_some()
    }

    /// Answers one command. For a `Load`, `opened` is the outcome of
    /// opening the dataset: a backend, which replaces any earlier one, or
    /// the error of the attempt, which is passed on with the state kept.
    pub fn respond(&mut self, cmd: &Command, opened: Option<Result<D, Error>>) -> (r: Result<
        String,
        Error,
    >)
        requires
            old(self).wf(),
            opened matches Some(Ok(d)) ==> d.ready(),
            *cmd is Load ==> opened is Some,
        ensures
            final(self).wf(),
            final(self).path_view() == old(self).path_view(),
            responds(*old(self), *cmd, opened, answer_view(r), *final(self)),
    {
        proof {
            reveal_strlit("OK");
        }
        assert("OK"@ =~= ok_text());
        match *cmd {
            Command::Load => match opened {
                Some(Ok(d)) => {
                    let _ = self.load(d);
                    proof {
                        lemma_with_driver(*old(self), d);
                    }
                    Ok(String::from_str("OK"))
                },
                Some(Err(e)) => Err(e),
                // excluded by the precondition: a `Load` always comes with an outcome
                None => Err(Error::UnloadedDatabaseError),
            },
            Command::Exit => Ok(String::from_str(self.exit())),
            Command::Lookup(a) => self.lookup(a),
        }
    }

    /// Answers one command with the line that the transcript shows, and
    /// whether the session ends after it.
    pub fn reply(&mut self, cmd: &Command, opened: Option<Result<D, Error>>) -> (r: (String, bool))
        requires
            old(self).wf(),
            opened matches Some(Ok(d)) ==> d.ready(),
            *cmd is Load ==> opened is Some,
        ensures
            final(self).wf(),
            exists|a: Result<Seq<char>, Error>|
                #[trigger] responds(*old(self), *cmd, opened, a, *final(self)) && r.0@ == rendered(a),
            r.1 == (*cmd is Exit),
    {
        let resp = self.respond(cmd, opened);
        let text = render(&resp);
        assert(responds(*old(self), *cmd, opened, answer_view(resp), *self));
        (text, cmd.is_exit())
    }
}

/// The line that the transcript shows for a response: the payload, `OK`,
/// or `ERR` for any failure.
pub fn render(r: &Result<String, Error>) -> (s: String)
    ensures
        s@ == rendered(answer_view(*r)),
{
    proof {
        reveal_strlit("ERR");
    }
    match r {
        Ok(s) => s.clone(),
        Err(_) => {
            assert("ERR"@ =~= err_text());
            String::from_str("ERR")
        },
    }
}

impl<D: QueryDriver> Protocol<D> for Database<D> {
    closed spec fn driver_of(&self) -> Option<D> {
        self.driver
    }

    closed spec fn with_driver(&self, driver: D) -> Self {
        Database { path: self.path, driver: Some(driver) }
    }

    fn load(&mut self, driver: D) -> (r: Result<&'static str, Error>) {
        self.driver = Some(driver);
        proof {
            reveal_strlit("OK");
        }
        assert("OK"@ =~= ok_text());
        Ok("OK")
    }

    fn exit(&self) -> (r: &'static str) {
        proof {
            reveal_strlit("OK");
        }
        assert("OK"@ =~= ok_text());
        "OK"
    }

    fn lookup(&mut self, address: u32) -> (r: Result<String, Error>) {
        match self.driver.as_mut() {
            None => Err(Error::UnloadedDatabaseError),
            Some(d) => d.find_ip(address),
        }
    }
}

/// Installing a backend makes the session `Loaded` with exactly that
/// backend, and keeps the dataset's path.
pub broadcast proof fn lemma_with_driver<D: QueryDriver>(db: Database<D>, driver: D)
    ensures
        #[trigger] db.with_driver(driver).driver_of() == Some(driver),
        db.with_driver(driver).path_view() == db.path_view(),
{
}

/// A session that has not loaded a dataset, as [`Database::new`] makes
/// it, refuses a lookup of every address with `UnloadedDatabaseError`, and
/// is still unloaded afterwards.
pub proof fn lemma_fresh_session_refuses_lookup<D: QueryDriver>(
    db: Database<D>,
    address: u32,
    r: Result<Seq<char>, Error>,
    next: Database<D>,
)
    requires
        db.driver_of() is None,
        lookup_answers(db, address, r, next),
    ensures
        r == Err::<Seq<char>, Error>(Error::UnloadedDatabaseError),
        next.driver_of() is None,
{
}

/// `Load` issued twice with the same backend leaves the session as one
/// `Load` does, `Loaded` with that backend, and answers `OK` both times.
pub proof fn lemma_load_twice_same_as_once<D: QueryDriver>(
    db: Database<D>,
    driver: D,
    r1: Result<Seq<char>, Error>,
    once: Database<D>,
    r2: Result<Seq<char>, Error>,
    twice: Database<D>,
)
    requires
        responds(db, Command::Load, Some(Ok::<D, Error>(driver)), r1, once),
        responds(once, Command::Load, Some(Ok::<D, Error>(driver)), r2, twice),
    ensures
        twice == once,
        twice.driver_of() == Some(driver),
        r1 == r2,
        r1 == Ok::<Seq<char>, Error>(ok_text()),
{
}

/// `Exit` answers `OK` in every state and changes nothing, however often
/// it is issued.
pub proof fn lemma_exit_idempotent<D: QueryDriver>(
    db: Database<D>,
    f1: Option<Result<D, Error>>,
    r1: Result<Seq<char>, Error>,
    mid: Database<D>,
    f2: Option<Result<D, Error>>,
    r2: Result<Seq<char>, Error>,
    last: Database<D>,
)
    requires
        responds(db, Command::Exit, f1, r1, mid),
        responds(mid, Command::Exit, f2, r2, last),
    ensures
        mid == db,
        last == db,
        r1 == Ok::<Seq<char>, Error>(ok_text()),
        r2 == r1,
{
}

} // verus!
