//! Commands of the session protocol and their parser.
//!
//! A line is `LOAD`, `EXIT`, or `LOOKUP` followed by a dotted-quad IPv4
//! address; anything else is refused.
use vstd::prelude::*;
use vstd::string::StrSliceExecFns;

use crate::error::Error;
use crate::text::{
    decimal_value, is_decimal, lemma_decimal_value_nonneg, lemma_first_piece_prefix,
    lemma_last_piece_suffix, lemma_trim_leading_space, lemma_trim_unchanged, parse_u32, same_text,
    split_fields, split_on, starts_with, strings_view, trim_spaces, trimmed,
};

verus! {

/// A command of the session protocol.
#[non_exhaustive]
#[derive(Debug, Clone, Copy, PartialEq, Eq, Structural)]
pub enum Command {
    /// Load the dataset.
    Load,
    /// Look up an address, in its big-endian numeric form.
    Lookup(u32),
    /// End the session.
    Exit,
}

/// One decimal octet as the IPv4 grammar writes it: one to three
/// digits, no leading zero, at most 255.
pub open spec fn is_octet(s: Seq<char>) -> bool {
    &&& 1 <= s.len() <= 3
    &&& is_decimal(s)
    &&& s.len() > 1 ==> s[0] != '0'
    &&& decimal_value(s) <= 255
}

/// The numeric value of a dotted-quad address `a.b.c.d`, if `s` is one.
pub open spec fn dotted_quad(s: Seq<char>) -> Option<u32> {
    let p = split_on(s, '.');
    if p.len() == 4 && is_octet(p[0]) && is_octet(p[1]) && is_octet(p[2]) && is_octet(p[3]) {
        Some(
            (decimal_value(p[0]) * 16777216 + decimal_value(p[1]) * 65536 + decimal_value(p[2])
                * 256 + decimal_value(p[3])) as u32,
        )
    } else {
        None
    }
}

/// The text `LOAD`.
pub open spec fn load_word() -> Seq<char> {
    seq!['L', 'O', 'A', 'D']
}

/// The text `EXIT`.
pub open spec fn exit_word() -> Seq<char> {
    seq!['E', 'X', 'I', 'T']
}

/// The text `LOOKUP`.
pub open spec fn lookup_word() -> Seq<char> {
    seq!['L', 'O', 'O', 'K', 'U', 'P']
}

/// What a line of input means as a command.
pub open spec fn parse_command(s: Seq<char>) -> Result<Command, Error> {
    if s == load_word() {
        Ok(Command::Load)
    } else if s == exit_word() {
        Ok(Command::Exit)
    } else if s.len() >= 6 && s.subrange(0, 6) == lookup_word() {
        match dotted_quad(trimmed(s.subrange(6, s.len() as int))) {
            Some(a) => Ok(Command::Lookup(a)),
            None => Err(Error::UnsupportedCommand),
        }
    } else {
        Err(Error::UnsupportedCommand)
    }
}

/// Reads one octet of a dotted quad.
fn parse_octet(f: &str) -> (r: Option<u32>)
    ensures
        r is Some <==> is_octet(f@),
        r is Some ==> r->0 == decimal_value(f@) && r->0 <= 255,
{
    let n = f.unicode_len();
    if n < 1 || n > 3 {
        return None;
    }
    if n > 1 && f.get_char(0) == '0' {
        return None;
    }
    match parse_u32(f) {
        Some(v) => {
            proof {
                lemma_decimal_value_nonneg(f@);
            }
            if v <= 255 {
                Some(v)
            } else {
                None
            }
        },
        None => None,
    }
}

/// Reads a dotted-quad IPv4 address.
pub fn parse_dotted_quad(s: &str) -> (r: Option<u32>)
    ensures
        r == dotted_quad(s@),
{
    let parts = split_fields(s, '.', false);
    assert(strings_view(parts@) == split_on(s@, '.'));
    if parts.len() != 4 {
        return None;
    }
    assert(parts[0]@ == split_on(s@, '.')[0]);
    assert(parts[1]@ == split_on(s@, '.')[1]);
    assert(parts[2]@ == split_on(s@, '.')[2]);
    assert(parts[3]@ == split_on(s@, '.')[3]);
    let a = match parse_octet(parts[0].as_str()) {
        Some(v) => v,
        None => return None,
    };
    let b = match parse_octet(parts[1].as_str()) {
        Some(v) => v,
        None => return None,
    };
    let c = match parse_octet(parts[2].as_str()) {
        Some(v) => v,
        None => return None,
    };
    let d = match parse_octet(parts[3].as_str()) {
        Some(v) => v,
        None => return None,
    };
    assert(a * 16777216 + b * 65536 + c * 256 + d <= u32::MAX) by (nonlinear_arith)
        requires
            a <= 255,
            b <= 255,
            c <= 255,
            d <= 255,
    ;
    Some(a * 16777216 + b * 65536 + c * 256 + d)
}

impl Command {
    /// Parses one line of input.
    pub fn parse(s: &str) -> (r: Result<Command, Error>)
        ensures
            r == parse_command(s@),
    {
        proof {
            reveal_strlit("LOAD");
            reveal_strlit("EXIT");
            reveal_strlit("LOOKUP");
        }
        if same_text(s, "LOAD") {
            assert("LOAD"@ =~= load_word());
            return Ok(Command::Load);
        }
        assert(s@ != load_word()) by {
            assert("LOAD"@ =~= load_word());
        }
        if same_text(s, "EXIT") {
            assert("EXIT"@ =~= exit_word());
            return Ok(Command::Exit);
        }
        assert(s@ != exit_word()) by {
            assert("EXIT"@ =~= exit_word());
        }
        assert("LOOKUP"@ =~= lookup_word());
        if !starts_with(s, "LOOKUP") {
            return Err(Error::UnsupportedCommand);
        }
        let n = s.unicode_len();
        let rest = trim_spaces(s.substring_char(6, n));
        match parse_dotted_quad(rest.as_str()) {
            Some(a) => Ok(Command::Lookup(a)),
            None => Err(Error::UnsupportedCommand),
        }
    }

    /// Whether the command ends the session.
    pub fn is_exit(&self) -> (r: bool)
        ensures
            r == (*self is Exit),
    {
        match self {
            Command::Exit => true,
            _ => false,
        }
    }
}

/// The line `LOOKUP s`, with one space before `s`.
pub open spec fn lookup_line(s: Seq<char>) -> Seq<char> {
    lookup_word() + seq![' '] + s
}

proof fn lemma_lookup_line_parts(s: Seq<char>)
    ensures
        parse_command(lookup_line(s)) == match dotted_quad(trimmed(s)) {
            Some(a) => Ok(Command::Lookup(a)),
            None => Err(Error::UnsupportedCommand),
        },
{
    let w = lookup_line(s);
    assert(w.len() == 7 + s.len());
    assert(w.subrange(0, 6) =~= lookup_word());
    assert(w.subrange(6, w.len() as int) =~= seq![' '] + s);
    lemma_trim_leading_space(' ', s);
}

/// A dotted quad neither begins nor ends with white space.
proof fn lemma_dotted_quad_is_trimmed(s: Seq<char>)
    requires
        dotted_quad(s) is Some,
    ensures
        trimmed(s) == s,
{
    let p = split_on(s, '.');
    lemma_first_piece_prefix(s, '.', 0);
    lemma_last_piece_suffix(s, '.', 0, 0, seq![]);
    assert(is_octet(p[0]) && is_octet(p[3]));
    assert(p[0][0] == s[0]);
    let f = p[3];
    assert(f[f.len() - 1] == s[s.len() - 1]);
    assert('0' <= p[0][0] <= '9');
    assert('0' <= f[f.len() - 1] <= '9');
    lemma_trim_unchanged(s);
}

/// Every dotted-quad address, written after `LOOKUP` and a space, parses
/// to a lookup of its numeric value.
pub proof fn lemma_lookup_round_trip(s: Seq<char>)
    requires
        dotted_quad(s) is Some,
    ensures
        parse_command(lookup_line(s)) == Ok::<Command, Error>(Command::Lookup(dotted_quad(s)->0)),
{
    lemma_dotted_quad_is_trimmed(s);
    lemma_lookup_line_parts(s);
}

/// A text that is not a dotted-quad address, even once trimmed, makes
/// `LOOKUP` and a space before it an unsupported command.
pub proof fn lemma_lookup_rejects_non_address(s: Seq<char>)
    requires
        dotted_quad(s) is None,
        dotted_quad(trimmed(s)) is None,
    ensures
        parse_command(lookup_line(s)) == Err::<Command, Error>(Error::UnsupportedCommand),
{
    lemma_lookup_line_parts(s);
}

impl std::str::FromStr for Command {
    type Err = Error;

    fn from_str(s: &str) -> (r: Result<Command, Error>)
        ensures
            r == parse_command(s@),
    {
        Command::parse(s)
    }
}

impl TryFrom<String> for Command {
    type Error = Error;

    fn try_from(value: String) -> (r: Result<Command, Error>)
        ensures
            r == parse_command(value@),
    {
        Command::parse(value.as_str())
    }
}

impl vstd::std_specs::convert::TryFromSpecImpl<String> for Command {
    open spec fn obeys_try_from_spec() -> bool {
        true
    }

    open spec fn try_from_spec(v: String) -> Result<Command, Error> {
        parse_command(v@)
    }
}

} // verus!
