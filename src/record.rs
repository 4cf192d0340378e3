//! Range records and the decoding of dataset rows.
//!
//! A row is a line of comma-separated fields, each optionally enclosed in
//! double quotes. Fields 0 and 1 are the range bounds; the payload is made
//! of two further columns, chosen by [`Columns`], joined by a comma.
use vstd::prelude::*;
use vstd::string::StringExecFns;

use crate::error::Error;
use crate::text::{decimal_u32, parse_u32, row_fields, split_fields, strings_view, unquote, unquoted};

verus! {

/// An inclusive range of addresses and the record it maps to.
#[derive(Debug, Clone)]
pub struct RangeRecord {
    /// First address of the range.
    pub start: u32,
    /// Last address of the range.
    pub end: u32,
    /// `country_code,city`.
    pub payload: String,
}

/// A range record as a mathematical value.
pub struct RecordView {
    /// First address of the range.
    pub start: u32,
    /// Last address of the range.
    pub end: u32,
    /// `country_code,city`.
    pub payload: Seq<char>,
}

impl View for RangeRecord {
    type V = RecordView;

    open spec fn view(&self) -> RecordView {
        RecordView { start: self.start, end: self.end, payload: self.payload@ }
    }
}

/// Whether the range of `r` holds `address`.
pub open spec fn contains(r: RecordView, address: u32) -> bool {
    r.start <= address && address <= r.end
}

/// The two columns of a row that make up the payload.
#[derive(Debug, Clone, Copy, PartialEq, Eq, Structural)]
pub struct Columns {
    /// Column of the country code.
    pub country: usize,
    /// Column of the city.
    pub city: usize,
}

impl Columns {
    /// The columns of the full dataset layout
    /// `start,end,country_code,country_name,region,city,lat,lon`.
    pub fn full() -> (r: Columns)
        ensures
            r.country == 2,
            r.city == 5,
    {
        Columns { country: 2, city: 5 }
    }

    /// The columns of a dataset projected to `start,end,country_code,city`.
    pub fn projected() -> (r: Columns)
        ensures
            r.country == 2,
            r.city == 3,
    {
        Columns { country: 2, city: 3 }
    }
}

/// `country,city`.
pub open spec fn joined(country: Seq<char>, city: Seq<char>) -> Seq<char> {
    country + seq![','] + city
}

/// What a row of the dataset holds: `Ok(None)` for a row without both
/// range fields, which is skipped; `ParseError` for a range field that is
/// not a decimal `u32`, or a payload column that is missing.
pub open spec fn row_record(line: Seq<char>, cols: Columns) -> Result<Option<RecordView>, Error> {
    let f = row_fields(line);
    if f.len() < 2 {
        Ok(None)
    } else {
        match (decimal_u32(unquoted(f[0])), decimal_u32(unquoted(f[1]))) {
            (Some(a), Some(b)) => if cols.country < f.len() && cols.city < f.len() {
                Ok(
                    Some(
                        RecordView {
                            start: a,
                            end: b,
                            payload: joined(unquoted(f[cols.country as int]), unquoted(f[cols.city as int])),
                        },
                    ),
                )
            } else {
                Err(Error::ParseError)
            },
            _ => Err(Error::ParseError),
        }
    }
}

/// A decoded row as a mathematical value.
pub open spec fn record_option_view(r: Result<Option<RangeRecord>, Error>) -> Result<Option<RecordView>, Error> {
    match r {
        Ok(Some(x)) => Ok(Some(x@)),
        Ok(None) => Ok(None),
        Err(e) => Err(e),
    }
}

/// Joins two payload fields with a comma.
pub fn join_payload(country: &str, city: &str) -> (r: String)
    ensures
        r@ == joined(country@, city@),
{
    let mut s = String::from_str(country);
    s.append(",");
    s.append(city);
    proof {
        reveal_strlit(",");
    }
    assert(s@ =~= joined(country@, city@));
    s
}

/// Decodes one row of the dataset.
pub fn parse_row(line: &str, cols: Columns) -> (r: Result<Option<RangeRecord>, Error>)
    ensures
        record_option_view(r) == row_record(line@, cols),
{
    let f = split_fields(line, ',', true);
    let ghost g = row_fields(line@);
    assert(strings_view(f@) == g);
    if f.len() < 2 {
        return Ok(None);
    }
    assert(f[0]@ == g[0] && f[1]@ == g[1]);
    let a = unquote(f[0].as_str());
    let b = unquote(f[1].as_str());
    let start = match parse_u32(a.as_str()) {
        Some(v) => v,
        None => return Err(Error::ParseError),
    };
    let end = match parse_u32(b.as_str()) {
        Some(v) => v,
        None => return Err(Error::ParseError),
    };
    if cols.country >= f.len() || cols.city >= f.len() {
        return Err(Error::ParseError);
    }
    assert(f[cols.country as int]@ == g[cols.country as int]);
    assert(f[cols.city as int]@ == g[cols.city as int]);
    let country = unquote(f[cols.country].as_str());
    let city = unquote(f[cols.city].as_str());
    let payload = join_payload(country.as_str(), city.as_str());
    Ok(Some(RangeRecord { start, end, payload }))
}

} // verus!
