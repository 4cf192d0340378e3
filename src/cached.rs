//! A backend that holds the whole range table in memory.
use vstd::prelude::*;

use crate::error::Error;
use crate::record::{contains, parse_row, row_record, Columns, RangeRecord, RecordView};
use crate::text::strings_view;
use crate::QueryDriver;

verus! {

/// The payload of the first record, in table order, whose range holds `address`.
pub open spec fn first_match(t: Seq<RecordView>, address: u32) -> Option<Seq<char>>
    decreases t.len(),
{
    if t.len() == 0 {
        None
    } else if contains(t[0], address) {
        Some(t[0].payload)
    } else {
        first_match(t.drop_first(), address)
    }
}

/// The table that a sequence of rows decodes to, in source order: rows
/// without range fields are left out, and a malformed row fails the whole.
pub open spec fn table_of(rows: Seq<Seq<char>>, cols: Columns) -> Result<Seq<RecordView>, Error>
    decreases rows.len(),
{
    if rows.len() == 0 {
        Ok(seq![])
    } else {
        match table_of(rows.drop_last(), cols) {
            Err(e) => Err(e),
            Ok(t) => match row_record(rows.last(), cols) {
                Err(e) => Err(e),
                Ok(None) => Ok(t),
                Ok(Some(r)) => Ok(t.push(r)),
            },
        }
    }
}

/// What a table answers to `address`.
pub open spec fn table_answer(t: Seq<RecordView>, address: u32) -> Result<Seq<char>, Error> {
    match first_match(t, address) {
        Some(p) => Ok(p),
        None => Err(Error::LookupError),
    }
}

/// The full range table, in source order.
pub struct CachedTable {
    records: Vec<RangeRecord>,
}

impl View for CachedTable {
    type V = Seq<RecordView>;

    closed spec fn view(&self) -> Seq<RecordView> {
        self.records@.map_values(|r: RangeRecord| r@)
    }
}

impl CachedTable {
    /// Decodes every row of the dataset into a table.
    pub fn from_rows(rows: &Vec<String>, cols: Columns) -> (r: Result<CachedTable, Error>)
        ensures
            match table_of(strings_view(rows@), cols) {
                Ok(t) => r is Ok && r->Ok_0@ == t,
                Err(e) => r == Err::<CachedTable, Error>(e),
            },
    {
        let mut records: Vec<RangeRecord> = Vec::new();
        let mut i: usize = 0;
        let ghost all = strings_view(rows@);
        assert(all.subrange(0, 0) =~= seq![]);
        assert(records@.map_values(|r: RangeRecord| r@) =~= seq![]);
        while i < rows.len()
            invariant
                i <= rows.len(),
                all == strings_view(rows@),
                table_of(all.subrange(0, i as int), cols) == Ok::<Seq<RecordView>, Error>(
                    records@.map_values(|r: RangeRecord| r@),
                ),
            decreases rows.len() - i,
        {
            let ghost before = records@.map_values(|r: RangeRecord| r@);
            assert(all.subrange(0, i + 1).drop_last() =~= all.subrange(0, i as int));
            assert(all.subrange(0, i + 1).last() == rows[i as int]@);
            let row = parse_row(rows[i].as_str(), cols);
            match row {
                Err(e) => {
                    proof {
                        lemma_table_error_sticks(all, cols, i as int + 1);
                    }
                    return Err(e);
                },
                Ok(None) => {},
                Ok(Some(rec)) => {
                    records.push(rec);
                    assert(records@.map_values(|r: RangeRecord| r@) =~= before.push(rec@));
                },
            }
            i = i + 1;
        }
        assert(all.subrange(0, i as int) =~= all);
        Ok(CachedTable { records })
    }

    /// The records of the table, in source order.
    pub fn records(&self) -> (r: &Vec<RangeRecord>)
        ensures
            r@.map_values(|x: RangeRecord| x@) == self@,
    {
        &self.records
    }
}

/// Once a prefix of the rows fails to decode, every longer prefix fails alike.
proof fn lemma_table_error_sticks(rows: Seq<Seq<char>>, cols: Columns, k: int)
    requires
        0 < k <= rows.len(),
        table_of(rows.subrange(0, k), cols) is Err,
    ensures
        table_of(rows, cols) == table_of(rows.subrange(0, k), cols),
    decreases rows.len() - k,
{
    if k == rows.len() {
        assert(rows.subrange(0, k) =~= rows);
    } else {
        assert(rows.subrange(0, k + 1).drop_last() =~= rows.subrange(0, k));
        lemma_table_error_sticks(rows, cols, k + 1);
    }
}

impl QueryDriver for CachedTable {
    open spec fn ready(&self) -> bool {
        true
    }

    open spec fn answers(&self, address: u32, r: Result<Seq<char>, Error>, next: Self) -> bool {
        next@ == self@ && r == table_answer(self@, address)
    }

    /// Scans the table from its first record.
    fn find_ip(&mut self, address: u32) -> (r: Result<String, Error>) {
        let mut i: usize = 0;
        let ghost t = self@;
        assert(t.subrange(0, t.len() as int) =~= t);
        while i < self.records.len()
            invariant
                i <= self.records@.len(),
                t == self@,
                first_match(t, address) == first_match(t.subrange(i as int, t.len() as int), address),
            decreases self.records.len() - i,
        {
            let ghost rest = t.subrange(i as int, t.len() as int);
            assert(rest[0] == self.records[i as int]@);
            if self.records[i].start <= address && address <= self.records[i].end {
                return Ok(self.records[i].payload.clone());
            }
            assert(rest.drop_first() =~= t.subrange(i + 1, t.len() as int));
            i = i + 1;
        }
        assert(t.subrange(i as int, t.len() as int) =~= seq![]);
        Err(Error::LookupError)
    }
}

} // verus!
