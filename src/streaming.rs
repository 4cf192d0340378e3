//! A backend that scans the dataset's rows with a cursor that persists
//! between lookups.
//!
//! Each lookup resumes after the row where the previous one stopped, wraps
//! to the first row once when the rows run out, and gives up when it is
//! back where it began: it never reads more rows than the source holds.
//! Rows are decoded only as the scan reaches them.
use vstd::prelude::*;

use crate::error::Error;
use crate::record::{contains, parse_row, record_option_view, row_record, Columns};
use crate::text::strings_view;
use crate::QueryDriver;

verus! {

/// Index of the `k`-th row that a scan reads from a source of `n` rows,
/// with the cursor at `start` (a cursor at the end starts over at row 0).
pub open spec fn scan_row(n: int, start: int, k: int) -> int {
    let s0 = if start >= n {
        0
    } else {
        start
    };
    if s0 + k < n {
        s0 + k
    } else {
        s0 + k - n
    }
}

/// Whether a scan for `address` ends at this row: it holds the address,
/// or it fails to decode.
pub open spec fn stops_at(line: Seq<char>, cols: Columns, address: u32) -> bool {
    match row_record(line, cols) {
        Err(_) => true,
        Ok(Some(r)) => contains(r, address),
        Ok(None) => false,
    }
}

/// The number of rows, counted from `k`, read before the scan ends, less one;
/// `None` when no row from the `k`-th on ends it.
pub open spec fn first_stop(
    rows: Seq<Seq<char>>,
    cols: Columns,
    start: int,
    address: u32,
    k: int,
) -> Option<int>
    decreases rows.len() - k,
{
    if k >= rows.len() {
        None
    } else if stops_at(rows[scan_row(rows.len() as int, start, k)], cols, address) {
        Some(k)
    } else {
        first_stop(rows, cols, start, address, k + 1)
    }
}

/// What a scan answers at the row where it ends.
pub open spec fn stop_answer(line: Seq<char>, cols: Columns) -> Result<Seq<char>, Error> {
    match row_record(line, cols) {
        Err(e) => Err(e),
        Ok(Some(r)) => Ok(r.payload),
        Ok(None) => Err(Error::LookupError),
    }
}

/// A streaming scan as a mathematical value.
pub struct ScanView {
    /// The rows of the source, in source order.
    pub rows: Seq<Seq<char>>,
    /// The payload columns.
    pub cols: Columns,
    /// The number of rows consumed since the source was last rewound.
    pub position: int,
    /// The number of rows that the last lookup read.
    pub reads: nat,
}

/// The state of a scan after a lookup of `address` from state `s`, and its answer.
pub open spec fn scan_step(s: ScanView, address: u32) -> (ScanView, Result<Seq<char>, Error>) {
    let n = s.rows.len() as int;
    match first_stop(s.rows, s.cols, s.position, address, 0) {
        Some(k) => {
            let i = scan_row(n, s.position, k);
            (
                ScanView { position: i + 1, reads: (k + 1) as nat, ..s },
                stop_answer(s.rows[i], s.cols),
            )
        },
        None => (ScanView { reads: n as nat, ..s }, Err(Error::LookupError)),
    }
}

/// A resumable scan over the rows of a dataset.
pub struct StreamingScan {
    rows: Vec<String>,
    cols: Columns,
    position: usize,
    reads: Ghost<nat>,
}

impl View for StreamingScan {
    type V = ScanView;

    closed spec fn view(&self) -> ScanView {
        ScanView {
            rows: strings_view(self.rows@),
            cols: self.cols,
            position: self.position as int,
            reads: self.reads@,
        }
    }
}

impl StreamingScan {
    /// A scan over `rows`, with the cursor at the first row.
    pub fn open(rows: Vec<String>, cols: Columns) -> (r: StreamingScan)
        ensures
            r@.rows == strings_view(rows@),
            r@.cols == cols,
            r@.position == 0,
            r@.reads == 0,
            r.ready(),
    {
        StreamingScan { rows, cols, position: 0, reads: Ghost(0) }
    }

    /// Rewinds the source: the next lookup starts at the first row.
    pub fn rewind(&mut self)
        ensures
            final(self)@ == (ScanView { position: 0, ..old(self)@ }),
            final(self).ready(),
    {
        self.position = 0;
    }

    /// The number of rows consumed since the source was last rewound.
    pub fn position(&self) -> (r: usize)
        ensures
            r == self@.position,
    {
        self.position
    }
}

/// The scan ends, if at all, within one pass over the rows.
proof fn lemma_first_stop_in_pass(rows: Seq<Seq<char>>, cols: Columns, start: int, address: u32, k: int)
    requires
        0 <= k,
    ensures
        first_stop(rows, cols, start, address, k) matches Some(j) ==> k <= j < rows.len(),
    decreases rows.len() - k,
{
    if k < rows.len() {
        lemma_first_stop_in_pass(rows, cols, start, address, k + 1);
    }
}

/// A single lookup of the streaming scan reads at most as many rows as
/// the source holds: never more than one full pass.
pub proof fn lemma_lookup_reads_one_pass(s: ScanView, address: u32)
    ensures
        scan_step(s, address).0.reads <= s.rows.len(),
{
    lemma_first_stop_in_pass(s.rows, s.cols, s.position, address, 0);
}

impl QueryDriver for StreamingScan {
    open spec fn ready(&self) -> bool {
        0 <= self@.position <= self@.rows.len()
    }

    open spec fn answers(&self, address: u32, r: Result<Seq<char>, Error>, next: Self) -> bool {
        (next@, r) == scan_step(self@, address)
    }

    /// Resumes the scan at the cursor.
    fn find_ip(&mut self, address: u32) -> (r: Result<String, Error>) {
        let n = self.rows.len();
        let start = self.position;
        let s0: usize = if start >= n {
            0
        } else {
            start
        };
        let ghost rows = strings_view(self.rows@);
        let ghost cols = self.cols;
        let ghost s = self@;
        let mut k: usize = 0;
        while k < n
            invariant
                n == self.rows@.len(),
                rows == strings_view(self.rows@),
                cols == self.cols,
                start == self.position,
                s == self@,
                s == old(self)@,
                s0 == (if start >= n { 0 } else { start }),
                s0 <= n,
                k <= n,
                first_stop(rows, cols, start as int, address, 0) == first_stop(
                    rows,
                    cols,
                    start as int,
                    address,
                    k as int,
                ),
            decreases n - k,
        {
            let idx: usize = if k < n - s0 {
                s0 + k
            } else {
                k - (n - s0)
            };
            assert(idx == scan_row(n as int, start as int, k as int));
            assert(rows[idx as int] == self.rows[idx as int]@);
            let row = parse_row(self.rows[idx].as_str(), self.cols);
            assert(record_option_view(row) == row_record(rows[idx as int], cols));
            match row {
                Err(e) => {
                    assert(first_stop(rows, cols, start as int, address, k as int) == Some(k as int));
                    self.position = idx + 1;
                    self.reads = Ghost((k + 1) as nat);
                    return Err(e);
                },
                Ok(Some(rec)) => {
                    if rec.start <= address && address <= rec.end {
                        assert(first_stop(rows, cols, start as int, address, k as int) == Some(
                            k as int,
                        ));
                        self.position = idx + 1;
                        self.reads = Ghost((k + 1) as nat);
                        return Ok(rec.payload);
                    }
                },
                Ok(None) => {},
            }
            k = k + 1;
        }
        self.reads = Ghost(n as nat);
        Err(Error::LookupError)
    }
}

} // verus!
