//! State of the sequential pipeline: the paging cursor of the fetch stage and
//! the running row count of the build stage.
use vstd::prelude::*;

verus! {

/// Rows between two progress reports.
pub const PROGRESS_INTERVAL: usize = 500_000;

/// Position of the fetch stage in a table read page by page. Page `k`
/// covers rows `offset + 1` to `offset + page_size`, one-based and inclusive.
/// A read that ended on a failed query is marked failed: the whole
/// extraction then fails, as no partial sequential read counts as a success.
#[derive(Clone, Copy, Debug, PartialEq, Eq, Structural)]
pub struct PageCursor {
    pub offset: i64,
    pub page_size: i64,
    pub finished: bool,
    pub failed: bool,
}

impl PageCursor {
    pub open spec fn wf(self) -> bool {
        self.page_size >= 1 && self.offset >= 0
    }

    /// A cursor at the first page.
    pub fn new(page_size: usize) -> (r: PageCursor)
        requires
            1 <= page_size <= i64::MAX,
        ensures
            r.wf(),
            r.offset == 0,
            r.page_size == page_size,
            !r.finished,
            !r.failed,
    {
        PageCursor { offset: 0, page_size: page_size as i64, finished: false, failed: false }
    }

    /// Row range of the next page to query, or `None` once the table has
    /// been read (or the next page would lie beyond the largest row number).
    pub fn next_page(&self) -> (r: Option<(i64, i64)>)
        requires
            self.wf(),
        ensures
            r is Some <==> !self.finished && self.offset + self.page_size <= i64::MAX,
            r matches Some((first, last)) ==> first == self.offset + 1 && last == self.offset + self.page_size,
    {
        if self.finished || self.offset > i64::MAX - self.page_size {
            None
        } else {
            Some((self.offset + 1, self.offset + self.page_size))
        }
    }

    /// Records the size of the page just fetched: an empty page ends the
    /// read, any other moves the cursor on by one page.
    pub fn record_page(&mut self, rows: usize)
        requires
            old(self).wf(),
        ensures
            final(self).wf(),
            final(self).page_size == old(self).page_size,
            final(self).failed == old(self).failed,
            rows == 0 ==> final(self).finished && final(self).offset == old(self).offset,
            rows > 0 && old(self).offset + old(self).page_size <= i64::MAX ==> final(self).offset == old(self).offset
                + old(self).page_size && final(self).finished == old(self).finished,
            rows > 0 && old(self).offset + old(self).page_size > i64::MAX ==> final(self).finished,
    {
        if rows == 0 || self.offset > i64::MAX - self.page_size {
            self.finished = true;
        } else {
            self.offset = self.offset + self.page_size;
        }
    }

    /// Ends the read after a failed query and marks it failed.
    pub fn fail(&mut self)
        ensures
            final(self).finished,
            final(self).failed,
            final(self).offset == old(self).offset,
            final(self).page_size == old(self).page_size,
    {
        self.finished = true;
        self.failed = true;
    }
}

/// Rows converted so far by the build stage.
#[derive(Clone, Copy, Debug, PartialEq, Eq, Structural)]
pub struct RowTally {
    pub rows: usize,
}

impl RowTally {
    pub fn new() -> (r: RowTally)
        ensures
            r.rows == 0,
    {
        RowTally { rows: 0 }
    }

    /// Adds a converted batch and tells whether a progress report is due: it
    /// is when the running count is a whole number of report intervals.
    pub fn add_batch(&mut self, rows: usize) -> (report: bool)
        requires
            old(self).rows + rows <= usize::MAX,
        ensures
            final(self).rows == old(self).rows + rows,
            report == (final(self).rows % PROGRESS_INTERVAL == 0),
    {
        self.rows = self.rows + rows;
        self.rows % PROGRESS_INTERVAL == 0
    }
}

} // verus!
