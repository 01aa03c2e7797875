//! Batch sizing and primary-key range partitioning.
use vstd::prelude::*;

verus! {

/// Row count below which the smallest batch tier applies.
pub const SMALL_TABLE_ROWS: i64 = 200_000;

/// Row count below which the second batch tier applies.
pub const MEDIUM_TABLE_ROWS: i64 = 10_000_000;

/// Row count below which the third batch tier applies.
pub const LARGE_TABLE_ROWS: i64 = 50_000_000;

/// No batch is ever smaller than this many rows.
pub const MIN_BATCH_ROWS: usize = 100_000;

/// Tiered batch size before the blob adjustment.
pub open spec fn base_batch_rows(row_count: int) -> int {
    if row_count < 200_000 {
        250_000
    } else if row_count < 10_000_000 {
        500_000
    } else if row_count < 50_000_000 {
        750_000
    } else {
        1_000_000
    }
}

/// Batch size for a table: the tier, two thirds of it when the table holds
/// blobs, and never below the minimum.
pub open spec fn batch_rows(row_count: int, has_blob: bool) -> int {
    let base = base_batch_rows(row_count);
    let adjusted = if has_blob { base * 2 / 3 } else { base };
    if adjusted < 100_000 { 100_000 } else { adjusted }
}

/// Number of rows fetched per page and converted per batch.
pub fn calculate_batch_size(row_count: i64, has_blob: bool) -> (r: usize)
    ensures
        r == batch_rows(row_count as int, has_blob),
{
    let base: usize = if row_count < SMALL_TABLE_ROWS {
        250_000
    } else if row_count < MEDIUM_TABLE_ROWS {
        500_000
    } else if row_count < LARGE_TABLE_ROWS {
        750_000
    } else {
        1_000_000
    };
    let adjusted: usize = if has_blob { base * 2 / 3 } else { base };
    if adjusted < MIN_BATCH_ROWS { MIN_BATCH_ROWS } else { adjusted }
}

/// The batch size never shrinks as the row count grows, is never raised by
/// blob columns, and never falls below the minimum batch.
pub proof fn lemma_batch_size_laws(small: int, large: int, has_blob: bool)
    requires
        small <= large,
    ensures
        batch_rows(small, has_blob) <= batch_rows(large, has_blob),
        batch_rows(large, true) <= batch_rows(large, false),
        batch_rows(small, has_blob) >= 100_000,
{
}

/// One worker's share of the leading key column. Keys `k` with
/// `start <= k < end` belong to it; the last share also takes `k == end`.
#[derive(Clone, Copy, Debug, PartialEq, Eq, Structural)]
pub struct Partition {
    pub index: usize,
    pub start: i64,
    pub end: i64,
    pub last: bool,
}

impl Partition {
    pub open spec fn holds_key(self, k: int) -> bool {
        &&& self.start <= k
        &&& if self.last { k <= self.end } else { k < self.end }
    }

    /// Whether the key value `k` falls in this partition.
    pub fn contains(&self, k: i64) -> (r: bool)
        ensures
            r == self.holds_key(k as int),
    {
        self.start <= k && if self.last { k <= self.end } else { k < self.end }
    }
}

/// Lower bound of share `i` out of `n` over the key range `[min, max]`.
/// With a positive range the step is `(max - min) / n`, rounded down at each
/// boundary; a collapsed range uses a step of one key.
pub open spec fn share_start(min: int, max: int, n: int, i: int) -> int {
    if max > min {
        min + (max - min) * i / n
    } else if min + i <= i64::MAX {
        min + i
    } else {
        i64::MAX as int
    }
}

/// Share `i` of `n`: each upper bound is the next lower bound, except the
/// last, which is `max` itself.
pub open spec fn share(min: int, max: int, n: int, i: int) -> Partition {
    Partition {
        index: i as usize,
        start: share_start(min, max, n, i) as i64,
        end: if i == n - 1 { max as i64 } else { share_start(min, max, n, i + 1) as i64 },
        last: i == n - 1,
    }
}

fn share_start_exec(min: i64, max: i64, n: usize, i: usize) -> (r: i64)
    requires
        n >= 1,
        i <= n,
    ensures
        r as int == share_start(min as int, max as int, n as int, i as int),
{
    if max > min {
        let range: u128 = (max as i128 - min as i128) as u128;
        let ii: u128 = i as u128;
        let nn: u128 = n as u128;
        assert(range * ii <= range * nn) by (nonlinear_arith)
            requires
                ii <= nn,
        ;
        assert(range * ii < 0x1_0000_0000_0000_0000_0000_0000_0000_0000) by (nonlinear_arith)
            requires
                range < 0x1_0000_0000_0000_0000,
                ii < 0x1_0000_0000_0000_0000,
        ;
        let q: u128 = range * ii / nn;
        assert(q <= range) by (nonlinear_arith)
            requires
                q as int == (range * ii) as int / nn as int,
                range * ii <= range * nn,
                nn >= 1,
        ;
        (min as i128 + q as i128) as i64
    } else if i as i128 <= i64::MAX as i128 - min as i128 {
        (min as i128 + i as i128) as i64
    } else {
        i64::MAX
    }
}

/// Splits the key range `[min, max]` among `n` workers.
pub fn plan_partitions(min: i64, max: i64, n: usize) -> (r: Vec<Partition>)
    requires
        n >= 1,
    ensures
        r@.len() == n,
        forall|i: int| 0 <= i < n ==> r@[i] == share(min as int, max as int, n as int, i),
{
    let mut parts: Vec<Partition> = Vec::new();
    let mut i: usize = 0;
    while i < n
        invariant
            i <= n,
            n >= 1,
            parts@.len() == i,
            forall|j: int| 0 <= j < i ==> parts@[j] == share(min as int, max as int, n as int, j),
        decreases n - i,
    {
        let start = share_start_exec(min, max, n, i);
        let last = i == n - 1;
        let end = if last { max } else { share_start_exec(min, max, n, i + 1) };
        parts.push(Partition { index: i, start, end, last });
        i += 1;
    }
    parts
}

proof fn lemma_find_share(min: int, max: int, n: int, k: int, j: int) -> (i: int)
    requires
        n >= 1,
        0 <= j < n,
        min <= k <= max,
        i64::MIN <= min,
        max <= i64::MAX,
        share_start(min, max, n, j) <= k,
    ensures
        0 <= i < n,
        share(min, max, n, i).holds_key(k),
    decreases n - j,
{
    lemma_share_start_fits(min, max, n, j);
    lemma_share_start_fits(min, max, n, j + 1);
    if j == n - 1 {
        j
    } else if k < share_start(min, max, n, j + 1) {
        j
    } else {
        lemma_find_share(min, max, n, k, j + 1)
    }
}

proof fn lemma_share_start_fits(min: int, max: int, n: int, i: int)
    requires
        n >= 1,
        0 <= i <= n,
        i64::MIN <= min <= max <= i64::MAX,
    ensures
        min <= share_start(min, max, n, i) <= i64::MAX,
{
    if max > min {
        assert(0 <= (max - min) * i / n <= max - min) by (nonlinear_arith)
            requires
                n >= 1,
                0 <= i <= n,
                max > min,
        ;
    }
}

/// For `n >= 1` workers over `[min, max]`, every key in the range falls in
/// some worker's share, the first share starts at `min` and the last one
/// ends at `max`, inclusive.
pub proof fn lemma_partitions_cover(min: i64, max: i64, n: usize, k: i64)
    requires
        n >= 1,
        min <= k <= max,
    ensures
        share(min as int, max as int, n as int, 0).start == min,
        share(min as int, max as int, n as int, n - 1).end == max,
        share(min as int, max as int, n as int, n - 1).last,
        exists|i: int| 0 <= i < n && #[trigger] share(min as int, max as int, n as int, i).holds_key(k as int),
{
    lemma_share_start_fits(min as int, max as int, n as int, 0);
    assert(share_start(min as int, max as int, n as int, 0) == min);
    let i = lemma_find_share(min as int, max as int, n as int, k as int, 0);
    lemma_share_start_fits(min as int, max as int, n as int, i);
    if i < n - 1 {
        lemma_share_start_fits(min as int, max as int, n as int, i + 1);
    }
    assert(share(min as int, max as int, n as int, i).holds_key(k as int));
}

proof fn lemma_share_start_monotone(min: int, max: int, n: int, i: int, j: int)
    requires
        n >= 1,
        0 <= i <= j <= n,
    ensures
        share_start(min, max, n, i) <= share_start(min, max, n, j),
{
    if max > min {
        assert((max - min) * i / n <= (max - min) * j / n) by (nonlinear_arith)
            requires
                n >= 1,
                0 <= i <= j,
                max > min,
        ;
    }
}

/// For `n >= 1` workers, no key falls in two shares: the shares of a plan
/// are disjoint, so together with `lemma_partitions_cover` every key of
/// `[min, max]` belongs to exactly one share.
pub proof fn lemma_partitions_disjoint(min: i64, max: i64, n: usize, k: i64, i: int, j: int)
    requires
        n >= 1,
        0 <= i < n,
        0 <= j < n,
        share(min as int, max as int, n as int, i).holds_key(k as int),
        share(min as int, max as int, n as int, j).holds_key(k as int),
    ensures
        i == j,
{
    if i != j {
        let (a, b) = if i < j { (i, j) } else { (j, i) };
        lemma_share_start_monotone(min as int, max as int, n as int, a + 1, b);
        if min <= max {
            lemma_share_start_fits(min as int, max as int, n as int, a + 1);
            lemma_share_start_fits(min as int, max as int, n as int, b);
        } else {
            lemma_share_start_fits_collapsed(min as int, max as int, n as int, a + 1);
            lemma_share_start_fits_collapsed(min as int, max as int, n as int, b);
        }
        assert(share(min as int, max as int, n as int, a).holds_key(k as int));
        assert(share(min as int, max as int, n as int, b).holds_key(k as int));
    }
}

proof fn lemma_share_start_fits_collapsed(min: int, max: int, n: int, i: int)
    requires
        n >= 1,
        0 <= i <= n,
        i64::MIN <= max < min <= i64::MAX,
    ensures
        min <= share_start(min, max, n, i) <= i64::MAX,
{
}

} // verus!
