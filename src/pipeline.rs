//! Decisions of the extraction pipelines: which path a table takes, how
//! fetched rows are chunked, how the sequential pager advances, how partition
//! outcomes are summed up and how partition files are merged.
use vstd::prelude::*;
use vstd::arithmetic::div_mod::lemma_fundamental_div_mod;
use crate::metadata::TableMetadata;

verus! {

/// How a table is extracted.
#[derive(Clone, Copy, Debug, PartialEq, Eq, Structural)]
pub enum Strategy {
    /// No rows: nothing is fetched and no file is written.
    Empty,
    /// Key-range partitions fetched in parallel, then merged.
    Partitioned,
    /// One paged stream into a single file.
    Sequential,
}

pub open spec fn strategy_for(row_count: i64, has_key: bool) -> Strategy {
    if row_count == 0 {
        Strategy::Empty
    } else if has_key {
        Strategy::Partitioned
    } else {
        Strategy::Sequential
    }
}

/// Picks the extraction path: an empty table is skipped, a table with a
/// usable key is partitioned, any other is read sequentially.
pub fn plan_extraction(meta: &TableMetadata) -> (r: Strategy)
    ensures
        r == strategy_for(meta.row_count, meta.pk is Some),
        meta.row_count == 0 ==> r == Strategy::Empty,
{
    if meta.row_count == 0 {
        Strategy::Empty
    } else if meta.pk.is_some() {
        Strategy::Partitioned
    } else {
        Strategy::Sequential
    }
}

/// What one partition worker reported.
#[derive(Clone, Copy, Debug, PartialEq, Eq, Structural)]
pub enum PartitionOutcome {
    /// The partition wrote this many rows (none: no file was written).
    Written(usize),
    /// The partition failed; its rows are not counted.
    Failed,
}

pub open spec fn rows_of(o: PartitionOutcome) -> nat {
    match o {
        PartitionOutcome::Written(n) => n as nat,
        PartitionOutcome::Failed => 0,
    }
}

/// Rows written by the first `k` partitions.
pub open spec fn rows_written(outcomes: Seq<PartitionOutcome>, k: int) -> nat
    decreases k,
{
    if k <= 0 { 0 } else { rows_written(outcomes, k - 1) + rows_of(outcomes[k - 1]) }
}

/// Indices, in order, of the first `k` outcomes that satisfy `keep`.
pub open spec fn indices_where(outcomes: Seq<PartitionOutcome>, k: int, keep: spec_fn(PartitionOutcome) -> bool) -> Seq<usize>
    decreases k,
{
    if k <= 0 {
        Seq::empty()
    } else {
        let before = indices_where(outcomes, k - 1, keep);
        if keep(outcomes[k - 1]) { before.push((k - 1) as usize) } else { before }
    }
}

pub open spec fn wrote_rows(o: PartitionOutcome) -> bool {
    o matches PartitionOutcome::Written(n) && n > 0
}

pub open spec fn failed(o: PartitionOutcome) -> bool {
    o is Failed
}

/// Indices, in order, of the first `k` partitions that wrote rows.
pub open spec fn written_indices(outcomes: Seq<PartitionOutcome>, k: int) -> Seq<usize> {
    indices_where(outcomes, k, |o| wrote_rows(o))
}

/// Indices, in order, of the first `k` partitions that failed.
pub open spec fn failed_indices(outcomes: Seq<PartitionOutcome>, k: int) -> Seq<usize> {
    indices_where(outcomes, k, |o| failed(o))
}

/// The partition outcomes gathered up: rows written in total, the partitions
/// whose files go into the merge, and those that failed.
#[derive(Clone, Debug)]
pub struct PartitionSummary {
    pub total_rows: usize,
    pub merge_inputs: Vec<usize>,
    pub failed: Vec<usize>,
}

/// Sums the rows of the partitions that succeeded, lists in partition order
/// those that wrote a file, and lists those that failed. A failure does not
/// fail the table: its rows are simply missing from the total.
pub fn summarize_partitions(outcomes: &Vec<PartitionOutcome>) -> (r: Option<PartitionSummary>)
    ensures
        r is Some <==> rows_written(outcomes@, outcomes@.len() as int) <= usize::MAX,
        r matches Some(s) ==> {
            &&& s.total_rows == rows_written(outcomes@, outcomes@.len() as int)
            &&& s.merge_inputs@ == written_indices(outcomes@, outcomes@.len() as int)
            &&& s.failed@ == failed_indices(outcomes@, outcomes@.len() as int)
        },
{
    let mut total: usize = 0;
    let mut merge_inputs: Vec<usize> = Vec::new();
    let mut failures: Vec<usize> = Vec::new();
    let mut i: usize = 0;
    while i < outcomes.len()
        invariant
            i <= outcomes@.len(),
            total == rows_written(outcomes@, i as int),
            merge_inputs@ == written_indices(outcomes@, i as int),
            failures@ == failed_indices(outcomes@, i as int),
        decreases outcomes@.len() - i,
    {
        match outcomes[i] {
            PartitionOutcome::Written(n) => {
                if n > usize::MAX - total {
                    proof {
                        lemma_rows_written_grows(outcomes@, i as int + 1, outcomes@.len() as int);
                    }
                    return None;
                }
                total = total + n;
                if n > 0 {
                    merge_inputs.push(i);
                }
            },
            PartitionOutcome::Failed => {
                failures.push(i);
            },
        }
        i += 1;
    }
    Some(PartitionSummary { total_rows: total, merge_inputs, failed: failures })
}

proof fn lemma_rows_written_grows(outcomes: Seq<PartitionOutcome>, a: int, b: int)
    requires
        0 <= a <= b,
    ensures
        rows_written(outcomes, a) <= rows_written(outcomes, b),
    decreases b - a,
{
    if a < b {
        lemma_rows_written_grows(outcomes, a, b - 1);
    }
}

proof fn lemma_indices_ordered(outcomes: Seq<PartitionOutcome>, k: int, keep: spec_fn(PartitionOutcome) -> bool)
    requires
        0 <= k <= outcomes.len(),
        outcomes.len() <= usize::MAX,
    ensures
        forall|a: int, b: int|
            0 <= a < b < indices_where(outcomes, k, keep).len() ==> #[trigger] indices_where(outcomes, k, keep)[a]
                < #[trigger] indices_where(outcomes, k, keep)[b],
        forall|a: int|
            0 <= a < indices_where(outcomes, k, keep).len() ==> {
                let j = #[trigger] indices_where(outcomes, k, keep)[a];
                j < k && keep(outcomes[j as int])
            },
        forall|j: int| 0 <= j < k && keep(outcomes[j]) ==> indices_where(outcomes, k, keep).contains(j as usize),
    decreases k,
{
    if k > 0 {
        lemma_indices_ordered(outcomes, k - 1, keep);
        let before = indices_where(outcomes, k - 1, keep);
        if keep(outcomes[k - 1]) {
            let now = before.push((k - 1) as usize);
            assert forall|j: int| 0 <= j < k && keep(outcomes[j]) implies now.contains(j as usize) by {
                if j < k - 1 {
                    let a = choose|a: int| 0 <= a < before.len() && before[a] == j as usize;
                    assert(now[a] == j as usize);
                } else {
                    assert(now[before.len() as int] == j as usize);
                }
            }
        }
    }
}

/// Partition files are merged in partition order, each at most once: the
/// merge inputs are exactly the partitions that wrote rows, and the failed
/// partitions are exactly those listed as failed, none of which is merged.
pub proof fn lemma_merge_inputs_in_order(outcomes: Seq<PartitionOutcome>)
    requires
        outcomes.len() <= usize::MAX,
    ensures
        forall|a: int, b: int|
            0 <= a < b < written_indices(outcomes, outcomes.len() as int).len()
                ==> #[trigger] written_indices(outcomes, outcomes.len() as int)[a]
                < #[trigger] written_indices(outcomes, outcomes.len() as int)[b],
        forall|j: int|
            0 <= j < outcomes.len() ==> (written_indices(outcomes, outcomes.len() as int).contains(j as usize)
                <==> wrote_rows(#[trigger] outcomes[j])),
        forall|j: int|
            0 <= j < outcomes.len() ==> (failed_indices(outcomes, outcomes.len() as int).contains(j as usize)
                <==> failed(#[trigger] outcomes[j])),
{
    let n = outcomes.len() as int;
    lemma_indices_ordered(outcomes, n, |o| wrote_rows(o));
    lemma_indices_ordered(outcomes, n, |o| failed(o));
    assert forall|j: int| 0 <= j < n implies (written_indices(outcomes, n).contains(j as usize)
        <==> wrote_rows(#[trigger] outcomes[j])) by {
        let w = written_indices(outcomes, n);
        if w.contains(j as usize) {
            let a = choose|a: int| 0 <= a < w.len() && w[a] == j as usize;
            assert(w[a] < n);
        }
    }
    assert forall|j: int| 0 <= j < n implies (failed_indices(outcomes, n).contains(j as usize)
        <==> failed(#[trigger] outcomes[j])) by {
        let f = failed_indices(outcomes, n);
        if f.contains(j as usize) {
            let a = choose|a: int| 0 <= a < f.len() && f[a] == j as usize;
            assert(f[a] < n);
        }
    }
}

/// Sum of the first `k` row counts.
pub open spec fn sum_rows(counts: Seq<usize>, k: int) -> nat
    decreases k,
{
    if k <= 0 { 0 } else { sum_rows(counts, k - 1) + counts[k - 1] as nat }
}

proof fn lemma_failed_prefix(outcomes: Seq<PartitionOutcome>, counts: Seq<usize>, f: int, k: int)
    requires
        outcomes.len() == counts.len(),
        0 <= f < outcomes.len(),
        0 <= k <= outcomes.len(),
        outcomes[f] is Failed,
        forall|i: int| 0 <= i < outcomes.len() && i != f ==> #[trigger] outcomes[i] == PartitionOutcome::Written(counts[i]),
    ensures
        failed_indices(outcomes, k) == (if f < k { seq![f as usize] } else { Seq::<usize>::empty() }),
        rows_written(outcomes, k) + (if f < k { counts[f] as nat } else { 0nat }) == sum_rows(counts, k),
    decreases k,
{
    if k > 0 {
        lemma_failed_prefix(outcomes, counts, f, k - 1);
        if k - 1 == f {
            assert(failed_indices(outcomes, k) == failed_indices(outcomes, k - 1).push(f as usize));
            assert(Seq::<usize>::empty().push(f as usize) =~= seq![f as usize]);
        } else {
            assert(outcomes[k - 1] == PartitionOutcome::Written(counts[k - 1]));
        }
    }
}

/// When partition `f` fails and every other partition `i` writes
/// `counts[i]` rows, the failure is reported for `f` alone, and the rows
/// counted are those of the other partitions: short of the table's rows by
/// exactly those of `f`, so strictly short when `f` held any.
pub proof fn lemma_failed_partition_isolated(outcomes: Seq<PartitionOutcome>, counts: Seq<usize>, f: int)
    requires
        outcomes.len() == counts.len(),
        0 <= f < outcomes.len(),
        outcomes[f] is Failed,
        forall|i: int| 0 <= i < outcomes.len() && i != f ==> #[trigger] outcomes[i] == PartitionOutcome::Written(counts[i]),
    ensures
        failed_indices(outcomes, outcomes.len() as int) == seq![f as usize],
        rows_written(outcomes, outcomes.len() as int) + counts[f] == sum_rows(counts, counts.len() as int),
        counts[f] >= 1 ==> rows_written(outcomes, outcomes.len() as int) < sum_rows(counts, counts.len() as int),
{
    lemma_failed_prefix(outcomes, counts, f, outcomes.len() as int);
}

/// How partition files become the table's file.
#[derive(Clone, Copy, Debug, PartialEq, Eq, Structural)]
pub enum MergePlan {
    /// No input: nothing is written.
    Nothing,
    /// One input: its file is copied byte for byte.
    CopySingle,
    /// Several inputs: the first file's schema is taken and every batch of
    /// every input is written, input after input, each in file order.
    Concatenate,
}

pub open spec fn merge_plan_for(inputs: nat) -> MergePlan {
    if inputs == 0 {
        MergePlan::Nothing
    } else if inputs == 1 {
        MergePlan::CopySingle
    } else {
        MergePlan::Concatenate
    }
}

/// Chooses how `inputs` partition files are merged.
pub fn plan_merge(inputs: usize) -> (r: MergePlan)
    ensures
        r == merge_plan_for(inputs as nat),
{
    if inputs == 0 {
        MergePlan::Nothing
    } else if inputs == 1 {
        MergePlan::CopySingle
    } else {
        MergePlan::Concatenate
    }
}

/// Number of chunks of `size` rows needed for `total` rows.
pub open spec fn chunk_count(total: int, size: int) -> int {
    total / size + if total % size == 0 { 0int } else { 1int }
}

/// Bounds of chunk `i` when rows are cut into chunks of `size`.
pub open spec fn chunk(total: int, size: int, i: int) -> (usize, usize) {
    let lo = i * size;
    let hi = if total - lo > size { lo + size } else { total };
    (lo as usize, hi as usize)
}

proof fn lemma_chunk_start_below(total: int, size: int, i: int)
    requires
        size >= 1,
        total >= 0,
        0 <= i < chunk_count(total, size),
    ensures
        0 <= i * size < total,
{
    lemma_fundamental_div_mod(total, size);
    let q = total / size;
    let m = total % size;
    assert(0 <= m < size);
    assert(0 <= i * size < total) by (nonlinear_arith)
        requires
            total == size * q + m,
            0 <= m < size,
            0 <= i,
            i < q + if m == 0 { 0int } else { 1int },
            size >= 1,
    ;
}

/// Cuts `total` fetched rows into consecutive chunks of `size` rows, the last
/// one possibly shorter; each pair is a half-open row range.
pub fn chunk_bounds(total: usize, size: usize) -> (r: Vec<(usize, usize)>)
    requires
        size >= 1,
    ensures
        r@.len() == chunk_count(total as int, size as int),
        forall|i: int| 0 <= i < r@.len() ==> #[trigger] r@[i] == chunk(total as int, size as int, i),
{
    proof {
        lemma_fundamental_div_mod(total as int, size as int);
        let q = total as int / size as int;
        let m = total as int % size as int;
        assert(m != 0 ==> q < total) by (nonlinear_arith)
            requires
                total == size * q + m,
                0 <= m < size,
                size >= 1,
                q >= 0,
        ;
    }
    let count: usize = total / size + if total % size == 0 { 0 } else { 1 };
    let mut bounds: Vec<(usize, usize)> = Vec::new();
    let mut i: usize = 0;
    while i < count
        invariant
            size >= 1,
            count as int == chunk_count(total as int, size as int),
            i <= count,
            bounds@.len() == i,
            forall|j: int| 0 <= j < i ==> #[trigger] bounds@[j] == chunk(total as int, size as int, j),
        decreases count - i,
    {
        proof {
            lemma_chunk_start_below(total as int, size as int, i as int);
        }
        let lo: usize = i * size;
        let hi: usize = if total - lo > size { lo + size } else { total };
        bounds.push((lo, hi));
        i += 1;
    }
    bounds
}

} // verus!
