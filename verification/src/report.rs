//! What a sweep amounts to: per operation, the configuration with the
//! highest throughput and the mean throughput over all transaction sizes.
//!
//! Throughput is counted in whole bytes per second. A result without a
//! defined throughput, because its repetitions took no measurable time,
//! takes no part in either figure.

use vstd::prelude::*;
use crate::config::OperationKind;
use crate::result::BenchmarkResult;
use crate::sweep::Failure;

verus! {

/// Whether `result` belongs to `operation` and has a throughput.
pub open spec fn rated(result: BenchmarkResult, operation: OperationKind) -> bool {
    result.operation == operation && result.spec_throughput() is Some
}

/// Number of rated results of `operation`.
pub open spec fn rated_count(results: Seq<BenchmarkResult>, operation: OperationKind) -> nat
    decreases results.len(),
{
    if results.len() == 0 {
        0
    } else {
        rated_count(results.drop_last(), operation) + if rated(results.last(), operation) {
            1nat
        } else {
            0nat
        }
    }
}

/// Sum of the throughputs of the rated results of `operation`.
pub open spec fn rated_sum(results: Seq<BenchmarkResult>, operation: OperationKind) -> nat
    decreases results.len(),
{
    if results.len() == 0 {
        0
    } else {
        rated_sum(results.drop_last(), operation) + if rated(results.last(), operation) {
            results.last().spec_throughput()->0 as nat
        } else {
            0nat
        }
    }
}

/// `results[i]` has the highest throughput of `operation`; of several with
/// that throughput it is the last.
pub open spec fn is_best(results: Seq<BenchmarkResult>, operation: OperationKind, i: int) -> bool {
    &&& 0 <= i < results.len()
    &&& rated(results[i], operation)
    &&& forall|j: int|
        0 <= j < results.len() && rated(#[trigger] results[j], operation) ==> {
            &&& results[j].spec_throughput()->0 <= results[i].spec_throughput()->0
            &&& j > i ==> results[j].spec_throughput()->0 < results[i].spec_throughput()->0
        }
}

/// Mean throughput of `operation` over its rated results, rounded down:
/// undefined where there is none, or where their sum is beyond 128 bits.
pub open spec fn mean_throughput_of(
    results: Seq<BenchmarkResult>,
    operation: OperationKind,
) -> Option<u128> {
    if rated_count(results, operation) == 0 || rated_sum(results, operation) > u128::MAX {
        None
    } else {
        Some((rated_sum(results, operation) / rated_count(results, operation)) as u128)
    }
}

/// Nothing is rated exactly when the count is zero.
pub proof fn lemma_rated_count_zero(results: Seq<BenchmarkResult>, operation: OperationKind)
    ensures
        rated_count(results, operation) == 0 <==> forall|j: int|
            0 <= j < results.len() ==> !rated(#[trigger] results[j], operation),
        rated_count(results, operation) <= results.len(),
    decreases results.len(),
{
    if results.len() > 0 {
        let front = results.drop_last();
        lemma_rated_count_zero(front, operation);
        if rated_count(results, operation) == 0 {
            assert forall|j: int| 0 <= j < results.len() implies !rated(
                #[trigger] results[j],
                operation,
            ) by {
                if j < front.len() {
                    assert(front[j] == results[j]);
                }
            }
        } else if forall|j: int| 0 <= j < results.len() ==> !rated(#[trigger] results[j], operation) {
            assert(!rated(results[results.len() - 1], operation));
            assert forall|j: int| 0 <= j < front.len() implies !rated(
                #[trigger] front[j],
                operation,
            ) by {
                assert(front[j] == results[j]);
            }
        }
    }
}

/// The best result is unique: two indices that are both best are the same.
pub proof fn lemma_best_is_unique(
    results: Seq<BenchmarkResult>,
    operation: OperationKind,
    i: int,
    j: int,
)
    requires
        is_best(results, operation, i),
        is_best(results, operation, j),
    ensures
        i == j,
{
}

/// The figures of one operation.
#[derive(Clone, Copy, Debug, PartialEq, Eq, Structural)]
pub struct OperationSummary {
    pub operation: OperationKind,
    /// Position, among the results, of the one with the highest throughput.
    pub best: Option<usize>,
    /// Mean throughput in bytes per second.
    pub mean_throughput: Option<u128>,
}

/// Finds the result of `operation` with the highest throughput.
pub fn best_result(
    results: &Vec<BenchmarkResult>,
    operation: OperationKind,
) -> (best: Option<usize>)
    ensures
        best matches Some(i) ==> is_best(results@, operation, i as int),
        best is None <==> rated_count(results@, operation) == 0,
{
    let mut best: Option<usize> = None;
    let mut best_rate: u128 = 0;
    let mut i: usize = 0;
    while i < results.len()
        invariant
            i <= results@.len(),
            best matches Some(b) ==> {
                &&& is_best(results@.take(i as int), operation, b as int)
                &&& best_rate == results@[b as int].spec_throughput()->0
            },
            best is None ==> forall|j: int| 0 <= j < i ==> !rated(#[trigger] results@[j], operation),
        decreases results@.len() - i,
    {
        let candidate: BenchmarkResult = results[i];
        let ghost before = results@.take(i as int);
        let ghost upto = results@.take(i as int + 1);
        let throughput: Option<u128> = candidate.throughput();
        let mut taken: bool = false;
        if candidate.operation == operation {
            if let Some(t) = throughput {
                if best.is_none() || t >= best_rate {
                    proof {
                        assert forall|j: int|
                            0 <= j < upto.len() && rated(
                                #[trigger] upto[j],
                                operation,
                            ) implies upto[j].spec_throughput()->0 <= t by {
                            if j < i {
                                assert(before[j] == upto[j]);
                            }
                        }
                    }
                    best = Some(i);
                    best_rate = t;
                    taken = true;
                }
            }
        }
        proof {
            if !taken {
                lemma_earlier_best_stays(results@, operation, i as int, best);
            }
        }
        i = i + 1;
    }
    proof {
        assert(results@.take(results@.len() as int) =~= results@);
        lemma_rated_count_zero(results@, operation);
        if let Some(b) = best {
            assert(rated(results@[b as int], operation));
        }
    }
    best
}

/// A result that is unrated, or slower than the best before it, leaves the
/// best where it was.
proof fn lemma_earlier_best_stays(
    results: Seq<BenchmarkResult>,
    operation: OperationKind,
    i: int,
    best: Option<usize>,
)
    requires
        0 <= i < results.len(),
        best matches Some(b) ==> is_best(results.take(i), operation, b as int),
        best matches Some(b) ==> (rated(results[i], operation) ==> results[i].spec_throughput()->0
            < results[b as int].spec_throughput()->0),
    ensures
        best matches Some(b) ==> is_best(results.take(i + 1), operation, b as int),
{
    if let Some(b) = best {
        let before = results.take(i);
        let upto = results.take(i + 1);
        assert(before[b as int] == upto[b as int]);
        assert forall|j: int| 0 <= j < upto.len() && rated(#[trigger] upto[j], operation) implies {
            &&& upto[j].spec_throughput()->0 <= upto[b as int].spec_throughput()->0
            &&& j > b ==> upto[j].spec_throughput()->0 < upto[b as int].spec_throughput()->0
        } by {
            if j < i {
                assert(before[j] == upto[j]);
            }
        }
    }
}

/// Averages the throughput of `operation` over its rated results.
pub fn mean_throughput(
    results: &Vec<BenchmarkResult>,
    operation: OperationKind,
) -> (mean: Option<u128>)
    ensures
        mean == mean_throughput_of(results@, operation),
{
    let mut sum: u128 = 0;
    let mut count: usize = 0;
    let mut i: usize = 0;
    while i < results.len()
        invariant
            i <= results@.len(),
            count == rated_count(results@.take(i as int), operation),
            count <= i,
            sum == rated_sum(results@.take(i as int), operation),
        decreases results@.len() - i,
    {
        let candidate: BenchmarkResult = results[i];
        proof {
            assert(results@.take(i as int + 1).drop_last() =~= results@.take(i as int));
            assert(results@.take(i as int + 1).last() == candidate);
        }
        if candidate.operation == operation {
            match candidate.throughput() {
                Some(t) => {
                    match sum.checked_add(t) {
                        Some(more) => {
                            sum = more;
                            count = count + 1;
                        },
                        None => {
                            proof {
                                lemma_rated_sum_grows(
                                    results@,
                                    operation,
                                    i as int + 1,
                                    results@.len() as int,
                                );
                                assert(results@.take(results@.len() as int) =~= results@);
                            }
                            return None;
                        },
                    }
                },
                None => {},
            }
        }
        i = i + 1;
    }
    proof {
        assert(results@.take(results@.len() as int) =~= results@);
    }
    if count == 0 {
        None
    } else {
        Some(sum / (count as u128))
    }
}

/// Looking at more results never lowers the sum.
pub proof fn lemma_rated_sum_grows(
    results: Seq<BenchmarkResult>,
    operation: OperationKind,
    i: int,
    j: int,
)
    requires
        0 <= i <= j <= results.len(),
    ensures
        rated_sum(results.take(i), operation) <= rated_sum(results.take(j), operation),
    decreases j - i,
{
    if i < j {
        lemma_rated_sum_grows(results, operation, i, j - 1);
        assert(results.take(j).drop_last() =~= results.take(j - 1));
    }
}

/// Summarises the results of `operation`.
pub fn summarize(
    results: &Vec<BenchmarkResult>,
    operation: OperationKind,
) -> (summary: OperationSummary)
    ensures
        summarizes(summary, results@, operation),
{
    OperationSummary {
        operation,
        best: best_result(results, operation),
        mean_throughput: mean_throughput(results, operation),
    }
}

/// `summary` holds the figures of `operation` over `results`.
pub open spec fn summarizes(
    summary: OperationSummary,
    results: Seq<BenchmarkResult>,
    operation: OperationKind,
) -> bool {
    &&& summary.operation == operation
    &&& summary.best matches Some(i) ==> is_best(results, operation, i as int)
    &&& summary.best is None <==> rated_count(results, operation) == 0
    &&& summary.mean_throughput == mean_throughput_of(results, operation)
}

/// What a sweep leaves behind: a row for every configuration that
/// succeeded, a note for every one that failed, and the figures of each
/// operation.
#[derive(Debug)]
pub struct Report {
    /// One result per configuration that succeeded, in the order of the
    /// sweep.
    pub results: Vec<BenchmarkResult>,
    /// The configurations that failed, in the order of the sweep.
    pub failures: Vec<Failure>,
    pub read: OperationSummary,
    pub write: OperationSummary,
    pub read_write: OperationSummary,
}

impl Report {
    /// `self` is the report of a sweep that ended with `results` and
    /// `failures`.
    pub open spec fn is_report_of(
        self,
        results: Seq<BenchmarkResult>,
        failures: Seq<Failure>,
    ) -> bool {
        &&& self.results@ == results
        &&& self.failures@ == failures
        &&& summarizes(self.read, results, OperationKind::Read)
        &&& summarizes(self.write, results, OperationKind::Write)
        &&& summarizes(self.read_write, results, OperationKind::ReadWrite)
    }
}

/// Assembles the report of a sweep.
pub fn assemble(results: Vec<BenchmarkResult>, failures: Vec<Failure>) -> (report: Report)
    ensures
        report.is_report_of(results@, failures@),
{
    let read = summarize(&results, OperationKind::Read);
    let write = summarize(&results, OperationKind::Write);
    let read_write = summarize(&results, OperationKind::ReadWrite);
    Report { results, failures, read, write, read_write }
}

} // verus!
