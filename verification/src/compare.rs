//! Comparing access paths: the same operation, once through calls into the
//! region and once through a mapping of it.

use vstd::prelude::*;
use crate::collector::{access_at, Access, Event, Step};
use crate::config::{bytes_moved, AccessPath, BenchConfig, OperationKind};
use crate::driver::{measured, VfioBenchmark};
use crate::error::BenchError;
use crate::result::BenchmarkResult;
use crate::sweep::SweepConfig;

verus! {

/// Two configurations can be compared when they differ in nothing but the
/// access path: same operation, same transaction size, same number of
/// repetitions, same window, same offsets.
pub open spec fn comparable(a: BenchConfig, b: BenchConfig) -> bool {
    b == (BenchConfig { access_path: b.access_path, ..a })
}

/// Runs that can be compared ask for the same accesses, repetition by
/// repetition, and move the same number of bytes: nothing but the path by
/// which the bytes travel sets them apart.
pub proof fn lemma_comparable_runs_touch_the_same(a: BenchConfig, b: BenchConfig, i: nat)
    requires
        comparable(a, b),
    ensures
        access_at(b, i) == (Access { path: b.access_path, ..access_at(a, i) }),
        bytes_moved(b.operation, b.transaction_size, b.iterations) == bytes_moved(
            a.operation,
            a.transaction_size,
            a.iterations,
        ),
{
}

/// The two runs that test one transaction size.
#[derive(Clone, Copy, Debug, PartialEq, Eq, Structural)]
pub struct ComparisonPair {
    /// Every transfer is a call into the region.
    pub direct: BenchConfig,
    /// Every transfer is a copy from or to a mapping of the window.
    pub mapped: BenchConfig,
}

/// The pair that tests `size` with `operation` under `config`.
pub open spec fn pair_for(
    config: &SweepConfig,
    operation: OperationKind,
    size: u64,
) -> ComparisonPair {
    let base = crate::sweep::point(
        config.banding,
        AccessPath::Bulk,
        config.strategy,
        config.window_size,
        operation,
        size,
    );
    ComparisonPair { direct: base, mapped: BenchConfig { access_path: AccessPath::Mapped, ..base } }
}

/// The pairs of a comparison, one per size.
pub open spec fn comparison_of(config: &SweepConfig, operation: OperationKind) -> Seq<
    ComparisonPair,
> {
    Seq::new(config.sizes@.len(), |i: int| pair_for(config, operation, config.sizes@[i]))
}

/// The two runs of every pair are comparable, and only the second maps.
pub proof fn lemma_pairs_are_comparable(config: &SweepConfig, operation: OperationKind, i: int)
    requires
        0 <= i < config.sizes@.len(),
    ensures
        comparable(
            comparison_of(config, operation)[i].direct,
            comparison_of(config, operation)[i].mapped,
        ),
        comparison_of(config, operation)[i].direct.access_path is Bulk,
        comparison_of(config, operation)[i].mapped.access_path is Mapped,
        comparison_of(config, operation)[i].direct.transaction_size == config.sizes@[i],
{
}

/// Lists the pairs of runs that compare the two paths for `operation`, one
/// pair per transaction size of `config`.
pub fn comparison_plan(config: &SweepConfig, operation: OperationKind) -> (pairs: Vec<
    ComparisonPair,
>)
    ensures
        pairs@ == comparison_of(config, operation),
{
    let mut pairs: Vec<ComparisonPair> = Vec::new();
    let mut i: usize = 0;
    while i < config.sizes.len()
        invariant
            i <= config.sizes@.len(),
            pairs@.len() == i,
            forall|k: int|
                0 <= k < i ==> pairs@[k] == pair_for(config, operation, config.sizes@[k]),
        decreases config.sizes@.len() - i,
    {
        let size: u64 = config.sizes[i];
        let direct = BenchConfig {
            operation,
            access_path: AccessPath::Bulk,
            strategy: config.strategy,
            transaction_size: size,
            iterations: crate::sweep::choose_iterations(config.banding, operation, size),
            window_size: config.window_size,
        };
        let mapped = BenchConfig { access_path: AccessPath::Mapped, ..direct };
        pairs.push(ComparisonPair { direct, mapped });
        i = i + 1;
    }
    pairs
}

/// What the two runs of a pair came to.
#[derive(Clone, Copy, Debug)]
pub struct PathComparison {
    pub pair: ComparisonPair,
    pub direct: Result<BenchmarkResult, BenchError>,
    pub mapped: Result<BenchmarkResult, BenchError>,
}

/// `comparison` holds what `execute` made of the two runs of `pair` on the
/// region of `benchmark`.
pub open spec fn compared<F: Fn(Step) -> Event>(
    benchmark: &VfioBenchmark,
    pair: ComparisonPair,
    execute: F,
    comparison: PathComparison,
) -> bool {
    &&& comparison.pair == pair
    &&& measured(benchmark.region, pair.direct, execute, comparison.direct)
    &&& measured(benchmark.region, pair.mapped, execute, comparison.mapped)
}

/// Measures `operation` on both paths for every transaction size of the
/// benchmark: first through the mapping, then through calls, with the same
/// transfers and the same number of repetitions.
pub fn compare_paths<F: Fn(Step) -> Event>(
    benchmark: &VfioBenchmark,
    operation: OperationKind,
    execute: &F,
) -> (comparisons: Vec<PathComparison>)
    requires
        forall|step: Step| call_requires(*execute, (step,)),
    ensures
        comparisons@.len() == benchmark.config.sizes@.len(),
        forall|i: int|
            0 <= i < comparisons@.len() ==> compared(
                benchmark,
                comparison_of(&benchmark.config, operation)[i],
                *execute,
                #[trigger] comparisons@[i],
            ),
{
    let pairs: Vec<ComparisonPair> = comparison_plan(&benchmark.config, operation);
    let mut comparisons: Vec<PathComparison> = Vec::new();
    let mut i: usize = 0;
    while i < pairs.len()
        invariant
            forall|step: Step| call_requires(*execute, (step,)),
            pairs@ == comparison_of(&benchmark.config, operation),
            i <= pairs@.len(),
            comparisons@.len() == i,
            forall|k: int|
                0 <= k < i ==> compared(benchmark, pairs@[k], *execute, #[trigger] comparisons@[k]),
        decreases pairs@.len() - i,
    {
        let pair: ComparisonPair = pairs[i];
        let mapped = benchmark.measure(pair.mapped, execute);
        let direct = benchmark.measure(pair.direct, execute);
        comparisons.push(PathComparison { pair, direct, mapped });
        i = i + 1;
    }
    comparisons
}

/// Whether two rates differ by no more than `percent` hundredths of the
/// larger of them, a hundredth being rounded down to a whole number. A
/// tolerance of a hundred per cent or more accepts every pair.
pub open spec fn rates_agree(a: u128, b: u128, percent: u8) -> bool {
    let high = if a >= b {
        a
    } else {
        b
    };
    let low = if a >= b {
        b
    } else {
        a
    };
    percent >= 100 || high - low <= (high / 100) * percent
}

/// Agreement does not depend on the order of the two rates, a rate agrees
/// with itself, and a wider tolerance accepts what a narrower one does.
pub proof fn lemma_rates_agree_properties(a: u128, b: u128, narrow: u8, wide: u8)
    requires
        narrow <= wide,
    ensures
        rates_agree(a, b, narrow) == rates_agree(b, a, narrow),
        rates_agree(a, a, narrow),
        rates_agree(a, b, narrow) ==> rates_agree(a, b, wide),
{
    let high = if a >= b {
        a
    } else {
        b
    };
    assert((high / 100) * narrow <= (high / 100) * wide) by (nonlinear_arith)
        requires
            narrow <= wide,
            high / 100 >= 0,
    ;
    assert(0 <= (a / 100) * narrow) by (nonlinear_arith)
        requires
            a / 100 >= 0,
            narrow >= 0,
    ;
}

/// Whether the throughputs of two results agree within `percent` per cent.
/// A result without a throughput agrees with nothing.
pub fn throughputs_agree(a: &BenchmarkResult, b: &BenchmarkResult, percent: u8) -> (agree: bool)
    ensures
        agree == match (a.spec_throughput(), b.spec_throughput()) {
            (Some(x), Some(y)) => rates_agree(x, y, percent),
            _ => false,
        },
{
    match (a.throughput(), b.throughput()) {
        (Some(x), Some(y)) => {
            if percent >= 100 {
                return true;
            }
            let high: u128 = if x >= y {
                x
            } else {
                y
            };
            let low: u128 = if x >= y {
                y
            } else {
                x
            };
            let hundredth: u128 = high / 100;
            assert(hundredth * percent <= high) by (nonlinear_arith)
                requires
                    hundredth == high / 100,
                    percent < 100,
                    high >= 0,
            ;
            high - low <= hundredth * (percent as u128)
        },
        _ => false,
    }
}

} // verus!
