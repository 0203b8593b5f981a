//! Reduction of a sample set to a benchmark result.

use vstd::prelude::*;
use crate::config::{bytes_moved, OperationKind};
use crate::error::BenchError;
use crate::stats::{
    greatest, least, lemma_mean_within_extremes, lemma_total_bounded, mean, total,
};

verus! {

/// Nanoseconds in one second.
pub const NANOS_PER_SECOND: u128 = 1_000_000_000;

/// Summary of the sample set of one configuration. Durations are in
/// nanoseconds.
#[derive(Clone, Copy, Debug, PartialEq, Eq, Structural)]
pub struct BenchmarkResult {
    pub operation: OperationKind,
    /// Bytes per transfer.
    pub block_size: u64,
    /// The repetitions that the run was charged with.
    pub iterations: u32,
    pub min_time: u64,
    pub max_time: u64,
    /// Mean duration of a repetition, rounded down.
    pub avg_time: u64,
    /// Elapsed time of all repetitions together.
    pub total_time: u128,
    /// Bytes that all repetitions together moved.
    pub total_bytes: u128,
}

/// Bytes per second when `bytes` bytes take `nanos` nanoseconds, rounded
/// down. Nothing can be said of a transfer that took no measurable time, nor
/// of a byte count too large to scale to seconds.
pub open spec fn rate(bytes: u128, nanos: u128) -> Option<u128> {
    if nanos == 0 || bytes * NANOS_PER_SECOND > u128::MAX {
        None
    } else {
        Some(((bytes * NANOS_PER_SECOND) / (nanos as int)) as u128)
    }
}

/// Computes `rate`.
pub fn bytes_per_second(bytes: u128, nanos: u128) -> (r: Option<u128>)
    ensures
        r == rate(bytes, nanos),
{
    if nanos == 0 {
        return None;
    }
    match bytes.checked_mul(NANOS_PER_SECOND) {
        Some(scaled) => Some(scaled / nanos),
        None => None,
    }
}

/// The bytes of any run scale to a second without leaving 128 bits.
pub proof fn lemma_bytes_moved_scale(operation: OperationKind, block_size: u64, iterations: u32)
    ensures
        bytes_moved(operation, block_size, iterations) * NANOS_PER_SECOND <= u128::MAX,
        bytes_moved(operation, block_size, iterations) <= 2 * 0xFFFF_FFFF_FFFF_FFFF * 0xFFFF_FFFF,
{
    let transfers = operation.spec_transfers();
    assert(transfers * (block_size as nat) * (iterations as nat) <= 2 * 0xFFFF_FFFF_FFFF_FFFF
        * 0xFFFF_FFFF) by (nonlinear_arith)
        requires
            1 <= transfers <= 2,
            block_size <= 0xFFFF_FFFF_FFFF_FFFF,
            iterations <= 0xFFFF_FFFF,
    ;
}

/// The throughput of a summary is the bytes of the whole run over the sum
/// of its samples, scaled to a second and rounded down: it is defined for
/// every sample set that took any time at all.
pub proof fn lemma_throughput_of_summary(
    result: BenchmarkResult,
    operation: OperationKind,
    block_size: u64,
    iterations: u32,
    samples: Seq<u64>,
)
    requires
        result.summarizes(operation, block_size, iterations, samples),
    ensures
        total(samples) == 0 ==> result.spec_throughput() is None,
        total(samples) > 0 ==> result.spec_throughput() == Some(
            ((bytes_moved(operation, block_size, iterations) * NANOS_PER_SECOND) / (total(
                samples,
            ) as int)) as u128,
        ),
{
    lemma_bytes_moved_scale(operation, block_size, iterations);
}

impl BenchmarkResult {
    /// `self` is the summary of `samples`, taken with transfers of
    /// `block_size` bytes and charged with `iterations` repetitions.
    pub open spec fn summarizes(
        self,
        operation: OperationKind,
        block_size: u64,
        iterations: u32,
        samples: Seq<u64>,
    ) -> bool {
        &&& self.operation == operation
        &&& self.block_size == block_size
        &&& self.iterations == iterations
        &&& self.min_time == least(samples)
        &&& self.max_time == greatest(samples)
        &&& self.avg_time == mean(samples)
        &&& self.total_time == total(samples)
        &&& self.total_bytes == bytes_moved(operation, block_size, iterations)
    }

    /// Throughput in bytes per second: all bytes moved over all time
    /// elapsed, not a mean of per-sample rates.
    pub open spec fn spec_throughput(self) -> Option<u128> {
        rate(self.total_bytes, self.total_time)
    }

    /// Reduces `times`, one duration per repetition, to a result.
    ///
    /// An empty sample set has no minimum, maximum or mean and is refused.
    /// The mean divides by the number of samples; the byte count is that of
    /// `iterations` repetitions of `operation`.
    pub fn new(
        operation: OperationKind,
        block_size: u64,
        iterations: u32,
        times: &[u64],
    ) -> (r: Result<BenchmarkResult, BenchError>)
        ensures
            times@.len() == 0 ==> r == Err::<BenchmarkResult, BenchError>(BenchError::Precondition),
            times@.len() > 0 ==> r is Ok,
            r matches Ok(b) ==> {
                &&& b.summarizes(operation, block_size, iterations, times@)
                &&& b.min_time <= b.avg_time <= b.max_time
                &&& b.total_bytes * NANOS_PER_SECOND <= u128::MAX
                &&& b.total_time > 0 ==> b.spec_throughput() == Some(
                    ((bytes_moved(operation, block_size, iterations) * NANOS_PER_SECOND) / (total(
                        times@,
                    ) as int)) as u128,
                )
            },
    {
        let count: usize = times.len();
        if count == 0 {
            return Err(BenchError::Precondition);
        }
        let mut min_time: u64 = times[0];
        let mut max_time: u64 = times[0];
        let mut total_time: u128 = times[0] as u128;
        let mut i: usize = 1;
        proof {
            assert(total(times@.take(1).drop_last()) == 0);
        }
        while i < count
            invariant
                1 <= i <= count,
                count == times@.len(),
                min_time == least(times@.take(i as int)),
                max_time == greatest(times@.take(i as int)),
                total_time == total(times@.take(i as int)),
            decreases count - i,
        {
            let sample: u64 = times[i];
            proof {
                let upto = times@.take(i as int + 1);
                assert(upto.drop_last() =~= times@.take(i as int));
                lemma_total_bounded(upto);
                assert(upto.len() * u64::MAX <= usize::MAX * u64::MAX) by (nonlinear_arith)
                    requires
                        upto.len() <= usize::MAX,
                ;
            }
            if sample < min_time {
                min_time = sample;
            }
            if sample > max_time {
                max_time = sample;
            }
            total_time = total_time + sample as u128;
            i = i + 1;
        }
        proof {
            assert(times@.take(count as int) =~= times@);
            lemma_mean_within_extremes(times@);
        }
        let avg_time: u64 = (total_time / (count as u128)) as u64;
        let transfers: u128 = operation.transfers() as u128;
        proof {
            lemma_bytes_moved_scale(operation, block_size, iterations);
            assert(transfers * block_size <= 2 * 0xFFFF_FFFF_FFFF_FFFF) by (nonlinear_arith)
                requires
                    1 <= transfers <= 2,
                    block_size <= 0xFFFF_FFFF_FFFF_FFFF,
            ;
        }
        let total_bytes: u128 = transfers * (block_size as u128) * (iterations as u128);
        Ok(
            BenchmarkResult {
                operation,
                block_size,
                iterations,
                min_time,
                max_time,
                avg_time,
                total_time,
                total_bytes,
            },
        )
    }

    /// Throughput in bytes per second, where it is defined.
    pub fn throughput(&self) -> (r: Option<u128>)
        ensures
            r == self.spec_throughput(),
    {
        bytes_per_second(self.total_bytes, self.total_time)
    }
}

} // verus!
