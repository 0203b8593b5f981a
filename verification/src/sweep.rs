//! The sweep: which configurations are run, with how many repetitions, and
//! what is kept of each.

use vstd::prelude::*;
use crate::config::{AccessPath, BenchConfig, OffsetStrategy, OperationKind};
use crate::error::BenchError;
use crate::report::{assemble, Report};
use crate::result::BenchmarkResult;

verus! {

/// How the number of repetitions follows from the transaction size.
#[derive(Clone, Copy, Debug, PartialEq, Eq, Structural)]
pub enum Banding {
    /// Fixed bands: 10000 repetitions up to 16 bytes, 5000 up to 64, 2000 up
    /// to 256, 1000 up to 1024, and 500 above.
    Standard,
    /// As many repetitions as move `total_bytes` bytes in all.
    ByteTarget { total_bytes: u64 },
}

/// Repetitions of a pure read or write run with transfers of `size` bytes.
/// A byte target is met from below; a count that does not fit 32 bits is cut
/// to the largest that does, and a transfer of no bytes gets no repetition.
pub open spec fn iterations_for(banding: Banding, size: u64) -> u32 {
    match banding {
        Banding::Standard => if size <= 16 {
            10000
        } else if size <= 64 {
            5000
        } else if size <= 256 {
            2000
        } else if size <= 1024 {
            1000
        } else {
            500
        },
        Banding::ByteTarget { total_bytes } => if size == 0 {
            0
        } else if total_bytes / size > u32::MAX {
            u32::MAX
        } else {
            (total_bytes / size) as u32
        },
    }
}

/// Repetitions of a run of `operation`: the read-then-write mode makes two
/// transfers per repetition and gets half the repetitions of a pure mode.
pub open spec fn iterations_for_operation(
    banding: Banding,
    operation: OperationKind,
    size: u64,
) -> u32 {
    if operation is ReadWrite {
        iterations_for(banding, size) / 2
    } else {
        iterations_for(banding, size)
    }
}

/// Larger transactions never get more repetitions than smaller ones, and
/// every size gets between 500 and 10000.
pub proof fn lemma_standard_bands_decrease(small: u64, large: u64)
    requires
        small <= large,
    ensures
        iterations_for(Banding::Standard, small) >= iterations_for(Banding::Standard, large),
        500 <= iterations_for(Banding::Standard, small) <= 10000,
{
}

/// Under a byte target every size moves the same volume, up to less than
/// one transaction.
pub proof fn lemma_byte_target_is_met(total_bytes: u64, size: u64)
    requires
        size > 0,
        total_bytes / size <= u32::MAX,
    ensures
        ({
            let n = iterations_for(Banding::ByteTarget { total_bytes }, size);
            n * size <= total_bytes < (n + 1) * size
        }),
{
    vstd::arithmetic::div_mod::lemma_fundamental_div_mod(total_bytes as int, size as int);
    vstd::arithmetic::div_mod::lemma_mod_bound(total_bytes as int, size as int);
    let n = (total_bytes / size) as int;
    assert(n * size == size * n) by (nonlinear_arith);
    assert((n + 1) * size == n * size + size) by (nonlinear_arith);
}

/// Halving keeps the number of transfers of the read-then-write mode within
/// one of that of a pure mode.
pub proof fn lemma_read_write_transfers_comparable(banding: Banding, size: u64)
    ensures
        ({
            let pure = iterations_for(banding, size);
            let both = iterations_for_operation(banding, OperationKind::ReadWrite, size);
            pure - 1 <= OperationKind::ReadWrite.spec_transfers() * both <= pure
        }),
{
}

/// Computes `iterations_for_operation`.
pub fn choose_iterations(banding: Banding, operation: OperationKind, size: u64) -> (n: u32)
    ensures
        n == iterations_for_operation(banding, operation, size),
{
    let pure: u32 = match banding {
        Banding::Standard => {
            if size <= 16 {
                10000
            } else if size <= 64 {
                5000
            } else if size <= 256 {
                2000
            } else if size <= 1024 {
                1000
            } else {
                500
            }
        },
        Banding::ByteTarget { total_bytes } => {
            if size == 0 {
                0
            } else {
                let count: u64 = total_bytes / size;
                if count > 0xFFFF_FFFF {
                    0xFFFF_FFFF
                } else {
                    count as u32
                }
            }
        },
    };
    match operation {
        OperationKind::ReadWrite => pure / 2,
        _ => pure,
    }
}

/// Everything that a sweep is made from.
#[derive(Clone, Debug)]
pub struct SweepConfig {
    /// Where the device is found.
    pub device_path: String,
    /// The transaction sizes to test, in the order in which they are run.
    pub sizes: Vec<u64>,
    pub banding: Banding,
    pub access_path: AccessPath,
    pub strategy: OffsetStrategy,
    /// Length of the prefix of the region that the sweep stays inside.
    pub window_size: u64,
}

/// The operation of the `k`-th run of a transaction size.
pub open spec fn operation_in_turn(k: int) -> OperationKind {
    if k == 0 {
        OperationKind::Read
    } else if k == 1 {
        OperationKind::Write
    } else {
        OperationKind::ReadWrite
    }
}

/// The configuration that tests `size` with `operation`.
pub open spec fn point(
    banding: Banding,
    access_path: AccessPath,
    strategy: OffsetStrategy,
    window_size: u64,
    operation: OperationKind,
    size: u64,
) -> BenchConfig {
    BenchConfig {
        operation,
        access_path,
        strategy,
        transaction_size: size,
        iterations: iterations_for_operation(banding, operation, size),
        window_size,
    }
}

/// The transaction sizes of the standard sweep.
pub open spec fn standard_sizes() -> Seq<u64> {
    seq![1u64, 4u64, 8u64, 16u64, 32u64, 64u64, 128u64, 256u64, 512u64, 1024u64, 2048u64, 4096u64]
}

/// Length of the window of the standard sweep: the first 16 KiB.
pub const STANDARD_WINDOW: u64 = 16384;

/// The transaction size that the path comparison tests unless told
/// otherwise.
pub const COMPARISON_SIZE: u64 = 128;

/// Length of the window of the path comparison.
pub const COMPARISON_WINDOW: u64 = 4096;

/// Bytes that each configuration of the path comparison moves: 16 MiB.
pub const COMPARISON_VOLUME: u64 = 16777216;

impl SweepConfig {
    /// The standard sweep of the device at `device_path`: twelve sizes from
    /// one byte to 4 KiB, byte by byte, wrapping inside the first 16 KiB.
    pub fn standard(device_path: String) -> (config: SweepConfig)
        ensures
            config.device_path == device_path,
            config.sizes@ == standard_sizes(),
            config.banding == Banding::Standard,
            config.access_path == AccessPath::ByteAtATime,
            config.strategy == OffsetStrategy::Wraparound,
            config.window_size == STANDARD_WINDOW,
    {
        let sizes: Vec<u64> = vec![1, 4, 8, 16, 32, 64, 128, 256, 512, 1024, 2048, 4096];
        SweepConfig {
            device_path,
            sizes,
            banding: Banding::Standard,
            access_path: AccessPath::ByteAtATime,
            strategy: OffsetStrategy::Wraparound,
            window_size: STANDARD_WINDOW,
        }
    }

    /// The sweep that compares access paths on the device at `device_path`:
    /// every size moves 16 MiB through offset 0 of a 4 KiB window. The
    /// sizes are the caller's to choose.
    pub fn comparison(device_path: String, sizes: Vec<u64>) -> (config: SweepConfig)
        ensures
            config.device_path == device_path,
            config.sizes == sizes,
            config.banding == (Banding::ByteTarget { total_bytes: COMPARISON_VOLUME }),
            config.access_path == AccessPath::Bulk,
            config.strategy == OffsetStrategy::Fixed,
            config.window_size == COMPARISON_WINDOW,
    {
        SweepConfig {
            device_path,
            sizes,
            banding: Banding::ByteTarget { total_bytes: COMPARISON_VOLUME },
            access_path: AccessPath::Bulk,
            strategy: OffsetStrategy::Fixed,
            window_size: COMPARISON_WINDOW,
        }
    }

    /// The configurations of the sweep: for each size in turn a read, a
    /// write and a read-then-write run.
    pub open spec fn spec_plan(&self) -> Seq<BenchConfig> {
        Seq::new(
            3 * self.sizes@.len(),
            |k: int|
                point(
                    self.banding,
                    self.access_path,
                    self.strategy,
                    self.window_size,
                    operation_in_turn(k % 3),
                    self.sizes@[k / 3],
                ),
        )
    }

    /// Builds the configuration that tests `size` with `operation`.
    pub fn point(&self, operation: OperationKind, size: u64) -> (c: BenchConfig)
        ensures
            c == point(
                self.banding,
                self.access_path,
                self.strategy,
                self.window_size,
                operation,
                size,
            ),
    {
        BenchConfig {
            operation,
            access_path: self.access_path,
            strategy: self.strategy,
            transaction_size: size,
            iterations: choose_iterations(self.banding, operation, size),
            window_size: self.window_size,
        }
    }

    /// Lists the configurations of the sweep in the order in which they run.
    pub fn plan(&self) -> (plan: Vec<BenchConfig>)
        ensures
            plan@ == self.spec_plan(),
    {
        let mut plan: Vec<BenchConfig> = Vec::new();
        let mut i: usize = 0;
        while i < self.sizes.len()
            invariant
                i <= self.sizes@.len(),
                plan@.len() == 3 * i,
                forall|k: int| 0 <= k < plan@.len() ==> plan@[k] == self.spec_plan()[k],
            decreases self.sizes@.len() - i,
        {
            let size: u64 = self.sizes[i];
            plan.push(self.point(OperationKind::Read, size));
            plan.push(self.point(OperationKind::Write, size));
            plan.push(self.point(OperationKind::ReadWrite, size));
            i = i + 1;
        }
        plan
    }
}

/// A configuration that did not yield a result, and why.
#[derive(Clone, Copy, Debug, PartialEq, Eq, Structural)]
pub struct Failure {
    pub config: BenchConfig,
    pub error: BenchError,
}

/// The sweep as a mathematical state machine.
#[verifier::ext_equal]
pub struct SweepState {
    pub plan: Seq<BenchConfig>,
    /// Number of configurations that have been run.
    pub position: nat,
    /// The results of the configurations that succeeded, in plan order.
    pub results: Seq<BenchmarkResult>,
    /// The configurations that failed, in plan order.
    pub failures: Seq<Failure>,
}

impl SweepState {
    pub open spec fn initial(plan: Seq<BenchConfig>) -> SweepState {
        SweepState { plan, position: 0, results: Seq::empty(), failures: Seq::empty() }
    }

    /// Every configuration that has been run is accounted for, as a result
    /// or as a failure.
    pub open spec fn wf(self) -> bool {
        &&& self.position <= self.plan.len()
        &&& self.results.len() + self.failures.len() == self.position
    }

    /// The configuration to run next, if one is left.
    pub open spec fn current(self) -> Option<BenchConfig> {
        if self.position < self.plan.len() {
            Some(self.plan[self.position as int])
        } else {
            None
        }
    }

    /// The state after the current configuration ended with `outcome`: a
    /// result is kept, a failure is noted, and in both cases the sweep moves
    /// on to the next configuration. Once the plan is exhausted nothing
    /// changes.
    pub open spec fn after(self, outcome: Result<BenchmarkResult, BenchError>) -> SweepState {
        if self.position < self.plan.len() {
            match outcome {
                Ok(result) => SweepState {
                    position: self.position + 1,
                    results: self.results.push(result),
                    ..self
                },
                Err(error) => SweepState {
                    position: self.position + 1,
                    failures: self.failures.push(
                        Failure { config: self.plan[self.position as int], error },
                    ),
                    ..self
                },
            }
        } else {
            self
        }
    }

    /// The state after a sequence of outcomes, one per configuration.
    pub open spec fn run(self, outcomes: Seq<Result<BenchmarkResult, BenchError>>) -> SweepState
        decreases outcomes.len(),
    {
        if outcomes.len() == 0 {
            self
        } else {
            self.run(outcomes.drop_last()).after(outcomes.last())
        }
    }
}

/// A failed configuration costs itself and nothing else: it is noted, no
/// result is lost, and the configuration after it is the next to run.
pub proof fn lemma_failure_does_not_stop_sweep(state: SweepState, error: BenchError)
    requires
        state.wf(),
        state.current() is Some,
    ensures
        ({
            let next = state.after(Err(error));
            &&& next.wf()
            &&& next.results == state.results
            &&& next.failures == state.failures.push(
                Failure { config: state.current()->0, error },
            )
            &&& next.position == state.position + 1
            &&& next.position < state.plan.len() ==> next.current() == Some(
                state.plan[state.position as int + 1],
            )
        }),
{
}

/// The results among `outcomes`, in order.
pub open spec fn successes(outcomes: Seq<Result<BenchmarkResult, BenchError>>) -> Seq<
    BenchmarkResult,
>
    decreases outcomes.len(),
{
    if outcomes.len() == 0 {
        Seq::empty()
    } else {
        match outcomes.last() {
            Ok(result) => successes(outcomes.drop_last()).push(result),
            Err(_) => successes(outcomes.drop_last()),
        }
    }
}

/// The errors among `outcomes`, in order, each with the configuration of
/// `plan` that it ended.
pub open spec fn failures_of(
    plan: Seq<BenchConfig>,
    outcomes: Seq<Result<BenchmarkResult, BenchError>>,
) -> Seq<Failure>
    decreases outcomes.len(),
{
    if outcomes.len() == 0 {
        Seq::empty()
    } else {
        match outcomes.last() {
            Ok(_) => failures_of(plan, outcomes.drop_last()),
            Err(error) => failures_of(plan, outcomes.drop_last()).push(
                Failure { config: plan[outcomes.len() - 1], error },
            ),
        }
    }
}

/// Whatever the outcomes, a sweep that is given one outcome per
/// configuration runs them all: it keeps one result for each configuration
/// that succeeded, notes each that failed, and is over when the plan is.
pub proof fn lemma_sweep_runs_every_configuration(
    plan: Seq<BenchConfig>,
    outcomes: Seq<Result<BenchmarkResult, BenchError>>,
)
    requires
        outcomes.len() <= plan.len(),
    ensures
        ({
            let end = SweepState::initial(plan).run(outcomes);
            &&& end.wf()
            &&& end.plan == plan
            &&& end.position == outcomes.len()
            &&& end.results == successes(outcomes)
            &&& end.failures == failures_of(plan, outcomes)
            &&& end.results.len() + end.failures.len() == outcomes.len()
            &&& outcomes.len() == plan.len() ==> end.current() is None
        }),
    decreases outcomes.len(),
{
    if outcomes.len() > 0 {
        lemma_sweep_runs_every_configuration(plan, outcomes.drop_last());
    }
}

/// `outcomes` is what `run_one` made of the configurations of `plan`, one
/// after the other: each outcome is a possible result of running its
/// configuration.
pub open spec fn outcomes_of<F: Fn(BenchConfig) -> Result<BenchmarkResult, BenchError>>(
    run_one: F,
    plan: Seq<BenchConfig>,
    outcomes: Seq<Result<BenchmarkResult, BenchError>>,
) -> bool {
    &&& outcomes.len() <= plan.len()
    &&& forall|i: int|
        0 <= i < outcomes.len() ==> call_ensures(run_one, (plan[i],), #[trigger] outcomes[i])
}

/// The executable sweep. It is made by `new` and moved on by `record`.
pub struct Sweep {
    plan: Vec<BenchConfig>,
    results: Vec<BenchmarkResult>,
    failures: Vec<Failure>,
}

impl View for Sweep {
    type V = SweepState;

    closed spec fn view(&self) -> SweepState {
        SweepState {
            plan: self.plan@,
            position: self.results@.len() + self.failures@.len(),
            results: self.results@,
            failures: self.failures@,
        }
    }
}

impl Sweep {
    #[verifier::type_invariant]
    closed spec fn inv(&self) -> bool {
        self@.wf()
    }

    /// A sweep over `plan`, with nothing run yet.
    pub fn new(plan: Vec<BenchConfig>) -> (sweep: Sweep)
        ensures
            sweep@ == SweepState::initial(plan@),
    {
        let sweep = Sweep { plan, results: Vec::new(), failures: Vec::new() };
        sweep
    }

    /// The configuration to run next; `None` when the sweep is over.
    pub fn current(&self) -> (c: Option<BenchConfig>)
        ensures
            c == self@.current(),
            self@.wf(),
    {
        proof {
            use_type_invariant(self);
        }
        let planned: usize = self.plan.len();
        let position: usize = self.results.len() + self.failures.len();
        if position < planned {
            Some(self.plan[position])
        } else {
            None
        }
    }

    /// Records how the current configuration ended and moves on, whether it
    /// succeeded or not. Returns whether there was a configuration to
    /// record for.
    pub fn record(&mut self, outcome: Result<BenchmarkResult, BenchError>) -> (recorded: bool)
        ensures
            final(self)@ == old(self)@.after(outcome),
            recorded == old(self)@.current() is Some,
            final(self)@.wf(),
    {
        proof {
            use_type_invariant(&*self);
        }
        let planned: usize = self.plan.len();
        let position: usize = self.results.len() + self.failures.len();
        if position >= planned {
            return false;
        }
        match outcome {
            Ok(result) => {
                let mut results: Vec<BenchmarkResult> = Vec::new();
                std::mem::swap(&mut results, &mut self.results);
                results.push(result);
                std::mem::swap(&mut results, &mut self.results);
            },
            Err(error) => {
                let config: BenchConfig = self.plan[position];
                let mut failures: Vec<Failure> = Vec::new();
                std::mem::swap(&mut failures, &mut self.failures);
                failures.push(Failure { config, error });
                std::mem::swap(&mut failures, &mut self.failures);
            },
        }
        true
    }

    pub fn is_done(&self) -> (done: bool)
        ensures
            done == self@.current() is None,
    {
        proof {
            use_type_invariant(self);
        }
        let planned: usize = self.plan.len();
        self.results.len() + self.failures.len() >= planned
    }

    /// The results so far, in the order in which their configurations ran.
    pub fn results(&self) -> (r: &Vec<BenchmarkResult>)
        ensures
            r@ == self@.results,
    {
        &self.results
    }

    /// The failures so far, in the order in which their configurations ran.
    pub fn failures(&self) -> (f: &Vec<Failure>)
        ensures
            f@ == self@.failures,
    {
        &self.failures
    }

    /// Runs every configuration that is left, with `run_one` running each,
    /// and assembles the report.
    ///
    /// Every configuration is run, whatever became of those before it: the
    /// report holds one result for each that succeeded and one note for each
    /// that failed.
    pub fn run_all<F: Fn(BenchConfig) -> Result<BenchmarkResult, BenchError>>(
        self,
        run_one: F,
    ) -> (report: Report)
        requires
            forall|config: BenchConfig| call_requires(run_one, (config,)),
        ensures
            exists|outcomes: Seq<Result<BenchmarkResult, BenchError>>|
                {
                    &&& self@.position + outcomes.len() == self@.plan.len()
                    &&& outcomes_of(run_one, self@.plan.skip(self@.position as int), outcomes)
                    &&& report.is_report_of(
                        (#[trigger] self@.run(outcomes)).results,
                        self@.run(outcomes).failures,
                    )
                },
    {
        let mut sweep = self;
        let ghost mut outcomes: Seq<Result<BenchmarkResult, BenchError>> = Seq::empty();
        let ghost rest = self@.plan.skip(self@.position as int);
        proof {
            use_type_invariant(&sweep);
        }
        loop
            invariant
                forall|config: BenchConfig| call_requires(run_one, (config,)),
                rest == self@.plan.skip(self@.position as int),
                self@.wf(),
                outcomes_of(run_one, rest, outcomes),
                sweep@ == self@.run(outcomes),
                sweep@.wf(),
                sweep@.plan == self@.plan,
                sweep@.position == self@.position + outcomes.len(),
            ensures
                outcomes_of(run_one, rest, outcomes),
                sweep@ == self@.run(outcomes),
                self@.position + outcomes.len() == self@.plan.len(),
            decreases sweep@.plan.len() - sweep@.position,
        {
            match sweep.current() {
                None => {
                    break;
                },
                Some(config) => {
                    let outcome = run_one(config);
                    sweep.record(outcome);
                    proof {
                        assert(outcomes.push(outcome).drop_last() =~= outcomes);
                        outcomes = outcomes.push(outcome);
                    }
                },
            }
        }
        sweep.into_report()
    }

    /// Ends the sweep and assembles its report from what has been run.
    pub fn into_report(self) -> (report: Report)
        ensures
            report.is_report_of(self@.results, self@.failures),
    {
        let Sweep { plan: _, results, failures } = self;
        assemble(results, failures)
    }
}

} // verus!
