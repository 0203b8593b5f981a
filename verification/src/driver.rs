//! The benchmark driver: a region, a sweep configuration, and the runs that
//! the two allow.
//!
//! The driver decides what is done and in which order. Doing it is the part
//! of `execute`, a function of the caller that carries out one step on the
//! device, times it where it is a repetition, and says what became of it.

use vstd::prelude::*;
use crate::collector::{answers, ended, refusal, CollectorState, Event, SampleCollector, Step};
use crate::config::{BenchConfig, OperationKind};
use crate::device::{bar_size_verdict, check_bar_size, require_bar};
use crate::error::BenchError;
use crate::region::RegionInfo;
use crate::report::Report;
use crate::result::BenchmarkResult;
use crate::sweep::{
    failures_of, lemma_sweep_runs_every_configuration, outcomes_of, successes, Sweep, SweepConfig,
    SweepState,
};

verus! {

/// A benchmark of one region.
pub struct VfioBenchmark {
    /// The region under test.
    pub region: RegionInfo,
    /// What is run on it.
    pub config: SweepConfig,
}

/// `r` is what a run of `config` on `region` comes to when `execute`
/// carries out its steps: the error that refuses the configuration before
/// anything is done, or else the outcome of a run from the first step to
/// the end, made of answers that `execute` gave.
pub open spec fn measured<F: Fn(Step) -> Event>(
    region: RegionInfo,
    config: BenchConfig,
    execute: F,
    r: Result<BenchmarkResult, BenchError>,
) -> bool {
    match refusal(config, region) {
        Some(e) => r == Err::<BenchmarkResult, BenchError>(e),
        None => exists|events: Seq<Event>|
            {
                &&& answers(execute, CollectorState::initial(config), events)
                &&& ended(CollectorState::initial(config), events)
                &&& (#[trigger] CollectorState::initial(config).run(events)).outcome_is(r)
            },
    }
}

impl VfioBenchmark {
    /// The configuration of a run of `operation` with transfers of
    /// `block_size` bytes, repeated `iterations` times.
    pub open spec fn run_config(
        &self,
        operation: OperationKind,
        block_size: u64,
        iterations: u32,
    ) -> BenchConfig {
        BenchConfig {
            operation,
            access_path: self.config.access_path,
            strategy: self.config.strategy,
            transaction_size: block_size,
            iterations,
            window_size: self.config.window_size,
        }
    }

    /// What starting `config` on the region gives: the error that refuses
    /// it, or a collector that has not begun.
    pub open spec fn starts(
        &self,
        config: BenchConfig,
        r: Result<SampleCollector, BenchError>,
    ) -> bool {
        match refusal(config, self.region) {
            Some(e) => r == Err::<SampleCollector, BenchError>(e),
            None => r is Ok && r->Ok_0@ == CollectorState::initial(config),
        }
    }

    /// Binds a sweep to the region at index 0 of a device.
    ///
    /// A device without that region, or with one shorter than the window of
    /// the sweep, cannot be benchmarked at all.
    pub fn new(bar0: Option<RegionInfo>, config: SweepConfig) -> (r: Result<
        VfioBenchmark,
        BenchError,
    >)
        ensures
            match bar_size_verdict(bar0, config.window_size) {
                Err(e) => r == Err::<VfioBenchmark, BenchError>(e),
                Ok(_) => r is Ok && r->Ok_0.region == bar0->0 && r->Ok_0.config == config,
            },
    {
        let region: RegionInfo = require_bar(bar0)?;
        check_bar_size(bar0, config.window_size)?;
        Ok(VfioBenchmark { region, config })
    }

    /// Builds `run_config`.
    pub fn configure(
        &self,
        operation: OperationKind,
        block_size: u64,
        iterations: u32,
    ) -> (c: BenchConfig)
        ensures
            c == self.run_config(operation, block_size, iterations),
    {
        BenchConfig {
            operation,
            access_path: self.config.access_path,
            strategy: self.config.strategy,
            transaction_size: block_size,
            iterations,
            window_size: self.config.window_size,
        }
    }

    /// Sets up a run of `config` and leaves it to the caller to take it
    /// step by step.
    pub fn start(&self, config: BenchConfig) -> (r: Result<SampleCollector, BenchError>)
        ensures
            self.starts(config, r),
    {
        SampleCollector::new(config, self.region)
    }

    /// Runs `config` from its first step to its end.
    pub fn measure<F: Fn(Step) -> Event>(&self, config: BenchConfig, execute: &F) -> (r: Result<
        BenchmarkResult,
        BenchError,
    >)
        requires
            forall|step: Step| call_requires(*execute, (step,)),
        ensures
            measured(self.region, config, *execute, r),
    {
        match SampleCollector::new(config, self.region) {
            Err(e) => Err(e),
            Ok(collector) => collector.run(execute),
        }
    }

    /// Measures reads of `block_size` bytes, `iterations` times.
    pub fn benchmark_read<F: Fn(Step) -> Event>(
        &self,
        block_size: u64,
        iterations: u32,
        execute: &F,
    ) -> (r: Result<BenchmarkResult, BenchError>)
        requires
            forall|step: Step| call_requires(*execute, (step,)),
        ensures
            measured(
                self.region,
                self.run_config(OperationKind::Read, block_size, iterations),
                *execute,
                r,
            ),
    {
        self.measure(self.configure(OperationKind::Read, block_size, iterations), execute)
    }

    /// Measures writes of `block_size` bytes, `iterations` times.
    pub fn benchmark_write<F: Fn(Step) -> Event>(
        &self,
        block_size: u64,
        iterations: u32,
        execute: &F,
    ) -> (r: Result<BenchmarkResult, BenchError>)
        requires
            forall|step: Step| call_requires(*execute, (step,)),
        ensures
            measured(
                self.region,
                self.run_config(OperationKind::Write, block_size, iterations),
                *execute,
                r,
            ),
    {
        self.measure(self.configure(OperationKind::Write, block_size, iterations), execute)
    }

    /// Measures writes of `block_size` bytes that are read back at once,
    /// `iterations` times.
    pub fn benchmark_read_write<F: Fn(Step) -> Event>(
        &self,
        block_size: u64,
        iterations: u32,
        execute: &F,
    ) -> (r: Result<BenchmarkResult, BenchError>)
        requires
            forall|step: Step| call_requires(*execute, (step,)),
        ensures
            measured(
                self.region,
                self.run_config(OperationKind::ReadWrite, block_size, iterations),
                *execute,
                r,
            ),
    {
        self.measure(self.configure(OperationKind::ReadWrite, block_size, iterations), execute)
    }

    /// Sets up the sweep over every size of the configuration and leaves it
    /// to the caller to run it configuration by configuration.
    pub fn sweep(&self) -> (sweep: Sweep)
        ensures
            sweep@ == SweepState::initial(self.config.spec_plan()),
    {
        Sweep::new(self.config.plan())
    }

    /// Runs the whole sweep: for every size of the configuration a read, a
    /// write and a read-then-write run, each from its first step to its end.
    ///
    /// A run that fails is noted and the sweep goes on with the next. The
    /// report holds one result for every run that succeeded, in the order
    /// of the sweep, and the figures of each operation.
    pub fn run_comprehensive_benchmark<F: Fn(Step) -> Event>(&self, execute: &F) -> (report: Report)
        requires
            forall|step: Step| call_requires(*execute, (step,)),
        ensures
            exists|outcomes: Seq<Result<BenchmarkResult, BenchError>>|
                {
                    &&& outcomes.len() == self.config.spec_plan().len()
                    &&& forall|i: int|
                        0 <= i < outcomes.len() ==> measured(
                            self.region,
                            self.config.spec_plan()[i],
                            *execute,
                            #[trigger] outcomes[i],
                        )
                    &&& report.is_report_of(
                        #[trigger] successes(outcomes),
                        failures_of(self.config.spec_plan(), outcomes),
                    )
                },
    {
        let run_one = |config: BenchConfig| -> (r: Result<BenchmarkResult, BenchError>)
            ensures
                measured(self.region, config, *execute, r),
            { self.measure(config, execute) };
        let sweep: Sweep = self.sweep();
        let report = sweep.run_all(run_one);
        proof {
            let plan = self.config.spec_plan();
            let outcomes = choose|outcomes: Seq<Result<BenchmarkResult, BenchError>>|
                {
                    &&& sweep@.position + outcomes.len() == sweep@.plan.len()
                    &&& outcomes_of(run_one, sweep@.plan.skip(sweep@.position as int), outcomes)
                    &&& report.is_report_of(
                        (#[trigger] sweep@.run(outcomes)).results,
                        sweep@.run(outcomes).failures,
                    )
                };
            assert(plan.skip(0) =~= plan);
            lemma_sweep_runs_every_configuration(plan, outcomes);
            assert(report.is_report_of(successes(outcomes), failures_of(plan, outcomes)));
        }
        report
    }
}

} // verus!
