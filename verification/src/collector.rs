//! The sample collector: a state machine that tells its caller, one step at
//! a time, what to do to the region, and records what came of it.
//!
//! The caller owns the region and the clock. It asks for the next step,
//! carries it out, and reports the outcome as an event. Only an `Access`
//! step is timed; mapping and unmapping happen outside every sample.

use vstd::prelude::*;
use crate::config::{AccessPath, BenchConfig, OperationKind};
use crate::error::{BenchError, Cause};
use crate::offsets::{access_offset, lemma_offset_within_window, offset_at};
use crate::region::{Permissions, RegionInfo};
use crate::result::BenchmarkResult;

verus! {

/// Where a collector stands in its run.
#[derive(Clone, Copy, Debug, PartialEq, Eq, Structural)]
pub enum Phase {
    /// The window has to be mapped before the first repetition.
    Mapping,
    /// Repetitions are being performed.
    Sampling,
    /// The mapping has to be released.
    Unmapping,
    /// The run is over.
    Finished,
}

/// One timed repetition, fully described.
#[derive(Clone, Copy, Debug, PartialEq, Eq, Structural)]
pub struct Access {
    /// Index of the repetition, from 0.
    pub repetition: u32,
    /// Number of repetitions of the run.
    pub iterations: u32,
    pub operation: OperationKind,
    pub path: AccessPath,
    /// First byte touched, relative to the start of the window.
    pub offset: u64,
    /// Bytes per transfer.
    pub size: u64,
    /// The byte to store, where the operation writes.
    pub pattern: Option<u8>,
    /// Whether a progress mark is due once the repetition has been timed.
    pub report_progress: bool,
}

/// What the caller is asked to do next.
#[derive(Clone, Copy, Debug, PartialEq, Eq, Structural)]
pub enum Step {
    /// Map `length` bytes of the region from `offset` on. Not timed.
    MapWindow { offset: u64, length: u64, permissions: Permissions },
    /// Perform the repetition and time it.
    Access(Access),
    /// Release the mapping. Not timed.
    UnmapWindow,
    /// Nothing is left to do.
    Finish,
}

/// What became of a step.
#[derive(Clone, Copy, Debug, PartialEq, Eq, Structural)]
pub enum Event {
    /// The window is mapped.
    Mapped,
    /// The repetition succeeded and took `elapsed` nanoseconds.
    Completed { elapsed: u64 },
    /// The mapping is released.
    Unmapped,
    /// The step failed.
    Failed(Cause),
}

/// The duration that stands for `nanos` nanoseconds in a sample set: itself,
/// or the largest that a sample can hold.
pub open spec fn sample_of(nanos: u128) -> u64 {
    if nanos > u64::MAX {
        u64::MAX
    } else {
        nanos as u64
    }
}

impl Event {
    /// The event of a repetition that succeeded in `nanos` nanoseconds.
    pub fn completed(nanos: u128) -> (event: Event)
        ensures
            event == (Event::Completed { elapsed: sample_of(nanos) }),
    {
        if nanos > 0xFFFF_FFFF_FFFF_FFFF {
            Event::Completed { elapsed: 0xFFFF_FFFF_FFFF_FFFF }
        } else {
            Event::Completed { elapsed: nanos as u64 }
        }
    }
}

/// Whether a progress mark follows repetition `i` of `n`: runs of more than
/// a thousand repetitions mark every tenth of the run.
pub open spec fn progress_due(n: u32, i: u32) -> bool {
    n > 1000 && i as int % (n as int / 10) == 0
}

/// A run shows at most eleven progress marks: a marked repetition is a
/// multiple of a tenth of the run, and the multiplier is at most ten.
pub proof fn lemma_progress_marks_bounded(n: u32, i: u32)
    requires
        i < n,
        progress_due(n, i),
    ensures
        i as int == (i as int / (n as int / 10)) * (n as int / 10),
        0 <= i as int / (n as int / 10) <= 10,
{
    let tenth = n as int / 10;
    let k = i as int / tenth;
    assert(i as int == tenth * k + i as int % tenth) by {
        vstd::arithmetic::div_mod::lemma_fundamental_div_mod(i as int, tenth);
    }
    assert(tenth * k == k * tenth) by (nonlinear_arith);
    assert(k <= 10) by (nonlinear_arith)
        requires
            k * tenth == i,
            i < n,
            n < 10 * tenth + 10,
            tenth >= 100,
    ;
    assert(k >= 0) by (nonlinear_arith)
        requires
            k * tenth == i,
            i >= 0,
            tenth >= 100,
    ;
}

/// Why `config` cannot run on `region`, found before anything is touched;
/// `None` where it can.
pub open spec fn refusal(config: BenchConfig, region: RegionInfo) -> Option<BenchError> {
    if config.transaction_size == 0 {
        Some(BenchError::Precondition)
    } else if config.transaction_size > config.window_size {
        Some(
            BenchError::Operation {
                offset: 0,
                size: config.transaction_size,
                cause: Cause::OutOfBounds,
            },
        )
    } else if config.window_size > region.length {
        Some(
            BenchError::Operation { offset: 0, size: config.window_size, cause: Cause::OutOfBounds },
        )
    } else if !region.permissions.spec_covers(config.operation.spec_needed_permissions()) {
        Some(
            BenchError::Operation {
                offset: 0,
                size: config.transaction_size,
                cause: Cause::PermissionDenied,
            },
        )
    } else if config.access_path is Mapped && !region.mappable {
        Some(
            BenchError::Operation { offset: 0, size: config.window_size, cause: Cause::NotMappable },
        )
    } else {
        None
    }
}

/// Repetition `i` of `config`.
pub open spec fn access_at(config: BenchConfig, i: nat) -> Access {
    Access {
        repetition: i as u32,
        iterations: config.iterations,
        operation: config.operation,
        path: config.access_path,
        offset: offset_at(
            config.strategy,
            i,
            config.transaction_size as nat,
            config.window_size as nat,
        ) as u64,
        size: config.transaction_size,
        pattern: config.operation.spec_pattern(),
        report_progress: progress_due(config.iterations, i as u32),
    }
}

/// The phase that follows the last repetition, or a failed one.
pub open spec fn phase_after_sampling(config: BenchConfig) -> Phase {
    if config.access_path is Mapped {
        Phase::Unmapping
    } else {
        Phase::Finished
    }
}

/// The phase in which repetitions start.
pub open spec fn phase_for_sampling(config: BenchConfig) -> Phase {
    if config.iterations == 0 {
        phase_after_sampling(config)
    } else {
        Phase::Sampling
    }
}

/// The collector as a mathematical state machine.
#[verifier::ext_equal]
pub struct CollectorState {
    pub config: BenchConfig,
    pub phase: Phase,
    /// Durations of the repetitions so far, in order.
    pub samples: Seq<u64>,
    /// The error that ended the run, if one did.
    pub failure: Option<BenchError>,
}

impl CollectorState {
    /// The state before anything has happened.
    pub open spec fn initial(config: BenchConfig) -> CollectorState {
        CollectorState {
            config,
            phase: if config.access_path is Mapped {
                Phase::Mapping
            } else {
                phase_for_sampling(config)
            },
            samples: Seq::empty(),
            failure: None,
        }
    }

    /// The states that a run can be in.
    pub open spec fn wf(self) -> bool {
        &&& self.config.spec_is_valid()
        &&& match self.phase {
            Phase::Mapping => {
                &&& self.config.access_path is Mapped
                &&& self.samples.len() == 0
                &&& self.failure is None
            },
            Phase::Sampling => {
                &&& self.samples.len() < self.config.iterations
                &&& self.failure is None
            },
            Phase::Unmapping => {
                &&& self.config.access_path is Mapped
                &&& self.settled()
            },
            Phase::Finished => self.settled(),
        }
    }

    /// After the last repetition the sample set is complete, or the run
    /// failed and it is empty.
    pub open spec fn settled(self) -> bool {
        if self.failure is Some {
            self.samples.len() == 0
        } else {
            self.samples.len() == self.config.iterations
        }
    }

    /// What the caller has to do in this state.
    pub open spec fn step(self) -> Step {
        match self.phase {
            Phase::Mapping => Step::MapWindow {
                offset: 0,
                length: self.config.window_size,
                permissions: self.config.operation.spec_needed_permissions(),
            },
            Phase::Sampling => Step::Access(access_at(self.config, self.samples.len())),
            Phase::Unmapping => Step::UnmapWindow,
            Phase::Finished => Step::Finish,
        }
    }

    /// Whether `event` can be the outcome of the step of this state.
    pub open spec fn accepts(self, event: Event) -> bool {
        match self.phase {
            Phase::Mapping => event is Mapped || event is Failed,
            Phase::Sampling => event is Completed || event is Failed,
            Phase::Unmapping => event is Unmapped,
            Phase::Finished => false,
        }
    }

    /// The state after `event`. An event that does not answer the pending
    /// step changes nothing.
    pub open spec fn after(self, event: Event) -> CollectorState {
        match (self.phase, event) {
            (Phase::Mapping, Event::Mapped) => CollectorState {
                phase: phase_for_sampling(self.config),
                ..self
            },
            (Phase::Mapping, Event::Failed(cause)) => CollectorState {
                phase: Phase::Finished,
                failure: Some(
                    BenchError::Operation { offset: 0, size: self.config.window_size, cause },
                ),
                ..self
            },
            (Phase::Sampling, Event::Completed { elapsed }) => CollectorState {
                phase: if self.samples.len() + 1 == self.config.iterations {
                    phase_after_sampling(self.config)
                } else {
                    Phase::Sampling
                },
                samples: self.samples.push(elapsed),
                ..self
            },
            (Phase::Sampling, Event::Failed(cause)) => CollectorState {
                phase: phase_after_sampling(self.config),
                samples: Seq::empty(),
                failure: Some(
                    BenchError::Operation {
                        offset: access_at(self.config, self.samples.len()).offset,
                        size: self.config.transaction_size,
                        cause,
                    },
                ),
                ..self
            },
            (Phase::Unmapping, Event::Unmapped) => CollectorState { phase: Phase::Finished, ..self },
            _ => self,
        }
    }

    /// The state after a sequence of events, each applied in turn.
    pub open spec fn run(self, events: Seq<Event>) -> CollectorState
        decreases events.len(),
    {
        if events.len() == 0 {
            self
        } else {
            self.run(events.drop_last()).after(events.last())
        }
    }

    /// What the run amounts to once it is over.
    pub open spec fn outcome_is(self, r: Result<BenchmarkResult, BenchError>) -> bool {
        if !(self.phase is Finished) {
            r == Err::<BenchmarkResult, BenchError>(BenchError::Precondition)
        } else if self.failure is Some {
            r == Err::<BenchmarkResult, BenchError>(self.failure->0)
        } else if self.samples.len() == 0 {
            r == Err::<BenchmarkResult, BenchError>(BenchError::Precondition)
        } else {
            &&& r is Ok
            &&& r->Ok_0.summarizes(
                self.config.operation,
                self.config.transaction_size,
                self.config.iterations,
                self.samples,
            )
        }
    }
}

/// The events of repetitions that succeed with the given durations.
pub open spec fn completions(durations: Seq<u64>) -> Seq<Event> {
    Seq::new(durations.len(), |i: int| Event::Completed { elapsed: durations[i] })
}

/// The events of a whole run whose repetitions are answered by `body`:
/// on the mapped path the window is mapped first and released last.
pub open spec fn script(config: BenchConfig, body: Seq<Event>) -> Seq<Event> {
    if config.access_path is Mapped {
        seq![Event::Mapped] + body + seq![Event::Unmapped]
    } else {
        body
    }
}

/// Every event leads from a well-formed state to a well-formed state.
pub proof fn lemma_after_preserves_wf(state: CollectorState, event: Event)
    requires
        state.wf(),
    ensures
        state.after(event).wf(),
        state.after(event).config == state.config,
        !state.accepts(event) ==> state.after(event) == state,
{
}

/// Applying two sequences of events one after the other is applying their
/// concatenation.
pub proof fn lemma_run_append(state: CollectorState, first: Seq<Event>, second: Seq<Event>)
    ensures
        state.run(first + second) == state.run(first).run(second),
    decreases second.len(),
{
    if second.len() > 0 {
        lemma_run_append(state, first, second.drop_last());
        assert((first + second).drop_last() =~= first + second.drop_last());
    }
}

/// A run of one event is that event's transition.
pub proof fn lemma_run_single(state: CollectorState, event: Event)
    ensures
        state.run(seq![event]) == state.after(event),
{
    assert(seq![event].drop_last() =~= Seq::<Event>::empty());
    assert(state.run(Seq::<Event>::empty()) == state);
}

/// While repetitions succeed, the sample set is the durations reported so
/// far, in order.
pub proof fn lemma_run_of_completions(start: CollectorState, durations: Seq<u64>)
    requires
        start.wf(),
        start.samples.len() == 0,
        start.failure is None,
        start.phase == phase_for_sampling(start.config),
        durations.len() <= start.config.iterations,
    ensures
        ({
            let end = start.run(completions(durations));
            &&& end.wf()
            &&& end.config == start.config
            &&& end.samples == durations
            &&& end.failure is None
            &&& end.phase == if durations.len() < start.config.iterations {
                Phase::Sampling
            } else {
                phase_after_sampling(start.config)
            }
        }),
    decreases durations.len(),
{
    if durations.len() > 0 {
        let front = durations.drop_last();
        lemma_run_of_completions(start, front);
        assert(completions(durations).drop_last() =~= completions(front));
    }
}

/// The events of a run up to the point where the repetitions answered by
/// `body` are over: on the mapped path the window is mapped first.
pub open spec fn opening(config: BenchConfig, body: Seq<Event>) -> Seq<Event> {
    if config.access_path is Mapped {
        seq![Event::Mapped] + body
    } else {
        body
    }
}

/// The offsets that a run visits are those that its strategy gives, one
/// repetition after the other: once `k` repetitions have succeeded, the run
/// asks for repetition `k`, at its offset and inside the window.
pub proof fn lemma_run_visits_strategy_offsets(config: BenchConfig, durations: Seq<u64>)
    requires
        config.spec_is_valid(),
        durations.len() < config.iterations,
    ensures
        ({
            let now = CollectorState::initial(config).run(opening(config, completions(durations)));
            &&& now.step() == Step::Access(access_at(config, durations.len()))
            &&& access_at(config, durations.len()).offset == offset_at(
                config.strategy,
                durations.len(),
                config.transaction_size as nat,
                config.window_size as nat,
            )
            &&& access_at(config, durations.len()).offset + config.transaction_size
                <= config.window_size
        }),
{
    let start = CollectorState::initial(config);
    if config.access_path is Mapped {
        lemma_run_single(start, Event::Mapped);
        lemma_run_of_completions(start.after(Event::Mapped), durations);
        lemma_run_append(start, seq![Event::Mapped], completions(durations));
    } else {
        lemma_run_of_completions(start, durations);
    }
    lemma_offset_within_window(
        config.strategy,
        durations.len(),
        config.transaction_size as nat,
        config.window_size as nat,
    );
}

/// A run in which every repetition succeeds ends with exactly one sample
/// per repetition, in the order of the repetitions.
pub proof fn lemma_complete_run_keeps_every_sample(config: BenchConfig, durations: Seq<u64>)
    requires
        config.spec_is_valid(),
        durations.len() == config.iterations,
    ensures
        ({
            let end = CollectorState::initial(config).run(script(config, completions(durations)));
            &&& end.phase is Finished
            &&& end.failure is None
            &&& end.samples == durations
        }),
{
    let start = CollectorState::initial(config);
    let body = completions(durations);
    if config.access_path is Mapped {
        let sampling = start.after(Event::Mapped);
        lemma_run_single(start, Event::Mapped);
        lemma_run_of_completions(sampling, durations);
        lemma_run_append(start, seq![Event::Mapped], body);
        lemma_run_append(start, seq![Event::Mapped] + body, seq![Event::Unmapped]);
        lemma_run_single(sampling.run(body), Event::Unmapped);
    } else {
        lemma_run_of_completions(start, durations);
    }
}

/// A repetition that fails leaves a sample set of size 0, however many
/// repetitions succeeded before it, and the run ends with the error of the
/// failed access.
pub proof fn lemma_failed_repetition_leaves_no_samples(
    config: BenchConfig,
    durations: Seq<u64>,
    cause: Cause,
)
    requires
        config.spec_is_valid(),
        durations.len() < config.iterations,
    ensures
        ({
            let end = CollectorState::initial(config).run(
                script(config, completions(durations).push(Event::Failed(cause))),
            );
            let error = BenchError::Operation {
                offset: access_at(config, durations.len()).offset,
                size: config.transaction_size,
                cause,
            };
            &&& end.phase is Finished
            &&& end.samples.len() == 0
            &&& end.failure == Some(error)
            &&& end.outcome_is(Err(error))
        }),
{
    let start = CollectorState::initial(config);
    let good = completions(durations);
    let body = good.push(Event::Failed(cause));
    assert(body =~= good + seq![Event::Failed(cause)]);
    if config.access_path is Mapped {
        let sampling = start.after(Event::Mapped);
        lemma_run_single(start, Event::Mapped);
        lemma_run_of_completions(sampling, durations);
        lemma_run_append(sampling, good, seq![Event::Failed(cause)]);
        lemma_run_single(sampling.run(good), Event::Failed(cause));
        lemma_run_append(start, seq![Event::Mapped], body);
        lemma_run_append(start, seq![Event::Mapped] + body, seq![Event::Unmapped]);
        lemma_run_single(sampling.run(body), Event::Unmapped);
    } else {
        lemma_run_of_completions(start, durations);
        lemma_run_append(start, good, seq![Event::Failed(cause)]);
        lemma_run_single(start.run(good), Event::Failed(cause));
    }
}

/// Every access that a run asks for lies inside the window, at the offset
/// that the strategy gives its repetition.
pub proof fn lemma_accesses_stay_in_window(state: CollectorState)
    requires
        state.wf(),
        state.phase is Sampling,
    ensures
        state.step() matches Step::Access(a) && {
            &&& a.repetition == state.samples.len()
            &&& a.size == state.config.transaction_size
            &&& a.offset == offset_at(
                state.config.strategy,
                state.samples.len(),
                state.config.transaction_size as nat,
                state.config.window_size as nat,
            )
            &&& a.offset + a.size <= state.config.window_size
        },
{
    lemma_offset_within_window(
        state.config.strategy,
        state.samples.len(),
        state.config.transaction_size as nat,
        state.config.window_size as nat,
    );
}

/// Mapping and unmapping stay outside the timed repetitions: the window is
/// mapped while no sample has been taken, and released only when no
/// repetition is left; no other path maps at all.
pub proof fn lemma_mapping_brackets_sampling(state: CollectorState)
    requires
        state.wf(),
    ensures
        state.step() is MapWindow ==> state.config.access_path is Mapped && state.samples.len()
            == 0,
        state.step() is UnmapWindow ==> state.config.access_path is Mapped && state.settled(),
        state.config.access_path is Mapped ==> CollectorState::initial(state.config).step()
            is MapWindow,
        !(state.config.access_path is Mapped) ==> !(state.step() is MapWindow) && !(state.step()
            is UnmapWindow),
{
}

/// Upper bound on the number of steps that a run still has to take.
pub open spec fn steps_left(state: CollectorState) -> nat {
    match state.phase {
        Phase::Mapping => state.config.iterations as nat + 2,
        Phase::Sampling => (state.config.iterations - state.samples.len()) as nat + 1,
        Phase::Unmapping => 1,
        Phase::Finished => 0,
    }
}

/// Every event that answers the pending step brings the end of the run
/// closer.
pub proof fn lemma_accepted_event_makes_progress(state: CollectorState, event: Event)
    requires
        state.wf(),
        state.accepts(event),
    ensures
        steps_left(state.after(event)) < steps_left(state),
{
}

/// `events` is what `execute` answered, step by step, in a run that began
/// in `start`: each event is a possible answer to the step that was pending
/// when it was given.
pub open spec fn answers<F: Fn(Step) -> Event>(
    execute: F,
    start: CollectorState,
    events: Seq<Event>,
) -> bool {
    forall|i: int|
        0 <= i < events.len() ==> call_ensures(
            execute,
            (#[trigger] start.run(events.take(i)).step(),),
            events[i],
        )
}

/// A run has come to its end when it is finished, or when the last answer
/// did not fit the step it was given to.
pub open spec fn ended(start: CollectorState, events: Seq<Event>) -> bool {
    ||| start.run(events).phase is Finished
    ||| events.len() > 0 && !start.run(events.drop_last()).accepts(events.last())
}

/// One more answer, given to the step that is pending after `events`,
/// makes a longer sequence of answers.
proof fn lemma_answer_extends<F: Fn(Step) -> Event>(
    execute: F,
    start: CollectorState,
    events: Seq<Event>,
    event: Event,
)
    requires
        answers(execute, start, events),
        call_ensures(execute, (start.run(events).step(),), event),
    ensures
        answers(execute, start, events.push(event)),
{
    let longer = events.push(event);
    assert forall|i: int| 0 <= i < longer.len() implies call_ensures(
        execute,
        (#[trigger] start.run(longer.take(i)).step(),),
        longer[i],
    ) by {
        if i < events.len() {
            assert(longer.take(i) =~= events.take(i));
        } else {
            assert(longer.take(i) =~= events);
        }
    }
}

/// The executable collector. Its state is private: a collector is made by
/// `new` and moved on by `advance`, so it is always in a state that a run
/// can reach.
pub struct SampleCollector {
    config: BenchConfig,
    phase: Phase,
    samples: Vec<u64>,
    failure: Option<BenchError>,
}

impl View for SampleCollector {
    type V = CollectorState;

    closed spec fn view(&self) -> CollectorState {
        CollectorState {
            config: self.config,
            phase: self.phase,
            samples: self.samples@,
            failure: self.failure,
        }
    }
}

impl SampleCollector {
    #[verifier::type_invariant]
    closed spec fn inv(&self) -> bool {
        self@.wf()
    }

    /// Sets up a run of `config` on a region described by `region`.
    ///
    /// A configuration that cannot run is refused here, before any step is
    /// handed out: a transaction larger than the window fails with the
    /// bounds error of its first access, without that access being tried.
    pub fn new(config: BenchConfig, region: RegionInfo) -> (r: Result<SampleCollector, BenchError>)
        ensures
            match refusal(config, region) {
                Some(e) => r == Err::<SampleCollector, BenchError>(e),
                None => r is Ok && r->Ok_0@ == CollectorState::initial(config),
            },
    {
        if config.transaction_size == 0 {
            return Err(BenchError::Precondition);
        }
        if config.transaction_size > config.window_size {
            return Err(
                BenchError::Operation {
                    offset: 0,
                    size: config.transaction_size,
                    cause: Cause::OutOfBounds,
                },
            );
        }
        if config.window_size > region.length {
            return Err(
                BenchError::Operation {
                    offset: 0,
                    size: config.window_size,
                    cause: Cause::OutOfBounds,
                },
            );
        }
        if !region.permissions.covers(config.operation.needed_permissions()) {
            return Err(
                BenchError::Operation {
                    offset: 0,
                    size: config.transaction_size,
                    cause: Cause::PermissionDenied,
                },
            );
        }
        let mapped: bool = config.access_path == AccessPath::Mapped;
        if mapped && !region.mappable {
            return Err(
                BenchError::Operation {
                    offset: 0,
                    size: config.window_size,
                    cause: Cause::NotMappable,
                },
            );
        }
        let phase: Phase = if mapped {
            Phase::Mapping
        } else if config.iterations == 0 {
            Phase::Finished
        } else {
            Phase::Sampling
        };
        Ok(SampleCollector { config, phase, samples: Vec::new(), failure: None })
    }

    pub fn config(&self) -> (c: BenchConfig)
        ensures
            c == self@.config,
    {
        self.config
    }

    pub fn phase(&self) -> (p: Phase)
        ensures
            p == self@.phase,
    {
        self.phase
    }

    /// The sample set so far: one duration per completed repetition, and
    /// none at all once a repetition has failed.
    pub fn samples(&self) -> (s: &Vec<u64>)
        ensures
            s@ == self@.samples,
    {
        &self.samples
    }

    /// The error that ended the run, if one did.
    pub fn failure(&self) -> (f: Option<BenchError>)
        ensures
            f == self@.failure,
    {
        self.failure
    }

    pub fn is_finished(&self) -> (done: bool)
        ensures
            done == (self@.phase is Finished),
    {
        self.phase == Phase::Finished
    }

    /// Whether the run is long enough to show progress marks.
    pub fn shows_progress(&self) -> (shown: bool)
        ensures
            shown == (self@.config.iterations > 1000),
    {
        self.config.iterations > 1000
    }

    /// The step that the caller has to carry out now. An access never
    /// leaves the window.
    pub fn next_step(&self) -> (step: Step)
        ensures
            step == self@.step(),
            step matches Step::Access(a) ==> a.offset + a.size <= self@.config.window_size,
            self@.wf(),
    {
        proof {
            use_type_invariant(self);
        }
        match self.phase {
            Phase::Mapping => Step::MapWindow {
                offset: 0,
                length: self.config.window_size,
                permissions: self.config.operation.needed_permissions(),
            },
            Phase::Sampling => Step::Access(self.pending_access()),
            Phase::Unmapping => Step::UnmapWindow,
            Phase::Finished => Step::Finish,
        }
    }

    fn pending_access(&self) -> (a: Access)
        requires
            self@.phase is Sampling,
        ensures
            a == access_at(self@.config, self@.samples.len()),
            a.offset + a.size <= self@.config.window_size,
    {
        proof {
            use_type_invariant(self);
        }
        let repetition: u32 = self.samples.len() as u32;
        let n: u32 = self.config.iterations;
        let offset: u64 = match access_offset(
            self.config.strategy,
            repetition,
            self.config.transaction_size,
            self.config.window_size,
        ) {
            Ok(o) => o,
            Err(_) => 0,
        };
        Access {
            repetition,
            iterations: n,
            operation: self.config.operation,
            path: self.config.access_path,
            offset,
            size: self.config.transaction_size,
            pattern: self.config.operation.pattern(),
            report_progress: n > 1000 && repetition % (n / 10) == 0,
        }
    }

    /// Records the outcome of the pending step.
    ///
    /// An event that cannot be the outcome of that step is refused and
    /// changes nothing. A failed repetition empties the sample set, whatever
    /// it held before.
    pub fn advance(&mut self, event: Event) -> (r: Result<(), BenchError>)
        ensures
            old(self)@.accepts(event) ==> r is Ok && final(self)@ == old(self)@.after(event),
            !old(self)@.accepts(event) ==> r == Err::<(), BenchError>(BenchError::Precondition)
                && final(self)@ == old(self)@,
            final(self)@.wf(),
    {
        proof {
            use_type_invariant(&*self);
        }
        let mapped: bool = self.config.access_path == AccessPath::Mapped;
        let end: Phase = if mapped {
            Phase::Unmapping
        } else {
            Phase::Finished
        };
        match (self.phase, event) {
            (Phase::Mapping, Event::Mapped) => {
                self.phase = if self.config.iterations == 0 {
                    end
                } else {
                    Phase::Sampling
                };
                Ok(())
            },
            (Phase::Mapping, Event::Failed(cause)) => {
                let error = BenchError::Operation {
                    offset: 0,
                    size: self.config.window_size,
                    cause,
                };
                *self = SampleCollector {
                    config: self.config,
                    phase: Phase::Finished,
                    samples: Vec::new(),
                    failure: Some(error),
                };
                Ok(())
            },
            (Phase::Sampling, Event::Completed { elapsed }) => {
                let last: bool = self.samples.len() + 1 == self.config.iterations as usize;
                let mut samples: Vec<u64> = Vec::new();
                std::mem::swap(&mut samples, &mut self.samples);
                samples.push(elapsed);
                *self = SampleCollector {
                    config: self.config,
                    phase: if last {
                        end
                    } else {
                        Phase::Sampling
                    },
                    samples,
                    failure: None,
                };
                Ok(())
            },
            (Phase::Sampling, Event::Failed(cause)) => {
                let access = self.pending_access();
                let error = BenchError::Operation {
                    offset: access.offset,
                    size: self.config.transaction_size,
                    cause,
                };
                *self = SampleCollector {
                    config: self.config,
                    phase: end,
                    samples: Vec::new(),
                    failure: Some(error),
                };
                Ok(())
            },
            (Phase::Unmapping, Event::Unmapped) => {
                self.phase = Phase::Finished;
                Ok(())
            },
            _ => Err(BenchError::Precondition),
        }
    }

    /// Runs the collector to its end, with `execute` carrying out each
    /// step and answering with what became of it.
    ///
    /// The run goes on until it is finished; only an answer that does not
    /// fit its step ends it before. The result is the outcome of the run that
    /// the answers of `execute` make.
    pub fn run<F: Fn(Step) -> Event>(self, execute: &F) -> (r: Result<BenchmarkResult, BenchError>)
        requires
            forall|step: Step| call_requires(*execute, (step,)),
        ensures
            exists|events: Seq<Event>|
                {
                    &&& answers(*execute, self@, events)
                    &&& ended(self@, events)
                    &&& (#[trigger] self@.run(events)).outcome_is(r)
                },
    {
        let mut collector = self;
        let ghost mut events: Seq<Event> = Seq::empty();
        proof {
            use_type_invariant(&collector);
        }
        loop
            invariant
                forall|step: Step| call_requires(*execute, (step,)),
                answers(*execute, self@, events),
                collector@ == self@.run(events),
                collector@.wf(),
            ensures
                answers(*execute, self@, events),
                collector@ == self@.run(events),
                collector@.phase is Finished || exists|last: Event|
                    answers(*execute, self@, events.push(last)) && !collector@.accepts(last),
            decreases steps_left(collector@),
        {
            let step: Step = collector.next_step();
            if collector.is_finished() {
                break;
            }
            let event: Event = execute(step);
            let ghost before = collector@;
            proof {
                lemma_answer_extends(*execute, self@, events, event);
            }
            match collector.advance(event) {
                Ok(()) => {
                    proof {
                        lemma_accepted_event_makes_progress(before, event);
                        assert(events.push(event).drop_last() =~= events);
                        events = events.push(event);
                    }
                },
                Err(_) => {
                    break;
                },
            }
        }
        let r = collector.finish();
        proof {
            if collector@.phase is Finished {
                assert(ended(self@, events));
            } else {
                let last = choose|last: Event|
                    answers(*execute, self@, events.push(last)) && !collector@.accepts(last);
                let all = events.push(last);
                assert(all.drop_last() =~= events);
                assert(self@.run(all) == collector@);
                assert(ended(self@, all));
            }
        }
        r
    }

    /// The result of the run.
    ///
    /// A run that is not over has none. A run that failed gives the error
    /// that ended it. A run of no repetitions has an empty sample set, which
    /// cannot be summarised. Every other run gives the summary of exactly as
    /// many samples as the configuration has repetitions.
    pub fn finish(&self) -> (r: Result<BenchmarkResult, BenchError>)
        ensures
            self@.outcome_is(r),
            r is Ok ==> self@.samples.len() == self@.config.iterations,
    {
        proof {
            use_type_invariant(self);
        }
        if self.phase != Phase::Finished {
            return Err(BenchError::Precondition);
        }
        match self.failure {
            Some(e) => Err(e),
            None => BenchmarkResult::new(
                self.config.operation,
                self.config.transaction_size,
                self.config.iterations,
                self.samples.as_slice(),
            ),
        }
    }
}

} // verus!
