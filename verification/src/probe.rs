//! The write probe: show a block of the region, store a known 64-bit value
//! at its start as two little-endian words, show the block again and check
//! that the value reads back.

use vstd::prelude::*;
use crate::error::{BenchError, Cause};
use crate::region::RegionInfo;

verus! {

/// Bytes shown before and after the write.
pub const PROBE_LENGTH: u64 = 64;

/// The value that the probe stores.
pub const PROBE_VALUE: u64 = 0x1234_5678_90AB_CDEF;

/// One action of the probe, with offsets relative to the start of the
/// region.
#[derive(Clone, Copy, Debug, PartialEq, Eq, Structural)]
pub enum ProbeStep {
    /// Read `length` bytes, one at a time, and show them.
    ReadBlock { offset: u64, length: u64 },
    /// Store a 32-bit word in little-endian byte order.
    WriteWord { offset: u64, value: u32 },
    /// Load a 32-bit word stored in little-endian byte order.
    ReadWord { offset: u64 },
}

/// The low 32 bits of `value`.
pub open spec fn low_word(value: u64) -> u32 {
    (value as nat % 0x1_0000_0000) as u32
}

/// The high 32 bits of `value`.
pub open spec fn high_word(value: u64) -> u32 {
    (value as nat / 0x1_0000_0000) as u32
}

/// The 64-bit value whose halves are `low` and `high`.
pub open spec fn joined(low: u32, high: u32) -> u64 {
    (low as nat + high as nat * 0x1_0000_0000) as u64
}

/// Splitting a value and joining the halves gives the value back, and the
/// halves of a joined value are the words it was joined from.
pub proof fn lemma_split_join(value: u64, low: u32, high: u32)
    ensures
        joined(low_word(value), high_word(value)) == value,
        low_word(joined(low, high)) == low,
        high_word(joined(low, high)) == high,
{
}

/// Splits `value` into its low and its high word.
pub fn split_words(value: u64) -> (words: (u32, u32))
    ensures
        words.0 == low_word(value),
        words.1 == high_word(value),
{
    let low: u32 = (value & 0xFFFF_FFFF) as u32;
    let high: u32 = (value >> 32) as u32;
    assert(value & 0xFFFF_FFFF == value % 0x1_0000_0000) by (bit_vector);
    assert(value >> 32 == value / 0x1_0000_0000) by (bit_vector);
    (low, high)
}

/// Joins a low and a high word into one value.
pub fn join_words(low: u32, high: u32) -> (value: u64)
    ensures
        value == joined(low, high),
{
    let value: u64 = (low as u64) | ((high as u64) << 32);
    assert((low as u64) | ((high as u64) << 32) == (low as u64) + (high as u64) * 0x1_0000_0000)
        by (bit_vector);
    value
}

/// The steps of a probe at `offset` of a region described by `region`.
pub open spec fn probe_steps(region: RegionInfo, offset: u64) -> Seq<ProbeStep> {
    if region.permissions.spec_can_write() {
        seq![
            ProbeStep::ReadBlock { offset, length: PROBE_LENGTH },
            ProbeStep::WriteWord { offset, value: low_word(PROBE_VALUE) },
            ProbeStep::WriteWord { offset: (offset + 4) as u64, value: high_word(PROBE_VALUE) },
            ProbeStep::ReadBlock { offset, length: PROBE_LENGTH },
            ProbeStep::ReadWord { offset },
            ProbeStep::ReadWord { offset: (offset + 4) as u64 },
        ]
    } else {
        seq![ProbeStep::ReadBlock { offset, length: PROBE_LENGTH }]
    }
}

/// Plans the probe of the block at `offset`.
///
/// A block that reaches past the end of the region is refused before
/// anything is read. A region that cannot be written is only shown: the
/// write and everything after it are left out.
pub fn plan_probe(region: RegionInfo, offset: u64) -> (r: Result<Vec<ProbeStep>, BenchError>)
    ensures
        offset + PROBE_LENGTH > region.length ==> r == Err::<Vec<ProbeStep>, BenchError>(
            (BenchError::Operation { offset, size: PROBE_LENGTH, cause: Cause::OutOfBounds }),
        ),
        offset + PROBE_LENGTH <= region.length ==> r is Ok && r->Ok_0@ == probe_steps(region, offset),
{
    if region.length < PROBE_LENGTH || offset > region.length - PROBE_LENGTH {
        return Err(BenchError::Operation { offset, size: PROBE_LENGTH, cause: Cause::OutOfBounds });
    }
    let mut steps: Vec<ProbeStep> = Vec::new();
    steps.push(ProbeStep::ReadBlock { offset, length: PROBE_LENGTH });
    if region.permissions.can_write() {
        let words: (u32, u32) = split_words(PROBE_VALUE);
        let low: u32 = words.0;
        let high: u32 = words.1;
        steps.push(ProbeStep::WriteWord { offset, value: low });
        steps.push(ProbeStep::WriteWord { offset: offset + 4, value: high });
        steps.push(ProbeStep::ReadBlock { offset, length: PROBE_LENGTH });
        steps.push(ProbeStep::ReadWord { offset });
        steps.push(ProbeStep::ReadWord { offset: offset + 4 });
    }
    Ok(steps)
}

/// What became of a step of the probe.
#[derive(Clone, Copy, Debug, PartialEq, Eq, Structural)]
pub enum ProbeAnswer {
    /// The block was read, or the word was stored.
    Done,
    /// The word that was loaded.
    Word(u32),
    /// The step failed.
    Failed(Cause),
}

/// What the probe found.
#[derive(Clone, Copy, Debug, PartialEq, Eq, Structural)]
pub enum ProbeVerdict {
    /// The region cannot be written: it was shown and left alone.
    Skipped,
    /// The stored value read back as it was stored.
    Intact,
    /// Something else read back.
    Altered { found: u64 },
}

impl ProbeStep {
    /// The first byte that the step touches.
    pub open spec fn spec_offset(self) -> u64 {
        match self {
            ProbeStep::ReadBlock { offset, .. } => offset,
            ProbeStep::WriteWord { offset, .. } => offset,
            ProbeStep::ReadWord { offset } => offset,
        }
    }

    /// The number of bytes that the step touches.
    pub open spec fn spec_size(self) -> u64 {
        match self {
            ProbeStep::ReadBlock { length, .. } => length,
            ProbeStep::WriteWord { .. } => 4,
            ProbeStep::ReadWord { .. } => 4,
        }
    }

    /// The error that `answer` makes of the step: that of a failed access,
    /// or a broken precondition where the answer is not one to this kind of
    /// step; `None` where the step succeeded.
    pub open spec fn spec_fault(self, answer: ProbeAnswer) -> Option<BenchError> {
        match (self, answer) {
            (_, ProbeAnswer::Failed(cause)) => Some(
                BenchError::Operation { offset: self.spec_offset(), size: self.spec_size(), cause },
            ),
            (ProbeStep::ReadWord { .. }, ProbeAnswer::Word(_)) => None,
            (ProbeStep::ReadBlock { .. }, ProbeAnswer::Done) => None,
            (ProbeStep::WriteWord { .. }, ProbeAnswer::Done) => None,
            _ => Some(BenchError::Precondition),
        }
    }

    #[verifier::when_used_as_spec(spec_offset)]
    pub fn offset(self) -> (o: u64)
        ensures
            o == self.spec_offset(),
    {
        match self {
            ProbeStep::ReadBlock { offset, .. } => offset,
            ProbeStep::WriteWord { offset, .. } => offset,
            ProbeStep::ReadWord { offset } => offset,
        }
    }

    #[verifier::when_used_as_spec(spec_size)]
    pub fn size(self) -> (n: u64)
        ensures
            n == self.spec_size(),
    {
        match self {
            ProbeStep::ReadBlock { length, .. } => length,
            _ => 4,
        }
    }

    #[verifier::when_used_as_spec(spec_fault)]
    pub fn fault(self, answer: ProbeAnswer) -> (e: Option<BenchError>)
        ensures
            e == self.spec_fault(answer),
    {
        match (self, answer) {
            (_, ProbeAnswer::Failed(cause)) => Some(
                BenchError::Operation { offset: self.offset(), size: self.size(), cause },
            ),
            (ProbeStep::ReadWord { .. }, ProbeAnswer::Word(_)) => None,
            (ProbeStep::ReadBlock { .. }, ProbeAnswer::Done) => None,
            (ProbeStep::WriteWord { .. }, ProbeAnswer::Done) => None,
            _ => Some(BenchError::Precondition),
        }
    }
}

/// The words among `answers`, in order.
pub open spec fn words_of(answers: Seq<ProbeAnswer>) -> Seq<u32>
    decreases answers.len(),
{
    if answers.len() == 0 {
        Seq::empty()
    } else {
        match answers.last() {
            ProbeAnswer::Word(word) => words_of(answers.drop_last()).push(word),
            _ => words_of(answers.drop_last()),
        }
    }
}

/// The verdict on the words that were read back: a low and a high word are
/// held against the stored value; a probe that read no words did not write.
pub open spec fn verdict_of(words: Seq<u32>) -> ProbeVerdict {
    if words.len() != 2 {
        ProbeVerdict::Skipped
    } else if joined(words[0], words[1]) == PROBE_VALUE {
        ProbeVerdict::Intact
    } else {
        ProbeVerdict::Altered { found: joined(words[0], words[1]) }
    }
}

/// `r` is what `answers`, given to `steps` in order, come to: the error of
/// the first step that did not succeed, which is also the last that was
/// taken, or the verdict after all steps.
pub open spec fn probe_outcome(
    steps: Seq<ProbeStep>,
    answers: Seq<ProbeAnswer>,
    r: Result<ProbeVerdict, BenchError>,
) -> bool {
    &&& answers.len() <= steps.len()
    &&& forall|i: int| 0 <= i < answers.len() - 1 ==> (#[trigger] steps[i]).spec_fault(answers[i]) is None
    &&& if answers.len() > 0 && steps[answers.len() - 1].spec_fault(answers.last()) is Some {
        r == Err::<ProbeVerdict, BenchError>(
            steps[answers.len() - 1].spec_fault(answers.last())->0,
        )
    } else {
        answers.len() == steps.len() && r == Ok::<ProbeVerdict, BenchError>(
            verdict_of(words_of(answers)),
        )
    }
}

/// `r` is what a probe at `offset` comes to when `execute` carries out its
/// steps.
pub open spec fn probed<F: Fn(ProbeStep) -> ProbeAnswer>(
    region: RegionInfo,
    offset: u64,
    execute: F,
    r: Result<ProbeVerdict, BenchError>,
) -> bool {
    if offset + PROBE_LENGTH > region.length {
        r == Err::<ProbeVerdict, BenchError>(
            BenchError::Operation { offset, size: PROBE_LENGTH, cause: Cause::OutOfBounds },
        )
    } else {
        exists|answers: Seq<ProbeAnswer>|
            {
                &&& #[trigger] probe_outcome(probe_steps(region, offset), answers, r)
                &&& forall|i: int|
                    0 <= i < answers.len() ==> call_ensures(
                        execute,
                        (probe_steps(region, offset)[i],),
                        #[trigger] answers[i],
                    )
            }
    }
}

/// Probes the block at `offset`, with `execute` carrying out each step.
///
/// The steps are taken in order, and the first that does not succeed ends
/// the probe with its error. A block that reaches past the end of the
/// region is refused before any step is taken.
pub fn process_offset<F: Fn(ProbeStep) -> ProbeAnswer>(
    region: RegionInfo,
    offset: u64,
    execute: &F,
) -> (r: Result<ProbeVerdict, BenchError>)
    requires
        forall|step: ProbeStep| call_requires(*execute, (step,)),
    ensures
        probed(region, offset, *execute, r),
{
    let steps: Vec<ProbeStep> = plan_probe(region, offset)?;
    let mut words: Vec<u32> = Vec::new();
    let ghost mut answers: Seq<ProbeAnswer> = Seq::empty();
    let mut i: usize = 0;
    while i < steps.len()
        invariant
            forall|step: ProbeStep| call_requires(*execute, (step,)),
            steps@ == probe_steps(region, offset),
            offset + PROBE_LENGTH <= region.length,
            i <= steps@.len(),
            answers.len() == i,
            words@ == words_of(answers),
            forall|k: int| 0 <= k < i ==> (#[trigger] steps@[k]).spec_fault(answers[k]) is None,
            forall|k: int|
                0 <= k < i ==> call_ensures(*execute, (steps@[k],), #[trigger] answers[k]),
        decreases steps@.len() - i,
    {
        let step: ProbeStep = steps[i];
        let answer: ProbeAnswer = execute(step);
        proof {
            assert(answers.push(answer).drop_last() =~= answers);
        }
        if let Some(error) = step.fault(answer) {
            proof {
                assert(probe_outcome(steps@, answers.push(answer), Err(error)));
            }
            return Err(error);
        }
        if let ProbeAnswer::Word(word) = answer {
            words.push(word);
        }
        proof {
            answers = answers.push(answer);
        }
        i = i + 1;
    }
    let verdict: ProbeVerdict = if words.len() != 2 {
        ProbeVerdict::Skipped
    } else if join_words(words[0], words[1]) == PROBE_VALUE {
        ProbeVerdict::Intact
    } else {
        ProbeVerdict::Altered { found: join_words(words[0], words[1]) }
    };
    proof {
        assert(probe_outcome(steps@, answers, Ok(verdict)));
    }
    Ok(verdict)
}

} // verus!
