//! One benchmark configuration: what is done, how, how often and where.

use vstd::prelude::*;
use crate::region::Permissions;

verus! {

/// The operation that one repetition performs and times.
#[derive(Clone, Copy, Debug, PartialEq, Eq, Structural)]
pub enum OperationKind {
    /// Transfer from the region into a scratch buffer.
    Read,
    /// Transfer a fixed pattern byte into the region.
    Write,
    /// Write the pattern, then read the same bytes back, inside one timed
    /// window.
    ReadWrite,
}

/// How the bytes of one operation reach the region.
#[derive(Clone, Copy, Debug, PartialEq, Eq, Structural)]
pub enum AccessPath {
    /// One call into the region per byte.
    ByteAtATime,
    /// One call into the region for the whole range.
    Bulk,
    /// A range of the region is mapped once; each operation is then a
    /// single memory copy.
    Mapped,
}

/// Where successive repetitions land inside the tested window.
#[derive(Clone, Copy, Debug, PartialEq, Eq, Structural)]
pub enum OffsetStrategy {
    /// Step through the window by one transaction per repetition and wrap.
    Wraparound,
    /// Always offset 0: the latency of a single register.
    Fixed,
}

impl OperationKind {
    /// Number of transfers of `transaction_size` bytes in one repetition.
    pub open spec fn spec_transfers(self) -> nat {
        match self {
            OperationKind::Read => 1,
            OperationKind::Write => 1,
            OperationKind::ReadWrite => 2,
        }
    }

    /// What the region has to allow for this operation.
    pub open spec fn spec_needed_permissions(self) -> Permissions {
        match self {
            OperationKind::Read => Permissions::ReadOnly,
            OperationKind::Write => Permissions::WriteOnly,
            OperationKind::ReadWrite => Permissions::ReadWrite,
        }
    }

    /// The byte that a writing operation stores; `None` where nothing is
    /// written.
    pub open spec fn spec_pattern(self) -> Option<u8> {
        match self {
            OperationKind::Read => None,
            OperationKind::Write => Some(0xAAu8),
            OperationKind::ReadWrite => Some(0x55u8),
        }
    }

    pub fn transfers(self) -> (n: u8)
        ensures
            n == self.spec_transfers(),
            1 <= n <= 2,
    {
        match self {
            OperationKind::ReadWrite => 2,
            _ => 1,
        }
    }

    #[verifier::when_used_as_spec(spec_needed_permissions)]
    pub fn needed_permissions(self) -> (p: Permissions)
        ensures
            p == self.spec_needed_permissions(),
    {
        match self {
            OperationKind::Read => Permissions::ReadOnly,
            OperationKind::Write => Permissions::WriteOnly,
            OperationKind::ReadWrite => Permissions::ReadWrite,
        }
    }

    #[verifier::when_used_as_spec(spec_pattern)]
    pub fn pattern(self) -> (p: Option<u8>)
        ensures
            p == self.spec_pattern(),
    {
        match self {
            OperationKind::Read => None,
            OperationKind::Write => Some(0xAA),
            OperationKind::ReadWrite => Some(0x55),
        }
    }

    /// The five-character tag of the operation in the result table.
    pub fn label(self) -> (tag: &'static str)
        ensures
            tag@ == match self {
                OperationKind::Read => "READ "@,
                OperationKind::Write => "WRITE"@,
                OperationKind::ReadWrite => "R+W  "@,
            },
    {
        match self {
            OperationKind::Read => "READ ",
            OperationKind::Write => "WRITE",
            OperationKind::ReadWrite => "R+W  ",
        }
    }
}

/// Bytes that a run of `iterations` repetitions moves: every transfer of
/// every repetition counts, so a read-then-write run moves twice what a
/// pure read or write run of the same length does.
pub open spec fn bytes_moved(
    operation: OperationKind,
    transaction_size: u64,
    iterations: u32,
) -> nat {
    operation.spec_transfers() * (transaction_size as nat) * (iterations as nat)
}

/// A read-then-write run moves `2 * transaction_size * iterations` bytes,
/// twice what a pure read or a pure write run of the same length moves.
pub proof fn lemma_read_write_moves_twice(transaction_size: u64, iterations: u32)
    ensures
        OperationKind::ReadWrite.spec_transfers() == 2,
        bytes_moved(OperationKind::ReadWrite, transaction_size, iterations) == 2 * transaction_size
            * iterations,
        bytes_moved(OperationKind::ReadWrite, transaction_size, iterations) == 2 * bytes_moved(
            OperationKind::Read,
            transaction_size,
            iterations,
        ),
        bytes_moved(OperationKind::Read, transaction_size, iterations) == bytes_moved(
            OperationKind::Write,
            transaction_size,
            iterations,
        ),
{
    assert(2 * (transaction_size as nat) * (iterations as nat) == 2 * (1 * (transaction_size as nat)
        * (iterations as nat))) by (nonlinear_arith);
}

/// A single point of the sweep.
#[derive(Clone, Copy, Debug, PartialEq, Eq, Structural)]
pub struct BenchConfig {
    pub operation: OperationKind,
    pub access_path: AccessPath,
    pub strategy: OffsetStrategy,
    /// Bytes per transfer.
    pub transaction_size: u64,
    /// Repetitions, and so the size of the sample set.
    pub iterations: u32,
    /// Length of the prefix of the region that the run stays inside.
    pub window_size: u64,
}

impl BenchConfig {
    /// A transaction is at least one byte and fits the window.
    pub open spec fn spec_is_valid(self) -> bool {
        1 <= self.transaction_size <= self.window_size
    }

    #[verifier::when_used_as_spec(spec_is_valid)]
    pub fn is_valid(self) -> (v: bool)
        ensures
            v == self.spec_is_valid(),
    {
        1 <= self.transaction_size && self.transaction_size <= self.window_size
    }
}

} // verus!
