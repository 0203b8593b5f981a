//! Where inside the tested window a repetition lands.

use vstd::prelude::*;
use vstd::arithmetic::div_mod::{lemma_add_mod_noop_right, lemma_mod_bound, lemma_small_mod};
use crate::config::OffsetStrategy;
use crate::error::{BenchError, Cause};

verus! {

/// Offset of repetition `i` when transactions of `t` bytes step through a
/// window of `w` bytes and wrap: `(i * t) mod (w - t)`. A transaction that
/// fills the window has one place to go, offset 0.
pub open spec fn wraparound_offset(i: nat, t: nat, w: nat) -> nat {
    if t < w {
        (i * t) % ((w - t) as nat)
    } else {
        0
    }
}

/// Offset of repetition `i` under `strategy`.
pub open spec fn offset_at(strategy: OffsetStrategy, i: nat, t: nat, w: nat) -> nat {
    match strategy {
        OffsetStrategy::Wraparound => wraparound_offset(i, t, w),
        OffsetStrategy::Fixed => 0,
    }
}

/// No repetition reads or writes past the window: for a transaction that
/// fits, every offset lies in `0 ..= w - t`, whatever the strategy and
/// however many repetitions came before.
pub proof fn lemma_offset_within_window(strategy: OffsetStrategy, i: nat, t: nat, w: nat)
    requires
        t <= w,
    ensures
        offset_at(strategy, i, t, w) + t <= w,
        strategy is Wraparound && t < w ==> offset_at(strategy, i, t, w) == (i * t) % ((w - t) as nat),
        strategy is Wraparound && t < w ==> offset_at(strategy, i, t, w) < w - t,
{
    if strategy is Wraparound && t < w {
        lemma_mod_bound((i * t) as int, w - t);
    }
}

/// The sweep advances by one transaction per repetition and wraps at
/// `w - t`: the next offset is the current one plus `t`, reduced.
pub proof fn lemma_wraparound_steps_by_transaction(i: nat, t: nat, w: nat)
    requires
        t < w,
    ensures
        wraparound_offset(i + 1, t, w) == (wraparound_offset(i, t, w) + t) % ((w - t) as nat),
        wraparound_offset(0, t, w) == 0,
{
    let m = w - t;
    assert((i + 1) * t == i * t + t) by (nonlinear_arith);
    lemma_add_mod_noop_right(t as int, (i * t) as int, m);
    assert(0nat * t == 0) by (nonlinear_arith);
    lemma_small_mod(0, m as nat);
}

/// Computes the offset of repetition `repetition` for transactions of
/// `transaction_size` bytes in a window of `window_size` bytes.
///
/// A transaction of no bytes is refused as a broken precondition, and one
/// that does not fit the window as the bounds error that its first access
/// would have raised.
pub fn access_offset(
    strategy: OffsetStrategy,
    repetition: u32,
    transaction_size: u64,
    window_size: u64,
) -> (r: Result<u64, BenchError>)
    ensures
        transaction_size == 0 ==> r == Err::<u64, BenchError>(BenchError::Precondition),
        transaction_size > window_size ==> r == Err::<u64, BenchError>(
            (BenchError::Operation { offset: 0, size: transaction_size, cause: Cause::OutOfBounds }),
        ),
        1 <= transaction_size <= window_size ==> r == Ok::<u64, BenchError>(
            offset_at(strategy, repetition as nat, transaction_size as nat, window_size as nat) as u64,
        ),
        r matches Ok(o) ==> o + transaction_size <= window_size,
{
    if transaction_size == 0 {
        return Err(BenchError::Precondition);
    }
    if transaction_size > window_size {
        return Err(
            BenchError::Operation { offset: 0, size: transaction_size, cause: Cause::OutOfBounds },
        );
    }
    proof {
        lemma_offset_within_window(
            strategy,
            repetition as nat,
            transaction_size as nat,
            window_size as nat,
        );
    }
    match strategy {
        OffsetStrategy::Fixed => Ok(0),
        OffsetStrategy::Wraparound => {
            if transaction_size == window_size {
                Ok(0)
            } else {
                let span: u128 = (window_size - transaction_size) as u128;
                assert(repetition * transaction_size <= 0xFFFF_FFFF * 0xFFFF_FFFF_FFFF_FFFF)
                    by (nonlinear_arith)
                    requires
                        repetition <= 0xFFFF_FFFF,
                        transaction_size <= 0xFFFF_FFFF_FFFF_FFFF,
                ;
                let travelled: u128 = (repetition as u128) * (transaction_size as u128);
                let offset: u128 = travelled % span;
                Ok(offset as u64)
            }
        }
    }
}

} // verus!
