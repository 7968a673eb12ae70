//! One worker of the search, and the split of the candidates among workers.
//!
//! Worker `i` of `n` walks `i, i + n, i + 2n, ...` upwards. It looks at the
//! stop signal before each candidate, and reports the first candidate of its
//! own that passes.

use crate::config::Config;
use crate::predicate::{accepts, verify, Solution};
use crate::signal::{is_raised, raise};
use std::sync::atomic::AtomicBool;
use std::sync::mpsc::SendError;
use std::sync::mpsc::Sender;
use std::sync::Arc;
use vstd::arithmetic::div_mod::{
    lemma_fundamental_div_mod,
    lemma_fundamental_div_mod_converse,
    lemma_mod_add_multiples_vanish,
    lemma_mod_multiples_basic,
};
use vstd::prelude::*;

verus! {

/// The sending half of a channel of `std::sync::mpsc`. Nothing is known of
/// what a channel holds.
#[verifier::external_type_specification]
#[verifier::external_body]
#[verifier::reject_recursive_types(T)]
pub struct ExSender<T>(Sender<T>);

/// The error of `Sender::send`: the receiving half is gone.
#[verifier::external_type_specification]
#[verifier::external_body]
#[verifier::reject_recursive_types(T)]
pub struct ExSendError<T>(SendError<T>);

/// `Sender::send` never blocks; it fails when the receiving half is gone,
/// which the sender cannot foresee, so nothing is claimed of its result.
pub assume_specification<T>[ Sender::<T>::send ](sender: &Sender<T>, t: T) -> (sent: Result<
    (),
    SendError<T>,
>)
;

/// `n` belongs to the worker that starts at `start` and strides by `stride`:
/// it is `start` plus a whole number of strides.
pub open spec fn in_slice(start: nat, stride: nat, n: nat) -> bool {
    stride > 0 && n >= start && (n - start) % (stride as int) == 0
}

/// No candidate of the slice below `bound` passes.
pub open spec fn none_below(
    start: nat,
    stride: nat,
    bound: nat,
    base: nat,
    difficulty: Seq<char>,
) -> bool {
    forall|n: nat| n < bound && #[trigger] in_slice(start, stride, n) ==> !accepts(n, base, difficulty)
}

/// The `k`-th candidate of a slice belongs to it.
pub proof fn lemma_slice_holds_each_stride(start: nat, stride: nat, k: nat)
    requires
        stride > 0,
    ensures
        in_slice(start, stride, start + k * stride),
{
    lemma_mod_multiples_basic(k as int, stride as int);
}

/// A candidate of a slice is the slice's start plus a whole number of strides.
pub proof fn lemma_slice_member_is_a_stride(start: nat, stride: nat, n: nat)
    requires
        in_slice(start, stride, n),
    ensures
        n == start + ((n - start) / (stride as int)) * stride,
        (n - start) / (stride as int) >= 0,
{
    lemma_fundamental_div_mod(n - start, stride as int);
    let q = (n - start) / (stride as int);
    assert(stride * q == q * stride) by (nonlinear_arith);
    assert(q >= 0) by (nonlinear_arith)
        requires
            stride > 0,
            n - start >= 0,
            n - start == stride * q,
    ;
}

/// Two candidates of one slice are equal or at least one stride apart.
pub proof fn lemma_slice_gap(start: nat, stride: nat, a: nat, b: nat)
    requires
        in_slice(start, stride, a),
        in_slice(start, stride, b),
        a <= b < a + stride,
    ensures
        a == b,
{
    lemma_slice_member_is_a_stride(start, stride, a);
    lemma_slice_member_is_a_stride(start, stride, b);
    let qa = (a - start) / (stride as int);
    let qb = (b - start) / (stride as int);
    assert(qa == qb) by (nonlinear_arith)
        requires
            stride > 0,
            0 <= qb * stride - qa * stride < stride,
    ;
}

/// The slices of `threads` workers that start at `0, 1, ..., threads - 1`
/// cover the natural numbers and do not overlap: every `n` lies in the slice
/// that starts at `n % threads`, and in no other.
pub proof fn lemma_slices_partition(threads: nat, n: nat)
    requires
        threads > 0,
    ensures
        n % threads < threads,
        in_slice(n % threads, threads, n),
        forall|start: nat| start < threads && in_slice(start, threads, n) ==> start == n % threads,
{
    let t = threads as int;
    lemma_fundamental_div_mod(n as int, t);
    assert(t * (n as int / t) == (n as int / t) * t) by (nonlinear_arith);
    lemma_mod_multiples_basic(n as int / t, t);
    assert forall|start: nat| start < threads && in_slice(start, threads, n) implies start == n
        % threads by {
        lemma_slice_member_is_a_stride(start, threads, n);
        let q = (n - start) / t;
        assert(q * t == t * q) by (nonlinear_arith);
        lemma_fundamental_div_mod_converse(n as int, t, q, start as int);
    }
}

/// What a worker does with one candidate.
pub enum Step {
    /// Stop: the signal was raised. The candidate was not hashed.
    Halt,
    /// The candidate passed: raise the signal, send the solution, stop.
    Report(Solution),
    /// The candidate failed: go on with the next one.
    Advance,
}

/// Decides on one candidate, given what the stop signal showed just before.
/// A raised signal stops the worker whatever the candidate is; otherwise the
/// candidate is tested, and reported exactly when it passes.
pub fn examine(number: usize, cancelled: bool, config: &Config) -> (step: Step)
    ensures
        cancelled ==> step is Halt,
        !cancelled && accepts(number as nat, config.base as nat, config.difficulty@) ==> (step matches Step::Report(
            solution,
        ) && solution.number == number && solution.solves(config)),
        !cancelled && !accepts(number as nat, config.base as nat, config.difficulty@) ==> step is Advance,
{
    if cancelled {
        return Step::Halt;
    }
    match verify(number, config) {
        Some(solution) => Step::Report(solution),
        None => Step::Advance,
    }
}

/// The worker that started at `start_at` has reached `reached`: `reached`
/// is a candidate of its slice, and every candidate of the slice below it
/// fails.
pub open spec fn walked_to(start_at: usize, reached: usize, config: &Config) -> bool {
    &&& in_slice(start_at as nat, config.threads as nat, reached as nat)
    &&& none_below(
        start_at as nat,
        config.threads as nat,
        reached as nat,
        config.base as nat,
        config.difficulty@,
    )
}

/// No candidate of the worker's slice that fits in a `usize` passes.
pub open spec fn walked_out(start_at: usize, config: &Config) -> bool {
    none_below(
        start_at as nat,
        config.threads as nat,
        usize::MAX as nat + 1,
        config.base as nat,
        config.difficulty@,
    )
}

/// How a walk over a slice ended.
pub enum Scan {
    /// The signal was raised when the worker was about to test `next`.
    Cancelled { next: usize },
    /// The first candidate of the slice that passes, with its digest.
    Found(Solution),
    /// No candidate of the slice that fits in a `usize` passes.
    Exhausted,
}

/// Walks the slice that starts at `start_at` with stride `config.threads`
/// upwards, looking at the signal before each candidate, until the signal
/// is raised, a candidate passes, or the next candidate would not fit in a
/// `usize`.
///
/// Whatever the signal showed, every candidate of the slice below the one
/// the walk ended at fails; a solution returned is the first of the slice.
pub fn scan(start_at: usize, is_solution_found: &AtomicBool, config: &Config) -> (end: Scan)
    requires
        config.runnable(),
    ensures
        match end {
            Scan::Cancelled { next } => walked_to(start_at, next, config),
            Scan::Found(solution) => walked_to(start_at, solution.number, config)
                && solution.solves(config),
            Scan::Exhausted => walked_out(start_at, config),
        },
{
    let stride: usize = config.threads;
    let mut number: usize = start_at;
    proof {
        lemma_slice_holds_each_stride(start_at as nat, stride as nat, 0);
    }
    loop
        invariant
            stride == config.threads,
            stride > 0,
            walked_to(start_at, number, config),
        decreases usize::MAX - number,
    {
        let cancelled: bool = is_raised(is_solution_found);
        match examine(number, cancelled, config) {
            Step::Halt => {
                return Scan::Cancelled { next: number };
            },
            Step::Report(solution) => {
                return Scan::Found(solution);
            },
            Step::Advance => {
                proof {
                    assert forall|n: nat|
                        n < number + stride && #[trigger] in_slice(
                            start_at as nat,
                            stride as nat,
                            n,
                        ) implies !accepts(n, config.base as nat, config.difficulty@) by {
                        if n >= number {
                            lemma_slice_gap(start_at as nat, stride as nat, number as nat, n);
                        }
                    }
                }
                if number > usize::MAX - stride {
                    return Scan::Exhausted;
                }
                proof {
                    lemma_mod_add_multiples_vanish(number - start_at, stride as int);
                }
                number = number + stride;
            },
        }
    }
}

/// How a worker ended.
pub enum SearchEnd {
    /// The signal was raised when the worker was about to test `next`.
    Cancelled { next: usize },
    /// `number` passed and its solution was sent.
    Delivered { number: usize },
    /// `number` passed, but nobody was left to receive its solution.
    Undelivered { number: usize },
    /// No candidate of the slice that fits in a `usize` passes.
    Exhausted,
}

/// Runs one worker: scans the slice that starts at `start_at`, and at the
/// first candidate that passes raises the signal and sends the solution.
/// A worker sends at most once.
///
/// Whatever the signal showed and whatever became of the send, every
/// candidate of the slice below the one the worker ended at fails.
pub fn find(
    start_at: usize,
    sender: Sender<Solution>,
    is_solution_found: Arc<AtomicBool>,
    config: &Config,
) -> (end: SearchEnd)
    requires
        config.runnable(),
    ensures
        match end {
            SearchEnd::Cancelled { next } => walked_to(start_at, next, config),
            SearchEnd::Delivered { number } | SearchEnd::Undelivered { number } => walked_to(
                start_at,
                number,
                config,
            ) && accepts(number as nat, config.base as nat, config.difficulty@),
            SearchEnd::Exhausted => walked_out(start_at, config),
        },
{
    match scan(start_at, &is_solution_found, config) {
        Scan::Cancelled { next } => SearchEnd::Cancelled { next },
        Scan::Found(solution) => {
            let number: usize = solution.number;
            raise(&is_solution_found);
            match sender.send(solution) {
                Ok(_) => SearchEnd::Delivered { number },
                Err(_) => SearchEnd::Undelivered { number },
            }
        },
        Scan::Exhausted => SearchEnd::Exhausted,
    }
}

} // verus!
