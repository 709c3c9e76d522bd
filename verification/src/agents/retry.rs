//! The retry combinator: wraps one agent and retries it while a failure check
//! says its output is a failure, up to a configured number of retries.
//! Attempts are numbered 0 through `max_retries`; the first non-failing
//! attempt's output and next node are returned verbatim, and when every
//! attempt fails, a synthesized message names the retry count and embeds the
//! last output, paired with the last attempt's next node.
//!
//! The backoff schedule is a pure function of the retry number, exposed
//! through `calculate_delay`; this library never blocks, so a caller that
//! wants real inter-attempt pauses performs them itself around the wrapped
//! agent.

use vstd::prelude::*;
use vstd::string::StringExecFns;
use crate::bridge::{lower_of, lowercase};
use crate::graph::Agent;
use crate::text::{contains_sub, dec_str, str_contains, usize_to_string};
use crate::tools::CombinedToolRegistry;

verus! {

/// The backoff schedule of a retry combinator; every figure is a delay in
/// milliseconds, a pure function of the zero-based retry number.
#[derive(Clone, Copy)]
pub enum RetryStrategy {
    /// The same delay before every retry.
    Fixed(u64),
    /// `base * multiplier^attempt`, capped at `max`.
    ExponentialBackoff { base: u64, max: u64, multiplier: u64 },
    /// `initial + increment * attempt`, capped at `max`.
    Linear { initial: u64, increment: u64, max: u64 },
}

/// `m` to the power `e`.
pub open spec fn pow_nat(m: nat, e: nat) -> nat
    decreases e,
{
    if e == 0 {
        1
    } else {
        m * pow_nat(m, (e - 1) as nat)
    }
}

/// A power of a positive base is positive.
pub proof fn lemma_pow_ge_one(m: nat, e: nat)
    requires
        m >= 1,
    ensures
        pow_nat(m, e) >= 1,
    decreases e,
{
    if e > 0 {
        lemma_pow_ge_one(m, (e - 1) as nat);
        assert(m * pow_nat(m, (e - 1) as nat) >= 1) by (nonlinear_arith)
            requires
                m >= 1,
                pow_nat(m, (e - 1) as nat) >= 1,
        ;
    }
}

/// Powers split over sums of exponents.
pub proof fn lemma_pow_split(m: nat, a: nat, b: nat)
    ensures
        pow_nat(m, a + b) == pow_nat(m, a) * pow_nat(m, b),
    decreases a,
{
    if a == 0 {
        assert(pow_nat(m, b) == 1 * pow_nat(m, b)) by (nonlinear_arith);
    } else {
        lemma_pow_split(m, (a - 1) as nat, b);
        assert(m * (pow_nat(m, (a - 1) as nat) * pow_nat(m, b)) == (m * pow_nat(
            m,
            (a - 1) as nat,
        )) * pow_nat(m, b)) by (nonlinear_arith);
    }
}

/// The delay, in milliseconds, the strategy prescribes before the retry with
/// this zero-based number.
pub open spec fn spec_delay(s: RetryStrategy, attempt: nat) -> nat {
    match s {
        RetryStrategy::Fixed(d) => d as nat,
        RetryStrategy::ExponentialBackoff { base, max, multiplier } => {
            let raw = (base as nat) * pow_nat(multiplier as nat, attempt);
            if raw < max as nat {
                raw
            } else {
                max as nat
            }
        },
        RetryStrategy::Linear { initial, increment, max } => {
            let raw = initial as nat + (increment as nat) * attempt;
            if raw < max as nat {
                raw
            } else {
                max as nat
            }
        },
    }
}

/// Decides whether an output counts as a failure worth retrying.
pub trait RetryCheck: Sized {
    /// Whether this output is a failure.
    spec fn spec_is_failure(&self, output: Seq<char>) -> bool;

    /// Tests the output against the failure condition.
    fn is_failure(&self, output: &str) -> (b: bool)
        ensures
            b == self.spec_is_failure(output@),
    ;
}

/// The default failure condition: the output is empty, or case-insensitively
/// contains "error", "failed" or "exception".
pub open spec fn default_is_failure(output: Seq<char>) -> bool {
    ||| output.len() == 0
    ||| contains_sub(lower_of(output), "error"@)
    ||| contains_sub(lower_of(output), "failed"@)
    ||| contains_sub(lower_of(output), "exception"@)
}

/// The failure check used when no custom condition is supplied.
#[derive(Clone, Copy)]
pub struct DefaultRetryCheck;

impl RetryCheck for DefaultRetryCheck {
    open spec fn spec_is_failure(&self, output: Seq<char>) -> bool {
        default_is_failure(output)
    }

    fn is_failure(&self, output: &str) -> (b: bool) {
        if output.is_empty() {
            return true;
        }
        let low = lowercase(output);
        str_contains(low.as_str(), "error") || str_contains(low.as_str(), "failed")
            || str_contains(low.as_str(), "exception")
    }
}

/// The agent state, output, next node, and failure flag after running the
/// agent once and retrying, while the check reports failure, up to
/// `attempts_left` more times.
pub open spec fn spec_retry<A: Agent, C: RetryCheck>(
    inner: A::V,
    check: C,
    input: Seq<char>,
    attempts_left: nat,
) -> (A::V, Seq<char>, Option<i32>, bool)
    decreases attempts_left,
{
    let out = A::spec_output(inner, input);
    let next = A::spec_next(inner, input);
    let stepped = A::spec_step(inner, input);
    if !check.spec_is_failure(out) || attempts_left == 0 {
        (stepped, out, next, check.spec_is_failure(out))
    } else {
        spec_retry::<A, C>(stepped, check, input, (attempts_left - 1) as nat)
    }
}

/// Mathematical image of a retry combinator.
#[verifier::ext_equal]
pub ghost struct RetryAgentV<AV, C> {
    pub inner: AV,
    pub max_retries: usize,
    pub strategy: RetryStrategy,
    pub check: C,
    pub name: String,
}

/// Wraps one agent and retries it on failure.
pub struct RetryAgent<A, C> {
    /// The wrapped agent.
    pub inner: A,
    /// The number of retries allowed after the first attempt.
    pub max_retries: usize,
    /// The backoff schedule.
    pub strategy: RetryStrategy,
    /// The failure condition.
    pub check: C,
    /// The combinator's name.
    pub name: String,
}

impl<A: Agent> RetryAgent<A, DefaultRetryCheck> {
    /// Wraps an agent with three retries, a fixed one-second backoff and the
    /// default failure condition.
    pub fn new(inner: A) -> (r: RetryAgent<A, DefaultRetryCheck>)
        ensures
            r.inner == inner,
            r.max_retries == 3,
            r.strategy == RetryStrategy::Fixed(1000),
            r.name@ == "Retry["@ + inner.spec_name() + "]"@,
    {
        let mut name = String::from_str("Retry[");
        name.append(inner.get_name());
        name.append("]");
        RetryAgent {
            inner,
            max_retries: 3,
            strategy: RetryStrategy::Fixed(1000),
            check: DefaultRetryCheck,
            name,
        }
    }
}

impl<A: Agent, C: RetryCheck> RetryAgent<A, C> {
    /// Sets the maximum number of retries.
    pub fn with_max_retries(self, max: usize) -> (r: Self)
        ensures
            r == (RetryAgent { max_retries: max, ..self }),
    {
        RetryAgent { max_retries: max, ..self }
    }

    /// Sets the backoff strategy.
    pub fn with_strategy(self, strategy: RetryStrategy) -> (r: Self)
        ensures
            r == (RetryAgent { strategy, ..self }),
    {
        RetryAgent { strategy, ..self }
    }

    /// Sets a custom failure condition.
    pub fn with_retry_condition<C2: RetryCheck>(self, check: C2) -> (r: RetryAgent<A, C2>)
        ensures
            r.inner == self.inner,
            r.max_retries == self.max_retries,
            r.strategy == self.strategy,
            r.check == check,
            r.name == self.name,
    {
        RetryAgent {
            inner: self.inner,
            max_retries: self.max_retries,
            strategy: self.strategy,
            check,
            name: self.name,
        }
    }

    /// The delay before the retry with this zero-based number, per the
    /// configured strategy.
    pub fn calculate_delay(&self, attempt: usize) -> (d: u64)
        ensures
            d as nat == spec_delay(self.strategy, attempt as nat),
    {
        match &self.strategy {
            RetryStrategy::Fixed(delay) => *delay,
            RetryStrategy::ExponentialBackoff { base, max, multiplier } => {
                let base = *base;
                let max = *max;
                let multiplier = *multiplier;
                let mut result: u64 = base;
                let mut k: usize = 0;
                proof {
                    assert(pow_nat(multiplier as nat, 0) == 1);
                    assert((base as nat) * 1 == base as nat) by (nonlinear_arith);
                }
                while k < attempt
                    invariant
                        k <= attempt,
                        self.strategy == (RetryStrategy::ExponentialBackoff {
                            base,
                            max,
                            multiplier,
                        }),
                        result as nat == (base as nat) * pow_nat(multiplier as nat, k as nat),
                    decreases attempt - k,
                {
                    let next = result.checked_mul(multiplier);
                    match next {
                        Some(x) => {
                            proof {
                                assert((base as nat) * pow_nat(multiplier as nat, k as nat)
                                    * (multiplier as nat) == (base as nat) * pow_nat(
                                    multiplier as nat,
                                    (k + 1) as nat,
                                )) by (nonlinear_arith)
                                    requires
                                        pow_nat(multiplier as nat, (k + 1) as nat) == (
                                        multiplier as nat) * pow_nat(multiplier as nat, k as nat),
                                ;
                            }
                            result = x;
                            k = k + 1;
                            if result >= max {
                                proof {
                                    lemma_exp_clamped(
                                        base as nat,
                                        multiplier as nat,
                                        k as nat,
                                        attempt as nat,
                                        max as nat,
                                        result as nat,
                                    );
                                    assert(spec_delay(self.strategy, attempt as nat)
                                        == max as nat);
                                }
                                return max;
                            }
                        },
                        None => {
                            proof {
                                lemma_exp_overflow(
                                    base as nat,
                                    multiplier as nat,
                                    k as nat,
                                    attempt as nat,
                                    max as nat,
                                    result as nat,
                                );
                                assert(spec_delay(self.strategy, attempt as nat) == max as nat);
                            }
                            return max;
                        },
                    }
                }
                if result < max {
                    result
                } else {
                    max
                }
            },
            RetryStrategy::Linear { initial, increment, max } => {
                let initial = *initial;
                let increment = *increment;
                let max = *max;
                let scaled = increment.checked_mul(attempt as u64);
                match scaled {
                    Some(x) => {
                        match initial.checked_add(x) {
                            Some(sum) => {
                                if sum < max {
                                    sum
                                } else {
                                    max
                                }
                            },
                            None => max,
                        }
                    },
                    None => max,
                }
            },
        }
    }
}

/// Once the partial product has reached the cap, the capped delay is the cap,
/// because later factors only grow the product.
proof fn lemma_exp_clamped(base: nat, m: nat, k: nat, attempt: nat, max: nat, partial: nat)
    requires
        1 <= k <= attempt,
        partial == base * pow_nat(m, k),
        partial >= max,
    ensures
        base * pow_nat(m, attempt) >= max,
{
    let rest = (attempt - k) as nat;
    lemma_pow_split(m, k, rest);
    assert(base * pow_nat(m, attempt) == partial * pow_nat(m, rest)) by (nonlinear_arith)
        requires
            pow_nat(m, attempt) == pow_nat(m, k) * pow_nat(m, rest),
            partial == base * pow_nat(m, k),
            attempt == k + rest,
    ;
    if m == 0 {
        assert(pow_nat(m, k) == 0) by {
            assert(pow_nat(0, k) == 0 * pow_nat(0, (k - 1) as nat));
            assert(0 * pow_nat(0, (k - 1) as nat) == 0) by (nonlinear_arith);
        }
        assert(partial == 0) by (nonlinear_arith)
            requires
                partial == base * pow_nat(m, k),
                pow_nat(m, k) == 0,
        ;
    } else {
        lemma_pow_ge_one(m, rest);
        assert(partial * pow_nat(m, rest) >= max) by (nonlinear_arith)
            requires
                partial >= max,
                pow_nat(m, rest) >= 1,
        ;
    }
}

/// When the next multiplication overflows, the true product already exceeds
/// any representable cap.
proof fn lemma_exp_overflow(base: nat, m: nat, k: nat, attempt: nat, max: nat, partial: nat)
    requires
        k < attempt,
        partial == base * pow_nat(m, k),
        partial * m > u64::MAX,
        max <= u64::MAX,
    ensures
        base * pow_nat(m, attempt) >= max,
{
    let rest = (attempt - k - 1) as nat;
    lemma_pow_split(m, k + 1, rest);
    assert(pow_nat(m, (k + 1) as nat) == m * pow_nat(m, k));
    assert(m >= 1) by {
        if m == 0 {
            assert(partial * 0 == 0) by (nonlinear_arith);
        }
    }
    lemma_pow_ge_one(m, rest);
    assert(base * pow_nat(m, attempt) >= partial * m) by (nonlinear_arith)
        requires
            pow_nat(m, attempt) == pow_nat(m, (k + 1) as nat) * pow_nat(m, rest),
            pow_nat(m, (k + 1) as nat) == m * pow_nat(m, k),
            partial == base * pow_nat(m, k),
            pow_nat(m, rest) >= 1,
            attempt == k + 1 + rest,
            m >= 1,
    ;
}

impl<A: Agent, C: RetryCheck> View for RetryAgent<A, C> {
    type V = RetryAgentV<A::V, C>;

    open spec fn view(&self) -> RetryAgentV<A::V, C> {
        RetryAgentV {
            inner: self.inner@,
            max_retries: self.max_retries,
            strategy: self.strategy,
            check: self.check,
            name: self.name,
        }
    }
}

impl<A: Agent, C: RetryCheck> RetryAgent<A, C> {
    fn retry_run(
        inner: &mut A,
        check: &C,
        input: &str,
        attempts_left: usize,
        tools: &CombinedToolRegistry,
    ) -> (r: (String, Option<i32>, bool))
        ensures
            ({
                let m = spec_retry::<A, C>(old(inner)@, *check, input@, attempts_left as nat);
                &&& final(inner)@ == m.0
                &&& r.0@ == m.1
                &&& r.1 == m.2
                &&& r.2 == m.3
            }),
        decreases attempts_left,
    {
        let (out, next) = inner.run(input, tools);
        let failed = check.is_failure(out.as_str());
        if !failed || attempts_left == 0 {
            (out, next, failed)
        } else {
            Self::retry_run(inner, check, input, attempts_left - 1, tools)
        }
    }
}

impl<A: Agent, C: RetryCheck> Agent for RetryAgent<A, C> {
    open spec fn spec_output(v: RetryAgentV<A::V, C>, input: Seq<char>) -> Seq<char> {
        let m = spec_retry::<A, C>(v.inner, v.check, input, v.max_retries as nat);
        if m.3 {
            "All "@ + dec_str(v.max_retries as nat) + " retries exhausted. Last output: "@ + m.1
        } else {
            m.1
        }
    }

    open spec fn spec_next(v: RetryAgentV<A::V, C>, input: Seq<char>) -> Option<i32> {
        spec_retry::<A, C>(v.inner, v.check, input, v.max_retries as nat).2
    }

    open spec fn spec_step(v: RetryAgentV<A::V, C>, input: Seq<char>) -> RetryAgentV<A::V, C> {
        RetryAgentV {
            inner: spec_retry::<A, C>(v.inner, v.check, input, v.max_retries as nat).0,
            max_retries: v.max_retries,
            strategy: v.strategy,
            check: v.check,
            name: v.name,
        }
    }

    open spec fn spec_name(&self) -> Seq<char> {
        self.name@
    }

    fn run(&mut self, input: &str, tools: &CombinedToolRegistry) -> (r: (String, Option<i32>)) {
        let (out, next, failed) = Self::retry_run(
            &mut self.inner,
            &self.check,
            input,
            self.max_retries,
            tools,
        );
        if failed {
            let mut msg = String::from_str("All ");
            msg.append(usize_to_string(self.max_retries).as_str());
            msg.append(" retries exhausted. Last output: ");
            msg.append(out.as_str());
            (msg, next)
        } else {
            (out, next)
        }
    }

    fn get_name(&self) -> (r: &str) {
        self.name.as_str()
    }
}

/// The inner agent's state after `k` invocations on the same input.
pub open spec fn stepped_times<A: Agent>(a: A::V, input: Seq<char>, k: nat) -> A::V
    decreases k,
{
    if k == 0 {
        a
    } else {
        stepped_times::<A>(A::spec_step(a, input), input, (k - 1) as nat)
    }
}

/// Given an inner agent that fails exactly `k` times and then succeeds,
/// wrapped with at least `k` retries allowed, the combinator returns that
/// success's output and next node verbatim, and the inner agent is left in
/// the state of exactly `k + 1` invocations.
pub proof fn lemma_retry_succeeds_after_k<A: Agent, C: RetryCheck>(
    inner: A::V,
    check: C,
    input: Seq<char>,
    k: nat,
    attempts_left: nat,
)
    requires
        k <= attempts_left,
        forall|j: nat|
            j < k ==> check.spec_is_failure(
                A::spec_output(#[trigger] stepped_times::<A>(inner, input, j), input),
            ),
        !check.spec_is_failure(A::spec_output(stepped_times::<A>(inner, input, k), input)),
    ensures
        spec_retry::<A, C>(inner, check, input, attempts_left) == (
            stepped_times::<A>(inner, input, k + 1),
            A::spec_output(stepped_times::<A>(inner, input, k), input),
            A::spec_next(stepped_times::<A>(inner, input, k), input),
            false,
        ),
    decreases k,
{
    assert(stepped_times::<A>(inner, input, 0) == inner);
    if k == 0 {
        assert(stepped_times::<A>(A::spec_step(inner, input), input, 0) == A::spec_step(
            inner,
            input,
        ));
        assert(stepped_times::<A>(inner, input, 1) == A::spec_step(inner, input));
    } else {
        let stepped = A::spec_step(inner, input);
        assert(check.spec_is_failure(
            A::spec_output(stepped_times::<A>(inner, input, 0), input),
        ));
        assert forall|j: nat| j < k - 1 implies check.spec_is_failure(
            A::spec_output(#[trigger] stepped_times::<A>(stepped, input, j), input),
        ) by {
            lemma_stepped_times_shift::<A>(inner, input, j);
            assert(stepped_times::<A>(inner, input, j + 1) == stepped_times::<A>(
                stepped,
                input,
                j,
            ));
        }
        lemma_stepped_times_shift::<A>(inner, input, (k - 1) as nat);
        lemma_retry_succeeds_after_k::<A, C>(
            stepped,
            check,
            input,
            (k - 1) as nat,
            (attempts_left - 1) as nat,
        );
        lemma_stepped_times_shift::<A>(inner, input, k);
    }
}

/// Stepping once and then `k` times is stepping `k + 1` times.
pub proof fn lemma_stepped_times_shift<A: Agent>(a: A::V, input: Seq<char>, k: nat)
    ensures
        stepped_times::<A>(A::spec_step(a, input), input, k) == stepped_times::<A>(
            a,
            input,
            k + 1,
        ),
    decreases k,
{
    if k > 0 {
        lemma_stepped_times_shift::<A>(A::spec_step(a, input), input, (k - 1) as nat);
    }
}

/// When every attempt fails, the combinator reports exhaustion: the last
/// attempt's output and next node are those of the agent stepped
/// `attempts_left` times, the failure flag is set, and the inner agent is
/// left stepped `attempts_left + 1` times.
pub proof fn lemma_retry_exhausted<A: Agent, C: RetryCheck>(
    inner: A::V,
    check: C,
    input: Seq<char>,
    attempts_left: nat,
)
    requires
        forall|j: nat|
            j <= attempts_left ==> check.spec_is_failure(
                A::spec_output(#[trigger] stepped_times::<A>(inner, input, j), input),
            ),
    ensures
        spec_retry::<A, C>(inner, check, input, attempts_left) == (
            stepped_times::<A>(inner, input, attempts_left + 1),
            A::spec_output(stepped_times::<A>(inner, input, attempts_left), input),
            A::spec_next(stepped_times::<A>(inner, input, attempts_left), input),
            true,
        ),
    decreases attempts_left,
{
    assert(stepped_times::<A>(inner, input, 0) == inner);
    if attempts_left == 0 {
        assert(stepped_times::<A>(A::spec_step(inner, input), input, 0) == A::spec_step(
            inner,
            input,
        ));
        assert(stepped_times::<A>(inner, input, 1) == A::spec_step(inner, input));
    } else {
        let stepped = A::spec_step(inner, input);
        assert forall|j: nat| j <= attempts_left - 1 implies check.spec_is_failure(
            A::spec_output(#[trigger] stepped_times::<A>(stepped, input, j), input),
        ) by {
            lemma_stepped_times_shift::<A>(inner, input, j);
            assert(stepped_times::<A>(inner, input, j + 1) == stepped_times::<A>(
                stepped,
                input,
                j,
            ));
        }
        lemma_retry_exhausted::<A, C>(stepped, check, input, (attempts_left - 1) as nat);
        lemma_stepped_times_shift::<A>(inner, input, (attempts_left - 1) as nat);
        lemma_stepped_times_shift::<A>(inner, input, attempts_left);
    }
}

} // verus!
