//! Bounded exponential backoff and the decisions of a retry loop.
use vstd::prelude::*;

verus! {

/// Growth of every backoff policy of the agent.
pub const BACKOFF_FACTOR: u64 = 2;

/// First wait, in milliseconds, and retries of each probe run.
pub const PROBE_FIRST_WAIT_MS: u64 = 100;
pub const PROBE_MAX_RETRIES: usize = 3;

/// First wait, in milliseconds, and retries of a submission: four attempts.
pub const SEND_FIRST_WAIT_MS: u64 = 200;
pub const SEND_MAX_RETRIES: usize = 3;

/// First wait, in milliseconds, and retries of a liveness ping.
pub const PING_FIRST_WAIT_MS: u64 = 25;
pub const PING_MAX_RETRIES: usize = 3;

/// `a * b`, or the largest `u64` where the product does not fit.
pub open spec fn saturating_product(a: u64, b: u64) -> u64 {
    if a * b > u64::MAX {
        u64::MAX
    } else {
        (a * b) as u64
    }
}

/// The `i`-th wait (counting from 0) of a policy whose first wait is `first`
/// and which grows by `factor` at each step.
pub open spec fn wait_at(first: u64, factor: u64, i: nat) -> u64
    decreases i,
{
    if i == 0 {
        first
    } else {
        saturating_product(wait_at(first, factor, (i - 1) as nat), factor)
    }
}

/// The `count` waits that start at `first`.
pub open spec fn wait_sequence(first: u64, factor: u64, count: nat) -> Seq<u64> {
    Seq::new(count, |i: int| wait_at(first, factor, i as nat))
}

proof fn lemma_wait_shift(first: u64, factor: u64, i: nat)
    ensures
        wait_at(saturating_product(first, factor), factor, i) == wait_at(first, factor, i + 1),
    decreases i,
{
    assert(wait_at(first, factor, i + 1) == saturating_product(wait_at(first, factor, i), factor));
    if i > 0 {
        lemma_wait_shift(first, factor, (i - 1) as nat);
        assert(wait_at(saturating_product(first, factor), factor, i) == saturating_product(
            wait_at(saturating_product(first, factor), factor, (i - 1) as nat),
            factor,
        ));
    } else {
        assert(wait_at(first, factor, 0) == first);
    }
}

/// A finite sequence of wait durations in milliseconds: `max_retries + 1` of
/// them, each the previous one multiplied by `factor`.
pub struct ExponentialBackoff {
    sleep_time_ms: u64,
    factor: u64,
    retries: usize,
    max_retries: usize,
}

impl ExponentialBackoff {
    pub closed spec fn wf(&self) -> bool {
        &&& self.max_retries < usize::MAX
        &&& self.retries <= self.max_retries + 1
    }

    /// The retries that the policy was made with.
    pub closed spec fn spec_max_retries(&self) -> nat {
        self.max_retries as nat
    }

    /// The waits that the policy has yet to yield, in order.
    pub closed spec fn remaining(&self) -> Seq<u64> {
        wait_sequence(self.sleep_time_ms, self.factor, (self.max_retries + 1 - self.retries) as nat)
    }

    /// A policy whose first wait is `base_sleep_time_ms`; `max_retries + 1`
    /// waits in all.
    pub fn new(base_sleep_time_ms: u64, factor: u64, max_retries: usize) -> (r: Self)
        requires
            max_retries < usize::MAX,
        ensures
            r.wf(),
            r.spec_max_retries() == max_retries,
            r.remaining() == wait_sequence(base_sleep_time_ms, factor, (max_retries + 1) as nat),
    {
        ExponentialBackoff { sleep_time_ms: base_sleep_time_ms, factor, retries: 0, max_retries }
    }

    pub fn len(&self) -> (r: usize)
        ensures
            r == self.spec_max_retries(),
    {
        self.max_retries
    }

    /// The next wait, or `None` once all of them have been yielded.
    pub fn next(&mut self) -> (r: Option<u64>)
        requires
            old(self).wf(),
        ensures
            final(self).wf(),
            final(self).spec_max_retries() == old(self).spec_max_retries(),
            old(self).remaining().len() == 0 ==> r is None && final(self).remaining().len() == 0,
            old(self).remaining().len() > 0 ==> r == Some(old(self).remaining()[0])
                && final(self).remaining() == old(self).remaining().drop_first(),
    {
        if self.retries > self.max_retries {
            return None;
        }
        let r = self.sleep_time_ms;
        let next = match self.sleep_time_ms.checked_mul(self.factor) {
            Some(p) => p,
            None => u64::MAX,
        };
        proof {
            let old_rest = self.remaining();
            let n = (self.max_retries + 1 - self.retries) as nat;
            assert(next == saturating_product(self.sleep_time_ms, self.factor));
            assert forall|i: int| 0 <= i < n - 1 implies #[trigger] wait_sequence(next, self.factor, (n - 1) as nat)[i]
                == old_rest.drop_first()[i] by {
                lemma_wait_shift(self.sleep_time_ms, self.factor, i as nat);
            }
            assert(wait_sequence(next, self.factor, (n - 1) as nat) =~= old_rest.drop_first());
        }
        self.sleep_time_ms = next;
        self.retries = self.retries + 1;
        Some(r)
    }
}


/// A fresh policy made with `base`, `factor` and `max_retries` yields exactly
/// `max_retries + 1` waits: the first is `base`, and each later one is the one
/// before it multiplied by `factor` (held at `u64::MAX` where the product would
/// not fit in a `u64`).
pub proof fn lemma_backoff_waits(base: u64, factor: u64, max_retries: nat)
    ensures
        wait_sequence(base, factor, max_retries + 1).len() == max_retries + 1,
        wait_sequence(base, factor, max_retries + 1)[0] == base,
        forall|i: int|
            0 < i <= max_retries ==> {
                &&& #[trigger] wait_sequence(base, factor, max_retries + 1)[i] == saturating_product(
                    wait_sequence(base, factor, max_retries + 1)[i - 1],
                    factor,
                )
                &&& wait_sequence(base, factor, max_retries + 1)[i - 1] * factor <= u64::MAX
                    ==> wait_sequence(base, factor, max_retries + 1)[i]
                    == wait_sequence(base, factor, max_retries + 1)[i - 1] * factor
            },
{
    assert forall|i: int| 0 < i <= max_retries implies {
        &&& #[trigger] wait_sequence(base, factor, max_retries + 1)[i] == saturating_product(
            wait_sequence(base, factor, max_retries + 1)[i - 1],
            factor,
        )
        &&& wait_sequence(base, factor, max_retries + 1)[i - 1] * factor <= u64::MAX
            ==> wait_sequence(base, factor, max_retries + 1)[i]
            == wait_sequence(base, factor, max_retries + 1)[i - 1] * factor
    } by {
        assert(wait_at(base, factor, i as nat) == saturating_product(
            wait_at(base, factor, (i - 1) as nat),
            factor,
        ));
    }
}

/// What a retry loop does after a failed attempt.
#[derive(PartialEq, Eq, Structural, Clone, Copy, Debug)]
pub enum RetryStep {
    /// Wait this many milliseconds, then make the next attempt.
    RetryAfter(u64),
    /// No attempt is left: the loop ends with the error of the last one.
    GiveUp,
}

/// What to do after failure number `failures + 1` of a run that allows
/// `max_retries` retries and has `waits` left: give up after the last allowed
/// attempt, else wait for the next wait of the policy.
pub open spec fn decision(max_retries: nat, failures: nat, waits: Seq<u64>) -> RetryStep {
    if failures == max_retries {
        RetryStep::GiveUp
    } else {
        RetryStep::RetryAfter(waits[0])
    }
}

/// The state of one retried operation: the policy it runs under and the
/// attempts that have failed so far. A success ends the loop at once; each
/// failure is handed to `on_failure`, which says whether to wait and retry.
pub struct RetryRun {
    policy: ExponentialBackoff,
    failures: usize,
}

impl RetryRun {
    pub closed spec fn wf(&self) -> bool {
        &&& self.policy.wf()
        &&& self.failures <= self.policy.spec_max_retries() + 1
        &&& self.policy.remaining().len() == self.policy.spec_max_retries() + 1 - self.failures
    }

    /// The failed attempts so far.
    pub closed spec fn failures(&self) -> nat {
        self.failures as nat
    }

    /// The retries that the run allows after its first attempt.
    pub closed spec fn max_retries(&self) -> nat {
        self.policy.spec_max_retries()
    }

    /// The waits that the run has not used yet, in order.
    pub closed spec fn waits_left(&self) -> Seq<u64> {
        self.policy.remaining()
    }

    /// Whether the run has given up.
    pub open spec fn finished(&self) -> bool {
        self.failures() > self.max_retries()
    }

    /// The decision on the next failure.
    pub open spec fn step(&self) -> RetryStep {
        decision(self.max_retries(), self.failures(), self.waits_left())
    }

    /// A run that has not made its first attempt yet.
    pub fn new(policy: ExponentialBackoff) -> (r: Self)
        requires
            policy.wf(),
            policy.remaining().len() == policy.spec_max_retries() + 1,
        ensures
            r.wf(),
            r.failures() == 0,
            r.max_retries() == policy.spec_max_retries(),
            r.waits_left() == policy.remaining(),
    {
        RetryRun { policy, failures: 0 }
    }

    /// Records a failed attempt. After the last allowed attempt the answer is
    /// `GiveUp`; before it, the next wait of the policy.
    pub fn on_failure(&mut self) -> (r: RetryStep)
        requires
            old(self).wf(),
            !old(self).finished(),
        ensures
            final(self).wf(),
            r == old(self).step(),
            final(self).failures() == old(self).failures() + 1,
            final(self).max_retries() == old(self).max_retries(),
            final(self).waits_left() == old(self).waits_left().drop_first(),
    {
        let w = self.policy.next();
        let r = if self.failures == self.policy.len() {
            RetryStep::GiveUp
        } else {
            match w {
                Some(w) => RetryStep::RetryAfter(w),
                None => RetryStep::GiveUp,
            }
        };
        self.failures = self.failures + 1;
        r
    }
}

/// Attempts made, and whether the last one succeeded, when a run allowing
/// `max_retries` retries has seen `failures` failed attempts, has `waits` left,
/// and the attempts still to come succeed or fail as `outcomes` says.
pub open spec fn attempts_made(max_retries: nat, failures: nat, waits: Seq<u64>, outcomes: Seq<bool>) -> (nat, bool)
    decreases outcomes.len(),
{
    if outcomes.len() == 0 {
        (failures, false)
    } else if outcomes[0] {
        (failures + 1, true)
    } else if decision(max_retries, failures, waits) is GiveUp {
        (failures + 1, false)
    } else {
        attempts_made(max_retries, failures + 1, waits.drop_first(), outcomes.drop_first())
    }
}

proof fn lemma_all_fail_from(max_retries: nat, failures: nat, waits: Seq<u64>, outcomes: Seq<bool>)
    requires
        failures <= max_retries,
        outcomes.len() >= max_retries + 1 - failures,
        forall|i: int| 0 <= i < outcomes.len() ==> !outcomes[i],
    ensures
        attempts_made(max_retries, failures, waits, outcomes) == (max_retries + 1, false),
    decreases max_retries - failures,
{
    if failures < max_retries {
        lemma_all_fail_from(max_retries, failures + 1, waits.drop_first(), outcomes.drop_first());
    }
}

proof fn lemma_success_from(max_retries: nat, failures: nat, waits: Seq<u64>, outcomes: Seq<bool>, k: nat)
    requires
        failures < k <= max_retries + 1,
        outcomes.len() >= k - failures,
        outcomes[k - failures - 1],
        forall|i: int| 0 <= i < k - failures - 1 ==> !outcomes[i],
    ensures
        attempts_made(max_retries, failures, waits, outcomes) == (k, true),
    decreases k - failures,
{
    if failures + 1 < k {
        assert(!outcomes[0]);
        lemma_success_from(max_retries, failures + 1, waits.drop_first(), outcomes.drop_first(), k);
    }
}

/// A fresh run allowing `max_retries` retries, whose operation fails at every
/// attempt, makes exactly `max_retries + 1` attempts and ends with the last
/// error.
pub proof fn lemma_retry_always_failing(max_retries: nat, waits: Seq<u64>, outcomes: Seq<bool>)
    requires
        outcomes.len() >= max_retries + 1,
        forall|i: int| 0 <= i < outcomes.len() ==> !outcomes[i],
    ensures
        attempts_made(max_retries, 0, waits, outcomes) == (max_retries + 1, false),
{
    lemma_all_fail_from(max_retries, 0, waits, outcomes);
}

/// A fresh run allowing `max_retries` retries, whose operation first succeeds
/// at attempt `k` (`k <= max_retries + 1`), makes exactly `k` attempts and ends
/// with that success.
pub proof fn lemma_retry_succeeds_at(max_retries: nat, waits: Seq<u64>, outcomes: Seq<bool>, k: nat)
    requires
        1 <= k <= max_retries + 1,
        outcomes.len() >= k,
        outcomes[k - 1],
        forall|i: int| 0 <= i < k - 1 ==> !outcomes[i],
    ensures
        attempts_made(max_retries, 0, waits, outcomes) == (k, true),
{
    lemma_success_from(max_retries, 0, waits, outcomes, k);
}

} // verus!
