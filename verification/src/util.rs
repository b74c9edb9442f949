//! Errors and the bounded-backoff retry policy.

use vstd::prelude::*;

verus! {

/// The library's error type.  `retry_later` marks failures that a caller may
/// retry after a pause (for example, provider quota exhaustion).
#[derive(Debug)]
pub struct Error {
    msg: String,
    retry_later: bool,
}

impl Error {
    /// The error text.
    pub closed spec fn msg_spec(&self) -> Seq<char> {
        self.msg@
    }

    /// Whether the failure is transient and eligible for automatic re-attempt.
    pub closed spec fn retryable_spec(&self) -> bool {
        self.retry_later
    }

    /// A non-retryable error with the given message.
    pub fn new(msg: &str) -> (e: Error)
        ensures
            e.msg_spec() == msg@,
            !e.retryable_spec(),
    {
        Error { msg: msg.to_owned(), retry_later: false }
    }

    /// A retryable (transient) error with the given message.
    pub fn retryable(msg: &str) -> (e: Error)
        ensures
            e.msg_spec() == msg@,
            e.retryable_spec(),
    {
        Error { msg: msg.to_owned(), retry_later: true }
    }

    /// The error text, for display by the caller.
    pub fn message(&self) -> (r: String)
        ensures
            r@ == self.msg_spec(),
    {
        self.msg.clone()
    }

    pub fn is_retryable(&self) -> (r: bool)
        ensures
            r == self.retryable_spec(),
    {
        self.retry_later
    }

    /// A copy of this error.
    pub fn duplicate(&self) -> (r: Error)
        ensures
            r.msg_spec() == self.msg_spec(),
            r.retryable_spec() == self.retryable_spec(),
    {
        Error { msg: self.msg.clone(), retry_later: self.retry_later }
    }
}

/// One observed outcome of a fallible operation, as the retry policy sees it.
#[derive(Clone, Copy, Debug, PartialEq, Eq, Structural)]
pub enum OutcomeKind {
    Success,
    RetryableFailure,
    FatalFailure,
}

/// Bounded retry state: at most `max` sleeps (so at most `max + 1` attempts).
///
/// The caller invokes the operation, classifies the outcome, and asks
/// `should_retry`; on `true` it sleeps the fixed delay and re-invokes.
pub struct Retry {
    max: u32,
    used: u32,
}

impl Retry {
    pub closed spec fn max_spec(&self) -> u32 {
        self.max
    }

    /// Number of sleeps performed so far.
    pub closed spec fn used_spec(&self) -> u32 {
        self.used
    }

    pub open spec fn wf(&self) -> bool {
        self.used_spec() <= self.max_spec()
    }

    pub fn new(max: u32) -> (r: Retry)
        ensures
            r.max_spec() == max,
            r.used_spec() == 0,
            r.wf(),
    {
        Retry { max, used: 0 }
    }

    /// Decides whether to re-attempt after an outcome: only a retryable
    /// failure is retried, and only while sleeps remain.  Counts the sleep.
    pub fn should_retry(&mut self, retryable_failure: bool) -> (r: bool)
        requires
            old(self).wf(),
        ensures
            r == (retryable_failure && old(self).used_spec() < old(self).max_spec()),
            final(self).max_spec() == old(self).max_spec(),
            final(self).used_spec() == if r {
                old(self).used_spec() + 1
            } else {
                old(self).used_spec() as int
            },
            final(self).wf(),
    {
        if retryable_failure && self.used < self.max {
            self.used = self.used + 1;
            true
        } else {
            false
        }
    }
}

/// Number of sleeps the retry policy performs when at most `n` retries remain
/// and successive invocations of the operation produce `outcomes` in order.
pub open spec fn trace_sleeps(n: nat, outcomes: Seq<OutcomeKind>) -> nat
    decreases n,
{
    if outcomes.len() == 0 {
        0
    } else if outcomes[0] != OutcomeKind::RetryableFailure {
        0
    } else if n == 0 {
        0
    } else {
        1 + trace_sleeps((n - 1) as nat, outcomes.drop_first())
    }
}

/// Number of invocations of the operation: one, plus one per sleep.
pub open spec fn trace_attempts(n: nat, outcomes: Seq<OutcomeKind>) -> nat {
    1 + trace_sleeps(n, outcomes)
}

/// The outcome the retry policy finally hands back to its caller.
pub open spec fn trace_result(n: nat, outcomes: Seq<OutcomeKind>) -> OutcomeKind
    decreases n,
{
    if outcomes.len() == 0 {
        OutcomeKind::FatalFailure
    } else if outcomes[0] != OutcomeKind::RetryableFailure || n == 0 {
        outcomes[0]
    } else {
        trace_result((n - 1) as nat, outcomes.drop_first())
    }
}

/// If the operation fails retryably exactly `k < n + 1` times and then
/// succeeds, the policy sleeps exactly `k` times, attempts `k + 1` times, and
/// returns the success.
pub proof fn lemma_retry_success(n: nat, outcomes: Seq<OutcomeKind>, k: nat)
    requires
        k <= n,
        k < outcomes.len(),
        forall|i: int| 0 <= i < k ==> outcomes[i] == OutcomeKind::RetryableFailure,
        outcomes[k as int] == OutcomeKind::Success,
    ensures
        trace_sleeps(n, outcomes) == k,
        trace_attempts(n, outcomes) == k + 1,
        trace_result(n, outcomes) == OutcomeKind::Success,
    decreases k,
{
    if k == 0 {
    } else {
        lemma_retry_success((n - 1) as nat, outcomes.drop_first(), (k - 1) as nat);
    }
}

/// If the operation always fails retryably, the policy attempts exactly
/// `n + 1` times, sleeps `n` times, and returns the final (retryable)
/// failure.
pub proof fn lemma_retry_exhausted(n: nat, outcomes: Seq<OutcomeKind>)
    requires
        n < outcomes.len(),
        forall|i: int| 0 <= i <= n ==> outcomes[i] == OutcomeKind::RetryableFailure,
    ensures
        trace_sleeps(n, outcomes) == n,
        trace_attempts(n, outcomes) == n + 1,
        trace_result(n, outcomes) == OutcomeKind::RetryableFailure,
    decreases n,
{
    if n == 0 {
    } else {
        lemma_retry_exhausted((n - 1) as nat, outcomes.drop_first());
    }
}

} // verus!
