use vstd::prelude::*;

verus! {

/// Largest number of connection attempts in one retry sequence.
pub const MAX_ATTEMPTS: u32 = 30;

/// Seconds to wait after a failed attempt before the next one.
pub const RETRY_INTERVAL_SECS: u64 = 10;

/// What the caller does after reporting the outcome of one attempt.
#[derive(Debug, Clone, Copy, PartialEq, Eq, Structural)]
pub enum RetryDecision {
    /// The attempt succeeded: use the connection.
    Connected,
    /// The attempt failed: wait this many seconds, then attempt again.
    WaitThenRetry { delay_secs: u64 },
    /// The attempt failed and it was the last one allowed.
    Exhausted,
}

/// The decision after attempt number `attempt` (counted from 1) ended with `succeeded`.
pub open spec fn decision_after(attempt: nat, succeeded: bool) -> RetryDecision {
    if succeeded {
        RetryDecision::Connected
    } else if attempt < MAX_ATTEMPTS {
        RetryDecision::WaitThenRetry { delay_secs: RETRY_INTERVAL_SECS }
    } else {
        RetryDecision::Exhausted
    }
}

/// Counts the attempts of one retry sequence and decides after each.
pub struct RetryConnector {
    attempts: u32,
}

impl RetryConnector {
    pub closed spec fn attempts_made(&self) -> nat {
        self.attempts as nat
    }

    pub fn new() -> (r: RetryConnector)
        ensures
            r.attempts_made() == 0,
    {
        RetryConnector { attempts: 0 }
    }

    /// Records the outcome of one more attempt and says what to do next.
    pub fn record_attempt(&mut self, succeeded: bool) -> (d: RetryDecision)
        requires
            old(self).attempts_made() < MAX_ATTEMPTS,
        ensures
            final(self).attempts_made() == old(self).attempts_made() + 1,
            d == decision_after(final(self).attempts_made(), succeeded),
    {
        self.attempts = self.attempts + 1;
        if succeeded {
            RetryDecision::Connected
        } else if self.attempts < MAX_ATTEMPTS {
            RetryDecision::WaitThenRetry { delay_secs: RETRY_INTERVAL_SECS }
        } else {
            RetryDecision::Exhausted
        }
    }
}

/// How one retry sequence ended.
#[derive(Debug, Clone, Copy, PartialEq, Eq, Structural)]
pub struct ConnectReport {
    pub connected: bool,
    /// Attempts made, the successful one included.
    pub attempts: u32,
    /// Seconds spent waiting between attempts.
    pub waited_secs: u64,
}

/// Index of the first successful attempt in `outcomes`, or its length when none succeeds.
pub open spec fn first_success(outcomes: Seq<bool>, from: int) -> int
    decreases outcomes.len() - from,
{
    if from >= outcomes.len() {
        outcomes.len() as int
    } else if outcomes[from] {
        from
    } else {
        first_success(outcomes, from + 1)
    }
}

/// The end of a retry sequence in which attempt `i` (from 0) succeeds exactly
/// when `outcomes[i]` holds; attempts beyond the end of `outcomes` fail.
pub open spec fn report_of(outcomes: Seq<bool>) -> ConnectReport {
    let f = first_success(outcomes, 0);
    if f < outcomes.len() && f < MAX_ATTEMPTS {
        ConnectReport {
            connected: true,
            attempts: (f + 1) as u32,
            waited_secs: (f * RETRY_INTERVAL_SECS) as u64,
        }
    } else {
        ConnectReport {
            connected: false,
            attempts: MAX_ATTEMPTS,
            waited_secs: ((MAX_ATTEMPTS - 1) * RETRY_INTERVAL_SECS) as u64,
        }
    }
}

proof fn lemma_first_success_bounds(outcomes: Seq<bool>, from: int)
    requires
        0 <= from <= outcomes.len(),
    ensures
        from <= first_success(outcomes, from) <= outcomes.len(),
        first_success(outcomes, from) < outcomes.len() ==> outcomes[first_success(outcomes, from)],
        forall|i: int| from <= i < first_success(outcomes, from) ==> !#[trigger] outcomes[i],
    decreases outcomes.len() - from,
{
    if from < outcomes.len() && !outcomes[from] {
        lemma_first_success_bounds(outcomes, from + 1);
    }
}

/// Runs one retry sequence against a scripted list of attempt outcomes,
/// deciding after each attempt as a connector does.
pub fn simulate_connect(outcomes: &Vec<bool>) -> (r: ConnectReport)
    ensures
        r == report_of(outcomes@),
{
    let mut connector = RetryConnector::new();
    let mut waited: u64 = 0;
    let mut i: usize = 0;
    proof {
        lemma_first_success_bounds(outcomes@, 0);
    }
    loop
        invariant
            connector.attempts_made() == i,
            i < MAX_ATTEMPTS,
            waited == i * RETRY_INTERVAL_SECS,
            forall|k: int| 0 <= k < i ==> !(k < outcomes@.len() && #[trigger] outcomes@[k]),
        decreases MAX_ATTEMPTS - i,
    {
        let succeeded = i < outcomes.len() && outcomes[i];
        match connector.record_attempt(succeeded) {
            RetryDecision::Connected => {
                proof {
                    lemma_first_success_at(outcomes@, 0, i as int);
                }
                return ConnectReport { connected: true, attempts: (i + 1) as u32, waited_secs: waited };
            },
            RetryDecision::WaitThenRetry { delay_secs } => {
                waited = waited + delay_secs;
                i = i + 1;
            },
            RetryDecision::Exhausted => {
                proof {
                    lemma_exhausted_beyond_bound(outcomes@);
                }
                return ConnectReport { connected: false, attempts: MAX_ATTEMPTS, waited_secs: waited };
            },
        }
    }
}

/// A sequence whose attempts fail until one within the bound succeeds
/// connects on that attempt, after waiting the fixed interval after each failure.
pub proof fn lemma_success_within_bound(outcomes: Seq<bool>, k: int)
    requires
        0 <= k < MAX_ATTEMPTS,
        k < outcomes.len(),
        outcomes[k],
        forall|i: int| 0 <= i < k ==> !#[trigger] outcomes[i],
    ensures
        report_of(outcomes).connected,
        report_of(outcomes).attempts == k + 1,
        report_of(outcomes).waited_secs == k * RETRY_INTERVAL_SECS,
{
    lemma_first_success_at(outcomes, 0, k);
}

proof fn lemma_first_success_at(outcomes: Seq<bool>, from: int, k: int)
    requires
        0 <= from <= k < outcomes.len(),
        outcomes[k],
        forall|i: int| from <= i < k ==> !#[trigger] outcomes[i],
    ensures
        first_success(outcomes, from) == k,
    decreases k - from,
{
    if from < k {
        lemma_first_success_at(outcomes, from + 1, k);
    }
}

/// A sequence whose first `MAX_ATTEMPTS` attempts all fail gives up after
/// exactly that many attempts, without connecting.
pub proof fn lemma_exhausted_beyond_bound(outcomes: Seq<bool>)
    requires
        forall|i: int| 0 <= i < MAX_ATTEMPTS && i < outcomes.len() ==> !#[trigger] outcomes[i],
    ensures
        !report_of(outcomes).connected,
        report_of(outcomes).attempts == MAX_ATTEMPTS,
{
    lemma_first_success_bounds(outcomes, 0);
    let f = first_success(outcomes, 0);
    if f < outcomes.len() && f < MAX_ATTEMPTS {
        assert(!outcomes[f]);
    }
}

} // verus!
