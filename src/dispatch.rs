//! Delivery of a command to a device with bounded, classified retries.
//!
//! The device session is driven from outside: its owner sends the command,
//! hands the outcome to [`Dispatch::record`], and performs the [`Step`] that
//! comes back (wait and send again, or stop with the result).

use vstd::prelude::*;

use vstd::arithmetic::power2::{lemma2_to64, lemma_pow2_strictly_increases, lemma_pow2_unfold, pow2};

verus! {

/// Retries after the first attempt, in the standard policy.
pub const RETRIES: u32 = 3;

/// Backoff steps skipped before the first retry, in the standard policy.
pub const SKIP: u32 = 1;

/// The first backoff step in milliseconds, before any is skipped, in the
/// standard policy.
pub const BASE_DELAY_MS: u32 = 10;

/// The kind of an I/O failure on the connection to a device.
#[derive(Clone, Copy, Debug, PartialEq, Eq, Structural)]
pub enum IoKind {
    ConnectionReset,
    TimedOut,
    Other,
}

/// A failure of one attempt to deliver a command.
#[derive(Clone, Debug, PartialEq, Eq)]
pub enum SessionError {
    /// The device gave no reply, or a short one.
    BadRead,
    /// The connection failed.
    ConnectionError(IoKind),
    /// Anything else: the device refused the command, its reply was
    /// malformed, the session could not be set up.
    Other(String),
}

/// Whether another attempt may succeed where this one failed.
pub open spec fn transient(e: SessionError) -> bool {
    match e {
        SessionError::BadRead => true,
        SessionError::ConnectionError(k) => k == IoKind::ConnectionReset || k == IoKind::TimedOut,
        SessionError::Other(_) => false,
    }
}

impl SessionError {
    /// A copy of this failure.
    pub fn copied(&self) -> (r: SessionError)
        ensures
            r == *self,
    {
        match self {
            SessionError::BadRead => SessionError::BadRead,
            SessionError::ConnectionError(k) => SessionError::ConnectionError(*k),
            SessionError::Other(m) => SessionError::Other(m.clone()),
        }
    }

    /// Whether another attempt may succeed where this one failed: a bad
    /// read, a reset connection or a timeout.
    pub fn is_transient(&self) -> (r: bool)
        ensures
            r == transient(*self),
    {
        match self {
            SessionError::BadRead => true,
            SessionError::ConnectionError(k) => match k {
                IoKind::ConnectionReset => true,
                IoKind::TimedOut => true,
                IoKind::Other => false,
            },
            SessionError::Other(_) => false,
        }
    }
}

/// How often to retry and how long to wait in between.
#[derive(Clone, Copy, Debug, PartialEq, Eq, Structural)]
pub struct RetryPolicy {
    /// Backoff steps skipped before the first retry.
    pub skip: u32,
    /// Attempts allowed after the first one.
    pub retries: u32,
    /// The first backoff step in milliseconds, before any is skipped.
    pub base_ms: u32,
}

impl RetryPolicy {
    /// The policy's waits fit in 64 bits.
    pub open spec fn wf(self) -> bool {
        self.skip + self.retries <= 32
    }

    /// The wait after attempt `n` (from 0) failed: the base doubled once for
    /// each step, the skipped ones included.
    pub open spec fn backoff(self, n: nat) -> nat {
        (self.base_ms * pow2((n + self.skip) as nat)) as nat
    }

    /// The standard policy: one step skipped, three retries, 10 ms base, so
    /// waits of 20, 40 and 80 ms.
    pub fn standard() -> (r: RetryPolicy)
        ensures
            r == (RetryPolicy { skip: SKIP, retries: RETRIES, base_ms: BASE_DELAY_MS }),
            r.wf(),
    {
        RetryPolicy { skip: SKIP, retries: RETRIES, base_ms: BASE_DELAY_MS }
    }

    /// The wait in milliseconds after attempt `n` (from 0) failed.
    pub fn delay_ms(&self, n: u32) -> (r: u64)
        requires
            self.wf(),
            n < self.retries,
        ensures
            r == self.backoff(n as nat),
    {
        let e = n + self.skip;
        let mut d: u64 = self.base_ms as u64;
        let mut i: u32 = 0;
        proof {
            lemma2_to64();
        }
        while i < e
            invariant
                e <= 32,
                i <= e,
                d == self.base_ms * pow2(i as nat),
            decreases e - i,
        {
            proof {
                lemma_pow2_unfold((i + 1) as nat);
                if i + 1 < 32 {
                    lemma_pow2_strictly_increases((i + 1) as nat, 32);
                }
                lemma2_to64();
                let p = pow2((i + 1) as nat);
                let b = self.base_ms as nat;
                assert(b * p <= 0xffff_ffff * 0x1_0000_0000) by (nonlinear_arith)
                    requires
                        b <= 0xffff_ffff,
                        p <= 0x1_0000_0000,
                ;
                assert(b * p == 2 * (b * pow2(i as nat))) by (nonlinear_arith)
                    requires
                        p == 2 * pow2(i as nat),
                ;
            }
            d = d * 2;
            i = i + 1;
        }
        d
    }
}

impl Default for RetryPolicy {
    fn default() -> (r: RetryPolicy)
        ensures
            r == (RetryPolicy { skip: SKIP, retries: RETRIES, base_ms: BASE_DELAY_MS }),
    {
        RetryPolicy::standard()
    }
}

/// Why a command was not delivered. Each variant holds the failure of the
/// last attempt and the number of attempts made.
#[derive(Clone, Debug, PartialEq, Eq)]
pub enum DispatchError {
    /// An attempt failed in a way that retrying cannot mend.
    Fatal { error: SessionError, attempts: u32 },
    /// Every attempt that the policy allows failed.
    Exhausted { error: SessionError, attempts: u32 },
}

/// Where one delivery stands.
#[derive(Clone, Debug, PartialEq, Eq)]
pub enum DispatchState {
    /// Attempt `n` (from 0) is to be made.
    Attempting(u32),
    /// The command was delivered, after this many attempts.
    Succeeded(u32),
    FailedFatal(SessionError, u32),
    FailedExhausted(SessionError, u32),
}

/// What the owner of the session does next.
#[derive(Debug, PartialEq, Eq)]
pub enum Step {
    /// Wait `delay_ms` milliseconds, then make attempt `attempt` with the
    /// packet identifier `packet_id`.
    Retry { attempt: u32, delay_ms: u64, packet_id: u32 },
    /// Stop: the delivery is over with this result.
    Done(Result<(), DispatchError>),
}

/// One delivery of a command: the packet identifier that every attempt
/// carries, the policy, and where the delivery stands.
#[derive(Clone, Debug, PartialEq, Eq)]
pub struct Dispatch {
    pub packet_id: u32,
    pub policy: RetryPolicy,
    pub state: DispatchState,
}

/// The state and the step that follow the outcome of attempt `n`.
pub open spec fn next(policy: RetryPolicy, packet_id: u32, n: u32, outcome: Result<(), SessionError>) -> (
    DispatchState,
    Step,
) {
    let made = (n + 1) as u32;
    match outcome {
        Ok(()) => (DispatchState::Succeeded(made), Step::Done(Ok(()))),
        Err(e) => if !transient(e) {
            (
                DispatchState::FailedFatal(e, made),
                Step::Done(Err(DispatchError::Fatal { error: e, attempts: made })),
            )
        } else if n + 1 > policy.retries {
            (
                DispatchState::FailedExhausted(e, made),
                Step::Done(Err(DispatchError::Exhausted { error: e, attempts: made })),
            )
        } else {
            (
                DispatchState::Attempting(made),
                Step::Retry {
                    attempt: made,
                    delay_ms: policy.backoff(n as nat) as u64,
                    packet_id,
                },
            )
        },
    }
}

impl Dispatch {
    /// The attempts made so far stay within the policy: at most one more
    /// than the retries it allows.
    pub open spec fn wf(self) -> bool {
        &&& self.policy.wf()
        &&& match self.state {
            DispatchState::Attempting(n) => n <= self.policy.retries,
            DispatchState::Succeeded(a) => 1 <= a <= self.policy.retries + 1,
            DispatchState::FailedFatal(_, a) => 1 <= a <= self.policy.retries + 1,
            DispatchState::FailedExhausted(_, a) => a == self.policy.retries + 1,
        }
    }

    /// The delivery after the outcome of the pending attempt.
    pub open spec fn after(self, outcome: Result<(), SessionError>) -> Dispatch {
        match self.state {
            DispatchState::Attempting(n) => Dispatch {
                state: next(self.policy, self.packet_id, n, outcome).0,
                ..self
            },
            _ => self,
        }
    }

    /// A delivery about to make its first attempt.
    pub fn new(packet_id: u32, policy: RetryPolicy) -> (r: Dispatch)
        requires
            policy.wf(),
        ensures
            r == start(packet_id, policy),
            r.wf(),
    {
        Dispatch { packet_id, policy, state: DispatchState::Attempting(0) }
    }

    /// Whether the delivery is over.
    pub fn is_finished(&self) -> (r: bool)
        ensures
            r == !(self.state is Attempting),
    {
        match self.state {
            DispatchState::Attempting(_) => false,
            _ => true,
        }
    }

    /// The number of attempts made so far.
    pub fn attempts(&self) -> (r: u32)
        ensures
            r == match self.state {
                DispatchState::Attempting(n) => n,
                DispatchState::Succeeded(a) => a,
                DispatchState::FailedFatal(_, a) => a,
                DispatchState::FailedExhausted(_, a) => a,
            },
    {
        match self.state {
            DispatchState::Attempting(n) => n,
            DispatchState::Succeeded(a) => a,
            DispatchState::FailedFatal(_, a) => a,
            DispatchState::FailedExhausted(_, a) => a,
        }
    }

    /// Takes the outcome of the pending attempt and says what to do next:
    /// success ends the delivery; a fatal failure ends it at once; a
    /// transient one asks for a wait and another attempt with the same
    /// packet identifier, until the policy's retries are spent.
    pub fn record(&mut self, outcome: Result<(), SessionError>) -> (step: Step)
        requires
            old(self).wf(),
            old(self).state is Attempting,
        ensures
            final(self).wf(),
            *final(self) == old(self).after(outcome),
            step == next(old(self).policy, old(self).packet_id, old(self).state->Attempting_0, outcome).1,
    {
        let n = match self.state {
            DispatchState::Attempting(n) => n,
            _ => 0,
        };
        let made = n + 1;
        match outcome {
            Ok(()) => {
                self.state = DispatchState::Succeeded(made);
                Step::Done(Ok(()))
            },
            Err(e) => {
                if !e.is_transient() {
                    self.state = DispatchState::FailedFatal(e.copied(), made);
                    Step::Done(Err(DispatchError::Fatal { error: e, attempts: made }))
                } else if made > self.policy.retries {
                    self.state = DispatchState::FailedExhausted(e.copied(), made);
                    Step::Done(Err(DispatchError::Exhausted { error: e, attempts: made }))
                } else {
                    let delay_ms = self.policy.delay_ms(n);
                    self.state = DispatchState::Attempting(made);
                    Step::Retry { attempt: made, delay_ms, packet_id: self.packet_id }
                }
            },
        }
    }
}

/// The delivery after the outcomes of its attempts, in order. Outcomes that
/// come after the delivery is over are not looked at.
pub open spec fn run(d: Dispatch, outcomes: Seq<Result<(), SessionError>>) -> Dispatch
    decreases outcomes.len(),
{
    if outcomes.len() == 0 || !(d.state is Attempting) {
        d
    } else {
        run(d.after(outcomes[0]), outcomes.drop_first())
    }
}

/// The steps that the delivery asks for, one for each outcome it looks at.
pub open spec fn steps(d: Dispatch, outcomes: Seq<Result<(), SessionError>>) -> Seq<Step>
    decreases outcomes.len(),
{
    if outcomes.len() == 0 || !(d.state is Attempting) {
        Seq::empty()
    } else {
        seq![next(d.policy, d.packet_id, d.state->Attempting_0, outcomes[0]).1] + steps(
            d.after(outcomes[0]),
            outcomes.drop_first(),
        )
    }
}

/// A failed outcome that another attempt may mend.
pub open spec fn transient_failure(o: Result<(), SessionError>) -> bool {
    o is Err && transient(o->Err_0)
}

/// Every delivery keeps its packet identifier and its policy, and never makes
/// more attempts than the policy allows, whatever its attempts' outcomes.
pub proof fn lemma_run_within_budget(d: Dispatch, outcomes: Seq<Result<(), SessionError>>)
    requires
        d.wf(),
    ensures
        run(d, outcomes).wf(),
        run(d, outcomes).packet_id == d.packet_id,
        run(d, outcomes).policy == d.policy,
    decreases outcomes.len(),
{
    if outcomes.len() > 0 && d.state is Attempting {
        lemma_run_within_budget(d.after(outcomes[0]), outcomes.drop_first());
    }
}

/// Every retry that a delivery asks for carries the delivery's packet
/// identifier, whatever its attempts' outcomes.
pub proof fn lemma_packet_id_stable(d: Dispatch, outcomes: Seq<Result<(), SessionError>>)
    requires
        d.wf(),
    ensures
        forall|i: int|
            0 <= i < steps(d, outcomes).len() && (#[trigger] steps(d, outcomes)[i]) is Retry
                ==> steps(d, outcomes)[i]->Retry_packet_id == d.packet_id,
    decreases outcomes.len(),
{
    if outcomes.len() > 0 && d.state is Attempting {
        let d2 = d.after(outcomes[0]);
        lemma_packet_id_stable(d2, outcomes.drop_first());
        let head = seq![next(d.policy, d.packet_id, d.state->Attempting_0, outcomes[0]).1];
        assert(steps(d, outcomes) == head + steps(d2, outcomes.drop_first()));
        assert forall|i: int|
            0 <= i < steps(d, outcomes).len() && (#[trigger] steps(d, outcomes)[i]) is Retry implies
                steps(d, outcomes)[i]->Retry_packet_id == d.packet_id by {
            if i > 0 {
                assert(steps(d, outcomes)[i] == steps(d2, outcomes.drop_first())[i - 1]);
            }
        }
    }
}

/// From attempt `k` on, a delivery whose attempts all fail transiently
/// retries after each failure until the policy's retries are spent, waiting
/// the policy's backoff, and then gives up.
proof fn lemma_transient_from(d: Dispatch, outcomes: Seq<Result<(), SessionError>>)
    requires
        d.wf(),
        d.state is Attempting,
        outcomes.len() >= d.policy.retries + 1 - d.state->Attempting_0,
        forall|i: int| 0 <= i < outcomes.len() ==> transient_failure(#[trigger] outcomes[i]),
    ensures
        ({
            let k = d.state->Attempting_0;
            let m = d.policy.retries + 1 - k;
            let last = outcomes[m - 1]->Err_0;
            &&& run(d, outcomes).state == DispatchState::FailedExhausted(
                last,
                (d.policy.retries + 1) as u32,
            )
            &&& steps(d, outcomes).len() == m
            &&& forall|i: int|
                0 <= i < m - 1 ==> #[trigger] steps(d, outcomes)[i] == (Step::Retry {
                    attempt: (k + i + 1) as u32,
                    delay_ms: d.policy.backoff((k + i) as nat) as u64,
                    packet_id: d.packet_id,
                })
            &&& steps(d, outcomes)[m - 1] == Step::Done(
                Err(
                    DispatchError::Exhausted {
                        error: last,
                        attempts: (d.policy.retries + 1) as u32,
                    },
                ),
            )
        }),
    decreases d.policy.retries + 1 - d.state->Attempting_0,
{
    let k = d.state->Attempting_0;
    let d2 = d.after(outcomes[0]);
    let rest = outcomes.drop_first();
    assert(transient_failure(outcomes[0]));
    let head = seq![next(d.policy, d.packet_id, k, outcomes[0]).1];
    assert(steps(d, outcomes) == head + steps(d2, rest));
    if k < d.policy.retries {
        assert forall|i: int| 0 <= i < rest.len() implies transient_failure(#[trigger] rest[i]) by {
            assert(rest[i] == outcomes[i + 1]);
        }
        lemma_transient_from(d2, rest);
        let m = d.policy.retries + 1 - k;
        assert forall|i: int|
            0 <= i < m - 1 implies #[trigger] steps(d, outcomes)[i] == (Step::Retry {
                attempt: (k + i + 1) as u32,
                delay_ms: d.policy.backoff((k + i) as nat) as u64,
                packet_id: d.packet_id,
            }) by {
            if i > 0 {
                assert(steps(d, outcomes)[i] == steps(d2, rest)[i - 1]);
            }
        }
        assert(steps(d, outcomes)[m - 1] == steps(d2, rest)[m - 2]);
        assert(outcomes[m - 1] == rest[m - 2]);
    } else {
        assert(steps(d2, rest) == Seq::<Step>::empty());
    }
}

/// The delivery that is about to make its first attempt.
pub open spec fn start(packet_id: u32, policy: RetryPolicy) -> Dispatch {
    Dispatch { packet_id, policy, state: DispatchState::Attempting(0) }
}

/// A delivery whose attempts all fail transiently makes the first attempt
/// and then each retry that the policy allows, one more attempt than its
/// retries, waits the policy's backoff before each retry, and gives up with
/// the last failure and that many attempts.
pub proof fn lemma_transient_exhausts(
    packet_id: u32,
    policy: RetryPolicy,
    outcomes: Seq<Result<(), SessionError>>,
)
    requires
        policy.wf(),
        outcomes.len() >= policy.retries + 1,
        forall|i: int| 0 <= i < outcomes.len() ==> transient_failure(#[trigger] outcomes[i]),
    ensures
        ({
            let d = start(packet_id, policy);
            let m = policy.retries + 1;
            let last = outcomes[m - 1]->Err_0;
            &&& run(d, outcomes).state == DispatchState::FailedExhausted(last, m as u32)
            &&& steps(d, outcomes).len() == m
            &&& forall|i: int|
                0 <= i < m - 1 ==> #[trigger] steps(d, outcomes)[i] == (Step::Retry {
                    attempt: (i + 1) as u32,
                    delay_ms: policy.backoff(i as nat) as u64,
                    packet_id,
                })
            &&& steps(d, outcomes)[m - 1] == Step::Done(
                Err(DispatchError::Exhausted { error: last, attempts: m as u32 }),
            )
        }),
{
    lemma_transient_from(start(packet_id, policy), outcomes);
}

/// A delivery whose first attempt fails fatally stops at once: one attempt,
/// no wait, and the failure returned.
pub proof fn lemma_fatal_first(
    packet_id: u32,
    policy: RetryPolicy,
    outcomes: Seq<Result<(), SessionError>>,
)
    requires
        policy.wf(),
        outcomes.len() >= 1,
        outcomes[0] is Err,
        !transient(outcomes[0]->Err_0),
    ensures
        ({
            let d = start(packet_id, policy);
            let e = outcomes[0]->Err_0;
            &&& run(d, outcomes).state == DispatchState::FailedFatal(e, 1)
            &&& steps(d, outcomes) == seq![
                Step::Done(Err(DispatchError::Fatal { error: e, attempts: 1 })),
            ]
        }),
{
    let d = start(packet_id, policy);
    let d2 = d.after(outcomes[0]);
    assert(!(d2.state is Attempting));
    assert(run(d2, outcomes.drop_first()) == d2);
    assert(steps(d2, outcomes.drop_first()) == Seq::<Step>::empty());
    assert(steps(d, outcomes) =~= seq![
        Step::Done(Err(DispatchError::Fatal { error: outcomes[0]->Err_0, attempts: 1 })),
    ]);
}

} // verus!
