//! The delivery worker's retry state machine, its backoff schedule, and
//! the mapping from pipeline outcomes to the wrapper's exit code.
//!
//! The worker owns the only outbound connection. It connects, pops queue
//! items, writes each formatted record, and on a connect, handshake or
//! write failure backs off and reconnects; after the policy's maximum
//! consecutive failures it stops fatally. The connecting, sleeping and
//! writing themselves happen outside; this machine makes every decision,
//! one event at a time.
//!
//! Known design gap, kept deliberately: a line already popped from the
//! queue when its write fails is not requeued, so that one in-flight line
//! is lost across a reconnect.

use vstd::prelude::*;
use vstd::pervasive::unreached;

verus! {

/// Exit code when the child could not be spawned at all.
pub const SPAWN_FAILURE_CODE: i32 = 40;

/// Exit code when delivery failed fatally (connection, handshake or write
/// retries exhausted).
pub const CONNECT_FAILURE_CODE: i32 = 127;

/// Exit code when the child terminated without reporting a code.
pub const NO_STATUS_CODE: i32 = 41;

/// First backoff delay, in milliseconds; each further consecutive failure
/// multiplies the delay by ten.
pub const BACKOFF_BASE_MS: u64 = 10;

/// How the delivery worker ended: the queue drained to its end marker, or
/// the retry policy was exhausted.
#[derive(Clone, Copy, Debug, PartialEq, Eq, Structural)]
pub enum Outcome {
    Completed,
    FatalFailure,
}

/// Where the worker stands: opening the connection, waiting for the next
/// queue item, waiting for a write to finish, or done.
#[derive(Clone, Copy, Debug, PartialEq, Eq, Structural)]
pub enum Phase {
    Connecting,
    Streaming,
    Writing,
    Done(Outcome),
}

/// What happened outside. `ConnectFailed` covers a refused transport
/// connection and a failed TLS handshake or certificate validation alike:
/// the retry policy treats them identically.
#[derive(Clone, Copy, Debug, PartialEq, Eq, Structural)]
pub enum Event {
    ConnectOk,
    ConnectFailed,
    PoppedLine,
    PoppedEof,
    WriteOk,
    WriteFailed,
}

/// What the worker must do next: open the connection (with TLS handshake),
/// sleep the given milliseconds and then connect again, pop the next queue
/// item, format and write the popped line, stop cleanly, or stop fatally.
#[derive(Clone, Copy, Debug, PartialEq, Eq, Structural)]
pub enum Action {
    Connect,
    SleepMs(u64),
    Pop,
    Write,
    Finish,
    Fail,
}

/// Ten to the `k`-th power.
pub open spec fn pow10(k: nat) -> nat
    decreases k,
{
    if k == 0 {
        1
    } else {
        10 * pow10((k - 1) as nat)
    }
}

/// The delay before the retry that follows the `k`-th consecutive failure:
/// 10 ms growing tenfold per failure, saturating at `u64::MAX` once the
/// schedule outgrows the type (far beyond any real policy).
pub open spec fn spec_backoff_ms(k: nat) -> nat {
    if k == 0 {
        0
    } else if k > 19 {
        u64::MAX as nat
    } else {
        (BACKOFF_BASE_MS * pow10((k - 1) as nat)) as nat
    }
}

/// The whole schedule's worth of waiting: the sum of the backoff delays
/// for consecutive failures `lo` up to but excluding `hi`.
pub open spec fn sum_backoff(lo: nat, hi: nat) -> nat
    decreases hi - lo,
{
    if lo >= hi {
        0
    } else {
        spec_backoff_ms(lo) + sum_backoff(lo + 1, hi)
    }
}

proof fn lemma_pow10_18()
    ensures
        pow10(18) == 1_000_000_000_000_000_000,
{
    reveal_with_fuel(pow10, 19);
}

proof fn lemma_pow10_mono(i: nat, j: nat)
    requires
        i <= j,
    ensures
        pow10(i) <= pow10(j),
    decreases j,
{
    if i < j {
        lemma_pow10_mono(i, (j - 1) as nat);
        assert(pow10(j) == 10 * pow10((j - 1) as nat));
    }
}

proof fn lemma_backoff_fits(k: nat)
    ensures
        spec_backoff_ms(k) <= u64::MAX,
{
    if 1 <= k <= 19 {
        lemma_pow10_mono((k - 1) as nat, 18);
        lemma_pow10_18();
    }
}

fn pow10_u64(e: u8) -> (r: u64)
    requires
        e <= 18,
    ensures
        r == pow10(e as nat),
    decreases e,
{
    if e == 0 {
        1
    } else {
        let p = pow10_u64(e - 1);
        proof {
            lemma_pow10_mono((e - 1) as nat, 18);
            lemma_pow10_18();
        }
        10 * p
    }
}

/// The delay, in milliseconds, before the retry that follows the `k`-th
/// consecutive failure.
pub fn backoff_ms(k: u8) -> (r: u64)
    ensures
        r == spec_backoff_ms(k as nat),
{
    if k == 0 {
        0
    } else if k > 19 {
        u64::MAX
    } else {
        let p = pow10_u64(k - 1);
        proof {
            lemma_pow10_mono((k - 1) as nat, 18);
            lemma_pow10_18();
        }
        BACKOFF_BASE_MS * p
    }
}

/// The delivery worker's decision state: the retry policy's bound, the
/// count of consecutive failures, and the phase.
#[derive(Clone, Copy, Debug, PartialEq, Eq, Structural)]
pub struct DeliveryWorker {
    pub max_retries: u8,
    pub fails: u8,
    pub phase: Phase,
}

impl DeliveryWorker {
    pub open spec fn well_formed(self) -> bool {
        self.fails <= self.max_retries
    }

    /// The worker as it starts: no failures yet, about to connect.
    pub open spec fn spec_init(max_retries: u8) -> DeliveryWorker {
        DeliveryWorker { max_retries, fails: 0, phase: Phase::Connecting }
    }

    pub fn new(max_retries: u8) -> (w: DeliveryWorker)
        ensures
            w == DeliveryWorker::spec_init(max_retries),
            w.well_formed(),
    {
        DeliveryWorker { max_retries, fails: 0, phase: Phase::Connecting }
    }

    /// One more consecutive failure: fatal once the policy's bound is
    /// reached, else back off and reconnect. The failure that exhausts the
    /// policy sleeps no more.
    pub open spec fn spec_fail(self) -> (DeliveryWorker, Action) {
        if self.fails + 1 >= self.max_retries {
            (
                DeliveryWorker {
                    max_retries: self.max_retries,
                    fails: self.max_retries,
                    phase: Phase::Done(Outcome::FatalFailure),
                },
                Action::Fail,
            )
        } else {
            (
                DeliveryWorker {
                    max_retries: self.max_retries,
                    fails: (self.fails + 1) as u8,
                    phase: Phase::Connecting,
                },
                Action::SleepMs(spec_backoff_ms((self.fails + 1) as nat) as u64),
            )
        }
    }

    /// The whole decision table: what the worker becomes and what must be
    /// done next, for each phase and event; `None` for an event that
    /// cannot arrive in that phase. A success of either kind resets the
    /// consecutive-failure count.
    pub open spec fn spec_step(self, ev: Event) -> Option<(DeliveryWorker, Action)> {
        match (self.phase, ev) {
            (Phase::Connecting, Event::ConnectOk) => Some(
                (
                    DeliveryWorker { max_retries: self.max_retries, fails: 0, phase: Phase::Streaming },
                    Action::Pop,
                ),
            ),
            (Phase::Connecting, Event::ConnectFailed) => Some(self.spec_fail()),
            (Phase::Streaming, Event::PoppedEof) => Some(
                (
                    DeliveryWorker {
                        max_retries: self.max_retries,
                        fails: self.fails,
                        phase: Phase::Done(Outcome::Completed),
                    },
                    Action::Finish,
                ),
            ),
            (Phase::Streaming, Event::PoppedLine) => Some(
                (
                    DeliveryWorker {
                        max_retries: self.max_retries,
                        fails: self.fails,
                        phase: Phase::Writing,
                    },
                    Action::Write,
                ),
            ),
            (Phase::Writing, Event::WriteOk) => Some(
                (
                    DeliveryWorker { max_retries: self.max_retries, fails: 0, phase: Phase::Streaming },
                    Action::Pop,
                ),
            ),
            (Phase::Writing, Event::WriteFailed) => Some(self.spec_fail()),
            _ => None,
        }
    }

    /// Apply one event. The caller reports only events the phase can see,
    /// and performs the returned action.
    pub fn step(&mut self, ev: Event) -> (a: Action)
        requires
            old(self).well_formed(),
            old(self).spec_step(ev) is Some,
        ensures
            old(self).spec_step(ev) == Some((*final(self), a)),
            final(self).well_formed(),
    {
        let ph = self.phase;
        match (ph, ev) {
            (Phase::Connecting, Event::ConnectOk) => {
                self.fails = 0;
                self.phase = Phase::Streaming;
                Action::Pop
            },
            (Phase::Connecting, Event::ConnectFailed) => self.fail_step(),
            (Phase::Streaming, Event::PoppedEof) => {
                self.phase = Phase::Done(Outcome::Completed);
                Action::Finish
            },
            (Phase::Streaming, Event::PoppedLine) => {
                self.phase = Phase::Writing;
                Action::Write
            },
            (Phase::Writing, Event::WriteOk) => {
                self.fails = 0;
                self.phase = Phase::Streaming;
                Action::Pop
            },
            (Phase::Writing, Event::WriteFailed) => self.fail_step(),
            _ => unreached(),
        }
    }

    fn fail_step(&mut self) -> (a: Action)
        requires
            old(self).well_formed(),
        ensures
            (*final(self), a) == old(self).spec_fail(),
            final(self).well_formed(),
    {
        let next = self.fails as u16 + 1;
        if next >= self.max_retries as u16 {
            self.fails = self.max_retries;
            self.phase = Phase::Done(Outcome::FatalFailure);
            Action::Fail
        } else {
            self.fails = self.fails + 1;
            self.phase = Phase::Connecting;
            let d = backoff_ms(self.fails);
            proof {
                lemma_backoff_fits(self.fails as nat);
            }
            Action::SleepMs(d)
        }
    }
}

/// The machine after `n` consecutive failures in a row.
pub open spec fn run_failures(m: DeliveryWorker, n: nat) -> DeliveryWorker
    decreases n,
{
    if n == 0 {
        m
    } else {
        run_failures(m.spec_fail().0, (n - 1) as nat)
    }
}

/// All the sleeping those `n` consecutive failures demand.
pub open spec fn failures_sleep_total(m: DeliveryWorker, n: nat) -> nat
    decreases n,
{
    if n == 0 {
        0
    } else {
        (match m.spec_fail().1 {
            Action::SleepMs(d) => d as nat,
            _ => 0,
        }) + failures_sleep_total(m.spec_fail().0, (n - 1) as nat)
    }
}

/// In the connecting phase, a failed connection (or handshake) takes
/// exactly the failure transition.
pub proof fn lemma_connect_failure_is_fail(m: DeliveryWorker)
    requires
        m.phase == Phase::Connecting,
    ensures
        m.spec_step(Event::ConnectFailed) == Some(m.spec_fail()),
{
}

proof fn lemma_exhaust_from(m: DeliveryWorker)
    requires
        m.fails < m.max_retries,
    ensures
        run_failures(m, (m.max_retries - m.fails) as nat).phase == Phase::Done(
            Outcome::FatalFailure,
        ),
        failures_sleep_total(m, (m.max_retries - m.fails) as nat) == sum_backoff(
            (m.fails + 1) as nat,
            m.max_retries as nat,
        ),
    decreases m.max_retries - m.fails,
{
    let n = (m.max_retries - m.fails) as nat;
    let t = m.spec_fail();
    if m.fails + 1 >= m.max_retries {
        assert(n == 1);
        assert(run_failures(m, 1) == run_failures(t.0, 0));
        assert(t.1 == Action::Fail);
        assert(failures_sleep_total(t.0, 0) == 0);
        assert(failures_sleep_total(m, 1) == 0);
        assert(sum_backoff((m.fails + 1) as nat, m.max_retries as nat) == 0);
    } else {
        lemma_exhaust_from(t.0);
        lemma_backoff_fits((m.fails + 1) as nat);
        assert(run_failures(m, n) == run_failures(t.0, (n - 1) as nat));
        assert(t.1 == Action::SleepMs(spec_backoff_ms((m.fails + 1) as nat) as u64));
        assert(failures_sleep_total(m, n) == spec_backoff_ms((m.fails + 1) as nat)
            + failures_sleep_total(t.0, (n - 1) as nat));
        assert(sum_backoff((m.fails + 1) as nat, m.max_retries as nat) == spec_backoff_ms(
            (m.fails + 1) as nat,
        ) + sum_backoff((m.fails + 2) as nat, m.max_retries as nat));
    }
}

/// Law: connecting to an address where nothing answers fails every
/// attempt; after the policy's maximum consecutive failures the worker
/// ends fatally (the supervisor then exits with `CONNECT_FAILURE_CODE`),
/// and the total time slept is exactly the sum of the backoff schedule.
pub proof fn lemma_retry_exhaustion(max_retries: u8)
    requires
        max_retries >= 1,
    ensures
        run_failures(DeliveryWorker::spec_init(max_retries), max_retries as nat).phase
            == Phase::Done(Outcome::FatalFailure),
        failures_sleep_total(DeliveryWorker::spec_init(max_retries), max_retries as nat)
            == sum_backoff(1, max_retries as nat),
{
    lemma_exhaust_from(DeliveryWorker::spec_init(max_retries));
}

/// Law: the worker never completes silently. The only transition into
/// clean completion is popping the end-of-stream marker while streaming;
/// in particular no run of connect, handshake or write failures ends in
/// `Completed`.
pub proof fn lemma_completion_only_on_eof(m: DeliveryWorker, ev: Event, t: (DeliveryWorker, Action))
    requires
        m.spec_step(ev) == Some(t),
        t.0.phase == Phase::Done(Outcome::Completed),
    ensures
        m.phase == Phase::Streaming,
        ev == Event::PoppedEof,
        t.1 == Action::Finish,
{
}

/// Law: failures alone never reach clean completion.
pub proof fn lemma_failures_never_complete(m: DeliveryWorker, n: nat)
    requires
        m.phase != Phase::Done(Outcome::Completed),
    ensures
        run_failures(m, n).phase != Phase::Done(Outcome::Completed),
    decreases n,
{
    if n > 0 {
        lemma_failures_never_complete(m.spec_fail().0, (n - 1) as nat);
    }
}

/// How the child ended: with a numeric exit code, or abnormally with none
/// (a signal).
#[derive(Clone, Copy, Debug, PartialEq, Eq, Structural)]
pub enum ChildStatus {
    Exited(i32),
    NoCode,
}

/// The wrapper's own exit code. A fatally failed delivery reports
/// `CONNECT_FAILURE_CODE` whatever the child did; a completed pipeline
/// propagates the child's code unchanged, or `NO_STATUS_CODE` when the
/// child terminated without one.
pub fn program_exit_code(delivery: Outcome, child: ChildStatus) -> (c: i32)
    ensures
        match (delivery, child) {
            (Outcome::FatalFailure, _) => c == CONNECT_FAILURE_CODE,
            (Outcome::Completed, ChildStatus::Exited(x)) => c == x,
            (Outcome::Completed, ChildStatus::NoCode) => c == NO_STATUS_CODE,
        },
{
    match delivery {
        Outcome::FatalFailure => CONNECT_FAILURE_CODE,
        Outcome::Completed => match child {
            ChildStatus::Exited(x) => x,
            ChildStatus::NoCode => NO_STATUS_CODE,
        },
    }
}

/// Law: the three fixed failure codes are pairwise distinct, so a spawn
/// failure, a delivery failure and a codeless child termination can be
/// told apart.
pub proof fn lemma_exit_codes_distinct()
    ensures
        SPAWN_FAILURE_CODE != CONNECT_FAILURE_CODE,
        SPAWN_FAILURE_CODE != NO_STATUS_CODE,
        CONNECT_FAILURE_CODE != NO_STATUS_CODE,
{
}

} // verus!
