//! When a process that runs for too long is sent which signal.

use vstd::prelude::*;
use crate::sys::signal::{CancelPolicy, SIGKILL, SIGTERM};

verus! {

/// The nanoseconds in a millisecond.
pub const NANOS_PER_MILLI: u128 = 1_000_000;
/// How long to wait for events, in milliseconds, once the deadline has passed.
pub const OVERDUE_POLL_MS: i32 = 100;

/// Which signal a process has been sent.
#[derive(Clone, Copy, Debug, PartialEq, Eq, Structural)]
pub enum KillState {
    /// None yet.
    NothingSent,
    /// SIGTERM, this many nanoseconds after the start.
    TermSent(u128),
    /// SIGKILL; or SIGTERM could not be sent, and nothing more is.
    KillSent,
}

/// Watches over the deadline of a process.
#[derive(Clone, Copy, Debug, PartialEq, Eq, Structural)]
pub struct Watchdog {
    /// How long the process may run, in milliseconds.
    pub timeout_ms: Option<u32>,
    /// How long it may go on after SIGTERM, in milliseconds.
    pub kill_grace_ms: u32,
    /// What to do once the deadline has passed.
    pub cancel: CancelPolicy,
    /// What has been sent.
    pub state: KillState,
    /// Whether the deadline has been seen to have passed.
    pub timed_out: bool,
    /// When the clock was last looked at, in nanoseconds after the start.
    pub looked_at: u128,
}

/// What a look at the clock calls for.
#[derive(Clone, Copy, Debug, PartialEq, Eq, Structural)]
pub struct Tick {
    /// The signal to send.
    pub signal: Option<i32>,
    /// How long to wait for events, in milliseconds; -1 is without limit.
    pub poll_timeout: i32,
}

impl Watchdog {
    /// The deadline in nanoseconds, counted from the start.
    pub open spec fn deadline(self) -> Option<nat> {
        match self.timeout_ms {
            Some(ms) => Some((ms * 1_000_000) as nat),
            None => None,
        }
    }

    /// Whether the deadline has passed.
    pub open spec fn overdue(self, elapsed: u128) -> bool {
        self.deadline() matches Some(deadline) && elapsed >= deadline
    }

    /// Whether the grace period after a SIGTERM sent at `at` has passed: it is
    /// exceeded by at least one whole millisecond.
    pub open spec fn past_grace(self, at: u128, elapsed: u128) -> bool {
        elapsed >= at && (elapsed - at) / 1_000_000 > self.kill_grace_ms
    }

    /// The signal that is due.
    pub open spec fn due(self, elapsed: u128) -> Option<i32> {
        if !self.overdue(elapsed) {
            None
        } else {
            match (self.state, self.cancel) {
                (KillState::NothingSent, CancelPolicy::Graceful) => Some(SIGTERM),
                (KillState::NothingSent, CancelPolicy::Kill) => Some(SIGKILL),
                (KillState::TermSent(at), _) if self.past_grace(at, elapsed) => Some(SIGKILL),
                _ => None,
            }
        }
    }

    /// How long to wait for events: up to the deadline, or a short while once it
    /// has passed, or without limit where there is none.
    pub open spec fn patience(self, elapsed: u128) -> int {
        match self.deadline() {
            None => -1,
            Some(deadline) => if elapsed >= deadline {
                OVERDUE_POLL_MS as int
            } else {
                let left = (deadline - elapsed) / 1_000_000;
                if left > i32::MAX {
                    i32::MAX as int
                } else {
                    left
                }
            },
        }
    }

    /// The watchdog once it has looked at the clock.
    pub open spec fn looked(self, elapsed: u128) -> Watchdog {
        Watchdog {
            timed_out: self.timed_out || self.overdue(elapsed),
            looked_at: elapsed,
            ..self
        }
    }

    /// Whether anything is still to come of the deadline: it has not been seen to
    /// have passed, or a signal is still to be sent.
    pub open spec fn pending(self) -> bool {
        self.timeout_ms is Some && (!self.timed_out || (self.cancel != CancelPolicy::DoNothing
            && self.state != KillState::KillSent))
    }

    /// The watchdog once a signal has been sent, or could not be.
    pub open spec fn after_signal(self, signal: i32, ok: bool) -> Watchdog {
        Watchdog {
            state: if signal == SIGTERM && ok {
                KillState::TermSent(self.looked_at)
            } else {
                KillState::KillSent
            },
            ..self
        }
    }

    /// Watches over a process that has been sent nothing yet.
    pub fn new(timeout_ms: Option<u32>, kill_grace_ms: u32, cancel: CancelPolicy) -> (r: Self)
        ensures
            r == (Watchdog {
                timeout_ms,
                kill_grace_ms,
                cancel,
                state: KillState::NothingSent,
                timed_out: false,
                looked_at: 0,
            }),
    {
        Watchdog {
            timeout_ms,
            kill_grace_ms,
            cancel,
            state: KillState::NothingSent,
            timed_out: false,
            looked_at: 0,
        }
    }

    /// Looks at the clock: `elapsed` is in nanoseconds since the start.
    pub fn tick(&mut self, elapsed: u128) -> (r: Tick)
        ensures
            *final(self) == old(self).looked(elapsed),
            r.signal == old(self).due(elapsed),
            r.poll_timeout == old(self).patience(elapsed),
    {
        self.looked_at = elapsed;
        let deadline: u128 = match self.timeout_ms {
            Some(ms) => ms as u128 * NANOS_PER_MILLI,
            None => return Tick { signal: None, poll_timeout: -1 },
        };
        if elapsed >= deadline {
            self.timed_out = true;
            let signal = match self.state {
                KillState::NothingSent => match self.cancel {
                    CancelPolicy::Graceful => Some(SIGTERM),
                    CancelPolicy::Kill => Some(SIGKILL),
                    CancelPolicy::DoNothing => None,
                },
                KillState::TermSent(at) => {
                    if elapsed >= at && (elapsed - at) / NANOS_PER_MILLI
                        > self.kill_grace_ms as u128 {
                        Some(SIGKILL)
                    } else {
                        None
                    }
                },
                KillState::KillSent => None,
            };
            Tick { signal, poll_timeout: OVERDUE_POLL_MS }
        } else {
            let left: u128 = (deadline - elapsed) / NANOS_PER_MILLI;
            let poll_timeout: i32 = if left > 0x7fff_ffff {
                0x7fff_ffff
            } else {
                left as i32
            };
            Tick { signal: None, poll_timeout }
        }
    }

    /// Tells whether anything is still to come of the deadline.
    pub fn is_pending(&self) -> (r: bool)
        ensures
            r == self.pending(),
    {
        let done: bool = match self.state {
            KillState::KillSent => true,
            _ => false,
        };
        let idle: bool = match self.cancel {
            CancelPolicy::DoNothing => true,
            _ => false,
        };
        self.timeout_ms.is_some() && (!self.timed_out || (!idle && !done))
    }

    /// Notes that a signal was sent, or could not be.
    pub fn sent(&mut self, signal: i32, ok: bool)
        ensures
            *final(self) == old(self).after_signal(signal, ok),
    {
        if signal == SIGTERM && ok {
            self.state = KillState::TermSent(self.looked_at);
        } else {
            self.state = KillState::KillSent;
        }
    }
}

/// How long to wait for events, given whether the process is known to have
/// ended: then only what it left in its pipes is waited for, a millisecond at
/// most.
pub open spec fn poll_limit(ended: bool, patience: int) -> int {
    if ended && (patience == -1 || patience > 1) {
        1
    } else {
        patience
    }
}

/// How often to look whether a process without pipes has ended, in milliseconds,
/// while its deadline is open.
pub const EXIT_POLL_MS: i32 = 10;

/// How long to wait before the next look at a process without pipes: until the
/// deadline, but not for long.
pub open spec fn exit_limit(patience: int) -> int {
    if 0 <= patience < EXIT_POLL_MS {
        patience
    } else {
        EXIT_POLL_MS as int
    }
}

/// How long to wait before the next look at a process without pipes.
pub fn exit_timeout(patience: i32) -> (r: i32)
    ensures
        r == exit_limit(patience as int),
{
    if 0 <= patience && patience < EXIT_POLL_MS {
        patience
    } else {
        EXIT_POLL_MS
    }
}

/// How long to wait for events.
pub fn poll_timeout(ended: bool, patience: i32) -> (r: i32)
    ensures
        r == poll_limit(ended, patience as int),
{
    if ended && (patience == -1 || patience > 1) {
        1
    } else {
        patience
    }
}

/// One look at the clock, and whether the signal that it called for could be
/// sent.
pub struct Look {
    pub elapsed: u128,
    pub ok: bool,
}

/// The watchdog after one look, and after the signal that it called for.
pub open spec fn after_look(w: Watchdog, look: Look) -> Watchdog {
    match w.due(look.elapsed) {
        Some(signal) => w.looked(look.elapsed).after_signal(signal, look.ok),
        None => w.looked(look.elapsed),
    }
}

/// The watchdog after all of the looks.
pub open spec fn after_looks(w: Watchdog, looks: Seq<Look>) -> Watchdog
    decreases looks.len(),
{
    if looks.len() == 0 {
        w
    } else {
        after_look(after_looks(w, looks.drop_last()), looks.last())
    }
}

/// The signal that the look at index `i` calls for.
pub open spec fn signal_at(w: Watchdog, looks: Seq<Look>, i: int) -> Option<i32> {
    after_looks(w, looks.take(i)).due(looks[i].elapsed)
}

/// A watchdog at its start.
pub open spec fn fresh(w: Watchdog) -> bool {
    w.state == KillState::NothingSent && !w.timed_out
}

/// What a watchdog's settings are stays as it is.
proof fn lemma_settings_stay(w: Watchdog, looks: Seq<Look>)
    ensures
        after_looks(w, looks).timeout_ms == w.timeout_ms,
        after_looks(w, looks).kill_grace_ms == w.kill_grace_ms,
        after_looks(w, looks).cancel == w.cancel,
    decreases looks.len(),
{
    if looks.len() > 0 {
        lemma_settings_stay(w, looks.drop_last());
    }
}

/// The state never goes back.
proof fn lemma_state_advances(w: Watchdog, looks: Seq<Look>, i: int)
    requires
        0 <= i < looks.len(),
    ensures
        after_looks(w, looks.take(i)).state == KillState::KillSent ==> after_looks(w, looks).state
            == KillState::KillSent,
        after_looks(w, looks.take(i)).state is TermSent ==> after_looks(w, looks).state
            != KillState::NothingSent,
        signal_at(w, looks, i) == Some(SIGKILL) ==> after_looks(w, looks).state
            == KillState::KillSent,
        signal_at(w, looks, i) is Some ==> after_looks(w, looks).state != KillState::NothingSent,
    decreases looks.len(),
{
    let before = looks.drop_last();
    if i == looks.len() - 1 {
        assert(looks.take(i) =~= before);
    } else {
        lemma_state_advances(w, before, i);
        assert(before.take(i) =~= looks.take(i));
    }
}

/// A process is sent each signal at most once, and nothing after SIGKILL.
pub proof fn law_signals_are_not_repeated(w: Watchdog, looks: Seq<Look>, i: int, j: int)
    requires
        fresh(w),
        0 <= i < j < looks.len(),
    ensures
        signal_at(w, looks, i) is Some ==> signal_at(w, looks, j) != signal_at(w, looks, i),
        signal_at(w, looks, i) == Some(SIGKILL) ==> signal_at(w, looks, j) is None,
{
    lemma_state_advances(w, looks.take(j), i);
    assert(looks.take(j).take(i) =~= looks.take(i));
    assert(looks.take(j)[i] == looks[i]);
    lemma_settings_stay(w, looks.take(i));
    lemma_settings_stay(w, looks.take(j));
}

/// Whether the look at `k` called for SIGTERM, and it was sent.
pub open spec fn term_sent_at(w: Watchdog, looks: Seq<Look>, k: int) -> bool {
    signal_at(w, looks, k) == Some(SIGTERM) && looks[k].ok
}

/// Which signals a policy sends: none; SIGTERM first, and SIGKILL only once
/// SIGTERM was sent and the grace period after it has passed; or SIGKILL alone.
/// And none before the deadline.
pub proof fn law_policy_is_followed(w: Watchdog, looks: Seq<Look>, i: int)
    requires
        fresh(w),
        0 <= i < looks.len(),
    ensures
        match w.cancel {
            CancelPolicy::DoNothing => signal_at(w, looks, i) is None,
            CancelPolicy::Kill => signal_at(w, looks, i) is None || signal_at(w, looks, i) == Some(
                SIGKILL,
            ),
            CancelPolicy::Graceful => signal_at(w, looks, i) is None || signal_at(w, looks, i)
                == Some(SIGTERM) || (signal_at(w, looks, i) == Some(SIGKILL) && exists|k: int|
                0 <= k < i && #[trigger] term_sent_at(w, looks, k) && looks[i].elapsed
                    - looks[k].elapsed > w.kill_grace_ms * 1_000_000),
        },
        signal_at(w, looks, i) is Some ==> w.overdue(looks[i].elapsed),
{
    let pre = looks.take(i);
    lemma_settings_stay(w, pre);
    lemma_state_reason(w, pre);
    if after_looks(w, pre).state is TermSent {
        let k = choose|k: int|
            0 <= k < pre.len() && #[trigger] term_sent_at(w, pre, k) && after_looks(w, pre).state
                == KillState::TermSent(pre[k].elapsed);
        assert(pre.take(k) =~= looks.take(k));
        assert(term_sent_at(w, looks, k));
    }
}

/// Between SIGTERM and SIGKILL lies the grace period.
pub proof fn law_grace_follows_term(w: Watchdog, looks: Seq<Look>, k: int, i: int)
    requires
        fresh(w),
        0 <= k < i < looks.len(),
        signal_at(w, looks, k) == Some(SIGTERM),
        signal_at(w, looks, i) == Some(SIGKILL),
    ensures
        looks[i].elapsed - looks[k].elapsed > w.kill_grace_ms * 1_000_000,
{
    lemma_settings_stay(w, looks.take(k));
    law_policy_is_followed(w, looks, i);
    let j = choose|j: int|
        0 <= j < i && #[trigger] term_sent_at(w, looks, j) && looks[i].elapsed - looks[j].elapsed
            > w.kill_grace_ms * 1_000_000;
    if j < k {
        law_signals_are_not_repeated(w, looks, j, k);
    } else if k < j {
        law_signals_are_not_repeated(w, looks, k, j);
    }
}

/// Why a watchdog is in the state it is in.
proof fn lemma_state_reason(w: Watchdog, looks: Seq<Look>)
    requires
        fresh(w),
    ensures
        after_looks(w, looks).state is TermSent ==> w.cancel == CancelPolicy::Graceful && exists|
            k: int,
        |
            0 <= k < looks.len() && #[trigger] term_sent_at(w, looks, k) && after_looks(
                w,
                looks,
            ).state == KillState::TermSent(looks[k].elapsed),
        w.cancel == CancelPolicy::DoNothing ==> after_looks(w, looks).state
            == KillState::NothingSent,
    decreases looks.len(),
{
    if looks.len() > 0 {
        let before = looks.drop_last();
        lemma_state_reason(w, before);
        lemma_settings_stay(w, before);
        let last = looks.len() - 1;
        assert(looks.take(last) =~= before);
        if after_looks(w, looks).state is TermSent {
            if after_looks(w, before).state is TermSent {
                let k = choose|k: int|
                    0 <= k < before.len() && #[trigger] term_sent_at(w, before, k) && after_looks(
                        w,
                        before,
                    ).state == KillState::TermSent(before[k].elapsed);
                assert(before.take(k) =~= looks.take(k));
                assert(term_sent_at(w, looks, k));
            } else {
                assert(term_sent_at(w, looks, last));
            }
        }
    }
}

/// A process counts as timed out exactly where the deadline was seen to have
/// passed.
pub proof fn law_timed_out_means_overdue(w: Watchdog, looks: Seq<Look>)
    requires
        fresh(w),
    ensures
        after_looks(w, looks).timed_out <==> exists|k: int|
            0 <= k < looks.len() && w.overdue((#[trigger] looks[k]).elapsed),
    decreases looks.len(),
{
    if looks.len() > 0 {
        let before = looks.drop_last();
        law_timed_out_means_overdue(w, before);
        lemma_settings_stay(w, before);
        let last = looks.len() - 1;
        if w.overdue(looks.last().elapsed) {
            assert(w.overdue(looks[last].elapsed));
        }
        if after_looks(w, before).timed_out {
            let k = choose|k: int|
                0 <= k < before.len() && w.overdue((#[trigger] before[k]).elapsed);
            assert(w.overdue(looks[k].elapsed));
        }
        if exists|k: int| 0 <= k < looks.len() && w.overdue((#[trigger] looks[k]).elapsed) {
            let k = choose|k: int| 0 <= k < looks.len() && w.overdue((#[trigger] looks[k]).elapsed);
            if k < last {
                assert(w.overdue(before[k].elapsed));
            }
        }
    }
}

/// Waiting for events never goes past the deadline, and never goes on without
/// limit where there is one or where the process has ended.
pub proof fn law_polls_are_bounded(w: Watchdog, elapsed: u128, ended: bool)
    ensures
        ({
            let limit = poll_limit(ended, w.patience(elapsed));
            &&& limit == -1 <==> w.timeout_ms is None && !ended
            &&& ended ==> 0 <= limit <= 1
            &&& w.deadline() is Some && !w.overdue(elapsed) ==> elapsed + limit * 1_000_000
                <= w.deadline()->0
        }),
{
}

/// The deadline is where the timeout says: at that many milliseconds, which are
/// a million nanoseconds each, and without a timeout there is none.
pub proof fn law_deadline_is_the_timeout(w: Watchdog, ms: u32, elapsed: u128)
    ensures
        w.timeout_ms == Some(ms) ==> (w.overdue(elapsed) <==> elapsed >= ms * 1_000_000),
        w.timeout_ms == Some(ms) ==> w.deadline() == Some((ms * 1_000_000) as nat),
        w.timeout_ms is None ==> !w.overdue(elapsed) && w.deadline() is None,
{
}

/// Which signal a look at the clock calls for: none before the timeout is over;
/// from then on SIGTERM (15) or SIGKILL (9), as the policy has it, where nothing
/// was sent; SIGKILL once the grace period is exceeded by a millisecond, where
/// SIGTERM was sent; and nothing more after SIGKILL.
pub proof fn law_signals_are_due_from_the_timeout_on(w: Watchdog, ms: u32, elapsed: u128)
    requires
        w.timeout_ms == Some(ms),
    ensures
        elapsed < ms * 1_000_000 ==> w.due(elapsed) is None && w.looked(elapsed).timed_out
            == w.timed_out,
        elapsed >= ms * 1_000_000 ==> w.looked(elapsed).timed_out && match w.state {
            KillState::NothingSent => match w.cancel {
                CancelPolicy::Kill => w.due(elapsed) == Some(9i32),
                CancelPolicy::Graceful => w.due(elapsed) == Some(15i32),
                CancelPolicy::DoNothing => w.due(elapsed) is None,
            },
            KillState::TermSent(at) => if elapsed - at >= (w.kill_grace_ms + 1) * 1_000_000 {
                w.due(elapsed) == Some(9i32)
            } else {
                w.due(elapsed) is None
            },
            KillState::KillSent => w.due(elapsed) is None,
        },
{
}

/// Without a timeout nothing is ever sent, and no process times out.
pub proof fn law_without_a_timeout_nothing_is_sent(w: Watchdog, elapsed: u128)
    requires
        w.timeout_ms is None,
    ensures
        w.due(elapsed) is None,
        w.looked(elapsed).timed_out == w.timed_out,
        w.patience(elapsed) == -1,
        !w.pending(),
{
}

/// How long a look at the clock lets events be waited for: for the whole
/// milliseconds that are left of the timeout, as many as can be waited for at
/// once, and 100 milliseconds once it is over.
pub proof fn law_patience_is_what_is_left(w: Watchdog, ms: u32, elapsed: u128)
    requires
        w.timeout_ms == Some(ms),
    ensures
        elapsed >= ms * 1_000_000 ==> w.patience(elapsed) == 100,
        elapsed < ms * 1_000_000 ==> 0 <= w.patience(elapsed) <= 0x7fff_ffff && w.patience(elapsed)
            * 1_000_000 <= ms * 1_000_000 - elapsed,
        elapsed < ms * 1_000_000 && w.patience(elapsed) < 0x7fff_ffff ==> ms * 1_000_000 - elapsed
            < (w.patience(elapsed) + 1) * 1_000_000,
{
}

/// A look at the clock and a signal leave the settings as they are; a look leaves
/// what was sent as it is, and a signal whether the process has timed out. What
/// counts as the time of SIGTERM is when the clock was last looked at, and a
/// SIGTERM that could not be sent is not tried again.
pub proof fn law_looks_and_signals_change_little(w: Watchdog, elapsed: u128, signal: i32, ok: bool)
    ensures
        w.looked(elapsed) == (Watchdog {
            timed_out: w.looked(elapsed).timed_out,
            looked_at: elapsed,
            ..w
        }),
        w.after_signal(signal, ok) == (Watchdog { state: w.after_signal(signal, ok).state, ..w }),
        w.looked(elapsed).after_signal(15, true).state == KillState::TermSent(elapsed),
        w.after_signal(15, false).state == KillState::KillSent,
        w.after_signal(9, ok).state == KillState::KillSent,
{
}

/// Something is still to come of the deadline exactly where some look at the
/// clock, sooner or later, calls for a signal or finds the process to have timed
/// out.
pub proof fn law_pending_means_something_is_to_come(w: Watchdog)
    requires
        w.cancel == CancelPolicy::DoNothing ==> w.state == KillState::NothingSent,
        w.state matches KillState::TermSent(at) ==> at <= u64::MAX,
    ensures
        w.pending() <==> exists|elapsed: u128|
            #![trigger w.due(elapsed)]
            w.due(elapsed) is Some || w.looked(elapsed).timed_out != w.timed_out,
{
    if w.pending() {
        let at: int = match w.state {
            KillState::TermSent(at) => at as int,
            _ => 0,
        };
        let late = (at + (w.kill_grace_ms + 1) * 1_000_000 + w.timeout_ms->0 * 1_000_000) as u128;
        assert(w.due(late) is Some || w.looked(late).timed_out != w.timed_out);
    }
}

/// How long to wait where the process has ended: a millisecond at most. Where it
/// has not, for as long as the clock lets events be waited for; but a process
/// without pipes is looked at every ten milliseconds.
pub proof fn law_how_long_to_wait(patience: int)
    requires
        patience >= -1,
    ensures
        poll_limit(false, patience) == patience,
        patience != 0 ==> poll_limit(true, patience) == 1,
        poll_limit(true, 0) == 0,
        0 <= patience <= 10 ==> exit_limit(patience) == patience,
        patience == -1 || patience >= 10 ==> exit_limit(patience) == 10,
{
}

/// As long as no look finds the timeout to be over, nothing is sent.
proof fn lemma_nothing_before(w: Watchdog, ms: u32, looks: Seq<Look>)
    requires
        w.timeout_ms == Some(ms),
        forall|k: int| 0 <= k < looks.len() ==> (#[trigger] looks[k]).elapsed < ms * 1_000_000,
    ensures
        after_looks(w, looks).state == w.state,
        after_looks(w, looks).timed_out == w.timed_out,
    decreases looks.len(),
{
    if looks.len() > 0 {
        let before = looks.drop_last();
        assert forall|k: int| 0 <= k < before.len() implies (#[trigger] before[k]).elapsed < ms
            * 1_000_000 by {
            assert(before[k] == looks[k]);
        }
        lemma_nothing_before(w, ms, before);
        lemma_settings_stay(w, before);
        assert(looks[looks.len() - 1].elapsed < ms * 1_000_000);
    }
}

/// The first look that finds the timeout to be over calls for the policy's first
/// signal, and none before it calls for any.
pub proof fn law_first_look_past_the_timeout_signals(
    w: Watchdog,
    ms: u32,
    looks: Seq<Look>,
    i: int,
    k: int,
)
    requires
        w.timeout_ms == Some(ms),
        w.state == KillState::NothingSent,
        0 <= i < looks.len(),
        looks[i].elapsed >= ms * 1_000_000,
        forall|j: int| 0 <= j < i ==> (#[trigger] looks[j]).elapsed < ms * 1_000_000,
    ensures
        0 <= k < i ==> signal_at(w, looks, k) is None,
        w.cancel == CancelPolicy::Kill ==> signal_at(w, looks, i) == Some(9i32),
        w.cancel == CancelPolicy::Graceful ==> signal_at(w, looks, i) == Some(15i32),
        after_looks(w, looks.take(i + 1)).timed_out,
{
    assert forall|j: int| 0 <= j < looks.take(i).len() implies (#[trigger] looks.take(i)[j]).elapsed
        < ms * 1_000_000 by {
        assert(looks.take(i)[j] == looks[j]);
    }
    lemma_nothing_before(w, ms, looks.take(i));
    lemma_settings_stay(w, looks.take(i));
    if 0 <= k < i {
        lemma_settings_stay(w, looks.take(k));
        assert(looks[k].elapsed < ms * 1_000_000);
    }
    assert(looks.take(i + 1).drop_last() =~= looks.take(i));
    assert(looks.take(i + 1).last() == looks[i]);
}

/// While the grace period runs, the state stays as it is.
proof fn lemma_grace_runs(w: Watchdog, at: u128, looks: Seq<Look>)
    requires
        w.state == KillState::TermSent(at),
        forall|j: int|
            0 <= j < looks.len() ==> (#[trigger] looks[j]).elapsed - at < (w.kill_grace_ms + 1)
                * 1_000_000,
    ensures
        after_looks(w, looks).state == w.state,
    decreases looks.len(),
{
    if looks.len() > 0 {
        let before = looks.drop_last();
        assert forall|j: int| 0 <= j < before.len() implies (#[trigger] before[j]).elapsed - at < (
        w.kill_grace_ms + 1) * 1_000_000 by {
            assert(before[j] == looks[j]);
        }
        lemma_grace_runs(w, at, before);
        lemma_settings_stay(w, before);
        assert(looks[looks.len() - 1].elapsed - at < (w.kill_grace_ms + 1) * 1_000_000);
    }
}

/// A process that was sent SIGTERM is sent SIGKILL at the first look that finds
/// the grace period exceeded by a millisecond, and nothing before.
pub proof fn law_kill_follows_the_grace_period(
    w: Watchdog,
    ms: u32,
    at: u128,
    looks: Seq<Look>,
    i: int,
)
    requires
        w.timeout_ms == Some(ms),
        w.state == KillState::TermSent(at),
        0 <= i < looks.len(),
        looks[i].elapsed >= ms * 1_000_000,
        forall|j: int|
            0 <= j < i ==> (#[trigger] looks[j]).elapsed - at < (w.kill_grace_ms + 1) * 1_000_000,
    ensures
        looks[i].elapsed - at >= (w.kill_grace_ms + 1) * 1_000_000 ==> signal_at(w, looks, i)
            == Some(9i32),
        looks[i].elapsed - at < (w.kill_grace_ms + 1) * 1_000_000 ==> signal_at(w, looks, i)
            is None,
{
    assert forall|j: int| 0 <= j < looks.take(i).len() implies (#[trigger] looks.take(i)[j]).elapsed
        - at < (w.kill_grace_ms + 1) * 1_000_000 by {
        assert(looks.take(i)[j] == looks[j]);
    }
    lemma_grace_runs(w, at, looks.take(i));
    lemma_settings_stay(w, looks.take(i));
}

} // verus!
