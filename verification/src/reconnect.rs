//! Per-channel reconnect-failure tracking for the multi-channel monitor:
//! back-off between retries, error-frame rate limiting, and giving up on a
//! sustained outage.
//!
//! Times are nanoseconds on one monotonic clock; the caller reads the clock.
use vstd::prelude::*;

verus! {

/// First failure this long ago: the worker gives up (30 s, in ns).
pub const RECONNECT_GIVE_UP: u64 = 30_000_000_000;

/// At most one error frame per this interval (1 s, in ns).
pub const RECONNECT_ERR_RATE_LIMIT: u64 = 1_000_000_000;

/// Outage bookkeeping of one channel's reconnect path.
#[derive(Clone, Copy, Debug, PartialEq, Eq, Structural)]
pub struct ReconnectState {
    pub consecutive_failures: u32,
    pub first_failure_at: Option<u64>,
    pub last_error_pub_at: Option<u64>,
}

/// Time from `t0` to `now`, zero when `now` is earlier.
pub open spec fn elapsed(now: u64, t0: u64) -> int {
    if now >= t0 {
        now - t0
    } else {
        0
    }
}

/// Back-off in milliseconds after `n` consecutive failures.
pub open spec fn backoff_ms(n: int) -> int {
    if n <= 1 {
        0
    } else if n <= 4 {
        100
    } else if n <= 9 {
        500
    } else {
        1000
    }
}

impl ReconnectState {
    /// No outage in progress.
    pub open spec fn is_clear(self) -> bool {
        &&& self.consecutive_failures == 0
        &&& self.first_failure_at is None
        &&& self.last_error_pub_at is None
    }

    /// The state after one more failure at `now`.
    pub open spec fn failed(self, now: u64) -> ReconnectState {
        ReconnectState {
            consecutive_failures: if self.consecutive_failures < u32::MAX {
                (self.consecutive_failures + 1) as u32
            } else {
                u32::MAX
            },
            first_failure_at: if self.first_failure_at is Some {
                self.first_failure_at
            } else {
                Some(now)
            },
            last_error_pub_at: self.last_error_pub_at,
        }
    }

    /// Whether an error frame is due at `now`.
    pub open spec fn error_due(self, now: u64) -> bool {
        match self.last_error_pub_at {
            None => true,
            Some(t) => elapsed(now, t) >= RECONNECT_ERR_RATE_LIMIT,
        }
    }

    /// Whether the outage has lasted long enough to stop retrying.
    pub open spec fn exhausted(self, now: u64) -> bool {
        match self.first_failure_at {
            None => false,
            Some(t0) => elapsed(now, t0) >= RECONNECT_GIVE_UP,
        }
    }

    pub fn new() -> (r: Self)
        ensures
            r.is_clear(),
    {
        ReconnectState {
            consecutive_failures: 0,
            first_failure_at: None,
            last_error_pub_at: None,
        }
    }

    /// A reconnect succeeded: the outage is forgotten.
    pub fn note_success(&mut self)
        ensures
            final(self).is_clear(),
    {
        self.consecutive_failures = 0;
        self.first_failure_at = None;
        self.last_error_pub_at = None;
    }

    /// A reconnect failed at `now`. The start of the outage stays the first
    /// failure since the last success.
    pub fn note_failure(&mut self, now: u64)
        ensures
            *final(self) == old(self).failed(now),
    {
        self.consecutive_failures = self.consecutive_failures.saturating_add(1);
        if self.first_failure_at.is_none() {
            self.first_failure_at = Some(now);
        }
    }

    /// Back-off before the next retry, in milliseconds. The first failure
    /// does not sleep; the ramp is capped at one second.
    pub fn backoff(&self) -> (ms: u64)
        ensures
            ms == backoff_ms(self.consecutive_failures as int),
    {
        if self.consecutive_failures <= 1 {
            0
        } else if self.consecutive_failures <= 4 {
            100
        } else if self.consecutive_failures <= 9 {
            500
        } else {
            1000
        }
    }

    /// True when the first failure of this outage is at least
    /// `RECONNECT_GIVE_UP` old.
    pub fn should_give_up(&self, now: u64) -> (r: bool)
        ensures
            r == self.exhausted(now),
    {
        match self.first_failure_at {
            None => false,
            Some(t0) => now >= t0 && now - t0 >= RECONNECT_GIVE_UP,
        }
    }

    /// True when an error frame is to be published at `now`; the time is
    /// then recorded, so that the next one is at least the rate limit away.
    pub fn should_emit_error(&mut self, now: u64) -> (emit: bool)
        ensures
            emit == old(self).error_due(now),
            emit ==> *final(self) == (ReconnectState { last_error_pub_at: Some(now), ..*old(self) }),
            !emit ==> *final(self) == *old(self),
    {
        let emit = match self.last_error_pub_at {
            None => true,
            Some(t) => now >= t && now - t >= RECONNECT_ERR_RATE_LIMIT,
        };
        if emit {
            self.last_error_pub_at = Some(now);
        }
        emit
    }
}

/// The back-off never shrinks as failures accumulate, and never exceeds one
/// second.
pub proof fn backoff_ramps_to_a_cap(n: int, m: int)
    requires
        n <= m,
    ensures
        backoff_ms(n) <= backoff_ms(m) <= 1000,
        n >= 10 ==> backoff_ms(n) == 1000,
{
}

/// The state after failures at each of `times`, in order.
pub open spec fn failures(s: ReconnectState, times: Seq<u64>) -> ReconnectState
    decreases times.len(),
{
    if times.len() == 0 {
        s
    } else {
        failures(s, times.drop_last()).failed(times.last())
    }
}

/// Through any run of failures the start of the outage stays the first of
/// them, and the count is the length of the run (saturating).
pub proof fn outage_starts_at_its_first_failure(s: ReconnectState, times: Seq<u64>)
    requires
        s.is_clear(),
        times.len() > 0,
    ensures
        failures(s, times).first_failure_at == Some(times[0]),
        failures(s, times).consecutive_failures == (if times.len() <= u32::MAX {
            times.len() as int
        } else {
            u32::MAX as int
        }),
    decreases times.len(),
{
    if times.len() == 1 {
        assert(failures(s, times.drop_last()) == s);
    } else {
        outage_starts_at_its_first_failure(s, times.drop_last());
    }
}

/// Giving up is decided by the first failure alone: it happens at `now` iff
/// the run began at least `RECONNECT_GIVE_UP` earlier.
pub proof fn gives_up_only_after_a_sustained_outage(s: ReconnectState, times: Seq<u64>, now: u64)
    requires
        s.is_clear(),
        times.len() > 0,
    ensures
        failures(s, times).exhausted(now) <==> elapsed(now, times[0]) >= RECONNECT_GIVE_UP,
{
    outage_starts_at_its_first_failure(s, times);
}

/// What happens to a channel's state while an outage lasts.
#[derive(Clone, Copy, Debug, PartialEq, Eq, Structural)]
pub enum OutageEvent {
    /// A reconnect failed.
    Failure { at: u64 },
    /// An error frame was asked for.
    Report { at: u64 },
}

impl OutageEvent {
    /// When it happened.
    pub open spec fn time(self) -> u64 {
        match self {
            OutageEvent::Failure { at } => at,
            OutageEvent::Report { at } => at,
        }
    }
}

impl ReconnectState {
    /// The state after one more event of an outage.
    pub open spec fn after(self, e: OutageEvent) -> ReconnectState {
        match e {
            OutageEvent::Failure { at } => self.failed(at),
            OutageEvent::Report { at } => if self.error_due(at) {
                ReconnectState { last_error_pub_at: Some(at), ..self }
            } else {
                self
            },
        }
    }
}

/// The state after the events of an outage, in order.
pub open spec fn outage(s: ReconnectState, events: Seq<OutageEvent>) -> ReconnectState
    decreases events.len(),
{
    if events.len() == 0 {
        s
    } else {
        outage(s, events.drop_last()).after(events.last())
    }
}

/// Whether the event at `i` asks for an error frame.
pub open spec fn asks(events: Seq<OutageEvent>, i: int) -> bool {
    events[i] is Report
}

/// Whether the event at `i` asks for an error frame and gets one.
pub open spec fn emits(s: ReconnectState, events: Seq<OutageEvent>, i: int) -> bool {
    asks(events, i) && outage(s, events.take(i)).error_due(events[i].time())
}

/// No event comes before an earlier one.
pub open spec fn in_order(events: Seq<OutageEvent>) -> bool {
    forall|i: int, j: int|
        0 <= i <= j < events.len() ==> (#[trigger] events[i]).time() <= (
        #[trigger] events[j]).time()
}

proof fn the_last_report_never_goes_back(s: ReconnectState, events: Seq<OutageEvent>, i: int, j: int)
    requires
        0 <= i < j <= events.len(),
        emits(s, events, i),
    ensures
        outage(s, events.take(j)).last_error_pub_at matches Some(t) && t >= events[i].time(),
    decreases j,
{
    assert(events.take(j).drop_last() =~= events.take(j - 1));
    assert(events.take(j).last() == events[j - 1]);
    if j - 1 > i {
        the_last_report_never_goes_back(s, events, i, j - 1);
    }
}

/// Two reports of one outage are never closer than the rate limit, however
/// many failures and silent calls lie between them.
pub proof fn reports_keep_their_distance(
    s: ReconnectState,
    events: Seq<OutageEvent>,
    i: int,
    j: int,
)
    requires
        0 <= i < j < events.len(),
        emits(s, events, i),
        emits(s, events, j),
    ensures
        events[j].time() - events[i].time() >= RECONNECT_ERR_RATE_LIMIT,
{
    the_last_report_never_goes_back(s, events, i, j);
}

proof fn the_last_report_was_emitted(s: ReconnectState, events: Seq<OutageEvent>, j: int)
    requires
        0 <= j <= events.len(),
        outage(s, events.take(j)).last_error_pub_at != s.last_error_pub_at,
    ensures
        exists|i: int|
            0 <= i < j && #[trigger] emits(s, events, i) && outage(
                s,
                events.take(j),
            ).last_error_pub_at == Some(events[i].time()),
    decreases j,
{
    if j == 0 {
        assert(events.take(0) =~= Seq::empty());
    } else {
        assert(events.take(j).drop_last() =~= events.take(j - 1));
        assert(events.take(j).last() == events[j - 1]);
        if !emits(s, events, j - 1) {
            the_last_report_was_emitted(s, events, j - 1);
        }
    }
}

/// A call is kept silent only when a report less than the rate limit old
/// precedes it, one of these events or the last before them: a silent call
/// does not prolong the silence.
pub proof fn silence_follows_a_recent_report(s: ReconnectState, events: Seq<OutageEvent>, j: int)
    requires
        0 <= j < events.len(),
        in_order(events),
        asks(events, j),
        !emits(s, events, j),
    ensures
        (exists|i: int|
            0 <= i < j && #[trigger] emits(s, events, i) && 0 <= events[j].time()
                - events[i].time() < RECONNECT_ERR_RATE_LIMIT) || (s.last_error_pub_at matches Some(
            t,
        ) && elapsed(events[j].time(), t) < RECONNECT_ERR_RATE_LIMIT),
{
    let last = outage(s, events.take(j)).last_error_pub_at;
    if last != s.last_error_pub_at {
        the_last_report_was_emitted(s, events, j);
        let i = choose|i: int|
            0 <= i < j && #[trigger] emits(s, events, i) && last == Some(events[i].time());
        assert(events[i].time() <= events[j].time());
        assert(emits(s, events, i));
    }
}

/// A failure is counted, up to the largest count, and starts an outage only
/// where none is in progress; it does not touch when an error was last
/// reported. An outage is given up after 30 seconds and not before.
pub proof fn a_failure_is_counted(s: ReconnectState, now: u64, later: u64)
    ensures
        s.consecutive_failures < u32::MAX ==> s.failed(now).consecutive_failures
            == s.consecutive_failures + 1,
        s.consecutive_failures == u32::MAX ==> s.failed(now).consecutive_failures == u32::MAX,
        s.first_failure_at is None ==> s.failed(now).first_failure_at == Some(now),
        s.first_failure_at is Some ==> s.failed(now).first_failure_at == s.first_failure_at,
        s.failed(now).last_error_pub_at == s.last_error_pub_at,
        s.first_failure_at is None ==> (s.failed(now).exhausted(later) <==> later - now
            >= 30_000_000_000),
        s.first_failure_at is None ==> !s.exhausted(later),
        s.last_error_pub_at is None ==> s.error_due(now),
        s.last_error_pub_at matches Some(t) ==> (s.error_due(now) <==> now - t >= 1_000_000_000),
{
}

/// The back-off by the number of failures in a row: none after the first,
/// then a tenth of a second, half a second, and a whole one from the tenth on.
pub proof fn the_backoff_by_failures(n: int)
    ensures
        n <= 1 ==> backoff_ms(n) == 0,
        2 <= n <= 4 ==> backoff_ms(n) == 100,
        5 <= n <= 9 ==> backoff_ms(n) == 500,
        n >= 10 ==> backoff_ms(n) == 1000,
{
}

} // verus!
