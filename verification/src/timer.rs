//! How long to wait for the end of the transcription.
//!
//! The clock stays with the caller, who reads it in milliseconds since any
//! fixed point.

use vstd::prelude::*;

use crate::config::DONE_TIMEOUT_SECS;

verus! {

/// The milliseconds between two readings of the clock; none if it went back.
pub open spec fn elapsed(started_ms: u64, now_ms: u64) -> int {
    if started_ms < now_ms {
        now_ms - started_ms
    } else {
        0
    }
}

/// The milliseconds in the timeout.
pub open spec fn timeout_ms() -> int {
    DONE_TIMEOUT_SECS * 1000
}

/// What is left of the timeout, `None` when it is over.
pub open spec fn time_left(started_ms: u64, now_ms: u64) -> Option<int> {
    if elapsed(started_ms, now_ms) >= timeout_ms() {
        None
    } else {
        Some(timeout_ms() - elapsed(started_ms, now_ms))
    }
}

/// How many milliseconds to wait for the next event when the waiting began at
/// `started_ms`, `None` when the timeout is over.
pub fn drain_wait(started_ms: u64, now_ms: u64) -> (r: Option<u64>)
    ensures
        match time_left(started_ms, now_ms) {
            Some(rest) => r matches Some(ms) && ms == rest,
            None => r is None,
        },
        r matches Some(ms) ==> 0 < ms <= timeout_ms(),
{
    let passed: u64 = if started_ms < now_ms {
        now_ms - started_ms
    } else {
        0
    };
    let limit: u64 = DONE_TIMEOUT_SECS * 1000;
    if passed >= limit {
        None
    } else {
        Some(limit - passed)
    }
}

/// The timeout of one session, which runs from the first time it is asked for.
pub struct DrainTimer {
    started_ms: Option<u64>,
}

impl View for DrainTimer {
    type V = Option<u64>;

    /// When the timeout started.
    closed spec fn view(&self) -> Option<u64> {
        self.started_ms
    }
}

/// When a timeout runs from, if it is asked for at `now_ms`.
pub open spec fn runs_from(started_ms: Option<u64>, now_ms: u64) -> u64 {
    match started_ms {
        Some(started) => started,
        None => now_ms,
    }
}

impl DrainTimer {
    /// A timeout that has not started.
    pub fn new() -> (r: Self)
        ensures
            r@ is None,
    {
        DrainTimer { started_ms: None }
    }

    /// How many milliseconds to wait for the next event, `None` when the
    /// timeout is over. The first call starts the timeout, no later one does.
    pub fn wait(&mut self, now_ms: u64) -> (r: Option<u64>)
        ensures
            final(self)@ == Some(runs_from(old(self)@, now_ms)),
            match time_left(runs_from(old(self)@, now_ms), now_ms) {
                Some(rest) => r matches Some(ms) && ms == rest,
                None => r is None,
            },
    {
        let started: u64 = match self.started_ms {
            Some(started) => started,
            None => now_ms,
        };
        self.started_ms = Some(started);
        drain_wait(started, now_ms)
    }
}

/// When a timeout has started, once it was asked for at each of `readings`.
pub open spec fn started_after(readings: Seq<u64>) -> Option<u64>
    decreases readings.len(),
{
    if readings.len() == 0 {
        None
    } else {
        Some(runs_from(started_after(readings.drop_last()), readings.last()))
    }
}

/// The timeout is not renewed: however often it was asked for, it runs from
/// the first time.
pub proof fn law_timeout_is_not_renewed(readings: Seq<u64>)
    requires
        readings.len() > 0,
    ensures
        started_after(readings) == Some(readings[0]),
    decreases readings.len(),
{
    if readings.len() > 1 {
        law_timeout_is_not_renewed(readings.drop_last());
    } else {
        reveal_with_fuel(started_after, 2);
    }
}

/// No wait goes past the end of the timeout, and none ends before it: a wait
/// that is used up leaves nothing to wait for.
pub proof fn law_wait_ends_with_timeout(started_ms: u64, now_ms: u64, later_ms: u64)
    requires
        started_ms <= now_ms <= later_ms,
        time_left(started_ms, now_ms) is Some,
    ensures
        now_ms + time_left(started_ms, now_ms)->0 == started_ms + timeout_ms(),
        time_left(started_ms, later_ms) is None <==> later_ms >= now_ms + time_left(
            started_ms,
            now_ms,
        )->0,
{
}

/// Nine seconds after it was first asked for, and not sooner, the timeout is
/// over; until then each wait ends then. A clock that went back takes no time.
pub proof fn law_timeout_takes_nine_seconds(started_ms: u64, now_ms: u64)
    ensures
        time_left(started_ms, now_ms) is None <==> now_ms >= started_ms + 9000,
        started_ms <= now_ms < started_ms + 9000 ==> time_left(started_ms, now_ms) == Some(
            started_ms + 9000 - now_ms,
        ),
        now_ms < started_ms ==> time_left(started_ms, now_ms) == Some(9000int),
        runs_from(Some(started_ms), now_ms) == started_ms,
        runs_from(None, now_ms) == now_ms,
{
}

} // verus!
