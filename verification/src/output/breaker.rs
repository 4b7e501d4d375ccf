//! A circuit breaker.

use std::time::{Duration, Instant};
use vstd::prelude::*;

verus! {

/// A point in time of `std`.
#[verifier::external_type_specification]
#[verifier::external_body]
pub struct ExInstant(std::time::Instant);

/// The length of a duration in nanoseconds, as `Duration::as_nanos` gives it.
pub uninterp spec fn nanos_of(d: Duration) -> nat;

/// `Duration::as_nanos`: the whole length of the duration in nanoseconds.
pub assume_specification[ Duration::as_nanos ](d: &Duration) -> (r: u128)
    ensures
        r == nanos_of(*d),
;

/// `Duration::from_secs`: a duration of so many whole seconds.
pub assume_specification[ Duration::from_secs ](secs: u64) -> (r: Duration)
    ensures
        nanos_of(r) == secs * 1_000_000_000,
;

/// `Instant::now`: the present. Nothing is claimed of it.
pub assume_specification[ Instant::now ]() -> (r: Instant)
;

/// `Instant::elapsed`: the time since then. It depends on the clock, and
/// nothing is claimed of it.
pub assume_specification[ Instant::elapsed ](t: &Instant) -> (r: Duration)
;

/// `Instant::now` may give this time.
pub open spec fn may_be_now(now: Instant) -> bool {
    call_ensures(Instant::now, (), now)
}

/// `Instant::elapsed` may give this duration for a point in time.
pub open spec fn may_have_elapsed(t: Instant, d: Duration) -> bool {
    call_ensures(Instant::elapsed, (&t,), d)
}

/// Gets the present from a clock.
fn ask_now<F: Fn() -> Instant>(clock: F) -> (r: Instant)
    requires
        call_requires(clock, ()),
    ensures
        call_ensures(clock, (), r),
{
    clock()
}

/// Gets the time since a point in time from a clock.
fn ask_elapsed<F: Fn(&Instant) -> Duration>(clock: F, t: &Instant) -> (r: Duration)
    requires
        call_requires(clock, (t,)),
    ensures
        call_ensures(clock, (t,), r),
{
    clock(t)
}

/// The present.
pub(crate) fn present() -> (r: Instant)
    ensures
        may_be_now(r),
{
    ask_now(Instant::now)
}

/// A circuit breaker.
#[verifier::ext_equal]
pub struct BreakerModel {
    /// So many failures in a row open it.
    pub threshold: u32,
    /// It stays open for so many nanoseconds.
    pub open_nanos: nat,
    /// The failures in a row up to now.
    pub failures: u32,
    /// When it opened, while it is open or half-open.
    pub opened_at: Option<Instant>,
}

impl BreakerModel {
    /// A closed breaker has not seen enough failures to open.
    pub open spec fn wf(self) -> bool {
        self.opened_at is None ==> self.failures == 0 || self.failures < self.threshold
    }

    /// A closed breaker lets a request through. An open one does so after its
    /// time, which makes it half-open.
    pub open spec fn allows(self, elapsed: nat) -> bool {
        self.opened_at is None || elapsed >= self.open_nanos
    }

    /// May the breaker, asked now, answer so? A closed one lets a request
    /// through; an open one goes by the time since it opened.
    pub open spec fn may_answer(self, r: bool) -> bool {
        match self.opened_at {
            None => r,
            Some(t) => exists|d: Duration| #[trigger]
                may_have_elapsed(t, d) && r == self.allows(nanos_of(d)),
        }
    }

    /// After a success it is closed.
    pub open spec fn succeeded(self) -> BreakerModel {
        BreakerModel { failures: 0, opened_at: None, ..self }
    }

    /// After a failure: an open breaker opens anew, a closed one counts it and
    /// opens at the threshold.
    pub open spec fn failed(self, now: Instant) -> BreakerModel {
        if self.opened_at is Some {
            BreakerModel { opened_at: Some(now), ..self }
        } else {
            BreakerModel {
                failures: (self.failures + 1) as u32,
                opened_at: if self.failures + 1 >= self.threshold {
                    Some(now)
                } else {
                    None
                },
                ..self
            }
        }
    }
}

/// Stops requests to an endpoint that keeps failing.
pub struct CircuitBreaker {
    threshold: u32,
    breaker_dur: Duration,
    consecutive_failures: u32,
    opened_at: Option<Instant>,
}

impl View for CircuitBreaker {
    type V = BreakerModel;

    closed spec fn view(&self) -> BreakerModel {
        BreakerModel {
            threshold: self.threshold,
            open_nanos: nanos_of(self.breaker_dur),
            failures: self.consecutive_failures,
            opened_at: self.opened_at,
        }
    }
}

impl CircuitBreaker {
    #[verifier::type_invariant]
    closed spec fn inv(self) -> bool {
        self@.wf()
    }

    /// A closed breaker.
    pub fn new(threshold: u32, breaker_dur: Duration) -> (r: Self)
        ensures
            r@ == (BreakerModel {
                threshold,
                open_nanos: nanos_of(breaker_dur),
                failures: 0,
                opened_at: None,
            }),
    {
        CircuitBreaker { threshold, breaker_dur, consecutive_failures: 0, opened_at: None }
    }

    /// Is a request let through, if so much time has gone by since it opened?
    pub fn allow_after(&self, elapsed: Duration) -> (r: bool)
        ensures
            r == self@.allows(nanos_of(elapsed)),
    {
        match self.opened_at {
            None => true,
            Some(_) => elapsed.as_nanos() >= self.breaker_dur.as_nanos(),
        }
    }

    /// Is a request let through now? A closed breaker always says so; an open
    /// one asks the clock for the time since it opened.
    pub fn allow(&self) -> (r: bool)
        ensures
            self@.may_answer(r),
    {
        match self.opened_at {
            None => true,
            Some(t) => {
                let elapsed = ask_elapsed(Instant::elapsed, &t);
                assert(may_have_elapsed(t, elapsed));
                self.allow_after(elapsed)
            },
        }
    }

    /// Is it open, or half-open?
    pub fn is_open(&self) -> (r: bool)
        ensures
            r == self@.opened_at is Some,
    {
        self.opened_at.is_some()
    }

    /// A request went through.
    pub fn record_success(&mut self)
        ensures
            final(self)@ == old(self)@.succeeded(),
    {
        self.consecutive_failures = 0;
        self.opened_at = None;
    }

    /// A request failed at a point in time.
    pub fn record_failure_at(&mut self, now: Instant)
        ensures
            final(self)@ == old(self)@.failed(now),
    {
        proof {
            use_type_invariant(&*self);
        }
        if self.opened_at.is_some() {
            self.opened_at = Some(now);
        } else {
            let failures: u32 = self.consecutive_failures + 1;
            if failures >= self.threshold {
                self.opened_at = Some(now);
            }
            self.consecutive_failures = failures;
        }
    }

    /// A request failed now.
    pub fn record_failure(&mut self)
        ensures
            exists|now: Instant|
                may_be_now(now) && final(self)@ == #[trigger] old(self)@.failed(now),
    {
        let now = present();
        self.record_failure_at(now);
    }
}

/// A breaker after failures at some points in time.
pub open spec fn after_failures(b: BreakerModel, times: Seq<Instant>) -> BreakerModel
    decreases times.len(),
{
    if times.len() == 0 {
        b
    } else {
        after_failures(b, times.drop_last()).failed(times.last())
    }
}

/// A closed breaker that has seen no failure opens with the failure that
/// reaches the threshold, and not before; the failures are counted up to it.
pub proof fn opens_at_threshold(b: BreakerModel, times: Seq<Instant>)
    requires
        b.opened_at is None,
        b.failures == 0,
    ensures
        ({
            let limit = if b.threshold == 0 {
                1
            } else {
                b.threshold as int
            };
            let r = after_failures(b, times);
            &&& r.wf()
            &&& r.threshold == b.threshold
            &&& r.open_nanos == b.open_nanos
            &&& r.opened_at is Some <==> times.len() >= limit
            &&& r.failures == if times.len() < limit {
                times.len() as int
            } else {
                limit
            }
        }),
    decreases times.len(),
{
    if times.len() > 0 {
        opens_at_threshold(b, times.drop_last());
    }
}

/// An open breaker that fails again is open from that time on: no request goes
/// through before its whole time is over.
pub proof fn failure_rearms(b: BreakerModel, now: Instant, elapsed: nat)
    requires
        b.opened_at is Some,
    ensures
        b.failed(now).opened_at == Some(now),
        b.failed(now).allows(elapsed) <==> elapsed >= b.open_nanos,
        b.failed(now).failures == b.failures,
{
}

/// A success closes a breaker, and it takes the whole threshold to open it
/// again.
pub proof fn success_closes(b: BreakerModel, times: Seq<Instant>, elapsed: nat)
    ensures
        b.succeeded().wf(),
        b.succeeded().allows(elapsed),
        times.len() < b.threshold ==> after_failures(b.succeeded(), times).allows(elapsed),
{
    opens_at_threshold(b.succeeded(), times);
}

/// A breaker keeps its invariant whatever is recorded.
pub proof fn breaker_stays_wf(b: BreakerModel, now: Instant)
    requires
        b.wf(),
    ensures
        b.succeeded().wf(),
        b.failed(now).wf(),
        b.failed(now).threshold == b.threshold,
        b.failed(now).open_nanos == b.open_nanos,
{
}

/// A closed breaker lets everything through; an open one lets a request through
/// exactly once its time is over.
pub proof fn open_breaker_waits_its_time(b: BreakerModel, elapsed: nat)
    ensures
        b.opened_at is None ==> b.allows(elapsed),
        b.opened_at is Some ==> (b.allows(elapsed) <==> elapsed >= b.open_nanos),
        b.opened_at is None ==> (forall|r: bool| #[trigger] b.may_answer(r) ==> r),
{
}

/// A breaker that failures have opened counts its time from the last of them.
pub proof fn time_counts_from_the_last_failure(b: BreakerModel, times: Seq<Instant>)
    requires
        b.opened_at is None,
        b.failures == 0,
        times.len() > 0,
        times.len() >= b.threshold,
    ensures
        after_failures(b, times).opened_at == Some(times.last()),
{
    opens_at_threshold(b, times);
    opens_at_threshold(b, times.drop_last());
}

} // verus!
