//! The polling loop: when to connect, wait, poll, publish and give up.

use crate::adapter::errors::AdapterError;
use crate::metrics::Metrics;
use vstd::prelude::*;

verus! {

/// The exit code of the watchdog.
pub const EXIT_WATCHDOG: i32 = 2;

/// The exit code of an error that no retry can mend.
pub const EXIT_PERMANENT: i32 = 1;

/// True if the cycle-health watchdog should fire.
pub open spec fn fires(count: u32, limit: u32) -> bool {
    limit > 0 && count >= limit
}

/// True if the cycle-health watchdog should fire.
pub fn watchdog_should_fire(count: u32, limit: u32) -> (fire: bool)
    ensures
        fire == fires(count, limit),
{
    limit > 0 && count >= limit
}

/// What a poll came to.
#[derive(Clone, Copy, PartialEq, Eq, Debug, Structural)]
pub enum PollOutcome {
    /// It went well; were there any metrics?
    Data(bool),
    Transient,
    FatalConn,
    Sleeping,
    Permanent,
}

/// What the result of a poll comes to.
pub open spec fn outcome(result: Result<Metrics, AdapterError>) -> PollOutcome {
    match result {
        Ok(m) => PollOutcome::Data(!m@.is_empty()),
        Err(AdapterError::Transient(_)) => PollOutcome::Transient,
        Err(AdapterError::FatalConn(_)) => PollOutcome::FatalConn,
        Err(AdapterError::Sleeping) => PollOutcome::Sleeping,
        Err(AdapterError::Permanent(_)) => PollOutcome::Permanent,
    }
}

/// Judges the result of a poll.
pub fn outcome_of(result: &Result<Metrics, AdapterError>) -> (r: PollOutcome)
    ensures
        r == outcome(*result),
{
    match result {
        Ok(m) => PollOutcome::Data(!m.is_empty()),
        Err(AdapterError::Transient(_)) => PollOutcome::Transient,
        Err(AdapterError::FatalConn(_)) => PollOutcome::FatalConn,
        Err(AdapterError::Sleeping) => PollOutcome::Sleeping,
        Err(AdapterError::Permanent(_)) => PollOutcome::Permanent,
    }
}

/// What connecting came to.
#[derive(Clone, Copy, PartialEq, Eq, Debug, Structural)]
pub enum ConnectOutcome {
    /// It went well.
    Ready,
    Transient,
    FatalConn,
    Sleeping,
    Permanent,
}

/// What the result of connecting comes to.
pub open spec fn connect_outcome(result: Result<(), AdapterError>) -> ConnectOutcome {
    match result {
        Ok(_) => ConnectOutcome::Ready,
        Err(AdapterError::Transient(_)) => ConnectOutcome::Transient,
        Err(AdapterError::FatalConn(_)) => ConnectOutcome::FatalConn,
        Err(AdapterError::Sleeping) => ConnectOutcome::Sleeping,
        Err(AdapterError::Permanent(_)) => ConnectOutcome::Permanent,
    }
}

/// Judges the result of connecting.
pub fn connect_outcome_of(r: &Result<(), AdapterError>) -> (o: ConnectOutcome)
    ensures
        o == connect_outcome(*r),
{
    match r {
        Ok(_) => ConnectOutcome::Ready,
        Err(AdapterError::Transient(_)) => ConnectOutcome::Transient,
        Err(AdapterError::FatalConn(_)) => ConnectOutcome::FatalConn,
        Err(AdapterError::Sleeping) => ConnectOutcome::Sleeping,
        Err(AdapterError::Permanent(_)) => ConnectOutcome::Permanent,
    }
}

/// Where the loop stands.
#[derive(Clone, Copy, PartialEq, Eq, Debug, Structural)]
pub enum SchedulerPhase {
    Connecting,
    /// Waiting after a failed attempt to connect, so many nanoseconds.
    Backoff(u128),
    /// Waiting for the time of the next poll, so many nanoseconds.
    Waiting(u128),
    Polling,
    /// Publishing what a poll gave; did it give any metrics?
    Publishing(bool),
    /// Dropping what was published, since the vehicle sleeps; is there a
    /// connection?
    DroppingCache(bool),
    /// Disconnecting, to connect anew.
    Reconnecting,
    /// Disconnecting, to stop.
    Stopping,
}

/// What the loop asks for. Connecting, waiting and polling end early when a
/// shutdown is requested.
#[derive(Clone, Copy, PartialEq, Eq, Debug, Structural)]
pub enum SchedulerAction {
    Connect,
    /// Wait for so many nanoseconds.
    Wait(u128),
    Poll,
    /// Publish the metrics of the poll.
    Publish,
    /// Tell the publisher that the vehicle sleeps.
    DropCache,
    Disconnect,
}

/// What came of an action.
#[derive(Clone, Copy, PartialEq, Eq, Debug, Structural)]
pub enum SchedulerEvent {
    /// A shutdown was requested before the action ended.
    Interrupted,
    /// Connecting ended.
    Connected(ConnectOutcome),
    Waited,
    Polled(PollOutcome),
    Published,
    CacheDropped,
    Disconnected,
}

/// The state of the loop. Times are in nanoseconds.
#[derive(Clone, Copy, PartialEq, Eq, Debug, Structural)]
pub struct Scheduler {
    pub poll_interval: u128,
    pub sleep_interval: u128,
    /// The watchdog fires after so many cycles without data; never, if zero.
    pub limit: u32,
    /// The cycles without data in a row.
    pub idle_cycles: u32,
    /// When to poll next.
    pub deadline: u128,
    pub phase: SchedulerPhase,
}

/// What follows an event.
#[derive(Clone, Copy, PartialEq, Eq, Debug, Structural)]
pub enum SchedulerStep {
    More(Scheduler),
    /// End the process with this code.
    Exit(i32),
    /// End the loop.
    Stop,
}

/// A later time; time does not run over.
pub open spec fn later(now: u128, interval: u128) -> u128 {
    if now + interval > u128::MAX {
        u128::MAX
    } else {
        (now + interval) as u128
    }
}

/// One more cycle without data; the count stays at the greatest number.
pub open spec fn one_more(count: u32) -> u32 {
    if count == u32::MAX {
        count
    } else {
        (count + 1) as u32
    }
}

impl Scheduler {
    /// The watchdog has not been due.
    pub open spec fn wf(self) -> bool {
        !fires(self.idle_cycles, self.limit)
    }

    pub open spec fn at(self, phase: SchedulerPhase) -> SchedulerStep {
        SchedulerStep::More(Scheduler { phase, ..self })
    }

    /// What the phase asks for.
    pub open spec fn wanted(self) -> SchedulerAction {
        match self.phase {
            SchedulerPhase::Connecting => SchedulerAction::Connect,
            SchedulerPhase::Backoff(nanos) => SchedulerAction::Wait(nanos),
            SchedulerPhase::Waiting(nanos) => SchedulerAction::Wait(nanos),
            SchedulerPhase::Polling => SchedulerAction::Poll,
            SchedulerPhase::Publishing(_) => SchedulerAction::Publish,
            SchedulerPhase::DroppingCache(_) => SchedulerAction::DropCache,
            SchedulerPhase::Reconnecting => SchedulerAction::Disconnect,
            SchedulerPhase::Stopping => SchedulerAction::Disconnect,
        }
    }

    /// Connecting, unless a shutdown was requested.
    pub open spec fn reconnected(self, running: bool) -> SchedulerStep {
        if running {
            self.at(SchedulerPhase::Connecting)
        } else {
            self.at(SchedulerPhase::Stopping)
        }
    }

    /// The next poll when its time has come, else waiting for it, unless a
    /// shutdown was requested.
    pub open spec fn next_poll(self, running: bool, now: u128) -> SchedulerStep {
        if !running {
            self.at(SchedulerPhase::Stopping)
        } else if now < self.deadline {
            self.at(SchedulerPhase::Waiting((self.deadline - now) as u128))
        } else {
            self.at(SchedulerPhase::Polling)
        }
    }

    /// The end of a cycle with data.
    pub open spec fn cycle_with_data(self, running: bool, now: u128) -> SchedulerStep {
        Scheduler {
            idle_cycles: 0,
            deadline: later(now, self.poll_interval),
            ..self
        }.next_poll(running, now)
    }

    /// The end of a cycle without data.
    pub open spec fn cycle_without_data(self, running: bool, now: u128) -> SchedulerStep {
        if fires(one_more(self.idle_cycles), self.limit) {
            SchedulerStep::Exit(EXIT_WATCHDOG)
        } else {
            Scheduler {
                idle_cycles: one_more(self.idle_cycles),
                deadline: later(now, self.poll_interval),
                ..self
            }.next_poll(running, now)
        }
    }
}

/// The start of the loop.
pub open spec fn scheduler_start(
    poll_interval: u128,
    sleep_interval: u128,
    limit: u32,
    running: bool,
    now: u128,
) -> SchedulerStep {
    Scheduler {
        poll_interval,
        sleep_interval,
        limit,
        idle_cycles: 0,
        deadline: now,
        phase: SchedulerPhase::Connecting,
    }.reconnected(running)
}

/// What follows an event. An error that no retry can mend ends the process,
/// whether it comes from connecting or from a poll, and a sleeping vehicle is
/// asked again after the longer interval. Whether a publication goes through
/// does not matter, only whether there was anything to publish. An event that
/// answers another action changes nothing.
pub open spec fn scheduler_next(
    s: Scheduler,
    event: SchedulerEvent,
    running: bool,
    now: u128,
) -> SchedulerStep {
    match (s.phase, event) {
        (SchedulerPhase::Connecting, SchedulerEvent::Interrupted) => s.at(SchedulerPhase::Stopping),
        (SchedulerPhase::Connecting, SchedulerEvent::Connected(o)) => match o {
            ConnectOutcome::Ready => s.next_poll(running, now),
            ConnectOutcome::Transient => s.at(SchedulerPhase::Backoff(s.poll_interval)),
            ConnectOutcome::FatalConn => s.at(SchedulerPhase::Backoff(s.poll_interval)),
            ConnectOutcome::Sleeping => s.at(SchedulerPhase::DroppingCache(false)),
            ConnectOutcome::Permanent => SchedulerStep::Exit(EXIT_PERMANENT),
        },
        (SchedulerPhase::Backoff(_), SchedulerEvent::Interrupted) => s.at(SchedulerPhase::Stopping),
        (SchedulerPhase::Backoff(_), SchedulerEvent::Waited) => s.reconnected(running),
        (SchedulerPhase::Waiting(_), SchedulerEvent::Interrupted) => s.at(SchedulerPhase::Stopping),
        (SchedulerPhase::Waiting(_), SchedulerEvent::Waited) => s.next_poll(running, now),
        (SchedulerPhase::Polling, SchedulerEvent::Interrupted) => s.at(SchedulerPhase::Stopping),
        (SchedulerPhase::Polling, SchedulerEvent::Polled(o)) => match o {
            PollOutcome::Data(any) => s.at(SchedulerPhase::Publishing(any)),
            PollOutcome::Transient => s.cycle_without_data(running, now),
            PollOutcome::FatalConn => s.at(SchedulerPhase::Reconnecting),
            PollOutcome::Sleeping => s.at(SchedulerPhase::DroppingCache(true)),
            PollOutcome::Permanent => SchedulerStep::Exit(EXIT_PERMANENT),
        },
        (SchedulerPhase::Publishing(any), SchedulerEvent::Published) => if any {
            s.cycle_with_data(running, now)
        } else {
            s.cycle_without_data(running, now)
        },
        (SchedulerPhase::DroppingCache(connected), SchedulerEvent::CacheDropped) => if connected {
            Scheduler {
                idle_cycles: 0,
                deadline: later(now, s.sleep_interval),
                ..s
            }.next_poll(running, now)
        } else {
            s.at(SchedulerPhase::Backoff(s.sleep_interval))
        },
        (SchedulerPhase::Reconnecting, SchedulerEvent::Disconnected) => s.reconnected(running),
        (SchedulerPhase::Stopping, SchedulerEvent::Disconnected) => SchedulerStep::Stop,
        _ => SchedulerStep::More(s),
    }
}

fn later_time(now: u128, interval: u128) -> (r: u128)
    ensures
        r == later(now, interval),
{
    if interval > u128::MAX - now {
        u128::MAX
    } else {
        now + interval
    }
}

impl Scheduler {
    /// Starts the loop.
    pub fn start(
        poll_interval: u128,
        sleep_interval: u128,
        limit: u32,
        running: bool,
        now: u128,
    ) -> (r: SchedulerStep)
        ensures
            r == scheduler_start(poll_interval, sleep_interval, limit, running, now),
            r is More && r->More_0.wf(),
    {
        let s = Scheduler {
            poll_interval,
            sleep_interval,
            limit,
            idle_cycles: 0,
            deadline: now,
            phase: SchedulerPhase::Connecting,
        };
        s.connect_again(running)
    }

    /// What to do now.
    pub fn action(&self) -> (r: SchedulerAction)
        ensures
            r == self.wanted(),
    {
        match self.phase {
            SchedulerPhase::Connecting => SchedulerAction::Connect,
            SchedulerPhase::Backoff(nanos) => SchedulerAction::Wait(nanos),
            SchedulerPhase::Waiting(nanos) => SchedulerAction::Wait(nanos),
            SchedulerPhase::Polling => SchedulerAction::Poll,
            SchedulerPhase::Publishing(_) => SchedulerAction::Publish,
            SchedulerPhase::DroppingCache(_) => SchedulerAction::DropCache,
            SchedulerPhase::Reconnecting => SchedulerAction::Disconnect,
            SchedulerPhase::Stopping => SchedulerAction::Disconnect,
        }
    }

    fn to(self, phase: SchedulerPhase) -> (r: SchedulerStep)
        ensures
            r == self.at(phase),
    {
        SchedulerStep::More(Scheduler { phase, ..self })
    }

    fn connect_again(self, running: bool) -> (r: SchedulerStep)
        ensures
            r == self.reconnected(running),
    {
        if running {
            self.to(SchedulerPhase::Connecting)
        } else {
            self.to(SchedulerPhase::Stopping)
        }
    }

    fn poll_or_wait(self, running: bool, now: u128) -> (r: SchedulerStep)
        ensures
            r == self.next_poll(running, now),
    {
        if !running {
            self.to(SchedulerPhase::Stopping)
        } else if now < self.deadline {
            self.to(SchedulerPhase::Waiting(self.deadline - now))
        } else {
            self.to(SchedulerPhase::Polling)
        }
    }

    fn end_with_data(self, running: bool, now: u128) -> (r: SchedulerStep)
        ensures
            r == self.cycle_with_data(running, now),
    {
        let deadline: u128 = later_time(now, self.poll_interval);
        let s = Scheduler { idle_cycles: 0, deadline, ..self };
        s.poll_or_wait(running, now)
    }

    fn end_without_data(self, running: bool, now: u128) -> (r: SchedulerStep)
        ensures
            r == self.cycle_without_data(running, now),
    {
        let idle_cycles: u32 = self.idle_cycles.saturating_add(1);
        if watchdog_should_fire(idle_cycles, self.limit) {
            return SchedulerStep::Exit(EXIT_WATCHDOG);
        }
        let deadline: u128 = later_time(now, self.poll_interval);
        let s = Scheduler { idle_cycles, deadline, ..self };
        s.poll_or_wait(running, now)
    }

    /// Takes in what came of the action; `running` is false once a shutdown has
    /// been requested.
    pub fn on_event(self, event: SchedulerEvent, running: bool, now: u128) -> (r: SchedulerStep)
        ensures
            r == scheduler_next(self, event, running, now),
            self.wf() && r is More ==> r->More_0.wf(),
    {
        match (self.phase, event) {
            (SchedulerPhase::Connecting, SchedulerEvent::Interrupted) => self.to(
                SchedulerPhase::Stopping,
            ),
            (SchedulerPhase::Connecting, SchedulerEvent::Connected(o)) => match o {
                ConnectOutcome::Ready => self.poll_or_wait(running, now),
                ConnectOutcome::Transient => self.to(SchedulerPhase::Backoff(self.poll_interval)),
                ConnectOutcome::FatalConn => self.to(SchedulerPhase::Backoff(self.poll_interval)),
                ConnectOutcome::Sleeping => self.to(SchedulerPhase::DroppingCache(false)),
                ConnectOutcome::Permanent => SchedulerStep::Exit(EXIT_PERMANENT),
            },
            (SchedulerPhase::Backoff(_), SchedulerEvent::Interrupted) => self.to(
                SchedulerPhase::Stopping,
            ),
            (SchedulerPhase::Backoff(_), SchedulerEvent::Waited) => self.connect_again(running),
            (SchedulerPhase::Waiting(_), SchedulerEvent::Interrupted) => self.to(
                SchedulerPhase::Stopping,
            ),
            (SchedulerPhase::Waiting(_), SchedulerEvent::Waited) => self.poll_or_wait(
                running,
                now,
            ),
            (SchedulerPhase::Polling, SchedulerEvent::Interrupted) => self.to(
                SchedulerPhase::Stopping,
            ),
            (SchedulerPhase::Polling, SchedulerEvent::Polled(o)) => match o {
                PollOutcome::Data(any) => self.to(SchedulerPhase::Publishing(any)),
                PollOutcome::Transient => self.end_without_data(running, now),
                PollOutcome::FatalConn => self.to(SchedulerPhase::Reconnecting),
                PollOutcome::Sleeping => self.to(SchedulerPhase::DroppingCache(true)),
                PollOutcome::Permanent => SchedulerStep::Exit(EXIT_PERMANENT),
            },
            (SchedulerPhase::Publishing(any), SchedulerEvent::Published) => {
                if any {
                    self.end_with_data(running, now)
                } else {
                    self.end_without_data(running, now)
                }
            },
            (SchedulerPhase::DroppingCache(connected), SchedulerEvent::CacheDropped) => {
                if connected {
                    let deadline: u128 = later_time(now, self.sleep_interval);
                    let s = Scheduler { idle_cycles: 0, deadline, ..self };
                    s.poll_or_wait(running, now)
                } else {
                    self.to(SchedulerPhase::Backoff(self.sleep_interval))
                }
            },
            (SchedulerPhase::Reconnecting, SchedulerEvent::Disconnected) => self.connect_again(
                running,
            ),
            (SchedulerPhase::Stopping, SchedulerEvent::Disconnected) => SchedulerStep::Stop,
            _ => SchedulerStep::More(self),
        }
    }
}

/// An event, whether the loop is to run on, and the time.
pub struct Tick {
    pub event: SchedulerEvent,
    pub running: bool,
    pub now: u128,
}

/// What the loop comes to on a run of events.
pub open spec fn after_ticks(s: Scheduler, ticks: Seq<Tick>) -> SchedulerStep
    decreases ticks.len(),
{
    if ticks.len() == 0 {
        SchedulerStep::More(s)
    } else {
        let t = ticks.last();
        match after_ticks(s, ticks.drop_last()) {
            SchedulerStep::More(q) => scheduler_next(q, t.event, t.running, t.now),
            ended => ended,
        }
    }
}

/// Does an event end a cycle, and if so, one that counts as healthy? A cycle
/// with data does, and so does one that finds the vehicle asleep; one without
/// data and one that fails in passing do not.
pub open spec fn cycle_end(phase: SchedulerPhase, event: SchedulerEvent) -> Option<bool> {
    match (phase, event) {
        (SchedulerPhase::Publishing(any), SchedulerEvent::Published) => Some(any),
        (SchedulerPhase::DroppingCache(true), SchedulerEvent::CacheDropped) => Some(true),
        (SchedulerPhase::Polling, SchedulerEvent::Polled(PollOutcome::Transient)) => Some(false),
        _ => None,
    }
}

/// The cycles in a row, up to the end of a run of events, that did not count as
/// healthy.
pub open spec fn idle_streak(s: Scheduler, ticks: Seq<Tick>) -> nat
    decreases ticks.len(),
{
    if ticks.len() == 0 {
        0
    } else {
        let before = idle_streak(s, ticks.drop_last());
        match after_ticks(s, ticks.drop_last()) {
            SchedulerStep::More(q) => match cycle_end(q.phase, ticks.last().event) {
                Some(true) => 0,
                Some(false) => before + 1,
                None => before,
            },
            _ => before,
        }
    }
}

/// Whatever happens, polls with and without data, sleeping vehicles, lost
/// connections and failed attempts to connect among it, the watchdog ends the
/// process with the cycle that makes the limit full, counted from the last
/// healthy one, and never otherwise. With a limit of zero it never does.
pub proof fn watchdog_fires_at_limit(s: Scheduler, ticks: Seq<Tick>)
    requires
        s.idle_cycles == 0,
    ensures
        match after_ticks(s, ticks) {
            SchedulerStep::More(q) => {
                &&& s.limit == 0 || idle_streak(s, ticks) < s.limit
                &&& q.limit == s.limit
                &&& q.idle_cycles == if idle_streak(s, ticks) > u32::MAX {
                    u32::MAX as nat
                } else {
                    idle_streak(s, ticks)
                }
            },
            SchedulerStep::Exit(code) => {
                &&& code == EXIT_WATCHDOG || code == EXIT_PERMANENT
                &&& code == EXIT_WATCHDOG <==> s.limit > 0 && idle_streak(s, ticks) == s.limit
                &&& code == EXIT_PERMANENT ==> s.limit == 0 || idle_streak(s, ticks) < s.limit
            },
            SchedulerStep::Stop => s.limit == 0 || idle_streak(s, ticks) < s.limit,
        },
    decreases ticks.len(),
{
    if ticks.len() > 0 {
        watchdog_fires_at_limit(s, ticks.drop_last());
    }
}

/// An error that no retry can mend ends the process at once, from connecting
/// and from a poll alike, and nothing else ends it with that code.
pub proof fn permanent_error_exits(s: Scheduler, event: SchedulerEvent, running: bool, now: u128)
    ensures
        scheduler_next(s, event, running, now) == SchedulerStep::Exit(EXIT_PERMANENT) <==> (
        s.phase == SchedulerPhase::Connecting && event == SchedulerEvent::Connected(
            ConnectOutcome::Permanent,
        )) || (s.phase == SchedulerPhase::Polling && event == SchedulerEvent::Polled(
            PollOutcome::Permanent,
        )),
{
}

/// A sleeping vehicle has what was published dropped and is left alone for the
/// longer interval, whether a poll or connecting finds it asleep.
pub proof fn sleeping_vehicle_is_left_alone(
    s: Scheduler,
    connected: bool,
    found: u128,
    dropped: u128,
)
    requires
        s.sleep_interval > 0,
        dropped < u128::MAX,
    ensures
        s.phase == SchedulerPhase::Polling ==> scheduler_next(
            s,
            SchedulerEvent::Polled(PollOutcome::Sleeping),
            true,
            found,
        ) == s.at(SchedulerPhase::DroppingCache(true)),
        s.phase == SchedulerPhase::Connecting ==> scheduler_next(
            s,
            SchedulerEvent::Connected(ConnectOutcome::Sleeping),
            true,
            found,
        ) == s.at(SchedulerPhase::DroppingCache(false)),
        (Scheduler { phase: SchedulerPhase::DroppingCache(connected), ..s }).wanted()
            == SchedulerAction::DropCache,
        scheduler_next(
            Scheduler { phase: SchedulerPhase::DroppingCache(true), ..s },
            SchedulerEvent::CacheDropped,
            true,
            dropped,
        )->More_0.wanted() == SchedulerAction::Wait(
            (later(dropped, s.sleep_interval) - dropped) as u128,
        ),
        scheduler_next(
            Scheduler { phase: SchedulerPhase::DroppingCache(false), ..s },
            SchedulerEvent::CacheDropped,
            true,
            dropped,
        )->More_0.wanted() == SchedulerAction::Wait(s.sleep_interval),
{
}

/// A cycle sets the time of the next poll: the poll interval after a cycle
/// that kept the connection, whether it brought data or not.
pub proof fn next_poll_is_one_interval_later(s: Scheduler, event: SchedulerEvent, now: u128)
    requires
        s.phase is Publishing && event == SchedulerEvent::Published || s.phase
            == SchedulerPhase::Polling && event == SchedulerEvent::Polled(PollOutcome::Transient),
    ensures
        match scheduler_next(s, event, true, now) {
            SchedulerStep::More(q) => q.deadline == later(now, s.poll_interval),
            ended => ended == SchedulerStep::Exit(EXIT_WATCHDOG),
        },
{
}

/// A poll is never started before its time.
pub proof fn polls_on_time(s: Scheduler, event: SchedulerEvent, running: bool, now: u128)
    requires
        s.phase != SchedulerPhase::Polling,
    ensures
        match scheduler_next(s, event, running, now) {
            SchedulerStep::More(q) => q.phase == SchedulerPhase::Polling ==> now >= q.deadline
                && running,
            _ => true,
        },
{
}

/// Once a shutdown is requested no connection, poll or wait for a poll is
/// started, and what can be interrupted leads to stopping.
pub proof fn shutdown_stops(s: Scheduler, event: SchedulerEvent, now: u128)
    ensures
        match scheduler_next(s, event, false, now) {
            SchedulerStep::More(q) => q == s || q.phase is Backoff || q.phase is Publishing
                || q.phase is DroppingCache || q.phase is Reconnecting || q.phase is Stopping,
            _ => true,
        },
        s.phase is Connecting || s.phase is Backoff || s.phase is Waiting || s.phase is Polling
            ==> scheduler_next(s, SchedulerEvent::Interrupted, false, now) == s.at(
            SchedulerPhase::Stopping,
        ),
{
}

/// The loop ends only after a disconnection that was meant to end it.
pub proof fn stops_disconnected(s: Scheduler, event: SchedulerEvent, running: bool, now: u128)
    requires
        scheduler_next(s, event, running, now) is Stop,
    ensures
        s.phase == SchedulerPhase::Stopping,
        s.wanted() == SchedulerAction::Disconnect,
        event == SchedulerEvent::Disconnected,
{
}

/// A lost connection is closed and made anew; the count of the watchdog and
/// the time of the next poll stay as they are.
pub proof fn lost_connection_is_remade(s: Scheduler, ended: u128, now: u128)
    requires
        s.phase == SchedulerPhase::Polling,
    ensures
        scheduler_next(s, SchedulerEvent::Polled(PollOutcome::FatalConn), true, ended) == s.at(
            SchedulerPhase::Reconnecting,
        ),
        scheduler_next(
            Scheduler { phase: SchedulerPhase::Reconnecting, ..s },
            SchedulerEvent::Disconnected,
            true,
            now,
        ) == s.at(SchedulerPhase::Connecting),
{
}

/// The watchdog is due once the count has reached the limit, and never with a
/// limit of zero.
pub proof fn watchdog_is_due_at_the_limit(count: u32, limit: u32)
    ensures
        !fires(count, 0),
        limit > 0 && count < limit ==> !fires(count, limit),
        limit > 0 && count >= limit ==> fires(count, limit),
        fires(count, limit) && count < u32::MAX ==> fires((count + 1) as u32, limit),
{
}

/// The loop starts by connecting, with a first poll that is due at once and no
/// cycle counted; with a shutdown requested it starts by stopping.
pub proof fn loop_starts_by_connecting(
    poll_interval: u128,
    sleep_interval: u128,
    limit: u32,
    now: u128,
)
    ensures
        ({
            let start = |running: bool|
                scheduler_start(poll_interval, sleep_interval, limit, running, now);
            &&& start(true) is More
            &&& start(true)->More_0.wanted() == SchedulerAction::Connect
            &&& start(true)->More_0.deadline == now
            &&& start(true)->More_0.idle_cycles == 0
            &&& start(true)->More_0.poll_interval == poll_interval
            &&& start(true)->More_0.sleep_interval == sleep_interval
            &&& start(true)->More_0.limit == limit
            &&& start(false) is More
            &&& start(false)->More_0.phase == SchedulerPhase::Stopping
        }),
{
}

/// With a connection, and behind every wait for it, a poll whose time has come
/// is made, and one whose time has not is waited for, exactly as long as it
/// takes.
pub proof fn polls_are_neither_early_nor_late(s: Scheduler, now: u128)
    ensures
        ({
            let ready = SchedulerEvent::Connected(ConnectOutcome::Ready);
            let wait = SchedulerAction::Wait((s.deadline - now) as u128);
            &&& s.phase == SchedulerPhase::Connecting && now >= s.deadline ==> scheduler_next(
                s,
                ready,
                true,
                now,
            ) == s.at(SchedulerPhase::Polling)
            &&& s.phase == SchedulerPhase::Connecting && now < s.deadline ==> scheduler_next(
                s,
                ready,
                true,
                now,
            ) is More && scheduler_next(s, ready, true, now)->More_0.wanted() == wait
            &&& s.phase is Waiting && now >= s.deadline ==> scheduler_next(
                s,
                SchedulerEvent::Waited,
                true,
                now,
            ) == s.at(SchedulerPhase::Polling)
            &&& s.phase is Waiting && now < s.deadline ==> scheduler_next(
                s,
                SchedulerEvent::Waited,
                true,
                now,
            ) is More && scheduler_next(s, SchedulerEvent::Waited, true, now)->More_0.wanted()
                == wait
        }),
{
}

/// A failed attempt to connect is repeated after the poll interval.
pub proof fn failed_connect_is_repeated(s: Scheduler, failed: u128, now: u128, o: ConnectOutcome)
    requires
        s.phase == SchedulerPhase::Connecting,
        o == ConnectOutcome::Transient || o == ConnectOutcome::FatalConn,
    ensures
        scheduler_next(s, SchedulerEvent::Connected(o), true, failed) is More,
        ({
            let q = scheduler_next(s, SchedulerEvent::Connected(o), true, failed)->More_0;
            &&& q.wanted() == SchedulerAction::Wait(s.poll_interval)
            &&& q.idle_cycles == s.idle_cycles
            &&& q.deadline == s.deadline
            &&& scheduler_next(q, SchedulerEvent::Waited, true, now) == s.at(
                SchedulerPhase::Connecting,
            )
        }),
{
}

/// What a poll gave is published, with metrics or without, and the cycle ends
/// one poll interval before the next: with metrics the count of the watchdog
/// starts anew, without them it goes up by one.
pub proof fn polled_data_is_published(s: Scheduler, any: bool, polled: u128, now: u128)
    requires
        s.phase == SchedulerPhase::Polling,
        now + s.poll_interval <= u128::MAX,
        s.poll_interval > 0,
        s.idle_cycles < u32::MAX,
    ensures
        ({
            let step = scheduler_next(
                s,
                SchedulerEvent::Polled(PollOutcome::Data(any)),
                true,
                polled,
            );
            let after = scheduler_next(step->More_0, SchedulerEvent::Published, true, now);
            let wait = SchedulerAction::Wait(s.poll_interval);
            &&& step is More
            &&& step->More_0.wanted() == SchedulerAction::Publish
            &&& any ==> after is More && after->More_0.idle_cycles == 0
                && after->More_0.deadline == now + s.poll_interval && after->More_0.wanted() == wait
            &&& !any && !(s.limit > 0 && s.idle_cycles + 1 >= s.limit) ==> after is More
                && after->More_0.idle_cycles == s.idle_cycles + 1 && after->More_0.deadline == now
                + s.poll_interval && after->More_0.wanted() == wait
            &&& !any && s.limit > 0 && s.idle_cycles + 1 >= s.limit ==> after
                == SchedulerStep::Exit(2)
        }),
{
}

/// Intervals are added to the time, up to the greatest time there is.
pub proof fn intervals_are_added(now: u128, interval: u128)
    ensures
        now + interval <= u128::MAX ==> later(now, interval) == now + interval,
        now + interval > u128::MAX ==> later(now, interval) == u128::MAX,
        later(now, interval) >= now,
{
}

/// The result of a poll or of connecting is judged by its error; a poll without
/// one by whether it gave any metrics.
pub proof fn results_are_judged_by_their_error(m: Metrics, e: AdapterError)
    ensures
        outcome(Ok(m)) == PollOutcome::Data(true) <==> (exists|name: Seq<char>| #[trigger]
            m@.contains_key(name)),
        outcome(Ok(m)) == PollOutcome::Data(false) <==> !(exists|name: Seq<char>| #[trigger]
            m@.contains_key(name)),
        e is Transient ==> outcome(Err(e)) == PollOutcome::Transient && connect_outcome(Err(e))
            == ConnectOutcome::Transient,
        e is FatalConn ==> outcome(Err(e)) == PollOutcome::FatalConn && connect_outcome(Err(e))
            == ConnectOutcome::FatalConn,
        e is Sleeping ==> outcome(Err(e)) == PollOutcome::Sleeping && connect_outcome(Err(e))
            == ConnectOutcome::Sleeping,
        e is Permanent ==> outcome(Err(e)) == PollOutcome::Permanent && connect_outcome(Err(e))
            == ConnectOutcome::Permanent,
        connect_outcome(Ok(())) == ConnectOutcome::Ready,
{
    if !(exists|name: Seq<char>| #[trigger] m@.contains_key(name)) {
        assert(m@.dom() =~= Set::<Seq<char>>::empty());
    } else {
        let name = choose|name: Seq<char>| #[trigger] m@.contains_key(name);
        assert(m@.dom().contains(name));
    }
}

/// Once a shutdown is requested, the end of a wait, of connecting, of a cycle
/// or of a disconnection leads to stopping, unless the watchdog ends the
/// process.
pub proof fn shutdown_leads_to_stopping(s: Scheduler, event: SchedulerEvent, now: u128)
    requires
        match s.phase {
            SchedulerPhase::Connecting => event == SchedulerEvent::Connected(
                ConnectOutcome::Ready,
            ),
            SchedulerPhase::Backoff(_) => event == SchedulerEvent::Waited,
            SchedulerPhase::Waiting(_) => event == SchedulerEvent::Waited,
            SchedulerPhase::Polling => event == SchedulerEvent::Polled(PollOutcome::Transient),
            SchedulerPhase::Publishing(_) => event == SchedulerEvent::Published,
            SchedulerPhase::DroppingCache(connected) => connected && event
                == SchedulerEvent::CacheDropped,
            SchedulerPhase::Reconnecting => event == SchedulerEvent::Disconnected,
            SchedulerPhase::Stopping => false,
        },
    ensures
        match scheduler_next(s, event, false, now) {
            SchedulerStep::More(q) => q.phase == SchedulerPhase::Stopping,
            SchedulerStep::Exit(code) => code == 2 && cycle_end(s.phase, event) == Some(false),
            SchedulerStep::Stop => false,
        },
{
}

/// An event that does not answer the action of the moment changes nothing.
pub proof fn loop_waits_for_its_answer(
    s: Scheduler,
    event: SchedulerEvent,
    running: bool,
    now: u128,
)
    requires
        match s.wanted() {
            SchedulerAction::Connect => !(event is Connected || event is Interrupted),
            SchedulerAction::Wait(_) => !(event is Waited || event is Interrupted),
            SchedulerAction::Poll => !(event is Polled || event is Interrupted),
            SchedulerAction::Publish => !(event is Published),
            SchedulerAction::DropCache => !(event is CacheDropped),
            SchedulerAction::Disconnect => !(event is Disconnected),
        },
    ensures
        scheduler_next(s, event, running, now) == SchedulerStep::More(s),
{
}

/// An interruption leads to stopping, from whatever can be interrupted.
pub proof fn interruptions_lead_to_stopping(s: Scheduler, running: bool, now: u128)
    requires
        s.wanted() == SchedulerAction::Connect || s.wanted() == SchedulerAction::Poll
            || s.wanted() is Wait,
    ensures
        scheduler_next(s, SchedulerEvent::Interrupted, running, now) == s.at(
            SchedulerPhase::Stopping,
        ),
{
}

/// What a poll or an attempt to connect came to is acted on whether or not a
/// shutdown was requested meanwhile: metrics are published, a sleeping vehicle
/// has its cache dropped, a lost connection is closed, a failed attempt is
/// waited behind, and what no retry can mend ends the process with code 1.
pub proof fn results_are_acted_on(s: Scheduler, any: bool, running: bool, now: u128)
    ensures
        s.phase == SchedulerPhase::Polling ==> {
            &&& scheduler_next(s, SchedulerEvent::Polled(PollOutcome::Data(any)), running, now)
                == s.at(SchedulerPhase::Publishing(any))
            &&& scheduler_next(s, SchedulerEvent::Polled(PollOutcome::Sleeping), running, now)
                == s.at(SchedulerPhase::DroppingCache(true))
            &&& scheduler_next(s, SchedulerEvent::Polled(PollOutcome::FatalConn), running, now)
                == s.at(SchedulerPhase::Reconnecting)
            &&& scheduler_next(s, SchedulerEvent::Polled(PollOutcome::Permanent), running, now)
                == SchedulerStep::Exit(1)
        },
        s.phase == SchedulerPhase::Connecting ==> {
            &&& scheduler_next(
                s,
                SchedulerEvent::Connected(ConnectOutcome::Sleeping),
                running,
                now,
            ) == s.at(SchedulerPhase::DroppingCache(false))
            &&& scheduler_next(
                s,
                SchedulerEvent::Connected(ConnectOutcome::FatalConn),
                running,
                now,
            ) == s.at(SchedulerPhase::Backoff(s.poll_interval))
            &&& scheduler_next(
                s,
                SchedulerEvent::Connected(ConnectOutcome::Transient),
                running,
                now,
            ) == s.at(SchedulerPhase::Backoff(s.poll_interval))
            &&& scheduler_next(
                s,
                SchedulerEvent::Connected(ConnectOutcome::Permanent),
                running,
                now,
            ) == SchedulerStep::Exit(1)
        },
        s.phase == SchedulerPhase::DroppingCache(false) ==> scheduler_next(
            s,
            SchedulerEvent::CacheDropped,
            running,
            now,
        ) == s.at(SchedulerPhase::Backoff(s.sleep_interval)),
{
}

/// Whatever ends a cycle, a wait or connecting well leads, while the loop runs,
/// to a poll if its time has come, and else to a wait until then.
pub proof fn polls_follow_their_deadline(s: Scheduler, event: SchedulerEvent, now: u128)
    requires
        match s.phase {
            SchedulerPhase::Connecting => event == SchedulerEvent::Connected(
                ConnectOutcome::Ready,
            ),
            SchedulerPhase::Waiting(_) => event == SchedulerEvent::Waited,
            SchedulerPhase::Polling => event == SchedulerEvent::Polled(PollOutcome::Transient),
            SchedulerPhase::Publishing(_) => event == SchedulerEvent::Published,
            SchedulerPhase::DroppingCache(connected) => connected && event
                == SchedulerEvent::CacheDropped,
            _ => false,
        },
    ensures
        match scheduler_next(s, event, true, now) {
            SchedulerStep::More(q) => {
                &&& now >= q.deadline ==> q.phase == SchedulerPhase::Polling
                &&& now < q.deadline ==> q.phase == SchedulerPhase::Waiting(
                    (q.deadline - now) as u128,
                )
                &&& q.poll_interval == s.poll_interval
                &&& q.sleep_interval == s.sleep_interval
                &&& s.phase is Connecting || s.phase is Waiting ==> q.deadline == s.deadline
                &&& s.phase is DroppingCache ==> q.deadline == later(now, s.sleep_interval)
                &&& s.phase is Polling || s.phase is Publishing ==> q.deadline == later(
                    now,
                    s.poll_interval,
                )
            },
            SchedulerStep::Exit(code) => code == 2,
            SchedulerStep::Stop => false,
        },
{
}

/// The phases ask for what they are named after.
pub proof fn phases_ask_for_their_action(s: Scheduler, nanos: u128)
    ensures
        s.phase == SchedulerPhase::Connecting ==> s.wanted() == SchedulerAction::Connect,
        s.phase == SchedulerPhase::Backoff(nanos) ==> s.wanted() == SchedulerAction::Wait(nanos),
        s.phase == SchedulerPhase::Waiting(nanos) ==> s.wanted() == SchedulerAction::Wait(nanos),
        s.phase == SchedulerPhase::Polling ==> s.wanted() == SchedulerAction::Poll,
        s.phase is Publishing ==> s.wanted() == SchedulerAction::Publish,
        s.phase is DroppingCache ==> s.wanted() == SchedulerAction::DropCache,
        s.phase == SchedulerPhase::Reconnecting ==> s.wanted() == SchedulerAction::Disconnect,
        s.phase == SchedulerPhase::Stopping ==> s.wanted() == SchedulerAction::Disconnect,
{
}

} // verus!
