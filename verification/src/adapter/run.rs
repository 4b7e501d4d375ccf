//! A whole poll of an ELM327, command by command.

use crate::adapter::broadcast::{
    listen_next, listen_start, BroadcastMonitor, ListenModel, ListenNext, ListenStep,
};
use crate::adapter::errors::{AdapterError, AdapterErrorModel};
use crate::adapter::poll::{
    cycle_at, cycle_next, cycle_start, CycleModel, CycleNext, PollCycle, PollStep, SourceModel,
    SourceResult,
};
use crate::adapter::session::{ActionModel, ErrorModel, EventModel, SessionAction, SessionEvent};
use crate::adapter::uds::{
    long_next, long_outcome, long_start, uds_next, uds_outcome, uds_start, LongModel, LongNext,
    LongStep, MultiframePoll, UdsModel, UdsNext, UdsPoll, UdsStep,
};
use crate::metrics::{Metrics, Quantity};
use crate::profile::{BroadcastSource, Source, UdsPidSource, VehicleProfile};
use vstd::prelude::*;

verus! {

/// The exchange that polls a source.
pub enum JobModel {
    Single(UdsModel),
    Long(LongModel),
    Listen(ListenModel),
}

impl JobModel {
    pub open spec fn wf(self) -> bool {
        match self {
            JobModel::Single(m) => m.wf(),
            JobModel::Long(m) => m.wf(),
            JobModel::Listen(m) => m.wf(),
        }
    }

    /// What the exchange asks for.
    pub open spec fn action(self) -> ActionModel {
        match self {
            JobModel::Single(m) => ActionModel::Send(m.commands[m.at]),
            JobModel::Long(m) => m.action(),
            JobModel::Listen(m) => m.action(),
        }
    }
}

/// A poll under way.
pub struct RunModel {
    pub cycle: CycleModel,
    pub job: JobModel,
}

/// What follows an event.
pub enum RunNext {
    More(RunModel),
    Done(Result<Map<Seq<char>, Quantity>, AdapterErrorModel>),
}

/// The exchange that polls a source: a request whose reply spans several frames
/// is a long one. A source that cannot be polled has its result at once.
pub open spec fn job_of(source: Source) -> Result<JobModel, SourceModel> {
    match source {
        Source::UdsPid(uds) => if uds.multiframe {
            match long_start(uds) {
                Ok(m) => Ok(JobModel::Long(m)),
                Err(e) => Err(SourceModel::Payload(Err(e))),
            }
        } else {
            Ok(JobModel::Single(uds_start(uds)))
        },
        Source::Broadcast(b) => Ok(JobModel::Listen(listen_start(b))),
    }
}

/// The sources that are left.
pub open spec fn sources_left(next: CycleNext) -> int {
    match next {
        CycleNext::More(c) => c.sources.len() - c.at + 1,
        CycleNext::Done(_) => 0,
    }
}

/// The poll from a source on.
pub open spec fn run_on(next: CycleNext) -> RunNext
    decreases sources_left(next),
{
    match next {
        CycleNext::Done(r) => RunNext::Done(r),
        CycleNext::More(c) => match job_of(c.sources[c.at]) {
            Ok(job) => RunNext::More(RunModel { cycle: c, job }),
            Err(result) => if c.wf() {
                run_on(cycle_next(c, result))
            } else {
                RunNext::Done(Ok(c.metrics))
            },
        },
    }
}

/// The start of a poll.
pub open spec fn run_start(profile: VehicleProfile, connected: bool) -> RunNext {
    run_on(cycle_start(profile.sources@, connected))
}

/// What follows an event at a time in nanoseconds: the exchange goes on, or its
/// result leads to the next source.
pub open spec fn run_next(m: RunModel, event: EventModel, now: nat) -> RunNext {
    match m.job {
        JobModel::Single(job) => match event {
            EventModel::Replied(reply) => match uds_next(job, reply) {
                UdsNext::More(n) => RunNext::More(RunModel { job: JobModel::Single(n), ..m }),
                UdsNext::Done(r) => run_on(cycle_next(m.cycle, SourceModel::Payload(r))),
            },
            _ => RunNext::More(m),
        },
        JobModel::Long(job) => match long_next(job, event) {
            LongNext::More(n) => RunNext::More(RunModel { job: JobModel::Long(n), ..m }),
            LongNext::Done(r) => run_on(cycle_next(m.cycle, SourceModel::Payload(r))),
        },
        JobModel::Listen(job) => match listen_next(job, event, now) {
            ListenNext::More(n) => RunNext::More(RunModel { job: JobModel::Listen(n), ..m }),
            ListenNext::Done(r) => run_on(cycle_next(m.cycle, SourceModel::Heard(r))),
        },
    }
}

/// The exchange that polls a source.
pub enum Job<'a> {
    Single(UdsPoll),
    Long(MultiframePoll),
    Listen(BroadcastMonitor<'a>),
}

impl<'a> Job<'a> {
    pub open spec fn model(self) -> JobModel {
        match self {
            Job::Single(p) => JobModel::Single(p@),
            Job::Long(p) => JobModel::Long(p@),
            Job::Listen(p) => JobModel::Listen(p@),
        }
    }

    pub open spec fn wf(self) -> bool {
        match self {
            Job::Single(p) => p@.wf(),
            Job::Long(p) => p@.wf(),
            Job::Listen(p) => p.wf(),
        }
    }

    /// Starts the exchange that polls a source.
    fn start(source: &'a Source) -> (r: Result<Job<'a>, SourceResult>)
        ensures
            match (r, job_of(*source)) {
                (Ok(job), Ok(want)) => job.wf() && job.model() == want,
                (Err(result), Err(want)) => result@ == want,
                _ => false,
            },
    {
        match source {
            Source::UdsPid(uds) => {
                if uds.multiframe {
                    match MultiframePoll::new(uds) {
                        Ok(p) => Ok(Job::Long(p)),
                        Err(e) => Err(SourceResult::Payload(Err(e))),
                    }
                } else {
                    Ok(Job::Single(UdsPoll::new(uds)))
                }
            },
            Source::Broadcast(b) => Ok(Job::Listen(BroadcastMonitor::new(b))),
        }
    }
}

/// A poll of all the sources of a profile.
pub struct PollRun<'a> {
    cycle: PollCycle<'a>,
    job: Job<'a>,
}

/// What follows an event of a poll.
pub enum RunStep<'a> {
    /// Carry out the next action.
    More(PollRun<'a>),
    /// The metrics of the poll, or why there are none.
    Done(Result<Metrics, AdapterError>),
}

impl<'a> RunStep<'a> {
    pub open spec fn model(self) -> RunNext {
        match self {
            RunStep::More(r) => RunNext::More(r@),
            RunStep::Done(Ok(m)) => RunNext::Done(Ok(m@)),
            RunStep::Done(Err(e)) => RunNext::Done(Err(e@)),
        }
    }

    pub open spec fn wf(self) -> bool {
        self is More ==> self->More_0.wf()
    }
}

impl<'a> View for PollRun<'a> {
    type V = RunModel;

    closed spec fn view(&self) -> RunModel {
        RunModel { cycle: self.cycle@, job: self.job.model() }
    }
}

impl<'a> PollRun<'a> {
    /// A poll at one of the sources.
    pub closed spec fn wf(self) -> bool {
        self.cycle@.wf() && self.job.wf()
    }

    fn on(step: PollStep<'a>) -> (r: RunStep<'a>)
        requires
            step is More ==> step->More_0@.wf(),
        ensures
            r.model() == run_on(step.model()),
            r.wf(),
        decreases sources_left(step.model()),
    {
        match step {
            PollStep::Done(r) => RunStep::Done(r),
            PollStep::More(cycle) => match Job::start(cycle.source()) {
                Ok(job) => RunStep::More(PollRun { cycle, job }),
                Err(result) => PollRun::on(cycle.finish_source(result)),
            },
        }
    }

    /// Starts a poll; without a connection it fails.
    pub fn start(profile: &'a VehicleProfile, connected: bool) -> (r: RunStep<'a>)
        ensures
            r.model() == run_start(*profile, connected),
            r.wf(),
    {
        PollRun::on(PollCycle::start(profile, connected))
    }

    /// What to do now.
    pub fn action(&self) -> (r: SessionAction)
        requires
            self.wf(),
        ensures
            r@ == self@.job.action(),
    {
        match &self.job {
            Job::Single(p) => p.action(),
            Job::Long(p) => p.action(),
            Job::Listen(p) => p.action(),
        }
    }

    /// Takes in what came of the action, at a time in nanoseconds.
    pub fn on_event(self, event: SessionEvent, now: u128) -> (r: RunStep<'a>)
        requires
            self.wf(),
        ensures
            r.model() == run_next(self@, event@, now as nat),
            r.wf(),
    {
        let cycle = self.cycle;
        match self.job {
            Job::Single(p) => match event {
                SessionEvent::Replied(reply) => match p.replied(reply) {
                    UdsStep::More(p) => RunStep::More(PollRun { cycle, job: Job::Single(p) }),
                    UdsStep::Done(r) => PollRun::on(
                        cycle.finish_source(SourceResult::Payload(r)),
                    ),
                },
                _ => RunStep::More(PollRun { cycle, job: Job::Single(p) }),
            },
            Job::Long(p) => match p.on_event(event) {
                LongStep::More(p) => RunStep::More(PollRun { cycle, job: Job::Long(p) }),
                LongStep::Done(r) => PollRun::on(cycle.finish_source(SourceResult::Payload(r))),
            },
            Job::Listen(p) => match p.on_event(event, now) {
                ListenStep::More(p) => RunStep::More(PollRun { cycle, job: Job::Listen(p) }),
                ListenStep::Done(r) => PollRun::on(cycle.finish_source(SourceResult::Heard(r))),
            },
        }
    }
}

/// What a poll comes to on a run of events at their times.
pub open spec fn run_after(next: RunNext, events: Seq<(EventModel, nat)>) -> RunNext
    decreases events.len(),
{
    if events.len() == 0 {
        next
    } else {
        match next {
            RunNext::Done(_) => next,
            RunNext::More(m) => run_after(
                run_next(m, events[0].0, events[0].1),
                events.drop_first(),
            ),
        }
    }
}

/// A request for one frame is polled with short commands, one for several
/// frames as a long request, and a broadcast by listening. A long request whose
/// identifiers are not hexadecimal is passed over.
pub proof fn sources_have_their_exchange(uds: UdsPidSource, b: BroadcastSource, c: CycleModel)
    ensures
        !uds.multiframe ==> job_of(Source::UdsPid(uds)) == Ok::<JobModel, SourceModel>(
            JobModel::Single(uds_start(uds)),
        ),
        uds.multiframe && long_start(uds) is Ok ==> job_of(Source::UdsPid(uds)) == Ok::<
            JobModel,
            SourceModel,
        >(JobModel::Long(long_start(uds)->Ok_0)),
        job_of(Source::Broadcast(b)) == Ok::<JobModel, SourceModel>(
            JobModel::Listen(listen_start(b)),
        ),
        c.wf() && c.sources[c.at] == Source::UdsPid(uds) && uds.multiframe && long_start(uds) is Err
            ==> run_on(CycleNext::More(c)) == run_on(cycle_at(c.sources, c.at + 1, c.metrics)),
{
    reveal_with_fuel(run_on, 2);
}

/// A short request within a poll comes to the same as on its own: once its
/// replies have decided it, the poll goes on with its result.
pub proof fn poll_takes_over_short_results(
    c: CycleModel,
    job: UdsModel,
    replies: Seq<Result<Seq<u8>, ErrorModel>>,
    now: nat,
    r: Result<Seq<u8>, ErrorModel>,
)
    requires
        uds_outcome(job, replies) == Some(r),
        replies.len() > 0,
        uds_outcome(job, replies.drop_last()) is None,
    ensures
        run_after(
            RunNext::More(RunModel { cycle: c, job: JobModel::Single(job) }),
            Seq::new(replies.len(), |i: int| (EventModel::Replied(replies[i]), now)),
        ) == run_on(cycle_next(c, SourceModel::Payload(r))),
    decreases replies.len(),
{
    let events = Seq::new(replies.len(), |i: int| (EventModel::Replied(replies[i]), now));
    let m = RunModel { cycle: c, job: JobModel::Single(job) };
    reveal_with_fuel(run_after, 2);
    assert(events[0] == (EventModel::Replied(replies[0]), now));
    if replies.len() == 1 {
        assert(uds_next(job, replies[0]) is Done) by {
            if uds_next(job, replies[0]) is More {
                let n = uds_next(job, replies[0])->More_0;
                assert(uds_outcome(n, replies.drop_first()) is None);
            }
        }
        assert(events.drop_first().len() == 0);
    } else {
        let less = replies.drop_last();
        assert(less[0] == replies[0]);
        assert(uds_next(job, replies[0]) is More) by {
            if uds_next(job, replies[0]) is Done {
                assert(uds_outcome(job, less) is Some);
            }
        }
        let n = uds_next(job, replies[0])->More_0;
        let rest = replies.drop_first();
        assert(less.drop_first() == rest.drop_last());
        assert(uds_outcome(job, less) == uds_outcome(n, less.drop_first()));
        poll_takes_over_short_results(c, n, rest, now, r);
        assert(events.drop_first() =~= Seq::new(
            rest.len(),
            |i: int| (EventModel::Replied(rest[i]), now),
        ));
    }
}

/// A long request within a poll comes to the same as on its own.
pub proof fn poll_takes_over_long_results(
    c: CycleModel,
    job: LongModel,
    events: Seq<EventModel>,
    now: nat,
    r: Result<Seq<u8>, ErrorModel>,
)
    requires
        long_outcome(job, events) == Some(r),
        events.len() > 0,
        long_outcome(job, events.drop_last()) is None,
    ensures
        run_after(
            RunNext::More(RunModel { cycle: c, job: JobModel::Long(job) }),
            Seq::new(events.len(), |i: int| (events[i], now)),
        ) == run_on(cycle_next(c, SourceModel::Payload(r))),
    decreases events.len(),
{
    let timed = Seq::new(events.len(), |i: int| (events[i], now));
    reveal_with_fuel(run_after, 2);
    assert(timed[0] == (events[0], now));
    if events.len() == 1 {
        assert(long_next(job, events[0]) is Done) by {
            if long_next(job, events[0]) is More {
                let n = long_next(job, events[0])->More_0;
                assert(long_outcome(n, events.drop_first()) is None);
            }
        }
        assert(timed.drop_first().len() == 0);
    } else {
        let less = events.drop_last();
        assert(less[0] == events[0]);
        assert(long_next(job, events[0]) is More) by {
            if long_next(job, events[0]) is Done {
                assert(long_outcome(job, less) is Some);
            }
        }
        let n = long_next(job, events[0])->More_0;
        let rest = events.drop_first();
        assert(less.drop_first() == rest.drop_last());
        assert(long_outcome(job, less) == long_outcome(n, less.drop_first()));
        poll_takes_over_long_results(c, n, rest, now, r);
        assert(timed.drop_first() =~= Seq::new(rest.len(), |i: int| (rest[i], now)));
    }
}

/// Listening within a poll goes on as on its own, and once it is over the poll
/// goes on with what was heard. Only the reply to a command moves a short
/// request.
pub proof fn poll_takes_over_what_was_heard(
    c: CycleModel,
    job: ListenModel,
    single: UdsModel,
    event: EventModel,
    now: nat,
)
    ensures
        listen_next(job, event, now) matches ListenNext::More(n) ==> run_next(
            RunModel { cycle: c, job: JobModel::Listen(job) },
            event,
            now,
        ) == RunNext::More(RunModel { cycle: c, job: JobModel::Listen(n) }),
        listen_next(job, event, now) matches ListenNext::Done(r) ==> run_next(
            RunModel { cycle: c, job: JobModel::Listen(job) },
            event,
            now,
        ) == run_on(cycle_next(c, SourceModel::Heard(r))),
        !(event is Replied) ==> run_next(
            RunModel { cycle: c, job: JobModel::Single(single) },
            event,
            now,
        ) == RunNext::More(RunModel { cycle: c, job: JobModel::Single(single) }),
{
}

/// A poll starts with the first source of the profile, and without a connection
/// not at all; it ends with what its cycle comes to. At each source it asks for
/// what the exchange with that source asks for.
pub proof fn polls_start_with_the_first_source(
    profile: VehicleProfile,
    r: Result<Map<Seq<char>, Quantity>, AdapterErrorModel>,
    single: UdsModel,
    long: LongModel,
    listen: ListenModel,
)
    ensures
        run_start(profile, false) == RunNext::Done(
            Err(AdapterErrorModel::FatalConn("not connected"@)),
        ),
        run_start(profile, true) == run_on(
            cycle_at(profile.sources@, 0, Map::<Seq<char>, Quantity>::empty()),
        ),
        run_on(CycleNext::Done(r)) == RunNext::Done(r),
        profile.sources@.len() > 0 && job_of(profile.sources@[0]) is Ok ==> run_start(profile, true)
            is More && run_start(profile, true)->More_0.job == job_of(profile.sources@[0])->Ok_0,
        JobModel::Single(single).action() == ActionModel::Send(single.commands[single.at]),
        JobModel::Long(long).action() == long.action(),
        JobModel::Listen(listen).action() == listen.action(),
{
}

} // verus!
