//! One cycle over the sources of a profile.

use crate::adapter::errors::{AdapterError, AdapterErrorModel};
use crate::adapter::fields::{
    collect_fields, collected_fields_are_there, other_metrics_stay, uds_value,
    unreadable_aligned_fields, unreadable_packed_fields, value_of, with_fields, Framing,
};
use crate::adapter::session::{reply_model, ErrorKind, ErrorModel, SessionError};
use crate::metrics::{Metrics, Quantity};
use crate::profile::{BroadcastSource, FieldSpec, Source, UdsPidSource, VehicleProfile};
use vstd::prelude::*;

verus! {

/// What polling a source came to.
pub enum SourceResult {
    /// The payload of a UDS request.
    Payload(Result<Vec<u8>, SessionError>),
    /// The metrics of a spell of listening.
    Heard(Result<Metrics, SessionError>),
}

/// What a source result says.
pub enum SourceModel {
    Payload(Result<Seq<u8>, ErrorModel>),
    Heard(Result<Map<Seq<char>, Quantity>, ErrorModel>),
}

impl View for SourceResult {
    type V = SourceModel;

    open spec fn view(&self) -> SourceModel {
        match *self {
            SourceResult::Payload(r) => SourceModel::Payload(reply_model(r)),
            SourceResult::Heard(Ok(m)) => SourceModel::Heard(Ok(m@)),
            SourceResult::Heard(Err(e)) => SourceModel::Heard(Err(e@)),
        }
    }
}

/// What the failure of a UDS request means for the adapter, `None` where the
/// cycle goes on without the source.
pub open spec fn failure_meaning(e: ErrorModel) -> Option<AdapterErrorModel> {
    match e.kind {
        Some(ErrorKind::AddrNotAvailable) => Some(AdapterErrorModel::Sleeping),
        Some(ErrorKind::BrokenPipe) => Some(AdapterErrorModel::FatalConn(e.message)),
        Some(ErrorKind::TimedOut) => Some(AdapterErrorModel::FatalConn(e.message)),
        Some(ErrorKind::NotConnected) => Some(AdapterErrorModel::FatalConn(e.message)),
        _ => None,
    }
}

/// Judges the failure of a UDS request.
pub fn judge_failure(e: SessionError) -> (r: Option<AdapterError>)
    ensures
        match r {
            Some(a) => failure_meaning(e@) == Some(a@),
            None => failure_meaning(e@) is None,
        },
{
    match e.kind {
        Some(ErrorKind::AddrNotAvailable) => Some(AdapterError::Sleeping),
        Some(ErrorKind::BrokenPipe) => Some(AdapterError::FatalConn(e.message)),
        Some(ErrorKind::TimedOut) => Some(AdapterError::FatalConn(e.message)),
        Some(ErrorKind::NotConnected) => Some(AdapterError::FatalConn(e.message)),
        _ => None,
    }
}

/// The metrics after a source: the fields of a payload and the metrics of a
/// spell of listening replace earlier metrics of the same name. A source that
/// fails adds nothing, or ends the cycle.
pub open spec fn after_source(
    metrics: Map<Seq<char>, Quantity>,
    source: Source,
    result: SourceModel,
) -> Result<Map<Seq<char>, Quantity>, AdapterErrorModel> {
    match (source, result) {
        (Source::UdsPid(uds), SourceModel::Payload(Ok(payload))) => if payload.len() == 0 {
            Ok(metrics)
        } else {
            Ok(with_fields(metrics, uds.fields@, Framing::Uds, payload))
        },
        (Source::UdsPid(_), SourceModel::Payload(Err(e))) => match failure_meaning(e) {
            Some(a) => Err(a),
            None => Ok(metrics),
        },
        (Source::Broadcast(_), SourceModel::Heard(Ok(m))) => Ok(metrics.union_prefer_right(m)),
        _ => Ok(metrics),
    }
}

/// True if the result is one that the source can have.
pub open spec fn answers(source: Source, result: SourceModel) -> bool {
    match source {
        Source::UdsPid(_) => result is Payload,
        Source::Broadcast(_) => result is Heard,
    }
}

/// A cycle under way.
pub struct CycleModel {
    pub sources: Seq<Source>,
    /// The source that is being polled.
    pub at: int,
    pub metrics: Map<Seq<char>, Quantity>,
}

impl CycleModel {
    pub open spec fn wf(self) -> bool {
        0 <= self.at < self.sources.len()
    }
}

/// What follows the polling of a source.
pub enum CycleNext {
    More(CycleModel),
    Done(Result<Map<Seq<char>, Quantity>, AdapterErrorModel>),
}

/// The cycle at a source, or its end behind the last one.
pub open spec fn cycle_at(
    sources: Seq<Source>,
    at: int,
    metrics: Map<Seq<char>, Quantity>,
) -> CycleNext {
    if at >= sources.len() {
        CycleNext::Done(Ok(metrics))
    } else {
        CycleNext::More(CycleModel { sources, at, metrics })
    }
}

/// The start of a cycle. Without a connection there is nothing to poll.
pub open spec fn cycle_start(sources: Seq<Source>, connected: bool) -> CycleNext {
    if connected {
        cycle_at(sources, 0, Map::<Seq<char>, Quantity>::empty())
    } else {
        CycleNext::Done(Err(AdapterErrorModel::FatalConn("not connected"@)))
    }
}

/// What follows the result of the source that is being polled. A result that
/// the source cannot have changes nothing.
pub open spec fn cycle_next(m: CycleModel, result: SourceModel) -> CycleNext {
    let source = m.sources[m.at];
    if !answers(source, result) {
        CycleNext::More(m)
    } else {
        match after_source(m.metrics, source, result) {
            Ok(metrics) => cycle_at(m.sources, m.at + 1, metrics),
            Err(e) => CycleNext::Done(Err(e)),
        }
    }
}

/// A cycle over the sources of a profile.
pub struct PollCycle<'a> {
    profile: &'a VehicleProfile,
    at: usize,
    metrics: Metrics,
}

/// What follows the polling of a source.
pub enum PollStep<'a> {
    /// Poll the next source.
    More(PollCycle<'a>),
    /// The metrics of the cycle, or why there are none.
    Done(Result<Metrics, AdapterError>),
}

impl<'a> PollStep<'a> {
    pub open spec fn model(self) -> CycleNext {
        match self {
            PollStep::More(c) => CycleNext::More(c@),
            PollStep::Done(Ok(m)) => CycleNext::Done(Ok(m@)),
            PollStep::Done(Err(e)) => CycleNext::Done(Err(e@)),
        }
    }
}

impl<'a> View for PollCycle<'a> {
    type V = CycleModel;

    closed spec fn view(&self) -> CycleModel {
        CycleModel {
            sources: self.profile.sources@,
            at: self.at as int,
            metrics: self.metrics@,
        }
    }
}

impl<'a> PollCycle<'a> {
    /// Starts a cycle.
    pub fn start(profile: &'a VehicleProfile, connected: bool) -> (r: PollStep<'a>)
        ensures
            r.model() == cycle_start(profile.sources@, connected),
            r is More ==> r->More_0@.wf(),
    {
        if !connected {
            return PollStep::Done(Err(AdapterError::FatalConn("not connected".to_owned())));
        }
        let metrics = Metrics::new();
        if profile.sources.len() == 0 {
            PollStep::Done(Ok(metrics))
        } else {
            PollStep::More(PollCycle { profile, at: 0, metrics })
        }
    }

    /// The source to poll now.
    pub fn source(&self) -> (r: &'a Source)
        requires
            self@.wf(),
        ensures
            *r == self@.sources[self@.at],
    {
        &self.profile.sources[self.at]
    }

    /// Takes in what polling the source came to.
    pub fn finish_source(self, result: SourceResult) -> (r: PollStep<'a>)
        requires
            self@.wf(),
        ensures
            r.model() == cycle_next(self@, result@),
            r is More ==> r->More_0@.wf(),
    {
        let profile = self.profile;
        let at = self.at;
        let mut metrics = self.metrics;
        match (&profile.sources[at], result) {
            (Source::UdsPid(uds), SourceResult::Payload(Ok(payload))) => {
                if payload.len() > 0 {
                    collect_fields(&mut metrics, &uds.fields, Framing::Uds, payload.as_slice());
                }
            },
            (Source::UdsPid(_), SourceResult::Payload(Err(e))) => {
                match judge_failure(e) {
                    Some(a) => return PollStep::Done(Err(a)),
                    None => {},
                }
            },
            (Source::Broadcast(_), SourceResult::Heard(Ok(m))) => {
                metrics.union_prefer_right(m);
            },
            (Source::Broadcast(_), SourceResult::Heard(Err(_))) => {},
            _ => return PollStep::More(PollCycle { profile, at, metrics }),
        }
        if profile.sources.len() - at > 1 {
            PollStep::More(PollCycle { profile, at: at + 1, metrics })
        } else {
            PollStep::Done(Ok(metrics))
        }
    }
}

/// What a cycle comes to on the results of its sources, `None` while results
/// are missing.
pub open spec fn cycle_outcome(next: CycleNext, results: Seq<SourceModel>) -> Option<
    Result<Map<Seq<char>, Quantity>, AdapterErrorModel>,
>
    decreases results.len(),
{
    match next {
        CycleNext::Done(r) => Some(r),
        CycleNext::More(m) => if results.len() == 0 {
            None
        } else {
            cycle_outcome(cycle_next(m, results[0]), results.drop_first())
        },
    }
}

/// Metrics together with those of several sources, in order.
pub open spec fn merged(
    base: Map<Seq<char>, Quantity>,
    sources: Seq<Source>,
    results: Seq<SourceModel>,
) -> Map<Seq<char>, Quantity>
    decreases sources.len(),
{
    if sources.len() == 0 {
        base
    } else {
        merged(
            after_source(base, sources[0], results[0])->Ok_0,
            sources.drop_first(),
            results.drop_first(),
        )
    }
}

proof fn lemma_cycle_collects(
    sources: Seq<Source>,
    at: int,
    metrics: Map<Seq<char>, Quantity>,
    results: Seq<SourceModel>,
)
    requires
        0 <= at <= sources.len(),
        results.len() == sources.len() - at,
        forall|k: int|
            0 <= k < results.len() ==> answers(sources[at + k], #[trigger] results[k]) && forall|
                m: Map<Seq<char>, Quantity>,
            | #[trigger]
                after_source(m, sources[at + k], results[k]) is Ok,
    ensures
        cycle_outcome(cycle_at(sources, at, metrics), results) == Some(
            Ok::<Map<Seq<char>, Quantity>, AdapterErrorModel>(
                merged(metrics, sources.skip(at), results),
            ),
        ),
    decreases results.len(),
{
    if at < sources.len() {
        let rest = results.drop_first();
        assert(answers(sources[at + 0], results[0]));
        assert(after_source(metrics, sources[at + 0], results[0]) is Ok);
        assert forall|k: int| 0 <= k < rest.len() implies answers(
            sources[at + 1 + k],
            #[trigger] rest[k],
        ) && forall|m: Map<Seq<char>, Quantity>| #[trigger]
            after_source(m, sources[at + 1 + k], rest[k]) is Ok by {
            assert(rest[k] == results[k + 1]);
            assert(sources[at + 1 + k] == sources[at + (k + 1)]);
        }
        let next = after_source(metrics, sources[at], results[0])->Ok_0;
        lemma_cycle_collects(sources, at + 1, next, rest);
        assert(sources.skip(at)[0] == sources[at]);
        assert(sources.skip(at).drop_first() == sources.skip(at + 1));
    }
}

/// A cycle in which no source loses the connection comes to the metrics of
/// all its sources, merged in the order of the profile.
pub proof fn cycle_collects_all_sources(sources: Seq<Source>, results: Seq<SourceModel>)
    requires
        results.len() == sources.len(),
        forall|k: int|
            0 <= k < results.len() ==> answers(sources[k], #[trigger] results[k]) && !(
            results[k] is Payload && results[k]->Payload_0 is Err && failure_meaning(
                results[k]->Payload_0->Err_0,
            ) is Some),
    ensures
        cycle_outcome(cycle_start(sources, true), results) == Some(
            Ok::<Map<Seq<char>, Quantity>, AdapterErrorModel>(
                merged(Map::<Seq<char>, Quantity>::empty(), sources, results),
            ),
        ),
{
    assert(sources.skip(0) == sources);
    assert forall|k: int| 0 <= k < results.len() implies answers(
        sources[0 + k],
        #[trigger] results[k],
    ) && forall|m: Map<Seq<char>, Quantity>| #[trigger]
        after_source(m, sources[0 + k], results[k]) is Ok by {
        assert(answers(sources[k], results[k]));
    }
    lemma_cycle_collects(sources, 0, Map::<Seq<char>, Quantity>::empty(), results);
}

/// A source that fails without losing the connection leaves the metrics as
/// they were.
pub proof fn failed_source_adds_nothing(
    metrics: Map<Seq<char>, Quantity>,
    source: Source,
    result: SourceModel,
)
    requires
        answers(source, result),
        match result {
            SourceModel::Payload(r) => r is Err && failure_meaning(r->Err_0) is None,
            SourceModel::Heard(r) => r is Err,
        },
    ensures
        after_source(metrics, source, result) == Ok::<
            Map<Seq<char>, Quantity>,
            AdapterErrorModel,
        >(metrics),
{
}

/// A UDS request that finds no address means a sleeping vehicle, one that finds
/// the connection broken, closed or silent means a lost connection, and any
/// other failure is passed over.
pub proof fn failures_by_kind(message: Seq<char>, kind: Option<ErrorKind>)
    ensures
        failure_meaning(ErrorModel { kind: Some(ErrorKind::AddrNotAvailable), message }) == Some(
            AdapterErrorModel::Sleeping,
        ),
        kind == Some(ErrorKind::BrokenPipe) || kind == Some(ErrorKind::TimedOut) || kind == Some(
            ErrorKind::NotConnected,
        ) ==> failure_meaning(ErrorModel { kind, message }) == Some(
            AdapterErrorModel::FatalConn(message),
        ),
        kind is None || kind == Some(ErrorKind::Other) ==> failure_meaning(
            ErrorModel { kind, message },
        ) is None,
{
}

/// Every field of a UDS source that reads a value from the payload is in the
/// metrics with that value, unless a later field of the same name replaces it.
pub proof fn payload_fields_reach_the_metrics(
    metrics: Map<Seq<char>, Quantity>,
    uds: UdsPidSource,
    payload: Seq<u8>,
    j: int,
)
    requires
        0 <= j < uds.fields@.len(),
        uds_value(payload, uds.fields@[j]) is Some,
        forall|i: int|
            j < i < uds.fields@.len() && #[trigger] uds.fields@[i].name@ == uds.fields@[j].name@
                ==> uds_value(payload, uds.fields@[i]) is None,
    ensures
        after_source(
            metrics,
            Source::UdsPid(uds),
            SourceModel::Payload(Ok(payload)),
        ) matches Ok(m) && m.contains_key(uds.fields@[j].name@) && Some(m[uds.fields@[j].name@])
            == uds_value(payload, uds.fields@[j]),
{
    let fields = uds.fields@;
    assert(payload.len() > 0) by {
        lemma_nothing_to_read(payload, fields[j]);
    }
    assert forall|i: int| j < i < fields.len() && #[trigger] fields[i].name@
        == fields[j].name@ implies value_of(Framing::Uds, payload, fields[i]) is None by {
        assert(uds_value(payload, fields[i]) is None);
    }
    collected_fields_are_there(metrics, fields, Framing::Uds, payload, j);
}

proof fn lemma_nothing_to_read(payload: Seq<u8>, field: FieldSpec)
    ensures
        payload.len() == 0 ==> uds_value(payload, field) is None,
{
    if field.bit_offset is Some && field.bit_length is Some {
        unreadable_packed_fields(payload, field);
    } else {
        unreadable_aligned_fields(payload, field);
    }
}

/// A UDS source leaves every metric alone that none of its fields reads.
pub proof fn payload_leaves_other_metrics(
    metrics: Map<Seq<char>, Quantity>,
    uds: UdsPidSource,
    payload: Seq<u8>,
    name: Seq<char>,
)
    requires
        forall|i: int|
            0 <= i < uds.fields@.len() && #[trigger] uds.fields@[i].name@ == name ==> uds_value(
                payload,
                uds.fields@[i],
            ) is None,
    ensures
        after_source(
            metrics,
            Source::UdsPid(uds),
            SourceModel::Payload(Ok(payload)),
        ) matches Ok(m) && m.get(name) == metrics.get(name),
{
    let fields = uds.fields@;
    assert forall|i: int| 0 <= i < fields.len() && #[trigger] fields[i].name@
        == name implies value_of(Framing::Uds, payload, fields[i]) is None by {
        assert(uds_value(payload, fields[i]) is None);
    }
    other_metrics_stay(metrics, fields, Framing::Uds, payload, name);
}

/// What was heard replaces earlier metrics of the same name and leaves the
/// others alone.
pub proof fn heard_metrics_replace_earlier_ones(
    metrics: Map<Seq<char>, Quantity>,
    b: BroadcastSource,
    h: Map<Seq<char>, Quantity>,
    name: Seq<char>,
)
    ensures
        after_source(
            metrics,
            Source::Broadcast(b),
            SourceModel::Heard(Ok(h)),
        ) matches Ok(m) && m.get(name) == (if h.contains_key(name) {
            Some(h[name])
        } else {
            metrics.get(name)
        }),
{
}

/// Without a connection a cycle fails; with one it polls the first source, or
/// ends with no metrics where there is none. The failure of a source that means
/// a lost connection or a sleeping vehicle ends it with that; any other result
/// leads to the source behind it.
pub proof fn cycle_goes_source_by_source(
    sources: Seq<Source>,
    m: CycleModel,
    result: SourceModel,
)
    requires
        m.wf(),
        answers(m.sources[m.at], result),
    ensures
        cycle_start(sources, false) == CycleNext::Done(
            Err(AdapterErrorModel::FatalConn("not connected"@)),
        ),
        sources.len() == 0 ==> cycle_start(sources, true) == CycleNext::Done(
            Ok(Map::<Seq<char>, Quantity>::empty()),
        ),
        sources.len() > 0 ==> cycle_start(sources, true) == CycleNext::More(
            CycleModel { sources, at: 0, metrics: Map::<Seq<char>, Quantity>::empty() },
        ),
        result is Payload && result->Payload_0 is Err && failure_meaning(
            result->Payload_0->Err_0,
        ) is Some ==> cycle_next(m, result) == CycleNext::Done(
            Err(failure_meaning(result->Payload_0->Err_0)->0),
        ),
        !(result is Payload && result->Payload_0 is Err && failure_meaning(
            result->Payload_0->Err_0,
        ) is Some) && m.at + 1 < m.sources.len() ==> cycle_next(m, result) is More && cycle_next(
            m,
            result,
        )->More_0.at == m.at + 1 && cycle_next(m, result)->More_0.sources == m.sources,
        !(result is Payload && result->Payload_0 is Err && failure_meaning(
            result->Payload_0->Err_0,
        ) is Some) && m.at + 1 == m.sources.len() ==> cycle_next(m, result) is Done && cycle_next(
            m,
            result,
        )->Done_0 is Ok,
{
}

} // verus!
