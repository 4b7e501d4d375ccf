//! Publishing the metrics of a cycle.

use crate::metrics::{Metrics, Quantity};
use crate::output::breaker::{
    after_failures, may_be_now, may_have_elapsed, nanos_of, opens_at_threshold, present,
    BreakerModel, CircuitBreaker,
};
use crate::output::payload::{
    battery_of, battery_payload, odometer_of, odometer_payload, pressures_of,
    tire_pressure_payload, BatteryData, Endpoint, OdometerData, Payload, PayloadModel,
    TirePressureData,
};
use crate::text::join;
use std::time::{Duration, Instant};
use vstd::prelude::*;

verus! {

/// The last payloads that went through.
#[verifier::ext_equal]
pub struct CacheModel {
    pub battery: Option<BatteryData>,
    pub odometer: Option<OdometerData>,
    pub tire_pressure: Option<Seq<Quantity>>,
}

impl CacheModel {
    pub open spec fn empty() -> CacheModel {
        CacheModel { battery: None, odometer: None, tire_pressure: None }
    }

    /// The payload of an endpoint.
    pub open spec fn payload(self, e: Endpoint) -> Option<PayloadModel> {
        match e {
            Endpoint::Battery => match self.battery {
                Some(b) => Some(PayloadModel::Battery(b)),
                None => None,
            },
            Endpoint::Odometer => match self.odometer {
                Some(o) => Some(PayloadModel::Odometer(o)),
                None => None,
            },
            Endpoint::TirePressure => match self.tire_pressure {
                Some(t) => Some(PayloadModel::TirePressure(t)),
                None => None,
            },
        }
    }

    /// The cache with a payload in the place of the one before.
    pub open spec fn store(self, payload: PayloadModel) -> CacheModel {
        match payload {
            PayloadModel::Battery(b) => CacheModel { battery: Some(b), ..self },
            PayloadModel::Odometer(o) => CacheModel { odometer: Some(o), ..self },
            PayloadModel::TirePressure(t) => CacheModel { tire_pressure: Some(t), ..self },
        }
    }
}

/// Remembers the last payloads that went through.
pub struct PublishCache {
    battery: Option<BatteryData>,
    odometer: Option<OdometerData>,
    tire_pressure: Option<TirePressureData>,
}

impl View for PublishCache {
    type V = CacheModel;

    closed spec fn view(&self) -> CacheModel {
        CacheModel {
            battery: self.battery,
            odometer: self.odometer,
            tire_pressure: match self.tire_pressure {
                Some(t) => Some(t@),
                None => None,
            },
        }
    }
}

impl Default for PublishCache {
    fn default() -> (r: PublishCache)
        ensures
            r@ == CacheModel::empty(),
    {
        PublishCache { battery: None, odometer: None, tire_pressure: None }
    }
}

impl Clone for PublishCache {
    fn clone(&self) -> (r: PublishCache)
        ensures
            r@ == self@,
    {
        PublishCache {
            battery: self.battery,
            odometer: self.odometer,
            tire_pressure: match &self.tire_pressure {
                Some(t) => Some(t.clone()),
                None => None,
            },
        }
    }
}

impl PublishCache {
    /// The last battery payload.
    pub fn last_battery(&self) -> (r: Option<&BatteryData>)
        ensures
            match r {
                Some(b) => self@.battery == Some(*b),
                None => self@.battery is None,
            },
    {
        self.battery.as_ref()
    }

    /// The last odometer payload.
    pub fn last_odometer(&self) -> (r: Option<&OdometerData>)
        ensures
            match r {
                Some(o) => self@.odometer == Some(*o),
                None => self@.odometer is None,
            },
    {
        self.odometer.as_ref()
    }

    /// The last tire pressure payload.
    pub fn last_tire_pressure(&self) -> (r: Option<&TirePressureData>)
        ensures
            match r {
                Some(t) => self@.tire_pressure == Some(t@),
                None => self@.tire_pressure is None,
            },
    {
        self.tire_pressure.as_ref()
    }

    /// Remembers a battery payload.
    pub fn store_battery(&mut self, b: BatteryData)
        ensures
            final(self)@ == old(self)@.store(PayloadModel::Battery(b)),
    {
        self.battery = Some(b);
    }

    /// Remembers an odometer payload.
    pub fn store_odometer(&mut self, o: OdometerData)
        ensures
            final(self)@ == old(self)@.store(PayloadModel::Odometer(o)),
    {
        self.odometer = Some(o);
    }

    /// Remembers a tire pressure payload.
    pub fn store_tire_pressure(&mut self, t: TirePressureData)
        ensures
            final(self)@ == old(self)@.store(PayloadModel::TirePressure(t@)),
    {
        self.tire_pressure = Some(t);
    }

    /// Forgets everything.
    pub fn clear(&mut self)
        ensures
            final(self)@ == CacheModel::empty(),
    {
        *self = PublishCache::default();
    }
}

/// The state of publishing.
#[verifier::ext_equal]
pub struct PublisherModel {
    pub api_base: Seq<char>,
    pub capacity_wh: Option<u32>,
    pub bridge_dropouts: bool,
    pub battery: BreakerModel,
    pub odometer: BreakerModel,
    pub tire_pressure: BreakerModel,
    pub cache: CacheModel,
}

/// The path of an endpoint.
pub open spec fn path_of(e: Endpoint) -> Seq<char> {
    match e {
        Endpoint::Battery => "/battery"@,
        Endpoint::Odometer => "/odometer"@,
        Endpoint::TirePressure => "/tire-pressure"@,
    }
}

/// The payload that some metrics hold for an endpoint.
pub open spec fn built(
    m: Map<Seq<char>, Quantity>,
    capacity_wh: Option<u32>,
    e: Endpoint,
) -> Option<PayloadModel> {
    match e {
        Endpoint::Battery => match battery_of(m, capacity_wh) {
            Some(b) => Some(PayloadModel::Battery(b)),
            None => None,
        },
        Endpoint::Odometer => match odometer_of(m) {
            Some(o) => Some(PayloadModel::Odometer(o)),
            None => None,
        },
        Endpoint::TirePressure => match pressures_of(m) {
            Some(t) => Some(PayloadModel::TirePressure(t)),
            None => None,
        },
    }
}

impl PublisherModel {
    /// The breaker of an endpoint.
    pub open spec fn breaker(self, e: Endpoint) -> BreakerModel {
        match e {
            Endpoint::Battery => self.battery,
            Endpoint::Odometer => self.odometer,
            Endpoint::TirePressure => self.tire_pressure,
        }
    }

    /// The state with another breaker for an endpoint.
    pub open spec fn with_breaker(self, e: Endpoint, b: BreakerModel) -> PublisherModel {
        match e {
            Endpoint::Battery => PublisherModel { battery: b, ..self },
            Endpoint::Odometer => PublisherModel { odometer: b, ..self },
            Endpoint::TirePressure => PublisherModel { tire_pressure: b, ..self },
        }
    }

    /// What is to be published at an endpoint: what the metrics hold, else,
    /// where dropouts are bridged, the last payload that went through.
    pub open spec fn payload(self, m: Map<Seq<char>, Quantity>, e: Endpoint) -> Option<
        PayloadModel,
    > {
        match built(m, self.capacity_wh, e) {
            Some(p) => Some(p),
            None => if self.bridge_dropouts {
                self.cache.payload(e)
            } else {
                None
            },
        }
    }

    /// May the breakers, asked now, let requests through to just these
    /// endpoints?
    pub open spec fn may_allow(self, allowed: Allowed) -> bool {
        forall|e: Endpoint| self.breaker(e).may_answer(#[trigger] allowed.at(e))
    }

    /// The state after a request with a payload went through or failed.
    pub open spec fn posted(self, payload: PayloadModel, ok: bool, now: Instant) -> PublisherModel {
        let e = payload.endpoint();
        if ok {
            PublisherModel { cache: self.cache.store(payload), ..self }.with_breaker(
                e,
                self.breaker(e).succeeded(),
            )
        } else {
            self.with_breaker(e, self.breaker(e).failed(now))
        }
    }
}

/// Which endpoints the breakers let requests through to.
#[derive(Clone, Copy, PartialEq, Eq, Debug, Structural)]
pub struct Allowed {
    pub battery: bool,
    pub odometer: bool,
    pub tire_pressure: bool,
}

impl Allowed {
    pub open spec fn at(self, e: Endpoint) -> bool {
        match e {
            Endpoint::Battery => self.battery,
            Endpoint::Odometer => self.odometer,
            Endpoint::TirePressure => self.tire_pressure,
        }
    }

    fn get(&self, e: Endpoint) -> (r: bool)
        ensures
            r == self.at(e),
    {
        match e {
            Endpoint::Battery => self.battery,
            Endpoint::Odometer => self.odometer,
            Endpoint::TirePressure => self.tire_pressure,
        }
    }
}

/// A request.
#[derive(Debug)]
pub struct Post {
    pub url: String,
    pub payload: Payload,
}

/// Publishing under way: the next endpoint, and whether a request went through.
#[derive(Clone, Copy, PartialEq, Eq, Debug, Structural)]
pub struct PublishRun {
    pub next: Option<Endpoint>,
    pub any_ok: bool,
}

/// What follows: a request, or the end with whether any went through.
pub enum PublishNext {
    Post { run: PublishRun, url: Seq<char>, payload: PayloadModel },
    Done(bool),
}

/// What follows.
#[derive(Debug)]
pub enum PublishStep {
    /// Send this, and hand back what came of it.
    Post(PublishRun, Post),
    /// All endpoints were served; did any request go through?
    Done(bool),
}

impl PublishStep {
    pub open spec fn model(self) -> PublishNext {
        match self {
            PublishStep::Post(run, post) => PublishNext::Post {
                run,
                url: post.url@,
                payload: post.payload@,
            },
            PublishStep::Done(ok) => PublishNext::Done(ok),
        }
    }
}

/// The endpoint behind another.
pub open spec fn after_endpoint(e: Endpoint) -> Option<Endpoint> {
    match e {
        Endpoint::Battery => Some(Endpoint::Odometer),
        Endpoint::Odometer => Some(Endpoint::TirePressure),
        Endpoint::TirePressure => None,
    }
}

pub open spec fn endpoints_left(e: Option<Endpoint>) -> nat {
    match e {
        Some(Endpoint::Battery) => 3,
        Some(Endpoint::Odometer) => 2,
        Some(Endpoint::TirePressure) => 1,
        None => 0,
    }
}

/// The start of publishing.
pub open spec fn publish_start() -> PublishRun {
    PublishRun { next: Some(Endpoint::Battery), any_ok: false }
}

impl PublishRun {
    /// Starts to publish the metrics of a cycle.
    pub fn start() -> (r: PublishRun)
        ensures
            r == publish_start(),
    {
        PublishRun { next: Some(Endpoint::Battery), any_ok: false }
    }
}

/// What follows from an endpoint on: the first endpoint with something to
/// publish and a breaker that lets it through gets a request.
pub open spec fn publish_next(
    p: PublisherModel,
    m: Map<Seq<char>, Quantity>,
    run: PublishRun,
    allowed: Allowed,
) -> PublishNext
    decreases endpoints_left(run.next),
{
    match run.next {
        None => PublishNext::Done(run.any_ok),
        Some(e) => match p.payload(m, e) {
            Some(payload) if allowed.at(e) => PublishNext::Post {
                run: PublishRun { next: after_endpoint(e), ..run },
                url: p.api_base + path_of(e),
                payload,
            },
            _ => publish_next(p, m, PublishRun { next: after_endpoint(e), ..run }, allowed),
        },
    }
}

/// Publishing after a request.
pub open spec fn run_after(run: PublishRun, ok: bool) -> PublishRun {
    PublishRun { any_ok: run.any_ok || ok, ..run }
}

/// Publishes metrics at the three endpoints.
pub struct Publisher {
    api_base: String,
    capacity_wh: Option<u32>,
    battery: CircuitBreaker,
    odometer: CircuitBreaker,
    tire_pressure: CircuitBreaker,
    cache: PublishCache,
    bridge_dropouts: bool,
}

impl View for Publisher {
    type V = PublisherModel;

    closed spec fn view(&self) -> PublisherModel {
        PublisherModel {
            api_base: self.api_base@,
            capacity_wh: self.capacity_wh,
            bridge_dropouts: self.bridge_dropouts,
            battery: self.battery@,
            odometer: self.odometer@,
            tire_pressure: self.tire_pressure@,
            cache: self.cache@,
        }
    }
}

/// A closed breaker without failures.
pub open spec fn fresh_breaker(threshold: u32, breaker_secs: u64) -> BreakerModel {
    BreakerModel {
        threshold,
        open_nanos: (breaker_secs * 1_000_000_000) as nat,
        failures: 0,
        opened_at: None,
    }
}

impl Publisher {
    /// A publisher whose breakers are closed and whose cache is empty.
    pub fn new(
        api_base: &str,
        capacity_wh: Option<u32>,
        threshold: u32,
        breaker_secs: u64,
        bridge_dropouts: bool,
    ) -> (r: Self)
        ensures
            r@ == (PublisherModel {
                api_base: api_base@,
                capacity_wh,
                bridge_dropouts,
                battery: fresh_breaker(threshold, breaker_secs),
                odometer: fresh_breaker(threshold, breaker_secs),
                tire_pressure: fresh_breaker(threshold, breaker_secs),
                cache: CacheModel::empty(),
            }),
    {
        Publisher {
            api_base: api_base.to_owned(),
            capacity_wh,
            battery: CircuitBreaker::new(threshold, Duration::from_secs(breaker_secs)),
            odometer: CircuitBreaker::new(threshold, Duration::from_secs(breaker_secs)),
            tire_pressure: CircuitBreaker::new(threshold, Duration::from_secs(breaker_secs)),
            cache: PublishCache::default(),
            bridge_dropouts,
        }
    }

    /// The vehicle sleeps: what was published before is stale.
    pub fn on_sleeping(&mut self)
        ensures
            final(self)@ == (PublisherModel { cache: CacheModel::empty(), ..old(self)@ }),
    {
        self.cache.clear();
    }

    /// The battery payload of some metrics.
    pub fn build_battery(&self, m: &Metrics) -> (r: Option<BatteryData>)
        ensures
            r == battery_of(m@, self@.capacity_wh),
            r is Some ==> r->0.battery_level_percentage == m@.get("battery_level_percentage"@),
            r is Some ==> r->0.external_temp_celsius == m@.get("external_temp_celsius"@),
            r is Some ==> r->0.battery_state_of_health == m@.get("battery_state_of_health"@),
            r is Some ==> r->0.battery_voltage == m@.get("battery_voltage"@),
            r is Some ==> r->0.battery_current == m@.get("battery_current"@),
            r is Some ==> r->0.interior_temp_celsius == m@.get("interior_temp_celsius"@),
            r is Some ==> r->0.battery_capacity_wh == self@.capacity_wh,
    {
        battery_payload(m, self.capacity_wh)
    }

    /// The odometer payload of some metrics.
    pub fn build_odometer(&self, m: &Metrics) -> (r: Option<OdometerData>)
        ensures
            r == odometer_of(m@),
            r is Some <==> m@.contains_key("odometer_km"@),
            r is Some ==> r->0.odometer_km == m@["odometer_km"@],
            r is Some ==> r->0.trip_km == m@.get("trip_km"@),
    {
        odometer_payload(m)
    }

    /// The tire pressure payload of some metrics.
    pub fn build_tire_pressure(&self, m: &Metrics) -> (r: Option<TirePressureData>)
        ensures
            match r {
                Some(t) => pressures_of(m@) == Some(t@),
                None => pressures_of(m@) is None,
            },
            r is Some <==> m@.contains_key("tire_fl_kpa"@),
            r is Some ==> r->0.pressures_kpa@.len() == 4,
            r is Some ==> r->0.pressures_kpa@[0] == m@["tire_fl_kpa"@],
            r is Some ==> r->0.pressures_kpa@[1] == m@.get("tire_fr_kpa"@).unwrap_or(
                Quantity::Plain(crate::metrics::Single { bits: 0 }),
            ),
            r is Some ==> r->0.pressures_kpa@[2] == m@.get("tire_rl_kpa"@).unwrap_or(
                Quantity::Plain(crate::metrics::Single { bits: 0 }),
            ),
            r is Some ==> r->0.pressures_kpa@[3] == m@.get("tire_rr_kpa"@).unwrap_or(
                Quantity::Plain(crate::metrics::Single { bits: 0 }),
            ),
    {
        tire_pressure_payload(m)
    }

    /// What is to be published at an endpoint.
    fn payload(&self, m: &Metrics, e: Endpoint) -> (r: Option<Payload>)
        ensures
            match r {
                Some(p) => self@.payload(m@, e) == Some(p@) && p@.endpoint() == e,
                None => self@.payload(m@, e) is None,
            },
    {
        match e {
            Endpoint::Battery => match self.build_battery(m) {
                Some(b) => Some(Payload::Battery(b)),
                None => match self.cache.last_battery() {
                    Some(b) if self.bridge_dropouts => Some(Payload::Battery(*b)),
                    _ => None,
                },
            },
            Endpoint::Odometer => match self.build_odometer(m) {
                Some(o) => Some(Payload::Odometer(o)),
                None => match self.cache.last_odometer() {
                    Some(o) if self.bridge_dropouts => Some(Payload::Odometer(*o)),
                    _ => None,
                },
            },
            Endpoint::TirePressure => match self.build_tire_pressure(m) {
                Some(t) => Some(Payload::TirePressure(t)),
                None => match self.cache.last_tire_pressure() {
                    Some(t) if self.bridge_dropouts => Some(Payload::TirePressure(t.clone())),
                    _ => None,
                },
            },
        }
    }

    /// Is the breaker of an endpoint open, or half-open?
    pub fn is_open(&self, e: Endpoint) -> (r: bool)
        ensures
            r == self@.breaker(e).opened_at is Some,
    {
        match e {
            Endpoint::Battery => self.battery.is_open(),
            Endpoint::Odometer => self.odometer.is_open(),
            Endpoint::TirePressure => self.tire_pressure.is_open(),
        }
    }

    /// Which endpoints the breakers let requests through to now.
    fn allowed(&self) -> (r: Allowed)
        ensures
            self@.may_allow(r),
    {
        Allowed {
            battery: self.battery.allow(),
            odometer: self.odometer.allow(),
            tire_pressure: self.tire_pressure.allow(),
        }
    }

    /// What follows, if the breakers let requests through to these endpoints.
    pub fn publish_given(&self, m: &Metrics, run: PublishRun, allowed: Allowed) -> (r: PublishStep)
        ensures
            r.model() == publish_next(self@, m@, run, allowed),
        decreases endpoints_left(run.next),
    {
        match run.next {
            None => PublishStep::Done(run.any_ok),
            Some(e) => {
                let (path, next) = match e {
                    Endpoint::Battery => ("/battery", Some(Endpoint::Odometer)),
                    Endpoint::Odometer => ("/odometer", Some(Endpoint::TirePressure)),
                    Endpoint::TirePressure => ("/tire-pressure", None),
                };
                let rest = PublishRun { next, any_ok: run.any_ok };
                match self.payload(m, e) {
                    Some(payload) if allowed.get(e) => PublishStep::Post(
                        rest,
                        Post { url: join(self.api_base.as_str(), path), payload },
                    ),
                    _ => self.publish_given(m, rest, allowed),
                }
            },
        }
    }

    /// Publishes the metrics of a cycle from a point on: what follows, as the
    /// clock has it.
    pub fn publish(&self, m: &Metrics, run: PublishRun) -> (r: PublishStep)
        ensures
            exists|allowed: Allowed|
                self@.may_allow(allowed) && r.model() == #[trigger] publish_next(
                    self@,
                    m@,
                    run,
                    allowed,
                ),
    {
        let allowed = self.allowed();
        self.publish_given(m, run, allowed)
    }

    /// Takes in whether a request went through; a failure is taken to happen at
    /// a given time.
    pub fn posted_at(&mut self, run: PublishRun, payload: Payload, ok: bool, now: Instant) -> (r:
        PublishRun)
        ensures
            final(self)@ == old(self)@.posted(payload@, ok, now),
            r == run_after(run, ok),
    {
        match payload {
            Payload::Battery(b) => {
                if ok {
                    self.battery.record_success();
                    self.cache.store_battery(b);
                } else {
                    self.battery.record_failure_at(now);
                }
            },
            Payload::Odometer(o) => {
                if ok {
                    self.odometer.record_success();
                    self.cache.store_odometer(o);
                } else {
                    self.odometer.record_failure_at(now);
                }
            },
            Payload::TirePressure(t) => {
                if ok {
                    self.tire_pressure.record_success();
                    self.cache.store_tire_pressure(t);
                } else {
                    self.tire_pressure.record_failure_at(now);
                }
            },
        }
        PublishRun { next: run.next, any_ok: run.any_ok || ok }
    }

    /// Takes in whether a request went through.
    pub fn posted(&mut self, run: PublishRun, payload: Payload, ok: bool) -> (r: PublishRun)
        ensures
            exists|now: Instant|
                may_be_now(now) && final(self)@ == #[trigger] old(self)@.posted(payload@, ok, now),
            r == run_after(run, ok),
    {
        let now = present();
        self.posted_at(run, payload, ok, now)
    }
}

/// Every request leaves fewer endpoints to serve.
pub proof fn next_moves_on(
    p: PublisherModel,
    m: Map<Seq<char>, Quantity>,
    run: PublishRun,
    allowed: Allowed,
)
    ensures
        match publish_next(p, m, run, allowed) {
            PublishNext::Post { run: rest, .. } => endpoints_left(rest.next) < endpoints_left(
                run.next,
            ),
            PublishNext::Done(_) => true,
        },
    decreases endpoints_left(run.next),
{
    if let Some(e) = run.next {
        next_moves_on(p, m, PublishRun { next: after_endpoint(e), ..run }, allowed);
    }
}

/// Is an endpoint looked at before the next request, or for it?
pub open spec fn is_reached(run: PublishRun, next: PublishNext, e: Endpoint) -> bool {
    &&& endpoints_left(Some(e)) <= endpoints_left(run.next)
    &&& match next {
        PublishNext::Post { payload, .. } => endpoints_left(Some(e)) >= endpoints_left(
            Some(payload.endpoint()),
        ),
        PublishNext::Done(_) => true,
    }
}

/// Each breaker is asked once in a cycle: what follows depends only on the
/// answers for the endpoints up to the one that gets the next request.
pub proof fn only_reached_breakers_matter(
    p: PublisherModel,
    m: Map<Seq<char>, Quantity>,
    run: PublishRun,
    allowed: Allowed,
    other: Allowed,
)
    requires
        forall|e: Endpoint|
            is_reached(run, publish_next(p, m, run, allowed), e) ==> #[trigger] allowed.at(e)
                == other.at(e),
    ensures
        publish_next(p, m, run, allowed) == publish_next(p, m, run, other),
    decreases endpoints_left(run.next),
{
    if let Some(e) = run.next {
        let next = publish_next(p, m, run, allowed);
        open_breaker_sends_nothing(p, m, run, allowed);
        next_moves_on(p, m, run, allowed);
        lemma_payload_endpoint(p, m, e);
        assert(is_reached(run, next, e));
        assert(allowed.at(e) == other.at(e));
        if !(p.payload(m, e) is Some && allowed.at(e)) {
            let rest = PublishRun { next: after_endpoint(e), ..run };
            let later = publish_next(p, m, rest, allowed);
            assert forall|o: Endpoint| is_reached(rest, later, o) implies #[trigger] allowed.at(o)
                == other.at(o) by {
                assert(is_reached(run, next, o));
            }
            only_reached_breakers_matter(p, m, rest, allowed, other);
        }
    }
}

/// When requests to the endpoints fail.
pub struct FailureTimes {
    pub battery: Instant,
    pub odometer: Instant,
    pub tire_pressure: Instant,
}

impl FailureTimes {
    pub open spec fn at(self, e: Endpoint) -> Instant {
        match e {
            Endpoint::Battery => self.battery,
            Endpoint::Odometer => self.odometer,
            Endpoint::TirePressure => self.tire_pressure,
        }
    }
}

/// The rest of a cycle: the state after it, and whether a request went through.
/// The breakers let requests through to the endpoints `allowed`, requests to
/// the endpoints `oks` go through, and one that fails does so at the time that
/// `times` gives for its endpoint.
pub open spec fn rest_of_cycle(
    p: PublisherModel,
    m: Map<Seq<char>, Quantity>,
    run: PublishRun,
    allowed: Allowed,
    oks: Allowed,
    times: FailureTimes,
) -> (PublisherModel, bool)
    decreases endpoints_left(run.next),
{
    proof {
        next_moves_on(p, m, run, allowed);
    }
    match publish_next(p, m, run, allowed) {
        PublishNext::Done(ok) => (p, ok),
        PublishNext::Post { run: rest, payload, .. } => {
            let ok = oks.at(payload.endpoint());
            rest_of_cycle(
                p.posted(payload, ok, times.at(payload.endpoint())),
                m,
                run_after(rest, ok),
                allowed,
                oks,
                times,
            )
        },
    }
}

/// Is a request sent to an endpoint in a cycle?
pub open spec fn is_served(
    p: PublisherModel,
    m: Map<Seq<char>, Quantity>,
    allowed: Allowed,
    e: Endpoint,
) -> bool {
    p.payload(m, e) is Some && allowed.at(e)
}

/// The cache of an endpoint after a cycle.
pub open spec fn cached_after(
    p: PublisherModel,
    m: Map<Seq<char>, Quantity>,
    allowed: Allowed,
    oks: Allowed,
    e: Endpoint,
) -> Option<PayloadModel> {
    if is_served(p, m, allowed, e) && oks.at(e) {
        p.payload(m, e)
    } else {
        p.cache.payload(e)
    }
}

/// The breaker of an endpoint after a cycle.
pub open spec fn breaker_after(
    p: PublisherModel,
    m: Map<Seq<char>, Quantity>,
    allowed: Allowed,
    oks: Allowed,
    times: FailureTimes,
    e: Endpoint,
) -> BreakerModel {
    if is_served(p, m, allowed, e) {
        if oks.at(e) {
            p.breaker(e).succeeded()
        } else {
            p.breaker(e).failed(times.at(e))
        }
    } else {
        p.breaker(e)
    }
}

/// Is an endpoint still to be served?
pub open spec fn is_ahead(run: PublishRun, e: Endpoint) -> bool {
    endpoints_left(Some(e)) <= endpoints_left(run.next)
}

proof fn lemma_posted(p: PublisherModel, payload: PayloadModel, ok: bool, now: Instant)
    ensures
        ({
            let q = p.posted(payload, ok, now);
            let e = payload.endpoint();
            &&& q.api_base == p.api_base
            &&& q.capacity_wh == p.capacity_wh
            &&& q.bridge_dropouts == p.bridge_dropouts
            &&& forall|other: Endpoint|
                other != e ==> #[trigger] q.cache.payload(other) == p.cache.payload(other)
            &&& forall|other: Endpoint|
                other != e ==> #[trigger] q.breaker(other) == p.breaker(other)
            &&& q.cache.payload(e) == if ok {
                Some(payload)
            } else {
                p.cache.payload(e)
            }
            &&& q.breaker(e) == if ok {
                p.breaker(e).succeeded()
            } else {
                p.breaker(e).failed(now)
            }
        }),
{
}

proof fn lemma_payload_endpoint(p: PublisherModel, m: Map<Seq<char>, Quantity>, e: Endpoint)
    ensures
        p.payload(m, e) matches Some(payload) ==> payload.endpoint() == e,
{
}

proof fn lemma_rest_of_cycle(
    p: PublisherModel,
    m: Map<Seq<char>, Quantity>,
    run: PublishRun,
    allowed: Allowed,
    oks: Allowed,
    times: FailureTimes,
)
    ensures
        ({
            let (q, ok) = rest_of_cycle(p, m, run, allowed, oks, times);
            &&& q.api_base == p.api_base
            &&& q.capacity_wh == p.capacity_wh
            &&& q.bridge_dropouts == p.bridge_dropouts
            &&& forall|e: Endpoint|
                #[trigger] q.cache.payload(e) == if is_ahead(run, e) {
                    cached_after(p, m, allowed, oks, e)
                } else {
                    p.cache.payload(e)
                }
            &&& forall|e: Endpoint|
                #[trigger] q.breaker(e) == if is_ahead(run, e) {
                    breaker_after(p, m, allowed, oks, times, e)
                } else {
                    p.breaker(e)
                }
            &&& ok <==> (run.any_ok || exists|e: Endpoint|
                is_ahead(run, e) && #[trigger] is_served(p, m, allowed, e) && oks.at(e))
        }),
    decreases endpoints_left(run.next),
{
    next_moves_on(p, m, run, allowed);
    let (q, ok) = rest_of_cycle(p, m, run, allowed, oks, times);
    match run.next {
        None => {
            assert(publish_next(p, m, run, allowed) == PublishNext::Done(run.any_ok));
            assert(forall|e: Endpoint| !#[trigger] is_ahead(run, e));
        },
        Some(e) => {
            let rest = PublishRun { next: after_endpoint(e), ..run };
            lemma_payload_endpoint(p, m, e);
            if is_served(p, m, allowed, e) {
                let payload = p.payload(m, e)->0;
                let good = oks.at(e);
                let p2 = p.posted(payload, good, times.at(e));
                lemma_posted(p, payload, good, times.at(e));
                lemma_rest_of_cycle(p2, m, run_after(rest, good), allowed, oks, times);
                assert forall|other: Endpoint| other != e implies #[trigger] is_served(
                    p2,
                    m,
                    allowed,
                    other,
                ) == is_served(p, m, allowed, other) && p2.payload(m, other) == p.payload(
                    m,
                    other,
                ) by {
                    assert(p2.cache.payload(other) == p.cache.payload(other));
                }
                assert(rest_of_cycle(p2, m, run_after(rest, good), allowed, oks, times) == (q, ok));
                assert forall|o: Endpoint| #[trigger] q.breaker(o) == if is_ahead(run, o) {
                    breaker_after(p, m, allowed, oks, times, o)
                } else {
                    p.breaker(o)
                } by {
                    if o != e {
                        assert(is_served(p2, m, allowed, o) == is_served(p, m, allowed, o));
                    }
                }
                let later = run_after(rest, good);
                assert forall|o: Endpoint| is_ahead(run, o) && #[trigger] is_served(
                    p,
                    m,
                    allowed,
                    o,
                ) && oks.at(o) implies ok by {
                    if o != e {
                        assert(is_served(p2, m, allowed, o));
                        assert(is_ahead(later, o));
                    }
                }
                if ok && !later.any_ok {
                    let o = choose|o: Endpoint|
                        is_ahead(later, o) && #[trigger] is_served(p2, m, allowed, o) && oks.at(o);
                    assert(is_served(p, m, allowed, o) && is_ahead(run, o));
                }
            } else {
                lemma_rest_of_cycle(p, m, rest, allowed, oks, times);
                next_moves_on(p, m, rest, allowed);
                assert(publish_next(p, m, run, allowed) == publish_next(p, m, rest, allowed));
                assert(rest_of_cycle(p, m, rest, allowed, oks, times) == (q, ok));
                assert forall|o: Endpoint| is_ahead(run, o) && #[trigger] is_served(
                    p,
                    m,
                    allowed,
                    o,
                ) implies is_ahead(rest, o) by {}
            }
        },
    }
}

/// A cycle sends at most one request to each endpoint, and touches nothing
/// else: a request that goes through closes the breaker and is cached, one that
/// fails counts against the breaker of its endpoint alone and leaves the cache
/// as it is. The cycle reports that a request went through if and only if one
/// did.
pub proof fn publish_cycle(
    p: PublisherModel,
    m: Map<Seq<char>, Quantity>,
    allowed: Allowed,
    oks: Allowed,
    times: FailureTimes,
)
    ensures
        ({
            let (q, ok) = rest_of_cycle(p, m, publish_start(), allowed, oks, times);
            &&& q.api_base == p.api_base
            &&& q.capacity_wh == p.capacity_wh
            &&& q.bridge_dropouts == p.bridge_dropouts
            &&& forall|e: Endpoint|
                #[trigger] q.cache.payload(e) == cached_after(p, m, allowed, oks, e)
            &&& forall|e: Endpoint|
                #[trigger] q.breaker(e) == breaker_after(p, m, allowed, oks, times, e)
            &&& ok <==> exists|e: Endpoint|
                #[trigger] is_served(p, m, allowed, e) && oks.at(e)
        }),
{
    lemma_rest_of_cycle(p, m, publish_start(), allowed, oks, times);
    assert(forall|e: Endpoint| #[trigger] is_ahead(publish_start(), e));
}

/// Where dropouts are bridged, a payload that went through is what is published
/// again in a cycle without data.
pub proof fn success_is_replayed(
    p: PublisherModel,
    m: Map<Seq<char>, Quantity>,
    allowed: Allowed,
    oks: Allowed,
    times: FailureTimes,
    e: Endpoint,
)
    requires
        p.bridge_dropouts,
        is_served(p, m, allowed, e),
        oks.at(e),
    ensures
        rest_of_cycle(p, m, publish_start(), allowed, oks, times).0.payload(
            Map::<Seq<char>, Quantity>::empty(),
            e,
        ) == p.payload(m, e),
{
    publish_cycle(p, m, allowed, oks, times);
    let q = rest_of_cycle(p, m, publish_start(), allowed, oks, times).0;
    assert(q.cache.payload(e) == p.payload(m, e));
}

/// Where dropouts are not bridged, a cycle without data sends nothing.
pub proof fn silent_without_data(p: PublisherModel, run: PublishRun, allowed: Allowed)
    requires
        !p.bridge_dropouts,
    ensures
        publish_next(p, Map::<Seq<char>, Quantity>::empty(), run, allowed) == PublishNext::Done(
            run.any_ok,
        ),
    decreases endpoints_left(run.next),
{
    if let Some(e) = run.next {
        silent_without_data(p, PublishRun { next: after_endpoint(e), ..run }, allowed);
    }
}

/// After the vehicle went to sleep nothing old is published: a payload can only
/// come from new metrics.
pub proof fn sleeping_drops_stale_data(
    p: PublisherModel,
    m: Map<Seq<char>, Quantity>,
    e: Endpoint,
)
    ensures
        (PublisherModel { cache: CacheModel::empty(), ..p }).payload(m, e) == built(
            m,
            p.capacity_wh,
            e,
        ),
{
}

/// No request is sent to an endpoint whose breaker does not let it through.
pub proof fn open_breaker_sends_nothing(
    p: PublisherModel,
    m: Map<Seq<char>, Quantity>,
    run: PublishRun,
    allowed: Allowed,
)
    ensures
        match publish_next(p, m, run, allowed) {
            PublishNext::Post { run: rest, url, payload } => {
                let e = payload.endpoint();
                &&& allowed.at(e)
                &&& p.payload(m, e) == Some(payload)
                &&& url == p.api_base + path_of(e)
                &&& rest.next == after_endpoint(e)
            },
            PublishNext::Done(ok) => ok == run.any_ok,
        },
    decreases endpoints_left(run.next),
{
    if let Some(e) = run.next {
        lemma_payload_endpoint(p, m, e);
        open_breaker_sends_nothing(
            p,
            m,
            PublishRun { next: after_endpoint(e), ..run },
            allowed,
        );
    }
}

/// What the metrics of a cycle hold for an endpoint is published as it is,
/// whatever went through before; only where they hold nothing for it, and
/// dropouts are bridged, is the last payload that went through published again.
pub proof fn fresh_data_goes_first(p: PublisherModel, m: Map<Seq<char>, Quantity>, e: Endpoint)
    ensures
        battery_of(m, p.capacity_wh) matches Some(b) ==> p.payload(m, Endpoint::Battery) == Some(
            PayloadModel::Battery(b),
        ),
        odometer_of(m) matches Some(o) ==> p.payload(m, Endpoint::Odometer) == Some(
            PayloadModel::Odometer(o),
        ),
        pressures_of(m) matches Some(t) ==> p.payload(m, Endpoint::TirePressure) == Some(
            PayloadModel::TirePressure(t),
        ),
        battery_of(m, p.capacity_wh) is None ==> p.payload(m, Endpoint::Battery) == (if
            p.bridge_dropouts && p.cache.battery is Some {
            Some(PayloadModel::Battery(p.cache.battery->0))
        } else {
            None
        }),
        odometer_of(m) is None ==> p.payload(m, Endpoint::Odometer) == (if p.bridge_dropouts
            && p.cache.odometer is Some {
            Some(PayloadModel::Odometer(p.cache.odometer->0))
        } else {
            None
        }),
        pressures_of(m) is None ==> p.payload(m, Endpoint::TirePressure) == (if p.bridge_dropouts
            && p.cache.tire_pressure is Some {
            Some(PayloadModel::TirePressure(p.cache.tire_pressure->0))
        } else {
            None
        }),
        p.payload(m, e) matches Some(payload) ==> payload.endpoint() == e,
{
}

/// The next request goes to the first endpoint from the current one on, in the
/// order battery, odometer, tire pressure, that has something to publish and
/// whose breaker lets it through; none such is passed over. It goes to the path
/// of its endpoint below the base.
pub proof fn no_endpoint_is_passed_over(
    p: PublisherModel,
    m: Map<Seq<char>, Quantity>,
    any_ok: bool,
    allowed: Allowed,
)
    ensures
        ({
            let b = p.payload(m, Endpoint::Battery);
            let o = p.payload(m, Endpoint::Odometer);
            let t = p.payload(m, Endpoint::TirePressure);
            let at = |next: Option<Endpoint>| PublishRun { next, any_ok };
            let first = publish_next(p, m, at(Some(Endpoint::Battery)), allowed);
            let second = publish_next(p, m, at(Some(Endpoint::Odometer)), allowed);
            let third = publish_next(p, m, at(Some(Endpoint::TirePressure)), allowed);
            &&& b is Some && allowed.battery ==> first == PublishNext::Post {
                run: at(Some(Endpoint::Odometer)),
                url: p.api_base + "/battery"@,
                payload: b->0,
            }
            &&& !(b is Some && allowed.battery) ==> first == second
            &&& o is Some && allowed.odometer ==> second == PublishNext::Post {
                run: at(Some(Endpoint::TirePressure)),
                url: p.api_base + "/odometer"@,
                payload: o->0,
            }
            &&& !(o is Some && allowed.odometer) ==> second == third
            &&& t is Some && allowed.tire_pressure ==> third == PublishNext::Post {
                run: at(None),
                url: p.api_base + "/tire-pressure"@,
                payload: t->0,
            }
            &&& !(t is Some && allowed.tire_pressure) ==> third == PublishNext::Done(any_ok)
            &&& publish_next(p, m, at(None), allowed) == PublishNext::Done(any_ok)
        }),
{
    reveal_with_fuel(publish_next, 2);
}

/// The cache gives back what was stored last for an endpoint, and what is
/// stored for one endpoint leaves the others alone. An empty one gives nothing.
pub proof fn cache_gives_back_what_was_stored(c: CacheModel, payload: PayloadModel, e: Endpoint)
    ensures
        c.store(payload).payload(payload.endpoint()) == Some(payload),
        e != payload.endpoint() ==> c.store(payload).payload(e) == c.payload(e),
        CacheModel::empty().payload(e) is None,
        payload is Battery ==> c.store(payload).battery == Some(payload->Battery_0),
        payload is Odometer ==> c.store(payload).odometer == Some(payload->Odometer_0),
        payload is TirePressure ==> c.store(payload).tire_pressure == Some(
            payload->TirePressure_0,
        ),
{
}

/// A request that went through is remembered and closes the breaker of its
/// endpoint; one that failed is not remembered and counts against that breaker.
/// Nothing else changes.
pub proof fn requests_touch_their_endpoint_only(
    p: PublisherModel,
    payload: PayloadModel,
    now: Instant,
    run: PublishRun,
    ok: bool,
    e: Endpoint,
)
    ensures
        p.posted(payload, true, now).cache == p.cache.store(payload),
        p.posted(payload, true, now).breaker(payload.endpoint()).opened_at is None,
        p.posted(payload, true, now).breaker(payload.endpoint()).failures == 0,
        p.posted(payload, false, now).cache == p.cache,
        p.posted(payload, false, now).breaker(payload.endpoint()) == p.breaker(
            payload.endpoint(),
        ).failed(now),
        e != payload.endpoint() ==> p.posted(payload, ok, now).breaker(e) == p.breaker(e),
        p.posted(payload, ok, now).api_base == p.api_base,
        p.posted(payload, ok, now).capacity_wh == p.capacity_wh,
        p.posted(payload, ok, now).bridge_dropouts == p.bridge_dropouts,
        run_after(run, ok).next == run.next,
        run_after(run, ok).any_ok <==> run.any_ok || ok,
{
}

/// A new breaker lets requests through, opens after as many failures in a row
/// as its threshold says, and then stays open for its seconds.
pub proof fn fresh_breakers_hold_their_settings(
    threshold: u32,
    secs: u64,
    times: Seq<Instant>,
    elapsed: nat,
)
    requires
        threshold > 0,
    ensures
        times.len() < threshold ==> after_failures(fresh_breaker(threshold, secs), times).allows(
            elapsed,
        ),
        times.len() >= threshold ==> (after_failures(
            fresh_breaker(threshold, secs),
            times,
        ).allows(elapsed) <==> elapsed >= secs * 1_000_000_000),
{
    opens_at_threshold(fresh_breaker(threshold, secs), times);
}

/// Asked now, a closed breaker lets requests to its endpoint through; an open
/// one does so exactly if the time since it opened, as the clock has it, is not
/// shorter than its own.
pub proof fn breakers_answer_by_the_clock(p: PublisherModel, allowed: Allowed, e: Endpoint)
    requires
        p.may_allow(allowed),
    ensures
        p.breaker(e).opened_at is None ==> allowed.at(e),
        p.breaker(e).opened_at matches Some(t) ==> exists|d: Duration| #[trigger]
            may_have_elapsed(t, d) && (allowed.at(e) <==> nanos_of(d) >= p.breaker(e).open_nanos),
        Endpoint::Battery == e ==> allowed.at(e) == allowed.battery && p.breaker(e) == p.battery,
        Endpoint::Odometer == e ==> allowed.at(e) == allowed.odometer && p.breaker(e)
            == p.odometer,
        Endpoint::TirePressure == e ==> allowed.at(e) == allowed.tire_pressure && p.breaker(e)
            == p.tire_pressure,
{
    assert(p.breaker(e).may_answer(allowed.at(e)));
    if let Some(t) = p.breaker(e).opened_at {
        let d = choose|d: Duration| #[trigger]
            may_have_elapsed(t, d) && allowed.at(e) == p.breaker(e).allows(nanos_of(d));
        assert(may_have_elapsed(t, d));
    }
}

} // verus!
