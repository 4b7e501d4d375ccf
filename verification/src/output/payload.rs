//! The payloads and how they are built from the metrics of a cycle.

use crate::metrics::{Metrics, Quantity, Single};
use vstd::prelude::*;

verus! {

/// The energy in the battery.
#[derive(Clone, Copy, PartialEq, Eq, Debug, Structural)]
pub enum LevelWh {
    /// As the vehicle reports it.
    Reported(Quantity),
    /// So many percent of the capacity.
    Derived { percentage: Quantity, capacity_wh: u32 },
}

/// What is published of the battery.
#[derive(Clone, Copy, PartialEq, Eq, Debug, Structural)]
pub struct BatteryData {
    pub battery_level_percentage: Option<Quantity>,
    pub external_temp_celsius: Option<Quantity>,
    pub battery_capacity_wh: Option<u32>,
    pub battery_level_wh: Option<LevelWh>,
    pub battery_state_of_health: Option<Quantity>,
    pub battery_voltage: Option<Quantity>,
    pub battery_current: Option<Quantity>,
    pub interior_temp_celsius: Option<Quantity>,
}

impl Default for BatteryData {
    fn default() -> (r: BatteryData)
        ensures
            r == (BatteryData {
                battery_level_percentage: None,
                external_temp_celsius: None,
                battery_capacity_wh: None,
                battery_level_wh: None,
                battery_state_of_health: None,
                battery_voltage: None,
                battery_current: None,
                interior_temp_celsius: None,
            }),
    {
        BatteryData {
            battery_level_percentage: None,
            external_temp_celsius: None,
            battery_capacity_wh: None,
            battery_level_wh: None,
            battery_state_of_health: None,
            battery_voltage: None,
            battery_current: None,
            interior_temp_celsius: None,
        }
    }
}

/// What is published of the odometer.
#[derive(Clone, Copy, PartialEq, Eq, Debug, Structural)]
pub struct OdometerData {
    pub odometer_km: Quantity,
    pub trip_km: Option<Quantity>,
}

impl Default for OdometerData {
    fn default() -> (r: OdometerData)
        ensures
            r == (OdometerData {
                odometer_km: Quantity::Plain(Single { bits: 0 }),
                trip_km: None,
            }),
    {
        OdometerData { odometer_km: Quantity::Plain(Single::zero()), trip_km: None }
    }
}

/// What is published of the tires: front left, front right, rear left, rear
/// right.
#[derive(Debug)]
pub struct TirePressureData {
    pub pressures_kpa: Vec<Quantity>,
}

impl View for TirePressureData {
    type V = Seq<Quantity>;

    open spec fn view(&self) -> Seq<Quantity> {
        self.pressures_kpa@
    }
}

impl Default for TirePressureData {
    fn default() -> (r: TirePressureData)
        ensures
            r@ == Seq::<Quantity>::empty(),
    {
        TirePressureData { pressures_kpa: Vec::new() }
    }
}

impl Clone for TirePressureData {
    fn clone(&self) -> (r: TirePressureData)
        ensures
            r@ == self@,
    {
        let mut out: Vec<Quantity> = Vec::new();
        for i in 0..self.pressures_kpa.len()
            invariant
                out@ == self@.take(i as int),
        {
            out.push(self.pressures_kpa[i]);
        }
        TirePressureData { pressures_kpa: out }
    }
}

/// The endpoints, in the order in which they are served.
#[derive(Clone, Copy, PartialEq, Eq, Debug, Structural)]
pub enum Endpoint {
    Battery,
    Odometer,
    TirePressure,
}

/// A payload of one of the endpoints.
#[derive(Debug)]
pub enum Payload {
    Battery(BatteryData),
    Odometer(OdometerData),
    TirePressure(TirePressureData),
}

/// What a payload says.
#[verifier::ext_equal]
pub enum PayloadModel {
    Battery(BatteryData),
    Odometer(OdometerData),
    TirePressure(Seq<Quantity>),
}

impl PayloadModel {
    /// The endpoint that it belongs to.
    pub open spec fn endpoint(self) -> Endpoint {
        match self {
            PayloadModel::Battery(_) => Endpoint::Battery,
            PayloadModel::Odometer(_) => Endpoint::Odometer,
            PayloadModel::TirePressure(_) => Endpoint::TirePressure,
        }
    }
}

impl View for Payload {
    type V = PayloadModel;

    open spec fn view(&self) -> PayloadModel {
        match *self {
            Payload::Battery(b) => PayloadModel::Battery(b),
            Payload::Odometer(o) => PayloadModel::Odometer(o),
            Payload::TirePressure(t) => PayloadModel::TirePressure(t@),
        }
    }
}

impl Payload {
    /// The endpoint that it belongs to.
    pub fn endpoint(&self) -> (r: Endpoint)
        ensures
            r == self@.endpoint(),
    {
        match self {
            Payload::Battery(_) => Endpoint::Battery,
            Payload::Odometer(_) => Endpoint::Odometer,
            Payload::TirePressure(_) => Endpoint::TirePressure,
        }
    }
}

/// The value of a metric, if there is one.
pub open spec fn metric(m: Map<Seq<char>, Quantity>, name: Seq<char>) -> Option<Quantity> {
    if m.contains_key(name) {
        Some(m[name])
    } else {
        None
    }
}

/// Looks up a metric.
pub fn lookup(m: &Metrics, name: &str) -> (r: Option<Quantity>)
    ensures
        r == metric(m@, name@),
{
    match m.get(name) {
        Some(q) => Some(*q),
        None => None,
    }
}

/// Does a metric concern the battery?
pub open spec fn about_battery(m: Map<Seq<char>, Quantity>) -> bool {
    ||| m.contains_key("battery_level_percentage"@)
    ||| m.contains_key("external_temp_celsius"@)
    ||| m.contains_key("battery_level_wh"@)
    ||| m.contains_key("battery_state_of_health"@)
    ||| m.contains_key("battery_voltage"@)
    ||| m.contains_key("battery_current"@)
    ||| m.contains_key("interior_temp_celsius"@)
}

/// The energy in the battery: as reported, else from the charge and the
/// capacity, where both are known.
pub open spec fn level_wh(
    reported: Option<Quantity>,
    percentage: Option<Quantity>,
    capacity_wh: Option<u32>,
) -> Option<LevelWh> {
    match (reported, percentage, capacity_wh) {
        (Some(q), _, _) => Some(LevelWh::Reported(q)),
        (None, Some(percentage), Some(capacity_wh)) => Some(
            LevelWh::Derived { percentage, capacity_wh },
        ),
        _ => None,
    }
}

/// The battery payload of some metrics; there is none without a metric that
/// concerns the battery.
pub open spec fn battery_of(
    m: Map<Seq<char>, Quantity>,
    capacity_wh: Option<u32>,
) -> Option<BatteryData> {
    if about_battery(m) {
        Some(
            BatteryData {
                battery_level_percentage: metric(m, "battery_level_percentage"@),
                external_temp_celsius: metric(m, "external_temp_celsius"@),
                battery_capacity_wh: capacity_wh,
                battery_level_wh: level_wh(
                    metric(m, "battery_level_wh"@),
                    metric(m, "battery_level_percentage"@),
                    capacity_wh,
                ),
                battery_state_of_health: metric(m, "battery_state_of_health"@),
                battery_voltage: metric(m, "battery_voltage"@),
                battery_current: metric(m, "battery_current"@),
                interior_temp_celsius: metric(m, "interior_temp_celsius"@),
            },
        )
    } else {
        None
    }
}

/// Builds the battery payload.
pub fn battery_payload(m: &Metrics, capacity_wh: Option<u32>) -> (r: Option<BatteryData>)
    ensures
        r == battery_of(m@, capacity_wh),
        r is Some ==> r->0.battery_level_percentage == m@.get("battery_level_percentage"@),
        r is Some ==> r->0.external_temp_celsius == m@.get("external_temp_celsius"@),
        r is Some ==> r->0.battery_state_of_health == m@.get("battery_state_of_health"@),
        r is Some ==> r->0.battery_voltage == m@.get("battery_voltage"@),
        r is Some ==> r->0.battery_current == m@.get("battery_current"@),
        r is Some ==> r->0.interior_temp_celsius == m@.get("interior_temp_celsius"@),
        r is Some ==> r->0.battery_capacity_wh == capacity_wh,
{
    let percentage = lookup(m, "battery_level_percentage");
    let external = lookup(m, "external_temp_celsius");
    let reported = lookup(m, "battery_level_wh");
    let health = lookup(m, "battery_state_of_health");
    let voltage = lookup(m, "battery_voltage");
    let current = lookup(m, "battery_current");
    let interior = lookup(m, "interior_temp_celsius");
    if percentage.is_none() && external.is_none() && reported.is_none() && health.is_none()
        && voltage.is_none() && current.is_none() && interior.is_none() {
        return None;
    }
    let level = match (reported, percentage, capacity_wh) {
        (Some(q), _, _) => Some(LevelWh::Reported(q)),
        (None, Some(p), Some(c)) => Some(LevelWh::Derived { percentage: p, capacity_wh: c }),
        _ => None,
    };
    Some(
        BatteryData {
            battery_level_percentage: percentage,
            external_temp_celsius: external,
            battery_capacity_wh: capacity_wh,
            battery_level_wh: level,
            battery_state_of_health: health,
            battery_voltage: voltage,
            battery_current: current,
            interior_temp_celsius: interior,
        },
    )
}

/// The odometer payload of some metrics; there is none without an odometer
/// reading.
pub open spec fn odometer_of(m: Map<Seq<char>, Quantity>) -> Option<OdometerData> {
    match metric(m, "odometer_km"@) {
        Some(odometer_km) => Some(OdometerData { odometer_km, trip_km: metric(m, "trip_km"@) }),
        None => None,
    }
}

/// Builds the odometer payload.
pub fn odometer_payload(m: &Metrics) -> (r: Option<OdometerData>)
    ensures
        r == odometer_of(m@),
        r is Some <==> m@.contains_key("odometer_km"@),
        r is Some ==> r->0.odometer_km == m@["odometer_km"@],
        r is Some ==> r->0.trip_km == m@.get("trip_km"@),
{
    match lookup(m, "odometer_km") {
        Some(odometer_km) => Some(OdometerData { odometer_km, trip_km: lookup(m, "trip_km") }),
        None => None,
    }
}

/// A pressure, or zero where there is none.
pub open spec fn pressure(m: Map<Seq<char>, Quantity>, name: Seq<char>) -> Quantity {
    match metric(m, name) {
        Some(q) => q,
        None => Quantity::Plain(Single { bits: 0 }),
    }
}

fn pressure_of(m: &Metrics, name: &str) -> (r: Quantity)
    ensures
        r == pressure(m@, name@),
{
    match lookup(m, name) {
        Some(q) => q,
        None => Quantity::Plain(Single::zero()),
    }
}

/// The pressures in some metrics; there are none without that of the front
/// left tire.
pub open spec fn pressures_of(m: Map<Seq<char>, Quantity>) -> Option<Seq<Quantity>> {
    if m.contains_key("tire_fl_kpa"@) {
        Some(
            seq![
                pressure(m, "tire_fl_kpa"@),
                pressure(m, "tire_fr_kpa"@),
                pressure(m, "tire_rl_kpa"@),
                pressure(m, "tire_rr_kpa"@),
            ],
        )
    } else {
        None
    }
}

/// Builds the tire pressure payload.
pub fn tire_pressure_payload(m: &Metrics) -> (r: Option<TirePressureData>)
    ensures
        match r {
            Some(t) => pressures_of(m@) == Some(t@),
            None => pressures_of(m@) is None,
        },
        r is Some <==> m@.contains_key("tire_fl_kpa"@),
        r is Some ==> r->0.pressures_kpa@.len() == 4,
        r is Some ==> r->0.pressures_kpa@[0] == m@["tire_fl_kpa"@],
        r is Some ==> r->0.pressures_kpa@[1] == m@.get("tire_fr_kpa"@).unwrap_or(
            Quantity::Plain(Single { bits: 0 }),
        ),
        r is Some ==> r->0.pressures_kpa@[2] == m@.get("tire_rl_kpa"@).unwrap_or(
            Quantity::Plain(Single { bits: 0 }),
        ),
        r is Some ==> r->0.pressures_kpa@[3] == m@.get("tire_rr_kpa"@).unwrap_or(
            Quantity::Plain(Single { bits: 0 }),
        ),
{
    if !m.contains_key("tire_fl_kpa") {
        return None;
    }
    let mut out: Vec<Quantity> = Vec::new();
    out.push(pressure_of(m, "tire_fl_kpa"));
    out.push(pressure_of(m, "tire_fr_kpa"));
    out.push(pressure_of(m, "tire_rl_kpa"));
    out.push(pressure_of(m, "tire_rr_kpa"));
    assert(out@ =~= pressures_of(m@)->0);
    Some(TirePressureData { pressures_kpa: out })
}

/// Where the front left tire has a metric, four pressures are published, each
/// in the place of its own tire: front left, front right, rear left, rear
/// right. A tire without a metric has the pressure zero. Without the front left
/// tire nothing is published.
pub proof fn each_tire_has_its_place(m: Map<Seq<char>, Quantity>, zero: Quantity)
    requires
        zero == Quantity::Plain(Single { bits: 0 }),
    ensures
        !m.contains_key("tire_fl_kpa"@) ==> pressures_of(m) is None,
        m.contains_key("tire_fl_kpa"@) ==> {
            &&& pressures_of(m) is Some
            &&& pressures_of(m)->0.len() == 4
            &&& pressures_of(m)->0[0] == m["tire_fl_kpa"@]
            &&& m.contains_key("tire_fr_kpa"@) ==> pressures_of(m)->0[1] == m["tire_fr_kpa"@]
            &&& m.contains_key("tire_rl_kpa"@) ==> pressures_of(m)->0[2] == m["tire_rl_kpa"@]
            &&& m.contains_key("tire_rr_kpa"@) ==> pressures_of(m)->0[3] == m["tire_rr_kpa"@]
            &&& !m.contains_key("tire_fr_kpa"@) ==> pressures_of(m)->0[1] == zero
            &&& !m.contains_key("tire_rl_kpa"@) ==> pressures_of(m)->0[2] == zero
            &&& !m.contains_key("tire_rr_kpa"@) ==> pressures_of(m)->0[3] == zero
        },
{
}

/// The battery is published where any of its seven metrics is there. Each field
/// then holds its own metric, or nothing where that metric is missing, and the
/// capacity is the configured one.
pub proof fn battery_fields_hold_their_metrics(
    m: Map<Seq<char>, Quantity>,
    capacity_wh: Option<u32>,
)
    ensures
        m.contains_key("battery_level_percentage"@) ==> battery_of(m, capacity_wh) is Some,
        m.contains_key("external_temp_celsius"@) ==> battery_of(m, capacity_wh) is Some,
        m.contains_key("battery_level_wh"@) ==> battery_of(m, capacity_wh) is Some,
        m.contains_key("battery_state_of_health"@) ==> battery_of(m, capacity_wh) is Some,
        m.contains_key("battery_voltage"@) ==> battery_of(m, capacity_wh) is Some,
        m.contains_key("battery_current"@) ==> battery_of(m, capacity_wh) is Some,
        m.contains_key("interior_temp_celsius"@) ==> battery_of(m, capacity_wh) is Some,
        battery_of(m, capacity_wh) matches Some(b) ==> {
            &&& b.battery_level_percentage == m.get("battery_level_percentage"@)
            &&& b.external_temp_celsius == m.get("external_temp_celsius"@)
            &&& b.battery_state_of_health == m.get("battery_state_of_health"@)
            &&& b.battery_voltage == m.get("battery_voltage"@)
            &&& b.battery_current == m.get("battery_current"@)
            &&& b.interior_temp_celsius == m.get("interior_temp_celsius"@)
            &&& b.battery_capacity_wh == capacity_wh
            &&& {
                ||| b.battery_level_percentage is Some
                ||| b.external_temp_celsius is Some
                ||| b.battery_level_wh is Some
                ||| b.battery_state_of_health is Some
                ||| b.battery_voltage is Some
                ||| b.battery_current is Some
                ||| b.interior_temp_celsius is Some
            }
        },
{
}

/// The energy in the battery is the reported one wherever there is one. It is
/// derived only where nothing is reported and both the charge and the capacity
/// are known, and from those two.
pub proof fn reported_energy_comes_first(
    m: Map<Seq<char>, Quantity>,
    capacity_wh: Option<u32>,
    b: BatteryData,
)
    requires
        battery_of(m, capacity_wh) == Some(b),
    ensures
        m.contains_key("battery_level_wh"@) ==> b.battery_level_wh == Some(
            LevelWh::Reported(m["battery_level_wh"@]),
        ),
        !m.contains_key("battery_level_wh"@) && m.contains_key("battery_level_percentage"@)
            && capacity_wh is Some ==> b.battery_level_wh == Some(
            LevelWh::Derived {
                percentage: m["battery_level_percentage"@],
                capacity_wh: capacity_wh->0,
            },
        ),
        !m.contains_key("battery_level_wh"@) && !(m.contains_key("battery_level_percentage"@)
            && capacity_wh is Some) ==> b.battery_level_wh is None,
{
}

/// The odometer is published exactly where it has a reading, with that reading
/// and the trip, if there is one.
pub proof fn odometer_needs_a_reading(m: Map<Seq<char>, Quantity>)
    ensures
        odometer_of(m) is Some <==> m.contains_key("odometer_km"@),
        odometer_of(m) matches Some(o) ==> o.odometer_km == m["odometer_km"@] && o.trip_km
            == m.get("trip_km"@),
{
}

/// A payload is built from its own metrics alone: metrics that agree on the
/// names of an endpoint give it the same payload.
pub proof fn other_metrics_do_not_matter(
    m: Map<Seq<char>, Quantity>,
    n: Map<Seq<char>, Quantity>,
    capacity_wh: Option<u32>,
)
    ensures
        m.get("tire_fl_kpa"@) == n.get("tire_fl_kpa"@) && m.get("tire_fr_kpa"@) == n.get(
            "tire_fr_kpa"@,
        ) && m.get("tire_rl_kpa"@) == n.get("tire_rl_kpa"@) && m.get("tire_rr_kpa"@) == n.get(
            "tire_rr_kpa"@,
        ) ==> pressures_of(m) == pressures_of(n),
        m.get("odometer_km"@) == n.get("odometer_km"@) && m.get("trip_km"@) == n.get("trip_km"@)
            ==> odometer_of(m) == odometer_of(n),
        m.get("battery_level_percentage"@) == n.get("battery_level_percentage"@) && m.get(
            "external_temp_celsius"@,
        ) == n.get("external_temp_celsius"@) && m.get("battery_level_wh"@) == n.get(
            "battery_level_wh"@,
        ) && m.get("battery_state_of_health"@) == n.get("battery_state_of_health"@) && m.get(
            "battery_voltage"@,
        ) == n.get("battery_voltage"@) && m.get("battery_current"@) == n.get("battery_current"@)
            && m.get("interior_temp_celsius"@) == n.get("interior_temp_celsius"@) ==> battery_of(
            m,
            capacity_wh,
        ) == battery_of(n, capacity_wh),
{
}

} // verus!
