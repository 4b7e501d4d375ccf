use aa_proxy_obd::metrics::{Metrics, Quantity, Single};
use aa_proxy_obd::output::payload::Endpoint;
use aa_proxy_obd::output::publisher::{Allowed, PublishRun, PublishStep};
use aa_proxy_obd::output::{
    BatteryData, CircuitBreaker, LevelWh, OdometerData, Payload, PublishCache, Publisher,
    TirePressureData,
};
use std::time::{Duration, Instant};

fn plain(v: f32) -> Quantity {
    Quantity::Plain(Single { bits: v.to_bits() })
}

fn value(q: Quantity) -> f32 {
    match q {
        Quantity::Scaled { raw, multiplier, offset } => {
            raw as f32 * f32::from_bits(multiplier.bits) + f32::from_bits(offset.bits)
        }
        Quantity::Plain(s) => f32::from_bits(s.bits),
    }
}

fn level(l: LevelWh) -> u64 {
    match l {
        LevelWh::Reported(q) => value(q) as u64,
        LevelWh::Derived { percentage, capacity_wh } => {
            ((value(percentage) / 100.0) * capacity_wh as f32) as u64
        }
    }
}

fn metrics_with(pairs: &[(&str, f32)]) -> Metrics {
    let mut m = Metrics::new();
    for (k, v) in pairs {
        m.insert(k.to_string(), plain(*v));
    }
    m
}

/// Runs one cycle; every request is answered with `ok`. Returns whether one
/// went through, and the addresses.
fn cycle(p: &mut Publisher, m: &Metrics, ok: bool) -> (bool, Vec<String>) {
    let mut urls = vec![];
    let mut run = PublishRun::start();
    loop {
        match p.publish(m, run) {
            PublishStep::Done(any) => return (any, urls),
            PublishStep::Post(rest, post) => {
                urls.push(post.url);
                run = p.posted(rest, post.payload, ok);
            }
        }
    }
}

#[test]
fn breaker_opens_after_threshold_failures() {
    let mut b = CircuitBreaker::new(3, Duration::from_millis(50));
    assert!(b.allow());
    b.record_failure();
    assert!(b.allow());
    b.record_failure();
    assert!(b.allow());
    b.record_failure(); // hits threshold
    assert!(!b.allow(), "should be open");
}

#[test]
fn breaker_half_opens_after_timeout_and_closes_on_success() {
    let mut b = CircuitBreaker::new(1, Duration::from_millis(10));
    b.record_failure();
    assert!(!b.allow());
    let start = Instant::now();
    while start.elapsed() < Duration::from_millis(20) {}
    assert!(b.allow(), "should be half-open");
    b.record_success();
    assert!(b.allow());
}

#[test]
fn breaker_reopens_on_half_open_failure() {
    let mut b = CircuitBreaker::new(1, Duration::from_millis(10));
    b.record_failure();
    let start = Instant::now();
    while start.elapsed() < Duration::from_millis(20) {}
    assert!(b.allow()); // half-open
    b.record_failure();
    assert!(!b.allow(), "should be re-opened");
}

#[test]
fn breaker_lets_through_after_its_whole_time() {
    let mut b = CircuitBreaker::new(1, Duration::from_secs(300));
    assert!(b.allow_after(Duration::from_secs(0)));
    assert!(!b.is_open());
    b.record_failure_at(Instant::now());
    assert!(b.is_open());
    assert!(!b.allow_after(Duration::from_nanos(299_999_999_999)));
    assert!(b.allow_after(Duration::from_secs(300)));
}

#[test]
fn breaker_with_threshold_zero_opens_at_once() {
    let mut b = CircuitBreaker::new(0, Duration::from_secs(60));
    assert!(b.allow());
    b.record_failure();
    assert!(!b.allow());
}

#[test]
fn breaker_counts_anew_after_success() {
    let mut b = CircuitBreaker::new(2, Duration::from_secs(60));
    b.record_failure();
    b.record_success();
    b.record_failure();
    assert!(b.allow());
    b.record_failure();
    assert!(!b.allow());
}

#[test]
fn build_battery_omits_when_no_relevant_fields() {
    let p = Publisher::new("http://test", None, 5, 300, true);
    assert!(p.build_battery(&Metrics::new()).is_none());
    assert!(p.build_battery(&metrics_with(&[("odometer_km", 12345.0)])).is_none());
}

#[test]
fn build_battery_derives_level_wh_from_soc_and_capacity() {
    let p = Publisher::new("http://test", Some(80000), 5, 300, true);
    let m = metrics_with(&[("battery_level_percentage", 50.0)]);
    let d = p.build_battery(&m).unwrap();
    assert_eq!(d.battery_level_percentage.map(value), Some(50.0));
    assert_eq!(d.battery_level_wh.map(level), Some(40000));
    assert_eq!(d.battery_capacity_wh, Some(80000));
}

#[test]
fn build_battery_prefers_explicit_level_wh_over_derived() {
    let p = Publisher::new("http://test", Some(80000), 5, 300, true);
    let m = metrics_with(&[
        ("battery_level_percentage", 50.0),
        ("battery_level_wh", 12345.0),
    ]);
    let d = p.build_battery(&m).unwrap();
    assert_eq!(d.battery_level_wh.map(level), Some(12345));
}

#[test]
fn build_battery_takes_every_field() {
    let p = Publisher::new("http://test", None, 5, 300, true);
    let m = metrics_with(&[
        ("external_temp_celsius", 1.0),
        ("battery_state_of_health", 2.0),
        ("battery_voltage", 3.0),
        ("battery_current", 4.0),
        ("interior_temp_celsius", 5.0),
    ]);
    let d = p.build_battery(&m).unwrap();
    assert_eq!(d.battery_level_percentage, None);
    assert_eq!(d.battery_level_wh, None);
    assert_eq!(d.external_temp_celsius, Some(plain(1.0)));
    assert_eq!(d.battery_state_of_health, Some(plain(2.0)));
    assert_eq!(d.battery_voltage, Some(plain(3.0)));
    assert_eq!(d.battery_current, Some(plain(4.0)));
    assert_eq!(d.interior_temp_celsius, Some(plain(5.0)));
}

#[test]
fn build_odometer_present_only_when_field_present() {
    let p = Publisher::new("http://test", None, 5, 300, true);
    assert!(p.build_odometer(&Metrics::new()).is_none());
    let m = metrics_with(&[("odometer_km", 12345.0)]);
    let d = p.build_odometer(&m).unwrap();
    assert_eq!(value(d.odometer_km), 12345.0);
}

#[test]
fn build_tire_pressure_requires_fl() {
    let p = Publisher::new("http://test", None, 5, 300, true);
    let m = metrics_with(&[("tire_fr_kpa", 200.0)]);
    assert!(p.build_tire_pressure(&m).is_none());

    let m = metrics_with(&[("tire_fl_kpa", 220.0), ("tire_rr_kpa", 210.0)]);
    let d = p.build_tire_pressure(&m).unwrap();
    let pressures: Vec<f32> = d.pressures_kpa.iter().map(|q| value(*q)).collect();
    assert_eq!(pressures, vec![220.0, 0.0, 0.0, 210.0]);
}

#[test]
fn cache_remembers_last_good_payload() {
    let mut c = PublishCache::default();
    let bd = BatteryData { battery_level_percentage: Some(plain(50.0)), ..Default::default() };
    c.store_battery(bd.clone());
    assert!(matches!(c.last_battery(), Some(b) if b.battery_level_percentage == Some(plain(50.0))));
}

#[test]
fn cache_clear_wipes_everything() {
    let mut c = PublishCache::default();
    c.store_battery(BatteryData { battery_level_percentage: Some(plain(50.0)), ..Default::default() });
    c.store_odometer(OdometerData { odometer_km: plain(12345.0), trip_km: None });
    c.clear();
    assert!(c.last_battery().is_none());
    assert!(c.last_odometer().is_none());
}

#[test]
fn cache_keeps_tire_pressures() {
    let mut c = PublishCache::default();
    assert!(c.last_tire_pressure().is_none());
    c.store_tire_pressure(TirePressureData { pressures_kpa: vec![plain(1.0)] });
    assert_eq!(c.last_tire_pressure().unwrap().pressures_kpa, vec![plain(1.0)]);
    let copy = c.clone();
    c.clear();
    assert_eq!(copy.last_tire_pressure().unwrap().pressures_kpa, vec![plain(1.0)]);
    assert!(copy.last_battery().is_none());
}

#[test]
fn publish_serves_the_endpoints_in_order() {
    let mut p = Publisher::new("http://test", Some(80000), 5, 300, true);
    let m = metrics_with(&[
        ("tire_fl_kpa", 220.0),
        ("odometer_km", 5.0),
        ("battery_level_percentage", 50.0),
    ]);
    let (ok, urls) = cycle(&mut p, &m, true);
    assert!(ok);
    assert_eq!(
        urls,
        vec!["http://test/battery", "http://test/odometer", "http://test/tire-pressure"]
    );
}

#[test]
fn publish_stops_after_repeated_failures() {
    let mut p = Publisher::new("http://test", Some(80000), 3, 60, true);
    let m = metrics_with(&[("battery_level_percentage", 50.0)]);
    let mut total = 0;
    for _ in 0..4 {
        let (ok, urls) = cycle(&mut p, &m, false);
        assert!(!ok);
        total += urls.len();
    }
    assert_eq!(total, 3, "publish should not send after the circuit opens");
    assert!(p.is_open(Endpoint::Battery));
    assert!(!p.is_open(Endpoint::Odometer));
    // The other endpoints have breakers of their own.
    let (ok, urls) = cycle(&mut p, &metrics_with(&[("odometer_km", 1.0)]), true);
    assert!(ok);
    assert_eq!(urls, vec!["http://test/odometer"]);
}

#[test]
fn bridged_dropouts_repeat_the_last_payload() {
    let mut p = Publisher::new("http://test", Some(80000), 5, 300, true);
    let m = metrics_with(&[("battery_level_percentage", 50.0)]);
    assert!(cycle(&mut p, &m, true).0);
    match p.publish(&Metrics::new(), PublishRun::start()) {
        PublishStep::Post(run, post) => {
            assert_eq!(run.next, Some(Endpoint::Odometer));
            assert_eq!(post.payload.endpoint(), Endpoint::Battery);
            assert!(matches!(post.payload, Payload::Battery(b) if b.battery_level_percentage == Some(plain(50.0))));
        }
        PublishStep::Done(_) => panic!("expected the cached payload"),
    }
    assert_eq!(cycle(&mut p, &Metrics::new(), true), (true, vec!["http://test/battery".to_string()]));
    p.on_sleeping();
    assert_eq!(cycle(&mut p, &Metrics::new(), true), (false, vec![]));
}

#[test]
fn failed_payload_is_not_cached() {
    let mut p = Publisher::new("http://test", None, 5, 300, true);
    assert!(!cycle(&mut p, &metrics_with(&[("odometer_km", 1.0)]), false).0);
    assert_eq!(cycle(&mut p, &Metrics::new(), true), (false, vec![]));
}

#[test]
fn unbridged_dropouts_are_silent() {
    let mut p = Publisher::new("http://test", Some(80000), 5, 300, false);
    let m = metrics_with(&[("battery_level_percentage", 50.0)]);
    assert!(cycle(&mut p, &m, true).0);
    assert_eq!(cycle(&mut p, &Metrics::new(), true), (false, vec![]));
}

#[test]
fn refused_endpoints_are_passed_over() {
    let p = Publisher::new("http://test", None, 5, 300, true);
    let m = metrics_with(&[("battery_voltage", 1.0), ("tire_fl_kpa", 2.0)]);
    let allowed = Allowed { battery: false, odometer: true, tire_pressure: true };
    match p.publish_given(&m, PublishRun::start(), allowed) {
        PublishStep::Post(run, post) => {
            assert_eq!(post.url, "http://test/tire-pressure");
            assert_eq!(run.next, None);
            assert!(!run.any_ok);
        }
        PublishStep::Done(_) => panic!("expected a request"),
    }
    let none = Allowed { battery: false, odometer: false, tire_pressure: false };
    assert!(matches!(p.publish_given(&m, PublishRun::start(), none), PublishStep::Done(false)));
}

#[test]
fn any_success_counts() {
    let mut p = Publisher::new("http://test", None, 5, 300, true);
    let run = PublishRun::start();
    let run = p.posted_at(run, Payload::Battery(BatteryData::default()), true, Instant::now());
    let run = p.posted_at(run, Payload::Odometer(OdometerData::default()), false, Instant::now());
    let run = p.posted_at(run, Payload::TirePressure(TirePressureData::default()), false, Instant::now());
    assert!(run.any_ok);
}
