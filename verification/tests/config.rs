use aa_proxy_obd::config::{
    plan_device, profile_name, Config, DaemonSection, DeviceConfig, DevicePlan, DeviceType,
    VehicleSection,
};
use aa_proxy_obd::profile::{
    default_broadcast_command, default_broadcast_init, default_deadline_ms,
    default_idle_timeout_ms, default_multiplier, profile_file, profile_path,
};

fn config(kind: DeviceType) -> Config {
    Config {
        device: DeviceConfig { kind, ..Default::default() },
        vehicle: VehicleSection::default(),
        daemon: DaemonSection::default(),
    }
}

#[test]
fn daemon_defaults() {
    let d = DaemonSection::default();
    assert_eq!(f32::from_bits(d.poll_interval_secs.bits), 10.0);
    assert_eq!(f32::from_bits(d.car_sleep_interval_secs.bits), 100.0);
    assert_eq!(d.log_level, "info");
    assert_eq!(d.log_file, "/var/log/aa-proxy-obd.log");
    assert_eq!(d.api_base_url, "http://localhost");
    assert!(d.bridge_dropouts);
    assert_eq!(d.publish_failure_threshold, 5);
    assert_eq!(d.publish_breaker_secs, 300);
    assert_eq!(d.cycle_failure_limit, 20);
    assert_eq!(DeviceType::default(), DeviceType::Bluetooth);
}

#[test]
fn profile_defaults() {
    assert_eq!(f32::from_bits(default_multiplier().bits), 1.0);
    assert_eq!(default_broadcast_init(), vec!["ATCRA", "ATH1", "ATS1"]);
    assert_eq!(default_broadcast_command(), "ATMA");
    assert_eq!(default_deadline_ms(), 6000);
    assert_eq!(default_idle_timeout_ms(), 600);
}

#[test]
fn elm327_devices_need_a_profile() {
    let mut cfg = config(DeviceType::Bluetooth);
    assert_eq!(
        profile_name(&cfg),
        Err("vehicle.profile required for ELM327 device types".to_string())
    );
    cfg.vehicle.profile = Some("ev6".into());
    assert_eq!(profile_name(&cfg), Ok(Some("ev6".to_string())));
    assert_eq!(profile_name(&config(DeviceType::Wican)), Ok(None));
    assert!(profile_name(&config(DeviceType::Usb)).is_err());
}

#[test]
fn profile_files_are_in_lower_case() {
    assert_eq!(profile_path("EV6"), "/etc/aa-proxy-obd/ev6.json");
    assert_eq!(profile_file("zoe"), "/etc/aa-proxy-obd/zoe.json");
}

#[test]
fn bluetooth_device_is_planned() {
    let mut d = config(DeviceType::Bluetooth).device;
    assert_eq!(
        plan_device(&d).unwrap_err(),
        "device.bt_mac required for type='bluetooth'"
    );
    d.bt_mac = Some("AA:BB:CC:DD:EE:FF".into());
    d.bt_passkey = Some(1234);
    match plan_device(&d).unwrap() {
        DevicePlan::Bluetooth { mac, passkey, max_retries, timeout_secs } => {
            assert_eq!(mac, "AA:BB:CC:DD:EE:FF");
            assert_eq!((passkey, max_retries, timeout_secs), (Some(1234), 5, 10));
        }
        other => panic!("unexpected plan: {other:?}"),
    }
}

#[test]
fn usb_device_is_planned() {
    let mut d = config(DeviceType::Usb).device;
    assert_eq!(plan_device(&d).unwrap_err(), "device.usb_port required for type='usb'");
    d.usb_port = Some("/dev/ttyUSB0".into());
    assert!(matches!(plan_device(&d), Ok(DevicePlan::Usb { baud: 115200, .. })));
    d.usb_baud = Some(38400);
    assert!(matches!(plan_device(&d), Ok(DevicePlan::Usb { baud: 38400, .. })));
}

#[test]
fn wican_device_shares_the_bluetooth_options() {
    let mut d = config(DeviceType::Wican).device;
    assert_eq!(plan_device(&d).unwrap_err(), "device.bt_mac required for type='wican'");
    d.bt_mac = Some("11:22:33:44:55:66".into());
    d.bt_max_connect_retries = Some(7);
    d.bt_timeout_secs = Some(15);
    assert!(matches!(
        plan_device(&d),
        Ok(DevicePlan::Wican { max_retries: 7, timeout_secs: 15, passkey: None, .. })
    ));
}
