//! The daemon's configuration and what follows from it.

use crate::metrics::Single;
use vstd::prelude::*;

verus! {

/// The attempts to connect over Bluetooth, where none are configured.
pub const DEFAULT_BT_RETRIES: u8 = 5;

/// The seconds that an attempt may take, where none are configured.
pub const DEFAULT_BT_TIMEOUT_SECS: u8 = 10;

/// The speed of a serial port, where none is configured.
pub const DEFAULT_USB_BAUD: u32 = 115200;

/// How the vehicle is reached.
#[derive(Debug, Clone, Copy, PartialEq, Eq, Structural)]
pub enum DeviceType {
    Bluetooth,
    Usb,
    Wican,
}

impl Default for DeviceType {
    fn default() -> (r: DeviceType)
        ensures
            r == DeviceType::Bluetooth,
    {
        DeviceType::Bluetooth
    }
}

/// The device section.
#[derive(Debug, Clone, Default)]
pub struct DeviceConfig {
    pub kind: DeviceType,
    pub bt_mac: Option<String>,
    pub bt_passkey: Option<u32>,
    pub bt_max_connect_retries: Option<u8>,
    pub bt_timeout_secs: Option<u8>,
    pub usb_port: Option<String>,
    pub usb_baud: Option<u32>,
    pub wican_mac: Option<String>,
    pub wican_passkey: Option<u32>,
    pub wican_max_connect_retries: Option<u8>,
    pub wican_timeout_secs: Option<u8>,
}

/// The vehicle section.
#[derive(Debug, Clone, Default)]
pub struct VehicleSection {
    pub profile: Option<String>,
    pub battery_capacity_wh: Option<u32>,
}

/// The daemon section. The intervals are in seconds.
#[derive(Debug, Clone)]
pub struct DaemonSection {
    pub poll_interval_secs: Single,
    pub car_sleep_interval_secs: Single,
    pub log_level: String,
    pub log_file: String,
    pub api_base_url: String,
    pub bridge_dropouts: bool,
    pub publish_failure_threshold: u32,
    pub publish_breaker_secs: u64,
    pub cycle_failure_limit: u32,
}

/// The configuration.
#[derive(Debug, Clone)]
pub struct Config {
    pub device: DeviceConfig,
    pub vehicle: VehicleSection,
    pub daemon: DaemonSection,
}

/// Ten seconds.
pub fn default_poll_interval_secs() -> (r: Single)
    ensures
        r == (Single { bits: 0x4120_0000 }),
{
    Single { bits: 0x4120_0000 }
}

/// A hundred seconds.
pub fn default_car_sleep_interval_secs() -> (r: Single)
    ensures
        r == (Single { bits: 0x42c8_0000 }),
{
    Single { bits: 0x42c8_0000 }
}

pub fn default_log_level() -> (r: String)
    ensures
        r@ == "info"@,
{
    "info".to_owned()
}

pub fn default_log_file() -> (r: String)
    ensures
        r@ == "/var/log/aa-proxy-obd.log"@,
{
    "/var/log/aa-proxy-obd.log".to_owned()
}

pub fn default_api_base_url() -> (r: String)
    ensures
        r@ == "http://localhost"@,
{
    "http://localhost".to_owned()
}

pub fn default_bridge_dropouts() -> (r: bool)
    ensures
        r,
{
    true
}

pub fn default_publish_failure_threshold() -> (r: u32)
    ensures
        r == 5,
{
    5
}

pub fn default_publish_breaker_secs() -> (r: u64)
    ensures
        r == 300,
{
    300
}

pub fn default_cycle_failure_limit() -> (r: u32)
    ensures
        r == 20,
{
    20
}

impl Default for DaemonSection {
    fn default() -> (r: DaemonSection)
        ensures
            r.poll_interval_secs == (Single { bits: 0x4120_0000 }),
            r.car_sleep_interval_secs == (Single { bits: 0x42c8_0000 }),
            r.log_level@ == "info"@,
            r.log_file@ == "/var/log/aa-proxy-obd.log"@,
            r.api_base_url@ == "http://localhost"@,
            r.bridge_dropouts,
            r.publish_failure_threshold == 5,
            r.publish_breaker_secs == 300,
            r.cycle_failure_limit == 20,
    {
        DaemonSection {
            poll_interval_secs: default_poll_interval_secs(),
            car_sleep_interval_secs: default_car_sleep_interval_secs(),
            log_level: default_log_level(),
            log_file: default_log_file(),
            api_base_url: default_api_base_url(),
            bridge_dropouts: default_bridge_dropouts(),
            publish_failure_threshold: default_publish_failure_threshold(),
            publish_breaker_secs: default_publish_breaker_secs(),
            cycle_failure_limit: default_cycle_failure_limit(),
        }
    }
}

/// The text of an optional string.
pub open spec fn text_of(s: Option<String>) -> Option<Seq<char>> {
    match s {
        Some(s) => Some(s@),
        None => None,
    }
}

/// The number, or another where there is none.
pub open spec fn or_u8(n: Option<u8>, other: u8) -> u8 {
    match n {
        Some(n) => n,
        None => other,
    }
}

/// The profile that a configuration calls for. The ELM327 devices need one; a
/// WiCAN device has none.
pub open spec fn wanted_profile(cfg: Config) -> Result<Option<Seq<char>>, Seq<char>> {
    if cfg.device.kind == DeviceType::Wican {
        Ok(None)
    } else {
        match text_of(cfg.vehicle.profile) {
            Some(name) => Ok(Some(name)),
            None => Err("vehicle.profile required for ELM327 device types"@),
        }
    }
}

/// The name of the profile to load, if any.
pub fn profile_name(cfg: &Config) -> (r: Result<Option<String>, String>)
    ensures
        match (r, wanted_profile(*cfg)) {
            (Ok(name), Ok(want)) => text_of(name) == want,
            (Err(e), Err(want)) => e@ == want,
            _ => false,
        },
{
    match cfg.device.kind {
        DeviceType::Wican => Ok(None),
        _ => match &cfg.vehicle.profile {
            Some(name) => Ok(Some(name.clone())),
            None => Err("vehicle.profile required for ELM327 device types".to_owned()),
        },
    }
}

/// The adapter that a configuration calls for.
#[derive(Debug)]
pub enum DevicePlan {
    Bluetooth { mac: String, passkey: Option<u32>, max_retries: u8, timeout_secs: u8 },
    Usb { port: String, baud: u32 },
    Wican { mac: String, passkey: Option<u32>, max_retries: u8, timeout_secs: u8 },
}

/// What a plan says.
pub enum DevicePlanModel {
    Bluetooth { mac: Seq<char>, passkey: Option<u32>, max_retries: u8, timeout_secs: u8 },
    Usb { port: Seq<char>, baud: u32 },
    Wican { mac: Seq<char>, passkey: Option<u32>, max_retries: u8, timeout_secs: u8 },
}

impl View for DevicePlan {
    type V = DevicePlanModel;

    open spec fn view(&self) -> DevicePlanModel {
        match *self {
            DevicePlan::Bluetooth { mac, passkey, max_retries, timeout_secs } => {
                DevicePlanModel::Bluetooth { mac: mac@, passkey, max_retries, timeout_secs }
            },
            DevicePlan::Usb { port, baud } => DevicePlanModel::Usb { port: port@, baud },
            DevicePlan::Wican { mac, passkey, max_retries, timeout_secs } => {
                DevicePlanModel::Wican { mac: mac@, passkey, max_retries, timeout_secs }
            },
        }
    }
}

/// The adapter that a device section calls for. The Bluetooth options hold for
/// WiCAN too.
pub open spec fn wanted_device(device: DeviceConfig) -> Result<DevicePlanModel, Seq<char>> {
    let max_retries = or_u8(device.bt_max_connect_retries, DEFAULT_BT_RETRIES);
    let timeout_secs = or_u8(device.bt_timeout_secs, DEFAULT_BT_TIMEOUT_SECS);
    match device.kind {
        DeviceType::Bluetooth => match text_of(device.bt_mac) {
            Some(mac) => Ok(
                DevicePlanModel::Bluetooth {
                    mac,
                    passkey: device.bt_passkey,
                    max_retries,
                    timeout_secs,
                },
            ),
            None => Err("device.bt_mac required for type='bluetooth'"@),
        },
        DeviceType::Usb => match text_of(device.usb_port) {
            Some(port) => Ok(
                DevicePlanModel::Usb {
                    port,
                    baud: match device.usb_baud {
                        Some(baud) => baud,
                        None => DEFAULT_USB_BAUD,
                    },
                },
            ),
            None => Err("device.usb_port required for type='usb'"@),
        },
        DeviceType::Wican => match text_of(device.bt_mac) {
            Some(mac) => Ok(
                DevicePlanModel::Wican {
                    mac,
                    passkey: device.bt_passkey,
                    max_retries,
                    timeout_secs,
                },
            ),
            None => Err("device.bt_mac required for type='wican'"@),
        },
    }
}

/// Plans the adapter.
pub fn plan_device(device: &DeviceConfig) -> (r: Result<DevicePlan, String>)
    ensures
        match (r, wanted_device(*device)) {
            (Ok(plan), Ok(want)) => plan@ == want,
            (Err(e), Err(want)) => e@ == want,
            _ => false,
        },
{
    let max_retries: u8 = match device.bt_max_connect_retries {
        Some(n) => n,
        None => DEFAULT_BT_RETRIES,
    };
    let timeout_secs: u8 = match device.bt_timeout_secs {
        Some(n) => n,
        None => DEFAULT_BT_TIMEOUT_SECS,
    };
    match device.kind {
        DeviceType::Bluetooth => match &device.bt_mac {
            Some(mac) => Ok(
                DevicePlan::Bluetooth {
                    mac: mac.clone(),
                    passkey: device.bt_passkey,
                    max_retries,
                    timeout_secs,
                },
            ),
            None => Err("device.bt_mac required for type='bluetooth'".to_owned()),
        },
        DeviceType::Usb => match &device.usb_port {
            Some(port) => {
                let baud: u32 = match device.usb_baud {
                    Some(baud) => baud,
                    None => DEFAULT_USB_BAUD,
                };
                Ok(DevicePlan::Usb { port: port.clone(), baud })
            },
            None => Err("device.usb_port required for type='usb'".to_owned()),
        },
        DeviceType::Wican => match &device.bt_mac {
            Some(mac) => Ok(
                DevicePlan::Wican {
                    mac: mac.clone(),
                    passkey: device.bt_passkey,
                    max_retries,
                    timeout_secs,
                },
            ),
            None => Err("device.bt_mac required for type='wican'".to_owned()),
        },
    }
}

/// An adapter is planned with the values of the device section. Bluetooth and
/// WiCAN need an address and a serial adapter needs a port; five attempts of
/// ten seconds and 115200 baud stand in for what is not configured.
pub proof fn plans_take_the_configured_values(device: DeviceConfig)
    ensures
        device.kind == DeviceType::Bluetooth && device.bt_mac is Some ==> wanted_device(device)
            == Ok::<DevicePlanModel, Seq<char>>(
            DevicePlanModel::Bluetooth {
                mac: device.bt_mac->0@,
                passkey: device.bt_passkey,
                max_retries: device.bt_max_connect_retries.unwrap_or(5),
                timeout_secs: device.bt_timeout_secs.unwrap_or(10),
            },
        ),
        device.kind == DeviceType::Wican && device.bt_mac is Some ==> wanted_device(device) == Ok::<
            DevicePlanModel,
            Seq<char>,
        >(
            DevicePlanModel::Wican {
                mac: device.bt_mac->0@,
                passkey: device.bt_passkey,
                max_retries: device.bt_max_connect_retries.unwrap_or(5),
                timeout_secs: device.bt_timeout_secs.unwrap_or(10),
            },
        ),
        device.kind == DeviceType::Usb && device.usb_port is Some ==> wanted_device(device) == Ok::<
            DevicePlanModel,
            Seq<char>,
        >(
            DevicePlanModel::Usb {
                port: device.usb_port->0@,
                baud: device.usb_baud.unwrap_or(115200),
            },
        ),
        device.kind == DeviceType::Bluetooth && device.bt_mac is None ==> wanted_device(device)
            == Err::<DevicePlanModel, Seq<char>>("device.bt_mac required for type='bluetooth'"@),
        device.kind == DeviceType::Wican && device.bt_mac is None ==> wanted_device(device)
            == Err::<DevicePlanModel, Seq<char>>("device.bt_mac required for type='wican'"@),
        device.kind == DeviceType::Usb && device.usb_port is None ==> wanted_device(device)
            == Err::<DevicePlanModel, Seq<char>>("device.usb_port required for type='usb'"@),
{
}

/// The named profile is loaded for Bluetooth and serial adapters, which need
/// one; none is loaded for WiCAN, named or not.
pub proof fn profiles_are_for_elm327(cfg: Config)
    ensures
        cfg.device.kind == DeviceType::Wican ==> wanted_profile(cfg) == Ok::<
            Option<Seq<char>>,
            Seq<char>,
        >(None),
        cfg.device.kind != DeviceType::Wican && cfg.vehicle.profile is Some ==> wanted_profile(cfg)
            == Ok::<Option<Seq<char>>, Seq<char>>(Some(cfg.vehicle.profile->0@)),
        cfg.device.kind != DeviceType::Wican && cfg.vehicle.profile is None ==> wanted_profile(cfg)
            == Err::<Option<Seq<char>>, Seq<char>>(
            "vehicle.profile required for ELM327 device types"@,
        ),
{
}

} // verus!
