use aa_proxy_obd::adapter::bluetooth::{BluetoothElm327Adapter, BtConnect, BtStep};
use aa_proxy_obd::adapter::link::{init_commands, LinkAction, LinkEvent};
use aa_proxy_obd::adapter::session::{ErrorKind, SessionError};
use aa_proxy_obd::adapter::usb::{UsbConnect, UsbElm327Adapter, UsbStep};
use aa_proxy_obd::adapter::wican::{
    find_chars, judge_fault, metrics_of, reading_json, request_bytes, Reading, ReadingEvent,
    ReadingFault, ReadingStep, WicanAdapter, WicanConnect, WicanResponse, WicanStep,
    WICAN_NOTIFY_UUID, WICAN_WRITE_UUID,
};
use aa_proxy_obd::cli::pair::{
    pair_target, read_passkey, set_passkey, wants_save, write_passkey, PairOutcome, PairStep,
    Pairing, WriteError, PASSKEY_KEY,
};
use aa_proxy_obd::config::{DeviceConfig, DeviceType};
use aa_proxy_obd::metrics::{Quantity, Single};
use aa_proxy_obd::numbers::{format_decimal, format_hex, parse_address, parse_hex_u32};
use aa_proxy_obd::profile::{Elm327Override, VehicleProfile};
use toml_edit::DocumentMut;

const MAC: &str = "AA:BB:CC:DD:EE:FF";
const ADDRESS: [u8; 6] = [0xAA, 0xBB, 0xCC, 0xDD, 0xEE, 0xFF];

fn profile(init: Option<Vec<&str>>) -> VehicleProfile {
    VehicleProfile {
        name: "test".into(),
        elm327: init.map(|i| Elm327Override { init: Some(i.iter().map(|s| s.to_string()).collect()) }),
        sources: vec![],
    }
}

fn failed(text: &str) -> LinkEvent {
    LinkEvent::Failed(text.into())
}

#[test]
fn addresses_have_six_parts() {
    assert_eq!(parse_address(MAC), Some(ADDRESS));
    assert_eq!(parse_address("1:2:3:4:5:6"), Some([1, 2, 3, 4, 5, 6]));
    assert_eq!(parse_address("AA:BB:CC:DD:EE"), None);
    assert_eq!(parse_address("AA:BB:CC:DD:EE:FF:00"), None);
    assert_eq!(parse_address("AA:BB:CC:DD:EE:100"), None);
    assert_eq!(parse_address(""), None);
}

#[test]
fn numbers_are_written_and_read() {
    assert_eq!(format_hex(0x7e4), "7e4");
    assert_eq!(format_hex(0), "0");
    assert_eq!(parse_hex_u32(&format_hex(u32::MAX)), Some(u32::MAX));
    assert_eq!(parse_hex_u32("100000000"), None);
    assert_eq!(format_decimal(0), "0");
    assert_eq!(format_decimal(u64::MAX), "18446744073709551615");
}

#[test]
fn profile_commands_replace_the_default_ones() {
    assert_eq!(init_commands(&profile(None)).len(), 7);
    assert_eq!(init_commands(&profile(Some(vec!["ATZ"]))), vec!["ATZ"]);
    let bare = VehicleProfile { elm327: Some(Elm327Override { init: None }), ..profile(None) };
    assert_eq!(init_commands(&bare).len(), 7);
}

fn bt(passkey: Option<u32>, retries: u8) -> BluetoothElm327Adapter {
    BluetoothElm327Adapter::new(MAC, profile(Some(vec!["ATZ", "ATE0"])), passkey, retries, 10).unwrap()
}

fn bt_more(step: BtStep) -> BtConnect {
    match step {
        BtStep::More(c) => c,
        BtStep::Done(r) => panic!("ended early: {r:?}"),
    }
}

fn bt_error(step: BtStep) -> String {
    match step {
        BtStep::Done(Err(e)) => e.describe(),
        _ => panic!("should have failed"),
    }
}

#[test]
fn bluetooth_needs_an_address() {
    let e = BluetoothElm327Adapter::new("nope", profile(None), None, 1, 1).unwrap_err();
    assert_eq!(e, "invalid bluetooth MAC 'nope'");
    assert_eq!(bt(None, 0).max_retries, 1);
}

#[test]
fn bluetooth_connects_and_initialises() {
    let c = BtConnect::start(&bt(Some(1234), 2), false);
    assert!(matches!(c.action(), LinkAction::OpenSession));
    let c = bt_more(c.on_event(LinkEvent::Done));
    assert!(matches!(c.action(), LinkAction::RegisterAgent(1234)));
    let c = bt_more(c.on_event(LinkEvent::Done));
    assert!(matches!(c.action(), LinkAction::Connect(Some(10))));
    let c = bt_more(c.on_event(LinkEvent::Done));
    assert!(matches!(c.action(), LinkAction::CheckAddress));
    let c = bt_more(c.on_event(LinkEvent::Answer(true)));
    assert!(matches!(c.action(), LinkAction::Sleep(1)));
    let c = bt_more(c.on_event(LinkEvent::Done));
    let c = bt_more(c.on_event(LinkEvent::Answer(false)));
    assert!(matches!(c.action(), LinkAction::Send(s) if s == "ATZ"));
    let c = bt_more(c.on_event(LinkEvent::Replied));
    assert!(matches!(c.action(), LinkAction::Send(s) if s == "ATE0"));
    assert!(matches!(c.on_event(LinkEvent::Replied), BtStep::Done(Ok(()))));
}

#[test]
fn bluetooth_gives_up_after_its_attempts() {
    let c = BtConnect::start(&bt(Some(1), 2), true);
    let c = bt_more(c.on_event(failed("refused")));
    assert!(matches!(c.action(), LinkAction::Sleep(2)));
    let c = bt_more(c.on_event(LinkEvent::Done));
    assert_eq!(bt_error(c.on_event(LinkEvent::TimedOut)), "fatal-conn: BT connect failed after 2 attempts");
}

#[test]
fn bluetooth_waits_for_its_address_only_so_long() {
    let mut c = bt_more(BtConnect::start(&bt(None, 1), false).on_event(LinkEvent::Done));
    let mut waits = 0;
    while matches!(c.action(), LinkAction::CheckAddress) {
        c = bt_more(c.on_event(LinkEvent::Answer(true)));
        c = bt_more(c.on_event(LinkEvent::Done));
        waits += 1;
    }
    assert_eq!(waits, 6);
    assert!(matches!(c.action(), LinkAction::Send(_)));
}

#[test]
fn bluetooth_reports_what_failed() {
    let c = BtConnect::start(&bt(Some(1), 1), false);
    assert_eq!(bt_error(c.on_event(failed("no bus"))), "fatal-conn: bluer session: no bus");
    let c = bt_more(BtConnect::start(&bt(Some(1), 1), false).on_event(LinkEvent::Done));
    assert_eq!(bt_error(c.on_event(failed("denied"))), "fatal-conn: register passkey agent: denied");
    let c = bt_more(BtConnect::start(&bt(None, 1), false).on_event(LinkEvent::Done));
    let c = bt_more(c.on_event(LinkEvent::Answer(false)));
    let e = SessionError { kind: Some(ErrorKind::TimedOut), message: "timeout 'ATZ'".into() };
    assert_eq!(bt_error(c.on_event(LinkEvent::CommandFailed(e))), "fatal-conn: init step 'ATZ' failed: timeout 'ATZ'");
}

#[test]
fn usb_opens_and_initialises() {
    let a = UsbElm327Adapter::new("/dev/ttyUSB0", 115200, profile(Some(vec!["ATZ"]))).unwrap();
    assert_eq!((a.port.as_str(), a.baud), ("/dev/ttyUSB0", 115200));
    let c = UsbConnect::start(&a);
    assert!(matches!(c.action(), LinkAction::OpenPort));
    match UsbConnect::start(&a).on_event(failed("busy")) {
        UsbStep::Done(Err(e)) => assert_eq!(e.describe(), "fatal-conn: open /dev/ttyUSB0: busy"),
        _ => panic!("should have failed"),
    }
    let c = match c.on_event(LinkEvent::Done) {
        UsbStep::More(c) => c,
        _ => panic!("commands left"),
    };
    assert!(matches!(c.action(), LinkAction::Send(s) if s == "ATZ"));
    assert!(matches!(c.on_event(LinkEvent::Replied), UsbStep::Done(Ok(()))));
}

fn wican(retries: u8) -> WicanAdapter {
    WicanAdapter::new(MAC, Some(42), retries, 15).unwrap()
}

fn wican_more(step: WicanStep) -> WicanConnect {
    match step {
        WicanStep::More(c) => c,
        WicanStep::Done(r) => panic!("ended early: {r:?}"),
    }
}

fn wican_error(step: WicanStep) -> String {
    match step {
        WicanStep::Done(Err(e)) => e.describe(),
        _ => panic!("should have failed"),
    }
}

fn wican_at(retries: u8, events: Vec<LinkEvent>) -> WicanConnect {
    let mut c = WicanConnect::start(&wican(retries));
    for e in events {
        c = wican_more(c.on_event(e));
    }
    c
}

#[test]
fn wican_needs_an_address() {
    assert_eq!(WicanAdapter::new("x", None, 0, 0).unwrap_err(), "invalid WiCAN MAC 'x'");
    assert_eq!(wican(0).max_retries, 0);
}

#[test]
fn wican_finds_pairs_and_connects() {
    let c = wican_at(2, vec![LinkEvent::Done, LinkEvent::Done]);
    assert!(matches!(c.action(), LinkAction::CheckKnown));
    let c = wican_more(c.on_event(LinkEvent::Answer(false)));
    assert!(matches!(c.action(), LinkAction::Discover(15)));
    let c = wican_more(c.on_event(LinkEvent::Seen([0; 6])));
    assert!(matches!(c.action(), LinkAction::Discover(15)));
    let c = wican_more(c.on_event(LinkEvent::Seen(ADDRESS)));
    assert!(matches!(c.action(), LinkAction::OpenDevice));
    let c = wican_more(c.on_event(LinkEvent::Done));
    let c = wican_more(c.on_event(LinkEvent::Answer(false)));
    assert!(matches!(c.action(), LinkAction::RegisterAgent(42)));
    let c = wican_more(c.on_event(LinkEvent::Done));
    assert!(matches!(c.action(), LinkAction::Pair));
    let c = wican_more(c.on_event(LinkEvent::Done));
    assert!(matches!(c.action(), LinkAction::CheckConnected));
    let c = wican_more(c.on_event(LinkEvent::Answer(false)));
    assert!(matches!(c.action(), LinkAction::Connect(None)));
    assert!(matches!(c.on_event(LinkEvent::Done), WicanStep::Done(Ok(()))));
}

#[test]
fn wican_does_no_more_than_needed() {
    let c = wican_at(
        2,
        vec![LinkEvent::Done, LinkEvent::Done, LinkEvent::Answer(true), LinkEvent::Done, LinkEvent::Answer(true)],
    );
    assert!(matches!(c.on_event(LinkEvent::Answer(true)), WicanStep::Done(Ok(()))));
}

fn wican_connecting(retries: u8) -> WicanStep {
    let c = wican_at(
        retries,
        vec![LinkEvent::Done, LinkEvent::Done, LinkEvent::Answer(true), LinkEvent::Done, LinkEvent::Answer(true)],
    );
    c.on_event(LinkEvent::Answer(false))
}

#[test]
fn wican_gives_up_and_removes_the_device() {
    let c = wican_more(wican_connecting(2));
    let c = wican_more(c.on_event(failed("first")));
    assert!(matches!(c.action(), LinkAction::Sleep(10)));
    let c = wican_more(c.on_event(LinkEvent::Done));
    let c = wican_more(c.on_event(failed("second")));
    assert!(matches!(c.action(), LinkAction::Forget));
    assert_eq!(wican_error(c.on_event(failed("ignored"))), "fatal-conn: WiCAN connect exhausted retries: second");
    assert_eq!(wican_error(wican_connecting(0)), "fatal-conn: WiCAN connect exhausted retries");
}

#[test]
fn wican_reports_what_failed() {
    assert_eq!(wican_error(wican_at(1, vec![]).on_event(failed("e"))), "fatal-conn: bluer session: e");
    let c = wican_at(1, vec![LinkEvent::Done]);
    assert_eq!(wican_error(c.on_event(failed("e"))), "fatal-conn: default adapter: e");
    let searching = || wican_at(1, vec![LinkEvent::Done, LinkEvent::Done, LinkEvent::Answer(false)]);
    assert_eq!(wican_error(searching().on_event(LinkEvent::TimedOut)), "fatal-conn: WiCAN discovery timed out after 15s");
    assert_eq!(wican_error(searching().on_event(LinkEvent::Ended)), "fatal-conn: discovery stream ended");
    let c = wican_more(wican_more(searching().on_event(LinkEvent::Seen(ADDRESS))).on_event(LinkEvent::Done));
    let c = wican_more(wican_more(c.on_event(LinkEvent::Answer(false))).on_event(LinkEvent::Done));
    assert_eq!(wican_error(c.on_event(failed("e"))), "fatal-conn: pair failed: e");
}

#[test]
fn wican_characteristics_are_found() {
    assert_eq!(find_chars(&vec![1, WICAN_WRITE_UUID, WICAN_NOTIFY_UUID, WICAN_NOTIFY_UUID]), Ok((3, 1)));
    assert_eq!(find_chars(&vec![WICAN_WRITE_UUID]), Err("WiCAN notify characteristic missing".into()));
    assert_eq!(find_chars(&vec![WICAN_NOTIFY_UUID]), Err("WiCAN write characteristic missing".into()));
    assert_eq!(request_bytes(), b"autopid -d\n".to_vec());
}

fn waiting(step: ReadingStep) -> (Reading, u64) {
    match step {
        ReadingStep::Wait(r, left) => (r, left),
        ReadingStep::Done(r) => panic!("ended early: {r:?}"),
    }
}

fn reading(step: ReadingStep) -> Result<String, String> {
    match step {
        ReadingStep::Done(r) => r,
        ReadingStep::Wait(..) => panic!("should have ended"),
    }
}

#[test]
fn reading_ends_with_its_closing_brace() {
    let (r, left) = waiting(Reading::start(1, 100));
    assert_eq!(left, 1_000_000_000);
    let (r, left) = waiting(r.on_event(ReadingEvent::Chunk(b" {\"SOC\":".to_vec()), 200));
    assert_eq!(left, 999_999_900);
    assert_eq!(reading(r.on_event(ReadingEvent::Chunk(b"50}\r\n".to_vec()), 300)), Ok(" {\"SOC\":50}\r\n".into()));
    assert_eq!(reading_json(" {\"SOC\":50}\r\n"), "{\"SOC\":50}");
}

#[test]
fn reading_ends_with_the_time_or_the_stream() {
    assert_eq!(reading(Reading::start(0, 0)), Err("empty WiCAN response".into()));
    let (r, _) = waiting(Reading::start(1, 0));
    assert_eq!(reading(r.on_event(ReadingEvent::Ended, 1)), Err("empty WiCAN response".into()));
    let (r, _) = waiting(Reading::start(1, 0));
    assert_eq!(reading(r.on_event(ReadingEvent::Chunk(b"abc".to_vec()), 1_000_000_000)), Ok("abc".into()));
    let (r, _) = waiting(Reading::start(1, 0));
    let (r, _) = waiting(r.on_event(ReadingEvent::Chunk(vec![0xC3]), 1));
    assert_eq!(reading(r.on_event(ReadingEvent::TimedOut, 2)), Err("WiCAN response not utf-8: incomplete utf-8 byte sequence from index 0".into()));
    let (r, _) = waiting(Reading::start(1, 0));
    let (r, _) = waiting(r.on_event(ReadingEvent::Chunk(vec![0xC3]), 1));
    assert_eq!(reading(r.on_event(ReadingEvent::Chunk(vec![0xA9, b'}']), 2)), Ok("é}".into()));
}

#[test]
fn reading_prefers_the_displayed_charge() {
    let s = |bits: u32| Single { bits };
    let m = metrics_of(&WicanResponse { soc: s(1), soc_d: Some(s(2)), outdoor_temperature: Some(s(3)) });
    assert_eq!(m.get("battery_level_percentage"), Some(&Quantity::Plain(s(2))));
    assert_eq!(m.get("external_temp_celsius"), Some(&Quantity::Plain(s(3))));
    let m = metrics_of(&WicanResponse { soc: s(1), soc_d: None, outdoor_temperature: None });
    assert_eq!(m.len(), 1);
    assert_eq!(m.get("battery_level_percentage"), Some(&Quantity::Plain(s(1))));
}

#[test]
fn malformed_reading_is_transient() {
    let e = judge_fault(ReadingFault::Malformed { text: "{".into(), cause: "EOF".into() });
    assert_eq!(e.describe(), "transient: WiCAN JSON parse failed: '{': EOF");
    let e = judge_fault(ReadingFault::Lost("empty WiCAN response".into()));
    assert_eq!(e.describe(), "fatal-conn: empty WiCAN response");
}

#[test]
fn pairing_needs_a_bluetooth_device() {
    let mut d = DeviceConfig { kind: DeviceType::Usb, ..Default::default() };
    assert_eq!(pair_target(&d), Err("`pair` is not applicable for device.type = 'usb'".into()));
    d.kind = DeviceType::Wican;
    assert_eq!(pair_target(&d), Err("[device].bt_mac is required".into()));
    d.bt_mac = Some("zz".into());
    assert_eq!(pair_target(&d), Err("invalid MAC 'zz'".into()));
    d.bt_mac = Some(MAC.into());
    assert_eq!(pair_target(&d), Ok(ADDRESS));
}

#[test]
fn passkeys_are_typed_in() {
    assert_eq!(read_passkey(" 1234\n"), Ok(1234));
    assert_eq!(read_passkey("+7"), Ok(7));
    let refused = |cause: &str| Err(format!("passkey must be a number: {cause}"));
    assert_eq!(read_passkey("4294967296"), refused("number too large to fit in target type"));
    assert_eq!(read_passkey(" -1 "), refused("invalid digit found in string"));
    assert_eq!(read_passkey("\n"), refused("cannot parse integer from empty string"));
    for yes in ["y\n", "Y", " yes "] {
        assert!(wants_save(yes));
    }
    for no in ["", "n", "YES", "Yes", "y y"] {
        assert!(!wants_save(no));
    }
}

fn pair_more(step: PairStep) -> Pairing {
    match step {
        PairStep::More(p) => p,
        PairStep::Done(r) => panic!("ended early: {r:?}"),
    }
}

fn pair_done(step: PairStep) -> Result<PairOutcome, String> {
    match step {
        PairStep::Done(r) => r,
        PairStep::More(_) => panic!("should have ended"),
    }
}

fn pair_at(events: Vec<LinkEvent>) -> Pairing {
    let mut p = Pairing::start(ADDRESS, 9);
    for e in events {
        p = pair_more(p.on_event(e));
    }
    p
}

#[test]
fn pairing_searches_and_pairs() {
    let p = pair_at(vec![LinkEvent::Done, LinkEvent::Done, LinkEvent::Done, LinkEvent::Answer(false)]);
    assert!(matches!(p.action(), LinkAction::Discover(15)));
    let untold = pair_at(vec![LinkEvent::Done, LinkEvent::Done, LinkEvent::Done, failed("untold")]);
    assert!(matches!(untold.action(), LinkAction::Discover(15)));
    let p = pair_more(p.on_event(LinkEvent::Seen(ADDRESS)));
    let p = pair_more(p.on_event(LinkEvent::Done));
    assert!(matches!(p.action(), LinkAction::CheckPaired));
    assert_eq!(pair_done(p.on_event(LinkEvent::Answer(true))), Ok(PairOutcome::AlreadyPaired));
    let p = pair_more(p.on_event(failed("unknown")));
    assert!(matches!(p.action(), LinkAction::Pair));
    assert_eq!(pair_done(p.on_event(failed("e"))), Err("pair failed: e".into()));
    assert_eq!(pair_done(p.on_event(LinkEvent::Done)), Ok(PairOutcome::Paired));
}

#[test]
fn pairing_reports_what_failed() {
    let p = pair_at(vec![]);
    assert!(matches!(p.action(), LinkAction::OpenSession));
    assert_eq!(pair_done(p.on_event(failed("e"))), Err("bluer Session::new: e".into()));
    let p = pair_at(vec![LinkEvent::Done]);
    assert!(matches!(p.action(), LinkAction::RegisterAgent(9)));
    assert_eq!(pair_done(p.on_event(failed("e"))), Err("register passkey agent: e".into()));
    let p = pair_at(vec![LinkEvent::Done, LinkEvent::Done]);
    assert_eq!(pair_done(p.on_event(failed("e"))), Err("default adapter: e".into()));
    let p = pair_at(vec![LinkEvent::Done, LinkEvent::Done, LinkEvent::Done, LinkEvent::Answer(false)]);
    let lost = Err("discovery timed out; ensure the device is powered and advertising".to_string());
    assert_eq!(pair_done(p.on_event(LinkEvent::Ended)), lost);
    assert_eq!(pair_done(p.on_event(LinkEvent::TimedOut)), lost);
    assert_eq!(pair_done(p.on_event(failed("e"))), Err("e".into()));
    let p = pair_at(vec![LinkEvent::Done, LinkEvent::Done, LinkEvent::Done, LinkEvent::Answer(true)]);
    assert_eq!(pair_done(p.on_event(failed("e"))), Err("device handle: e".into()));
}

#[test]
fn write_passkey_preserves_comments_and_formatting() {
    let raw = "# leading comment\n[device]\ntype   = \"bluetooth\"   # device type\nbt_mac = \"AA:BB:CC:DD:EE:FF\"\n";

    let after = write_passkey(raw, "bt_passkey", 1234).unwrap();

    assert!(after.contains("# leading comment"), "leading comment lost");
    assert!(after.contains("# device type"), "inline comment lost");
    assert!(after.contains("bt_passkey = 1234"), "key not written");
}

#[test]
fn write_passkey_adds_the_section() {
    let after = write_passkey("# nothing here\n", PASSKEY_KEY, 7).unwrap();
    assert!(after.contains("[device]\nbt_passkey = 7\n"));
    let doc = after.parse::<DocumentMut>().unwrap();
    assert_eq!(doc["device"]["bt_passkey"].as_integer(), Some(7));
}

#[test]
fn write_passkey_replaces_the_old_one() {
    let after = write_passkey("[device]\nbt_passkey = 1\nusb_baud = 2\n", PASSKEY_KEY, u32::MAX).unwrap();
    assert_eq!(after, "[device]\nbt_passkey = 4294967295\nusb_baud = 2\n");
    let after = write_passkey("device = { type = \"usb\" }\n", PASSKEY_KEY, 3).unwrap();
    let doc = after.parse::<DocumentMut>().unwrap();
    assert_eq!(doc["device"]["bt_passkey"].as_integer(), Some(3));
    assert_eq!(doc["device"]["type"].as_str(), Some("usb"));
}

#[test]
fn write_passkey_refuses_what_it_cannot_edit() {
    assert!(matches!(write_passkey("[device", PASSKEY_KEY, 1), Err(WriteError::Syntax(_))));
    assert!(matches!(write_passkey("device = 5\n", PASSKEY_KEY, 1), Err(WriteError::NotATable)));
    assert!(matches!(write_passkey("[[device]]\n", PASSKEY_KEY, 1), Err(WriteError::NotATable)));
}

#[test]
fn set_passkey_edits_the_document() {
    let mut doc = "[daemon]\ncycle_failure_limit = 4\n".parse::<DocumentMut>().unwrap();
    set_passkey(&mut doc, PASSKEY_KEY, 11).unwrap();
    assert_eq!(doc["device"]["bt_passkey"].as_integer(), Some(11));
    assert_eq!(doc["daemon"]["cycle_failure_limit"].as_integer(), Some(4));
    let mut odd = "device = true\n".parse::<DocumentMut>().unwrap();
    assert!(set_passkey(&mut odd, PASSKEY_KEY, 11).is_err());
    assert_eq!(odd.to_string(), "device = true\n");
}
