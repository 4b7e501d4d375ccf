use aa_proxy_obd::adapter::broadcast::{extract_frames, BroadcastMonitor, ListenStep};
use aa_proxy_obd::adapter::errors::AdapterError;
use aa_proxy_obd::adapter::poll::{judge_failure, PollCycle, PollStep, SourceResult};
use aa_proxy_obd::adapter::run::{PollRun, RunStep};
use aa_proxy_obd::adapter::session::{
    command_wire, judge_reply, ByteOutcome, ErrorKind, Fault, LineReader, LineStep, ReplyOutcome,
    SessionAction, SessionError, SessionEvent,
};
use aa_proxy_obd::adapter::uds::{LongStep, MultiframePoll, UdsPoll, UdsStep};
use aa_proxy_obd::metrics::{Metrics, Quantity, Single};
use aa_proxy_obd::profile::{
    BroadcastFrame, BroadcastSource, FieldSpec, Source, UdsPidSource, VehicleProfile,
};

fn single(v: f32) -> Single {
    Single { bits: v.to_bits() }
}

fn field(name: &str, byte_index: i32) -> FieldSpec {
    FieldSpec {
        name: name.into(),
        byte_index: Some(byte_index),
        length: Some(1),
        bit_offset: None,
        bit_length: None,
        multiplier: single(1.0),
        offset: single(0.0),
        signed: None,
    }
}

fn scaled(raw: i32) -> Quantity {
    Quantity::Scaled { raw, multiplier: single(1.0), offset: single(0.0) }
}

fn uds(pre: Option<&str>) -> UdsPidSource {
    UdsPidSource {
        ecu_tx: "7E4".into(),
        ecu_rx: "7EC".into(),
        pid: "220105".into(),
        pre_request: pre.map(|s| s.to_string()),
        multiframe: false,
        fields: vec![field("soc", 0)],
    }
}

fn io(kind: ErrorKind, message: &str) -> SessionError {
    SessionError { kind: Some(kind), message: message.into() }
}

fn fault(kind: ErrorKind, message: &str) -> Fault {
    Fault { kind, message: message.into() }
}

fn sent(a: SessionAction) -> String {
    match a {
        SessionAction::Send(c) => c,
        other => panic!("expected a command: {other:?}"),
    }
}

fn written(a: SessionAction) -> Vec<u8> {
    match a {
        SessionAction::Write(b) => b,
        other => panic!("expected a write: {other:?}"),
    }
}

#[test]
fn commands_end_in_a_carriage_return() {
    assert_eq!(command_wire("ATZ"), b"ATZ\r".to_vec());
    assert_eq!(command_wire("é"), vec![0xC3, 0xA9, 0x0D]);
}

#[test]
fn replies_are_judged() {
    let ok = judge_reply("ATZ", ReplyOutcome::Bytes(b"ELM327 v1.5\r>".to_vec())).unwrap();
    assert_eq!(ok, b"ELM327 v1.5\r>".to_vec());

    let e = judge_reply("X", ReplyOutcome::Bytes(b"NO DATA\r>".to_vec())).unwrap_err();
    assert_eq!((e.kind, e.message.as_str()), (Some(ErrorKind::Other), "no data"));
    let e = judge_reply("X", ReplyOutcome::Bytes(b"7F 22 12\r>".to_vec())).unwrap_err();
    assert_eq!((e.kind, e.message.as_str()), (Some(ErrorKind::Other), "Service Not Supported"));
    let e = judge_reply("X", ReplyOutcome::Bytes(vec![])).unwrap_err();
    assert_eq!((e.kind, e.message.as_str()), (Some(ErrorKind::Other), "0 bytes for 'X'"));
    let e = judge_reply("X", ReplyOutcome::TimedOut).unwrap_err();
    assert_eq!((e.kind, e.message.as_str()), (Some(ErrorKind::TimedOut), "timeout 'X'"));
    let e = judge_reply("X", ReplyOutcome::WriteFailed(fault(ErrorKind::BrokenPipe, "gone"))).unwrap_err();
    assert_eq!((e.kind, e.message.as_str()), (Some(ErrorKind::BrokenPipe), "write 'X': gone"));
    let e = judge_reply("X", ReplyOutcome::ReadFailed(fault(ErrorKind::NotConnected, "off"))).unwrap_err();
    assert_eq!((e.kind, e.message.as_str()), (Some(ErrorKind::NotConnected), "read 'X': off"));
}

fn read_line(bytes: &[u8], end: ByteOutcome) -> Result<Vec<u8>, Fault> {
    let mut reader = LineReader::new();
    for b in bytes {
        match reader.feed(ByteOutcome::Byte(*b)) {
            LineStep::More(r) => reader = r,
            LineStep::Done(r) => return r,
        }
    }
    match reader.feed(end) {
        LineStep::More(_) => panic!("the line should have ended"),
        LineStep::Done(r) => r,
    }
}

#[test]
fn lines_skip_leading_terminators() {
    assert_eq!(read_line(b"\r\n62 01\r05", ByteOutcome::End).unwrap(), b"62 01".to_vec());
    assert_eq!(read_line(b"62", ByteOutcome::End).unwrap(), b"62".to_vec());
    assert_eq!(read_line(b"", ByteOutcome::End).unwrap(), Vec::<u8>::new());
    assert_eq!(read_line(b"6", ByteOutcome::TimedOut).unwrap(), b"6".to_vec());
    let f = read_line(b"\r", ByteOutcome::TimedOut).unwrap_err();
    assert_eq!((f.kind, f.message.as_str()), (ErrorKind::TimedOut, "line read timeout"));
    let f = read_line(b"62", ByteOutcome::Failed(fault(ErrorKind::BrokenPipe, "x"))).unwrap_err();
    assert_eq!(f.kind, ErrorKind::BrokenPipe);
}

/// Answers every command well but those at the places in `failing`; the last
/// one with the payload.
fn run_uds(source: &UdsPidSource, failing: &[usize]) -> (Vec<String>, Result<Vec<u8>, SessionError>) {
    let mut commands = vec![];
    let mut poll = UdsPoll::new(source);
    loop {
        let cmd = sent(poll.action());
        let reply = if failing.contains(&commands.len()) {
            Err(io(ErrorKind::Other, "bad"))
        } else if cmd == "220105" {
            Ok(b"62 01 05 2A\r>".to_vec())
        } else {
            Ok(b"OK\r>".to_vec())
        };
        commands.push(cmd);
        match poll.replied(reply) {
            UdsStep::More(p) => poll = p,
            UdsStep::Done(r) => return (commands, r),
        }
    }
}

#[test]
fn uds_request_sets_up_and_asks() {
    let (commands, r) = run_uds(&uds(None), &[]);
    assert_eq!(commands, vec!["ATSH7E4", "ATCRA7EC", "ATFCSH7E4", "ATFCSD300000", "ATFCSM1", "220105"]);
    assert_eq!(r.unwrap(), vec![0x62, 0x01, 0x05, 0x2A]);
}

#[test]
fn uds_request_tolerates_its_pre_request() {
    let (commands, r) = run_uds(&uds(Some("1003")), &[5]);
    assert_eq!(commands[5], "1003");
    assert_eq!(commands.len(), 7);
    assert_eq!(r.unwrap(), vec![0x62, 0x01, 0x05, 0x2A]);
}

#[test]
fn uds_request_ends_with_the_first_failure() {
    let (commands, r) = run_uds(&uds(None), &[2]);
    assert_eq!(commands.len(), 3);
    assert_eq!(r.unwrap_err().message, "bad");
    let (commands, r) = run_uds(&uds(Some("1003")), &[6]);
    assert_eq!(commands.len(), 7);
    assert!(r.is_err());
}

fn long_more(step: LongStep) -> MultiframePoll {
    match step {
        LongStep::More(p) => p,
        LongStep::Done(r) => panic!("ended early: {r:?}"),
    }
}

fn long_reading() -> MultiframePoll {
    let mut p = MultiframePoll::new(&uds(None)).unwrap();
    for want in ["ATSH7e4", "ATCRA7ec", "ATFCSH7e4", "ATFCSD300000", "ATFCSM1", "ATH0"] {
        assert_eq!(sent(p.action()), want);
        p = long_more(p.on_event(SessionEvent::Replied(Ok(vec![]))));
    }
    assert_eq!(written(p.action()), b"220105\r".to_vec());
    long_more(p.on_event(SessionEvent::Written(Ok(()))))
}

fn long_line(p: MultiframePoll, line: &[u8]) -> MultiframePoll {
    assert!(matches!(p.action(), SessionAction::ReadLine(500)));
    long_more(p.on_event(SessionEvent::Line(Ok(line.to_vec()))))
}

fn long_restore(mut p: MultiframePoll) -> Result<Vec<u8>, SessionError> {
    for want in ["ATH0", "ATS1"] {
        assert_eq!(sent(p.action()), want);
        p = long_more(p.on_event(SessionEvent::Replied(Err(io(ErrorKind::Other, "ignored")))));
    }
    assert_eq!(sent(p.action()), "ATCRA");
    match p.on_event(SessionEvent::Replied(Ok(vec![]))) {
        LongStep::Done(r) => r,
        LongStep::More(_) => panic!("should have ended"),
    }
}

#[test]
fn long_request_sends_flow_control_once_and_assembles() {
    let p = long_line(long_reading(), b"10 0A 62 01 05 11");
    assert_eq!(written(p.action()), b"300200\r".to_vec());
    let p = long_more(p.on_event(SessionEvent::Written(Ok(()))));
    let p = long_line(p, b"21 22 33 44");
    let p = long_line(p, b">");
    assert_eq!(
        long_restore(p).unwrap(),
        vec![0x10, 0x0A, 0x62, 0x01, 0x05, 0x11, 0x22, 0x33, 0x44]
    );
}

#[test]
fn long_request_ends_at_a_silent_line() {
    let p = long_more(long_reading().on_event(SessionEvent::Line(Err(fault(ErrorKind::TimedOut, "t")))));
    assert_eq!(long_restore(p).unwrap_err().message, "multiframe assembly failed");
}

#[test]
fn long_request_reads_a_bounded_number_of_lines() {
    let mut p = long_line(long_reading(), b"FF FF");
    p = long_more(p.on_event(SessionEvent::Written(Ok(()))));
    for _ in 0..24 {
        p = long_line(p, b"ZZ");
    }
    assert_eq!(long_restore(p).unwrap(), vec![0xFF, 0xFF]);
}

#[test]
fn long_request_fails_on_an_error_report() {
    let p = long_line(long_reading(), b"7F 22 31");
    assert_eq!(sent(p.action()), "ATH0");
    match p.on_event(SessionEvent::Replied(Ok(vec![]))) {
        LongStep::Done(Err(e)) => assert_eq!(e.message, "UDS error response: 7F 22 31"),
        _ => panic!("should have failed"),
    }
}

#[test]
fn long_request_reports_faults() {
    let mut source = uds(None);
    source.ecu_rx = "xyz".into();
    assert_eq!(MultiframePoll::new(&source).err().unwrap().message, "ecu_rx not hex: invalid digit found in string");
    source.ecu_tx = "".into();
    assert_eq!(MultiframePoll::new(&source).err().unwrap().message, "ecu_tx not hex: cannot parse integer from empty string");

    let p = long_more(long_reading().on_event(SessionEvent::Line(Err(fault(ErrorKind::BrokenPipe, "gone")))));
    match p.on_event(SessionEvent::Replied(Ok(vec![]))) {
        LongStep::Done(Err(e)) => {
            assert_eq!((e.kind, e.message.as_str()), (None, "multiframe read: gone"))
        }
        _ => panic!("should have failed"),
    }
    let p = long_line(long_reading(), b"62 01");
    match p.on_event(SessionEvent::Written(Err(fault(ErrorKind::BrokenPipe, "gone")))) {
        LongStep::Done(Err(e)) => {
            assert_eq!((e.kind, e.message.as_str()), (Some(ErrorKind::BrokenPipe), "FC frame write: gone"))
        }
        _ => panic!("should have failed"),
    }
}

fn broadcast(stop_when: &[&str], deadline_ms: u64, idle_timeout_ms: u64) -> BroadcastSource {
    BroadcastSource {
        init: vec!["ATH1".into()],
        command: "ATMA".into(),
        deadline_ms,
        idle_timeout_ms,
        stop_when: stop_when.iter().map(|s| s.to_string()).collect(),
        frames: vec![
            BroadcastFrame { can_id: "673".into(), fields: vec![field("a", 0)] },
            BroadcastFrame { can_id: "656".into(), fields: vec![field("b", 1)] },
        ],
    }
}

fn listen_more(step: ListenStep) -> BroadcastMonitor {
    match step {
        ListenStep::More(p) => p,
        ListenStep::Done(_) => panic!("ended early"),
    }
}

fn listening(source: &BroadcastSource) -> BroadcastMonitor {
    let p = BroadcastMonitor::new(source);
    assert_eq!(sent(p.action()), "ATH1");
    let p = listen_more(p.on_event(SessionEvent::Replied(Err(io(ErrorKind::Other, "ignored"))), 0));
    assert_eq!(written(p.action()), b"ATMA\r".to_vec());
    listen_more(p.on_event(SessionEvent::Written(Ok(())), 0))
}

fn hear<'a>(p: BroadcastMonitor<'a>, line: &[u8], now: u128) -> BroadcastMonitor<'a> {
    assert!(matches!(p.action(), SessionAction::ReadLine(200)));
    listen_more(p.on_event(SessionEvent::Line(Ok(line.to_vec())), now))
}

fn stop_listening(p: BroadcastMonitor) -> Metrics {
    assert_eq!(written(p.action()), b"\r".to_vec());
    let p = listen_more(p.on_event(SessionEvent::Written(Ok(())), 0));
    assert!(matches!(p.action(), SessionAction::ReadByte(50)));
    let p = listen_more(p.on_event(SessionEvent::Byte(ByteOutcome::Byte(b'7')), 0));
    let p = listen_more(p.on_event(SessionEvent::Byte(ByteOutcome::Byte(b'>')), 0));
    assert_eq!(sent(p.action()), "ATCRA");
    let p = listen_more(p.on_event(SessionEvent::Replied(Ok(vec![])), 0));
    assert_eq!(sent(p.action()), "ATH0");
    match p.on_event(SessionEvent::Replied(Ok(vec![])), 0) {
        ListenStep::Done(r) => r.unwrap(),
        ListenStep::More(_) => panic!("should have ended"),
    }
}

#[test]
fn listening_stops_when_the_wanted_frames_came() {
    let source = broadcast(&["a", "b"], 6000, 600);
    let p = hear(listening(&source), b"673 11 22", 1);
    let p = hear(p, b"673 12 22", 2);
    let p = hear(p, b"656 0A 0B", 3);
    let m = stop_listening(p);
    assert_eq!(m.get("a"), Some(&scaled(0x12)));
    assert_eq!(m.get("b"), Some(&scaled(0x0B)));
}

#[test]
fn listening_stops_at_its_deadline() {
    let source = broadcast(&[], 1, 600);
    let p = hear(listening(&source), b"673 11 22", 999_999);
    let p = hear(p, b"nothing", 1_000_000);
    assert_eq!(stop_listening(p).get("a"), Some(&scaled(0x11)));
}

#[test]
fn listening_stops_after_silence() {
    let source = broadcast(&["a"], 6000, 401);
    let mut p = listening(&source);
    for _ in 0..2 {
        p = listen_more(p.on_event(SessionEvent::Line(Err(fault(ErrorKind::TimedOut, "t"))), 1));
        assert!(matches!(p.action(), SessionAction::ReadLine(200)));
    }
    p = listen_more(p.on_event(SessionEvent::Line(Err(fault(ErrorKind::TimedOut, "t"))), 1));
    assert!(stop_listening(p).is_empty());
}

#[test]
fn listening_fails_with_the_stream() {
    let source = broadcast(&[], 6000, 600);
    match listening(&source).on_event(SessionEvent::Line(Err(fault(ErrorKind::BrokenPipe, "gone"))), 1) {
        ListenStep::Done(Err(e)) => {
            assert_eq!((e.kind, e.message.as_str()), (None, "broadcast read: gone"))
        }
        _ => panic!("should have failed"),
    }
    let p = BroadcastMonitor::new(&source);
    let p = listen_more(p.on_event(SessionEvent::Replied(Ok(vec![])), 0));
    match p.on_event(SessionEvent::Written(Err(fault(ErrorKind::BrokenPipe, "gone"))), 0) {
        ListenStep::Done(Err(e)) => assert_eq!(e.message, "broadcast command write: gone"),
        _ => panic!("should have failed"),
    }
}

#[test]
fn frames_count_by_their_latest_payload() {
    let source = broadcast(&[], 6000, 600);
    let m = extract_frames(&source.frames, &vec!["656 01 02".into(), "656 03 04".into(), "656 05".into()]);
    // The latest frame is too short for the field.
    assert!(m.is_empty());
}

fn profile() -> VehicleProfile {
    VehicleProfile {
        name: "test".into(),
        elm327: None,
        sources: vec![Source::UdsPid(uds(None)), Source::Broadcast(broadcast(&[], 6000, 600))],
    }
}

#[test]
fn cycle_collects_from_every_source() {
    let profile = profile();
    let c = match PollCycle::start(&profile, true) {
        PollStep::More(c) => c,
        PollStep::Done(_) => panic!("sources left"),
    };
    assert!(matches!(c.source(), Source::UdsPid(_)));
    let c = match c.finish_source(SourceResult::Payload(Ok(vec![0x62, 1, 5, 42]))) {
        PollStep::More(c) => c,
        PollStep::Done(_) => panic!("sources left"),
    };
    let mut heard = Metrics::new();
    heard.insert("a".into(), scaled(7));
    match c.finish_source(SourceResult::Heard(Ok(heard))) {
        PollStep::Done(Ok(m)) => {
            assert_eq!(m.len(), 2);
            assert_eq!(m.get("soc"), Some(&scaled(42)));
            assert_eq!(m.get("a"), Some(&scaled(7)));
        }
        _ => panic!("should have ended"),
    }
}

#[test]
fn cycle_needs_a_connection() {
    match PollCycle::start(&profile(), false) {
        PollStep::Done(Err(e)) => assert_eq!(e.describe(), "fatal-conn: not connected"),
        _ => panic!("should have failed"),
    }
}

#[test]
fn failures_are_judged_by_kind() {
    assert!(matches!(judge_failure(io(ErrorKind::AddrNotAvailable, "x")), Some(AdapterError::Sleeping)));
    for kind in [ErrorKind::BrokenPipe, ErrorKind::TimedOut, ErrorKind::NotConnected] {
        match judge_failure(io(kind, "why")) {
            Some(AdapterError::FatalConn(m)) => assert_eq!(m, "why"),
            _ => panic!("should be fatal"),
        }
    }
    assert!(judge_failure(io(ErrorKind::Other, "no data")).is_none());
    assert!(judge_failure(SessionError { kind: None, message: "x".into() }).is_none());
}

#[test]
fn failed_sources_add_nothing() {
    let profile = profile();
    let c = match PollCycle::start(&profile, true) {
        PollStep::More(c) => c,
        PollStep::Done(_) => panic!("sources left"),
    };
    let c = match c.finish_source(SourceResult::Payload(Err(io(ErrorKind::Other, "no data")))) {
        PollStep::More(c) => c,
        PollStep::Done(_) => panic!("the cycle goes on"),
    };
    match c.finish_source(SourceResult::Heard(Err(io(ErrorKind::BrokenPipe, "gone")))) {
        PollStep::Done(Ok(m)) => assert!(m.is_empty()),
        _ => panic!("should have ended"),
    }
}

#[test]
fn adapter_errors_describe_themselves() {
    assert_eq!(AdapterError::Transient("a".into()).describe(), "transient: a");
    assert_eq!(AdapterError::Sleeping.describe(), "sleeping");
    assert_eq!(AdapterError::Permanent("c".into()).describe(), "permanent: c");
}

/// Polls a profile; every command is answered with `reply`, every write goes
/// well and every line times out.
fn run_profile(profile: &VehicleProfile, reply: &[u8]) -> (Vec<String>, Result<Metrics, AdapterError>) {
    let mut commands = vec![];
    let mut step = PollRun::start(profile, true);
    loop {
        let run = match step {
            RunStep::Done(r) => return (commands, r),
            RunStep::More(run) => run,
        };
        let event = match run.action() {
            SessionAction::Send(c) => {
                commands.push(c);
                SessionEvent::Replied(Ok(reply.to_vec()))
            }
            SessionAction::Write(_) => SessionEvent::Written(Ok(())),
            SessionAction::ReadLine(_) => SessionEvent::Line(Err(fault(ErrorKind::TimedOut, "t"))),
            SessionAction::ReadByte(_) => SessionEvent::Byte(ByteOutcome::End),
        };
        step = run.on_event(event, 0);
    }
}

#[test]
fn poll_runs_through_all_sources() {
    let (commands, r) = run_profile(&profile(), b"62 01 05 2A\r>");
    assert_eq!(
        commands,
        vec![
            "ATSH7E4", "ATCRA7EC", "ATFCSH7E4", "ATFCSD300000", "ATFCSM1", "220105", "ATH1", "ATCRA", "ATH0"
        ]
    );
    let m = r.unwrap();
    assert_eq!(m.len(), 1);
    assert_eq!(m.get("soc"), Some(&scaled(0x2A)));
}

#[test]
fn poll_uses_long_requests_where_asked() {
    let mut p = profile();
    p.sources.truncate(1);
    if let Source::UdsPid(u) = &mut p.sources[0] {
        u.multiframe = true;
    }
    let (commands, r) = run_profile(&p, b"OK");
    assert_eq!(commands[0], "ATSH7e4");
    assert_eq!(commands.last().unwrap(), "ATCRA");
    assert!(r.unwrap().is_empty());
}

#[test]
fn poll_passes_over_a_source_that_cannot_be_asked() {
    let mut p = profile();
    if let Source::UdsPid(u) = &mut p.sources[0] {
        u.multiframe = true;
        u.ecu_tx = "no hex".into();
    }
    let (commands, r) = run_profile(&p, b"OK");
    assert_eq!(commands[0], "ATH1");
    assert!(r.unwrap().is_empty());
    p.sources.truncate(1);
    let (commands, r) = run_profile(&p, b"OK");
    assert!(commands.is_empty());
    assert!(r.unwrap().is_empty());
}

#[test]
fn poll_ends_with_a_lost_connection() {
    let profile = profile();
    let run = match PollRun::start(&profile, true) {
        RunStep::More(run) => run,
        RunStep::Done(_) => panic!("sources left"),
    };
    match run.on_event(SessionEvent::Replied(Err(io(ErrorKind::AddrNotAvailable, "x"))), 0) {
        RunStep::Done(Err(AdapterError::Sleeping)) => {}
        _ => panic!("the vehicle should be asleep"),
    }
    assert!(matches!(PollRun::start(&profile, false), RunStep::Done(Err(AdapterError::FatalConn(_)))));
}
