//! UDS requests: the command sequences that ask for a PID.

use crate::adapter::elm327::{
    assemble_iso_tp, assembled, byte_views, get_payload, lossy, lossy_text, payload_of,
    raw_lines_bytes, texts,
};
use crate::adapter::session::{
    command_wire, reply_model, wire, ActionModel, ErrorKind, ErrorModel, EventModel, Fault,
    SessionAction, SessionError, SessionEvent,
};
use crate::numbers::{format_hex, hex_error, hex_fault, lower_hex, parse_hex_u32, parsed};
use crate::profile::UdsPidSource;
use crate::text::{chars_of, found, join, mentions, string_of, trim, trimmed};
use vstd::prelude::*;
use vstd::utf8::encode_utf8;

verus! {

/// The commands of a single-frame request: headers and flow control, the
/// optional preparing request, and the PID.
pub open spec fn uds_commands(uds: UdsPidSource) -> Seq<Seq<char>> {
    let setup = seq![
        "ATSH"@ + uds.ecu_tx@,
        "ATCRA"@ + uds.ecu_rx@,
        "ATFCSH"@ + uds.ecu_tx@,
        "ATFCSD300000"@,
        "ATFCSM1"@,
    ];
    match uds.pre_request {
        Some(p) => setup + seq![p@, uds.pid@],
        None => setup + seq![uds.pid@],
    }
}

/// A single-frame request under way.
pub struct UdsModel {
    pub commands: Seq<Seq<char>>,
    /// The command whose failure does not matter, if there is one.
    pub tolerated: Option<int>,
    /// The command whose reply is awaited.
    pub at: int,
}

/// What follows a reply.
pub enum UdsNext {
    More(UdsModel),
    Done(Result<Seq<u8>, ErrorModel>),
}

/// The request before its first command.
pub open spec fn uds_start(uds: UdsPidSource) -> UdsModel {
    UdsModel {
        commands: uds_commands(uds),
        tolerated: if uds.pre_request is Some {
            Some(5int)
        } else {
            None
        },
        at: 0,
    }
}

/// A reply moves on to the next command; the last one carries the payload. A
/// failure ends the request unless it is the tolerated one.
pub open spec fn uds_next(m: UdsModel, reply: Result<Seq<u8>, ErrorModel>) -> UdsNext {
    if m.at == m.commands.len() - 1 {
        UdsNext::Done(
            match reply {
                Ok(raw) => Ok(payload_of(lossy_text(raw))),
                Err(e) => Err(e),
            },
        )
    } else if reply is Ok || m.tolerated == Some(m.at) {
        UdsNext::More(UdsModel { at: m.at + 1, ..m })
    } else {
        UdsNext::Done(Err(reply->Err_0))
    }
}

/// A single-frame request.
pub struct UdsPoll {
    commands: Vec<String>,
    tolerated: Option<usize>,
    at: usize,
}

/// What follows a reply to a single-frame request.
pub enum UdsStep {
    /// Send the next command.
    More(UdsPoll),
    /// The payload, or why there is none.
    Done(Result<Vec<u8>, SessionError>),
}

impl UdsStep {
    pub open spec fn model(self) -> UdsNext {
        match self {
            UdsStep::More(p) => UdsNext::More(p@),
            UdsStep::Done(r) => UdsNext::Done(reply_model(r)),
        }
    }
}

impl View for UdsPoll {
    type V = UdsModel;

    closed spec fn view(&self) -> UdsModel {
        UdsModel {
            commands: texts(self.commands@),
            tolerated: match self.tolerated {
                Some(i) => Some(i as int),
                None => None,
            },
            at: self.at as int,
        }
    }
}

impl UdsModel {
    /// The awaited command is one of the request's.
    pub open spec fn wf(self) -> bool {
        0 <= self.at < self.commands.len()
    }
}

impl UdsPoll {
    /// Starts a single-frame request.
    pub fn new(uds: &UdsPidSource) -> (r: UdsPoll)
        ensures
            r@ == uds_start(*uds),
            r@.wf(),
    {
        let mut commands: Vec<String> = Vec::new();
        commands.push(join("ATSH", uds.ecu_tx.as_str()));
        commands.push(join("ATCRA", uds.ecu_rx.as_str()));
        commands.push(join("ATFCSH", uds.ecu_tx.as_str()));
        commands.push("ATFCSD300000".to_owned());
        commands.push("ATFCSM1".to_owned());
        let tolerated: Option<usize> = match &uds.pre_request {
            Some(p) => {
                commands.push(p.clone());
                Some(5)
            },
            None => None,
        };
        commands.push(uds.pid.clone());
        assert(texts(commands@) == uds_commands(*uds));
        UdsPoll { commands, tolerated, at: 0 }
    }

    /// The command to send now.
    pub fn action(&self) -> (r: SessionAction)
        requires
            self@.wf(),
        ensures
            r@ == ActionModel::Send(self@.commands[self@.at]),
    {
        SessionAction::Send(self.commands[self.at].clone())
    }

    /// Takes in the reply to the command.
    pub fn replied(self, reply: Result<Vec<u8>, SessionError>) -> (r: UdsStep)
        requires
            self@.wf(),
        ensures
            r.model() == uds_next(self@, reply_model(reply)),
            r is More ==> r->More_0@.wf(),
    {
        let tolerant = match self.tolerated {
            Some(i) => i == self.at,
            None => false,
        };
        if self.at == self.commands.len() - 1 {
            return UdsStep::Done(
                match reply {
                    Ok(raw) => Ok(get_payload(lossy(&raw).as_str())),
                    Err(e) => Err(e),
                },
            );
        }
        match reply {
            Err(e) => {
                if !tolerant {
                    return UdsStep::Done(Err(e));
                }
            },
            Ok(_) => {},
        }
        UdsStep::More(
            UdsPoll { commands: self.commands, tolerated: self.tolerated, at: self.at + 1 },
        )
    }
}

/// What a request comes to on a sequence of replies, `None` while replies are
/// missing.
pub open spec fn uds_outcome(m: UdsModel, replies: Seq<Result<Seq<u8>, ErrorModel>>) -> Option<
    Result<Seq<u8>, ErrorModel>,
>
    decreases replies.len(),
{
    if replies.len() == 0 {
        None
    } else {
        match uds_next(m, replies[0]) {
            UdsNext::More(n) => uds_outcome(n, replies.drop_first()),
            UdsNext::Done(r) => Some(r),
        }
    }
}

/// A request whose replies all succeed, a tolerated one apart, sends every
/// command once and in order, and comes to the payload of the last reply.
pub proof fn uds_success(m: UdsModel, replies: Seq<Result<Seq<u8>, ErrorModel>>)
    requires
        m.wf(),
        replies.len() == m.commands.len() - m.at,
        forall|i: int|
            0 <= i < replies.len() ==> (#[trigger] replies[i]) is Ok || (m.tolerated == Some(
                m.at + i,
            ) && i < replies.len() - 1),
    ensures
        uds_outcome(m, replies) == Some(
            Ok::<Seq<u8>, ErrorModel>(payload_of(lossy_text(replies.last()->Ok_0))),
        ),
    decreases replies.len(),
{
    assert(replies[0] is Ok || m.tolerated == Some(m.at));
    if replies.len() > 1 {
        let n = UdsModel { at: m.at + 1, ..m };
        let rest = replies.drop_first();
        assert forall|i: int| 0 <= i < rest.len() implies (#[trigger] rest[i]) is Ok || (
        n.tolerated == Some(n.at + i) && i < rest.len() - 1) by {
            assert(rest[i] == replies[i + 1]);
        }
        uds_success(n, rest);
        assert(rest.last() == replies.last());
    }
}

/// The first failure that is not tolerated ends a request with that failure.
pub proof fn uds_failure(m: UdsModel, replies: Seq<Result<Seq<u8>, ErrorModel>>, k: int)
    requires
        m.wf(),
        0 <= k < replies.len(),
        m.at + k < m.commands.len(),
        replies[k] is Err,
        m.tolerated != Some(m.at + k) || m.at + k == m.commands.len() - 1,
        forall|i: int|
            0 <= i < k ==> (#[trigger] replies[i]) is Ok || m.tolerated == Some(m.at + i),
    ensures
        uds_outcome(m, replies) == Some(Err::<Seq<u8>, ErrorModel>(replies[k]->Err_0)),
    decreases k,
{
    if k > 0 {
        assert(replies[0] is Ok || m.tolerated == Some(m.at + 0));
        let n = UdsModel { at: m.at + 1, ..m };
        let rest = replies.drop_first();
        assert forall|i: int| 0 <= i < k - 1 implies (#[trigger] rest[i]) is Ok || n.tolerated
            == Some(n.at + i) by {
            assert(rest[i] == replies[i + 1]);
        }
        assert(rest[k - 1] == replies[k]);
        uds_failure(n, rest, k - 1);
    }
}

/// Where a long request stands.
#[derive(Clone, Copy, PartialEq, Eq, Debug, Structural)]
pub enum LongPhase {
    /// Sending the setup command with this index.
    Setup(usize),
    /// Writing the PID.
    Request,
    /// Reading a line.
    Reading,
    /// Writing the flow-control frame.
    FlowControl,
    /// Turning headers off before the request fails.
    Abort,
    /// Sending the restoring command with this index.
    Restore(usize),
}

/// The most lines that a long reply is read for.
pub const MAX_LINES: usize = 25;

/// How long one byte of a long reply may take, in milliseconds.
pub const LINE_TIMEOUT_MS: u64 = 500;

/// A long request under way.
pub struct LongModel {
    pub setup: Seq<Seq<char>>,
    pub pid: Seq<char>,
    pub phase: LongPhase,
    /// The lines read so far.
    pub lines: Seq<Seq<u8>>,
    /// What the request will fail with.
    pub failure: Option<ErrorModel>,
}

/// What follows an event.
pub enum LongNext {
    More(LongModel),
    Done(Result<Seq<u8>, ErrorModel>),
}

/// The commands before the PID of a long request.
pub open spec fn long_setup(tx: nat, rx: nat) -> Seq<Seq<char>> {
    seq![
        "ATSH"@ + lower_hex(tx),
        "ATCRA"@ + lower_hex(rx),
        "ATFCSH"@ + lower_hex(tx),
        "ATFCSD300000"@,
        "ATFCSM1"@,
        "ATH0"@,
    ]
}

/// The commands after the lines of a long reply: headers off, spaces on, no
/// receive filter.
pub open spec fn long_restore() -> Seq<Seq<char>> {
    seq!["ATH0"@, "ATS1"@, "ATCRA"@]
}

/// The identifier of a control unit, written in hexadecimal.
pub open spec fn ecu_id(text: Seq<char>) -> Option<nat> {
    parsed(text, 16, u32::MAX as nat)
}

/// A long request before its first command. Both identifiers must be
/// hexadecimal; the sending one is looked at first.
pub open spec fn long_start(uds: UdsPidSource) -> Result<LongModel, ErrorModel> {
    match (ecu_id(uds.ecu_tx@), ecu_id(uds.ecu_rx@)) {
        (None, _) => Err(
            ErrorModel { kind: None, message: "ecu_tx not hex: "@ + hex_error(uds.ecu_tx@) },
        ),
        (_, None) => Err(
            ErrorModel { kind: None, message: "ecu_rx not hex: "@ + hex_error(uds.ecu_rx@) },
        ),
        (Some(tx), Some(rx)) => Ok(
            LongModel {
                setup: long_setup(tx, rx),
                pid: uds.pid@,
                phase: LongPhase::Setup(0),
                lines: Seq::<Seq<u8>>::empty(),
                failure: None,
            },
        ),
    }
}

impl LongModel {
    /// The phase fits the commands and lines.
    pub open spec fn wf(self) -> bool {
        &&& self.setup.len() == 6
        &&& match self.phase {
            LongPhase::Setup(i) => i < 6 && self.lines.len() == 0,
            LongPhase::Request => self.lines.len() == 0,
            LongPhase::Reading => self.lines.len() < MAX_LINES,
            LongPhase::FlowControl => self.lines.len() == 1,
            LongPhase::Abort => self.failure is Some,
            LongPhase::Restore(i) => i < 3 && self.lines.len() <= MAX_LINES,
        }
    }

    /// What the phase asks for.
    pub open spec fn action(self) -> ActionModel {
        match self.phase {
            LongPhase::Setup(i) => ActionModel::Send(self.setup[i as int]),
            LongPhase::Request => ActionModel::Write(wire(self.pid)),
            LongPhase::Reading => ActionModel::ReadLine(LINE_TIMEOUT_MS),
            LongPhase::FlowControl => ActionModel::Write(wire("300200"@)),
            LongPhase::Abort => ActionModel::Send("ATH0"@),
            LongPhase::Restore(i) => ActionModel::Send(long_restore()[i as int]),
        }
    }

    pub open spec fn to(self, phase: LongPhase) -> LongModel {
        LongModel { phase, ..self }
    }

    pub open spec fn failing(self, message: Seq<char>) -> LongModel {
        LongModel {
            phase: LongPhase::Abort,
            failure: Some(ErrorModel { kind: None, message }),
            ..self
        }
    }
}

/// A line of a long reply: an empty one or a bare prompt ends the reply, an
/// error report fails the request, and other lines are kept. The first one is
/// answered with a flow-control frame.
pub open spec fn long_line(m: LongModel, line: Seq<u8>) -> LongModel {
    let text = trimmed(lossy_text(line));
    let kept = LongModel { lines: m.lines.push(line), ..m };
    if text.len() == 0 || text == ">"@ {
        m.to(LongPhase::Restore(0))
    } else if found(text, "NO DATA"@) || found(text, "7F"@) {
        m.failing("UDS error response: "@ + text)
    } else if kept.lines.len() == 1 {
        kept.to(LongPhase::FlowControl)
    } else if kept.lines.len() == MAX_LINES {
        kept.to(LongPhase::Restore(0))
    } else {
        kept.to(LongPhase::Reading)
    }
}

/// The failure of a write, with what was being written.
pub open spec fn write_failure(what: Seq<char>, e: ErrorModel) -> ErrorModel {
    ErrorModel { kind: e.kind, message: what + ": "@ + e.message }
}

/// What the lines of a long reply come to.
pub open spec fn long_result(lines: Seq<Seq<u8>>) -> Result<Seq<u8>, ErrorModel> {
    match assembled(raw_lines_bytes(lines)) {
        Some(p) => Ok(p),
        None => Err(ErrorModel { kind: None, message: "multiframe assembly failed"@ }),
    }
}

/// What follows an event of a long request. An event that answers another
/// action changes nothing.
pub open spec fn long_next(m: LongModel, event: EventModel) -> LongNext {
    match (m.phase, event) {
        (LongPhase::Setup(_), EventModel::Replied(Err(e))) => LongNext::Done(Err(e)),
        (LongPhase::Setup(i), EventModel::Replied(Ok(_))) => LongNext::More(
            m.to(
                if i < 5 {
                    LongPhase::Setup((i + 1) as usize)
                } else {
                    LongPhase::Request
                },
            ),
        ),
        (LongPhase::Request, EventModel::Written(Err(e))) => LongNext::Done(
            Err(write_failure("multiframe PID write"@, e)),
        ),
        (LongPhase::Request, EventModel::Written(Ok(_))) => LongNext::More(
            m.to(LongPhase::Reading),
        ),
        (LongPhase::Reading, EventModel::Line(Err(e))) => LongNext::More(
            if e.kind == Some(ErrorKind::TimedOut) {
                m.to(LongPhase::Restore(0))
            } else {
                m.failing("multiframe read: "@ + e.message)
            },
        ),
        (LongPhase::Reading, EventModel::Line(Ok(line))) => LongNext::More(long_line(m, line)),
        (LongPhase::FlowControl, EventModel::Written(Err(e))) => LongNext::Done(
            Err(write_failure("FC frame write"@, e)),
        ),
        (LongPhase::FlowControl, EventModel::Written(Ok(_))) => LongNext::More(
            m.to(LongPhase::Reading),
        ),
        (LongPhase::Abort, EventModel::Replied(_)) => LongNext::Done(Err(m.failure->0)),
        (LongPhase::Restore(i), EventModel::Replied(_)) => if i < 2 {
            LongNext::More(m.to(LongPhase::Restore((i + 1) as usize)))
        } else {
            LongNext::Done(long_result(m.lines))
        },
        _ => LongNext::More(m),
    }
}

/// A long request: one whose reply spans several frames.
pub struct MultiframePoll {
    setup: Vec<String>,
    pid: String,
    phase: LongPhase,
    lines: Vec<Vec<u8>>,
    failure: Option<SessionError>,
}

/// What follows an event of a long request.
pub enum LongStep {
    More(MultiframePoll),
    Done(Result<Vec<u8>, SessionError>),
}

impl LongStep {
    pub open spec fn model(self) -> LongNext {
        match self {
            LongStep::More(p) => LongNext::More(p@),
            LongStep::Done(r) => LongNext::Done(reply_model(r)),
        }
    }
}

impl View for MultiframePoll {
    type V = LongModel;

    closed spec fn view(&self) -> LongModel {
        LongModel {
            setup: texts(self.setup@),
            pid: self.pid@,
            phase: self.phase,
            lines: byte_views(self.lines@),
            failure: match self.failure {
                Some(e) => Some(e@),
                None => None,
            },
        }
    }
}

fn plain_error(message: String) -> (r: SessionError)
    ensures
        r@ == (ErrorModel { kind: None, message: message@ }),
{
    SessionError { kind: None, message }
}

/// The failure of a write as a session error.
pub(crate) fn failed_write(what: &str, f: Fault) -> (r: SessionError)
    ensures
        r@ == write_failure(what@, f@),
{
    let mut message = join(what, ": ");
    message.append(f.message.as_str());
    SessionError { kind: Some(f.kind), message }
}

impl MultiframePoll {
    /// Starts a long request.
    pub fn new(uds: &UdsPidSource) -> (r: Result<MultiframePoll, SessionError>)
        ensures
            match r {
                Ok(p) => long_start(*uds) == Ok::<LongModel, ErrorModel>(p@) && p@.wf(),
                Err(e) => long_start(*uds) == Err::<LongModel, ErrorModel>(e@),
            },
    {
        let tx: u32 = match parse_hex_u32(uds.ecu_tx.as_str()) {
            Some(n) => n,
            None => {
                let cause = hex_fault(uds.ecu_tx.as_str());
                return Err(plain_error(join("ecu_tx not hex: ", cause.as_str())));
            },
        };
        let rx: u32 = match parse_hex_u32(uds.ecu_rx.as_str()) {
            Some(n) => n,
            None => {
                let cause = hex_fault(uds.ecu_rx.as_str());
                return Err(plain_error(join("ecu_rx not hex: ", cause.as_str())));
            },
        };
        let mut setup: Vec<String> = Vec::new();
        setup.push(join("ATSH", format_hex(tx).as_str()));
        setup.push(join("ATCRA", format_hex(rx).as_str()));
        setup.push(join("ATFCSH", format_hex(tx).as_str()));
        setup.push("ATFCSD300000".to_owned());
        setup.push("ATFCSM1".to_owned());
        setup.push("ATH0".to_owned());
        assert(texts(setup@) == long_setup(tx as nat, rx as nat));
        let lines: Vec<Vec<u8>> = Vec::new();
        assert(byte_views(lines@) == Seq::<Seq<u8>>::empty());
        Ok(
            MultiframePoll {
                setup,
                pid: uds.pid.clone(),
                phase: LongPhase::Setup(0),
                lines,
                failure: None,
            },
        )
    }

    /// What to do now.
    pub fn action(&self) -> (r: SessionAction)
        requires
            self@.wf(),
        ensures
            r@ == self@.action(),
    {
        match self.phase {
            LongPhase::Setup(i) => {
                assert(texts(self.setup@)[i as int] == self.setup@[i as int]@);
                SessionAction::Send(self.setup[i].clone())
            },
            LongPhase::Request => SessionAction::Write(command_wire(self.pid.as_str())),
            LongPhase::Reading => SessionAction::ReadLine(LINE_TIMEOUT_MS),
            LongPhase::FlowControl => SessionAction::Write(command_wire("300200")),
            LongPhase::Abort => SessionAction::Send("ATH0".to_owned()),
            LongPhase::Restore(i) => SessionAction::Send(
                if i == 0 {
                    "ATH0".to_owned()
                } else if i == 1 {
                    "ATS1".to_owned()
                } else {
                    "ATCRA".to_owned()
                },
            ),
        }
    }

    fn to(self, phase: LongPhase) -> (r: MultiframePoll)
        ensures
            r@ == self@.to(phase),
    {
        MultiframePoll { phase, ..self }
    }

    fn failing(self, message: String) -> (r: MultiframePoll)
        ensures
            r@ == self@.failing(message@),
    {
        MultiframePoll { phase: LongPhase::Abort, failure: Some(plain_error(message)), ..self }
    }

    fn line(self, line: Vec<u8>) -> (r: MultiframePoll)
        requires
            self@.wf(),
            self@.phase == LongPhase::Reading,
        ensures
            r@ == long_line(self@, line@),
            r@.wf(),
    {
        let text = trim(&chars_of(lossy(&line).as_str()));
        if text.len() == 0 || crate::text::same(&text, &chars_of(">")) {
            return self.to(LongPhase::Restore(0));
        }
        if mentions(&text, "NO DATA") || mentions(&text, "7F") {
            return self.failing(join("UDS error response: ", string_of(&text).as_str()));
        }
        let ghost was = self.lines@;
        let ghost b = line@;
        let mut lines = self.lines;
        lines.push(line);
        assert(byte_views(lines@) == byte_views(was).push(b));
        let phase = if lines.len() == 1 {
            LongPhase::FlowControl
        } else if lines.len() == MAX_LINES {
            LongPhase::Restore(0)
        } else {
            LongPhase::Reading
        };
        MultiframePoll {
            setup: self.setup,
            pid: self.pid,
            phase,
            lines,
            failure: self.failure,
        }
    }

    /// Takes in what came of the action.
    pub fn on_event(self, event: SessionEvent) -> (r: LongStep)
        requires
            self@.wf(),
        ensures
            r.model() == long_next(self@, event@),
            r is More ==> r->More_0@.wf(),
    {
        match (self.phase, event) {
            (LongPhase::Setup(_), SessionEvent::Replied(Err(e))) => LongStep::Done(Err(e)),
            (LongPhase::Setup(i), SessionEvent::Replied(Ok(_))) => LongStep::More(
                self.to(
                    if i < 5 {
                        LongPhase::Setup(i + 1)
                    } else {
                        LongPhase::Request
                    },
                ),
            ),
            (LongPhase::Request, SessionEvent::Written(Err(f))) => LongStep::Done(
                Err(failed_write("multiframe PID write", f)),
            ),
            (LongPhase::Request, SessionEvent::Written(Ok(_))) => LongStep::More(
                self.to(LongPhase::Reading),
            ),
            (LongPhase::Reading, SessionEvent::Line(Err(f))) => {
                if f.kind == ErrorKind::TimedOut {
                    LongStep::More(self.to(LongPhase::Restore(0)))
                } else {
                    LongStep::More(self.failing(join("multiframe read: ", f.message.as_str())))
                }
            },
            (LongPhase::Reading, SessionEvent::Line(Ok(line))) => LongStep::More(self.line(line)),
            (LongPhase::FlowControl, SessionEvent::Written(Err(f))) => LongStep::Done(
                Err(failed_write("FC frame write", f)),
            ),
            (LongPhase::FlowControl, SessionEvent::Written(Ok(_))) => LongStep::More(
                self.to(LongPhase::Reading),
            ),
            (LongPhase::Abort, SessionEvent::Replied(_)) => match self.failure {
                Some(e) => LongStep::Done(Err(e)),
                None => LongStep::Done(Err(plain_error("multiframe assembly failed".to_owned()))),
            },
            (LongPhase::Restore(i), SessionEvent::Replied(_)) => {
                if i < 2 {
                    LongStep::More(self.to(LongPhase::Restore(i + 1)))
                } else {
                    match assemble_iso_tp(self.lines.as_slice()) {
                        Some(p) => LongStep::Done(Ok(p)),
                        None => LongStep::Done(
                            Err(plain_error("multiframe assembly failed".to_owned())),
                        ),
                    }
                }
            },
            _ => LongStep::More(self),
        }
    }
}

/// How often a run of events enters the flow-control phase.
pub open spec fn flow_controls(m: LongModel, events: Seq<EventModel>) -> nat
    decreases events.len(),
{
    if events.len() == 0 {
        0
    } else {
        match long_next(m, events[0]) {
            LongNext::Done(_) => 0,
            LongNext::More(n) => flow_controls(n, events.drop_first()) + if n.phase
                == LongPhase::FlowControl && m.phase != LongPhase::FlowControl {
                1nat
            } else {
                0nat
            },
        }
    }
}

/// A long request sends at most one flow-control frame, and none once it has
/// kept a line.
pub proof fn flow_control_once(m: LongModel, events: Seq<EventModel>)
    requires
        m.wf(),
    ensures
        flow_controls(m, events) <= 1,
        m.lines.len() > 0 ==> flow_controls(m, events) == 0,
    decreases events.len(),
{
    if events.len() > 0 {
        match long_next(m, events[0]) {
            LongNext::Done(_) => {},
            LongNext::More(n) => {
                assert(n.wf());
                assert(n.lines.len() >= m.lines.len());
                flow_control_once(n, events.drop_first());
            },
        }
    }
}

/// A long request that has begun to read does not end before it has sent
/// `ATH0`: reading goes on, or is followed by a phase that sends it.
pub proof fn reading_ends_with_headers_off(m: LongModel, event: EventModel)
    requires
        m.wf(),
        m.phase == LongPhase::Reading,
    ensures
        long_next(m, event) is More,
        ({
            let n = long_next(m, event)->More_0;
            ||| n.phase == LongPhase::Reading
            ||| n.phase == LongPhase::FlowControl
            ||| n.action() == ActionModel::Send("ATH0"@)
        }),
{
}

/// No long request keeps more than the greatest number of lines.
pub proof fn lines_stay_bounded(m: LongModel, event: EventModel)
    requires
        m.wf(),
        m.lines.len() <= MAX_LINES,
    ensures
        long_next(m, event) is More ==> long_next(m, event)->More_0.wf() && long_next(
            m,
            event,
        )->More_0.lines.len() <= MAX_LINES,
{
}

/// A single-frame request sets the header, the receive filter and the flow
/// control for its own control unit, sends its preparing request, if it has
/// one, and ends with its PID. Only the preparing request may fail.
pub proof fn uds_request_in_order(uds: UdsPidSource)
    ensures
        uds_start(uds).at == 0,
        uds_start(uds).commands.len() == (if uds.pre_request is Some {
            7nat
        } else {
            6nat
        }),
        uds_start(uds).commands[0] == "ATSH"@ + uds.ecu_tx@,
        uds_start(uds).commands[1] == "ATCRA"@ + uds.ecu_rx@,
        uds_start(uds).commands[2] == "ATFCSH"@ + uds.ecu_tx@,
        uds_start(uds).commands[3] == "ATFCSD300000"@,
        uds_start(uds).commands[4] == "ATFCSM1"@,
        uds_start(uds).commands.last() == uds.pid@,
        uds.pre_request matches Some(p) ==> uds_start(uds).commands[5] == p@,
        uds.pre_request is None ==> uds_start(uds).tolerated is None,
        uds.pre_request is Some ==> uds_start(uds).tolerated == Some(5int),
{
}

/// A request that goes through comes to the payload that its last reply
/// carries, whatever the preparing request was answered.
pub proof fn uds_request_comes_to_its_payload(
    uds: UdsPidSource,
    replies: Seq<Result<Seq<u8>, ErrorModel>>,
    raw: Seq<u8>,
)
    requires
        replies.len() == (if uds.pre_request is Some {
            7nat
        } else {
            6nat
        }),
        forall|i: int|
            0 <= i < replies.len() ==> (#[trigger] replies[i]) is Ok || (i == 5
                && uds.pre_request is Some),
        replies.last() == Ok::<Seq<u8>, ErrorModel>(raw),
    ensures
        uds_outcome(uds_start(uds), replies) == Some(
            Ok::<Seq<u8>, ErrorModel>(payload_of(lossy_text(raw))),
        ),
{
    uds_success(uds_start(uds), replies);
}

/// A failed reply to any command but the preparing request ends the request
/// with that failure.
pub proof fn uds_request_fails_with_its_reply(
    uds: UdsPidSource,
    replies: Seq<Result<Seq<u8>, ErrorModel>>,
    k: int,
    e: ErrorModel,
)
    requires
        0 <= k < replies.len(),
        k < 6 || k == 6 && uds.pre_request is Some,
        k == 5 ==> uds.pre_request is None,
        replies[k] == Err::<Seq<u8>, ErrorModel>(e),
        forall|i: int| 0 <= i < k ==> (#[trigger] replies[i]) is Ok || i == 5,
    ensures
        uds_outcome(uds_start(uds), replies) == Some(Err::<Seq<u8>, ErrorModel>(e)),
{
    uds_failure(uds_start(uds), replies, k);
}

/// A long request sets up its control unit like a short one, with the
/// identifiers written as numbers, and turns the headers off. It does so for
/// every pair of identifiers that are hexadecimal, and fails for every other
/// pair, naming the sending one first.
pub proof fn long_request_in_order(uds: UdsPidSource)
    ensures
        long_start(uds) is Ok <==> parsed(uds.ecu_tx@, 16, 0xffff_ffff) is Some && parsed(
            uds.ecu_rx@,
            16,
            0xffff_ffff,
        ) is Some,
        long_start(uds) is Err && parsed(uds.ecu_tx@, 16, 0xffff_ffff) is None
            ==> long_start(uds)->Err_0.message == "ecu_tx not hex: "@ + hex_error(uds.ecu_tx@),
        long_start(uds) is Err && parsed(uds.ecu_tx@, 16, 0xffff_ffff) is Some
            ==> long_start(uds)->Err_0.message == "ecu_rx not hex: "@ + hex_error(uds.ecu_rx@),
        long_start(uds) matches Ok(m) ==> {
            let tx = parsed(uds.ecu_tx@, 16, 0xffff_ffff)->0;
            let rx = parsed(uds.ecu_rx@, 16, 0xffff_ffff)->0;
            &&& m.setup.len() == 6
            &&& m.setup[0] == "ATSH"@ + lower_hex(tx)
            &&& m.setup[1] == "ATCRA"@ + lower_hex(rx)
            &&& m.setup[2] == "ATFCSH"@ + lower_hex(tx)
            &&& m.setup[3] == "ATFCSD300000"@
            &&& m.setup[4] == "ATFCSM1"@
            &&& m.setup[5] == "ATH0"@
            &&& m.pid == uds.pid@
            &&& m.lines.len() == 0
            &&& m.phase == LongPhase::Setup(0)
        },
{
}

/// What a long request comes to on a sequence of events, `None` while events
/// are missing.
pub open spec fn long_outcome(m: LongModel, events: Seq<EventModel>) -> Option<
    Result<Seq<u8>, ErrorModel>,
>
    decreases events.len(),
{
    if events.len() == 0 {
        None
    } else {
        match long_next(m, events[0]) {
            LongNext::More(n) => long_outcome(n, events.drop_first()),
            LongNext::Done(r) => Some(r),
        }
    }
}

/// A line of a long reply that is kept: neither empty nor a prompt, and no
/// error report.
pub open spec fn is_kept(line: Seq<u8>) -> bool {
    let text = trimmed(lossy_text(line));
    &&& text.len() > 0
    &&& text != ">"@
    &&& !found(text, "NO DATA"@)
    &&& !found(text, "7F"@)
}

/// What ends a long reply: silence, an empty line or a bare prompt.
pub open spec fn ends_reply(event: EventModel) -> bool {
    match event {
        EventModel::Line(Err(e)) => e.kind == Some(ErrorKind::TimedOut),
        EventModel::Line(Ok(line)) => trimmed(lossy_text(line)).len() == 0 || trimmed(
            lossy_text(line),
        ) == ">"@,
        _ => false,
    }
}

/// Reading each of these lines.
pub open spec fn line_events(lines: Seq<Seq<u8>>) -> Seq<EventModel> {
    Seq::new(lines.len(), |i: int| EventModel::Line(Ok(lines[i])))
}

proof fn lemma_restoring(m: LongModel, replies: Seq<EventModel>)
    requires
        m.wf(),
        m.phase == LongPhase::Restore(0),
        replies.len() == 3,
        forall|i: int| 0 <= i < 3 ==> (#[trigger] replies[i]) is Replied,
    ensures
        long_outcome(m, replies) == Some(long_result(m.lines)),
{
    reveal_with_fuel(long_outcome, 4);
    assert(replies[0] is Replied && replies[1] is Replied && replies[2] is Replied);
    assert(replies.drop_first()[0] == replies[1]);
    assert(replies.drop_first().drop_first()[0] == replies[2]);
}

proof fn lemma_further_lines(
    m: LongModel,
    lines: Seq<Seq<u8>>,
    end: EventModel,
    replies: Seq<EventModel>,
)
    requires
        m.wf(),
        m.phase == LongPhase::Reading,
        m.lines.len() >= 1,
        m.lines.len() + lines.len() < 25,
        forall|i: int| 0 <= i < lines.len() ==> is_kept(#[trigger] lines[i]),
        ends_reply(end),
        replies.len() == 3,
        forall|i: int| 0 <= i < 3 ==> (#[trigger] replies[i]) is Replied,
    ensures
        long_outcome(m, line_events(lines) + seq![end] + replies) == Some(
            long_result(m.lines + lines),
        ),
    decreases lines.len(),
{
    let events = line_events(lines) + seq![end] + replies;
    if lines.len() == 0 {
        assert(events[0] == end);
        assert(events.drop_first() == replies);
        assert(m.lines + lines == m.lines);
        let n = m.to(LongPhase::Restore(0));
        assert(long_next(m, end) == LongNext::More(n));
        lemma_restoring(n, replies);
    } else {
        assert(is_kept(lines[0]));
        let rest = lines.drop_first();
        assert forall|i: int| 0 <= i < rest.len() implies is_kept(#[trigger] rest[i]) by {
            assert(rest[i] == lines[i + 1]);
        }
        let n = LongModel { lines: m.lines.push(lines[0]), ..m };
        assert(events[0] == EventModel::Line(Ok(lines[0])));
        assert(long_next(m, events[0]) == LongNext::More(n));
        assert(events.drop_first() =~= line_events(rest) + seq![end] + replies);
        assert(m.lines.push(lines[0]) + rest == m.lines + lines);
        lemma_further_lines(n, rest, end, replies);
    }
}

/// A long request that reads one to twenty-four lines and then silence, an empty
/// line or a prompt comes to what those lines, all of them and in their order,
/// are assembled to. The flow-control frame goes out behind the first line; the
/// three restoring commands may be answered with anything.
pub proof fn long_request_assembles_its_lines(
    m: LongModel,
    first: Seq<u8>,
    lines: Seq<Seq<u8>>,
    end: EventModel,
    replies: Seq<EventModel>,
)
    requires
        m.wf(),
        m.phase == LongPhase::Reading,
        m.lines.len() == 0,
        is_kept(first),
        lines.len() < 24,
        forall|i: int| 0 <= i < lines.len() ==> is_kept(#[trigger] lines[i]),
        ends_reply(end),
        replies.len() == 3,
        forall|i: int| 0 <= i < 3 ==> (#[trigger] replies[i]) is Replied,
    ensures
        ({
            let events = seq![EventModel::Line(Ok(first)), EventModel::Written(Ok(()))]
                + line_events(lines) + seq![end] + replies;
            let whole = seq![first] + lines;
            &&& assembled(raw_lines_bytes(whole)) matches Some(p) ==> long_outcome(m, events)
                == Some(Ok::<Seq<u8>, ErrorModel>(p))
            &&& assembled(raw_lines_bytes(whole)) is None ==> long_outcome(m, events) == Some(
                Err::<Seq<u8>, ErrorModel>(
                    ErrorModel { kind: None, message: "multiframe assembly failed"@ },
                ),
            )
        }),
{
    let start = seq![EventModel::Line(Ok(first)), EventModel::Written(Ok(()))];
    let events = start + line_events(lines) + seq![end] + replies;
    let a = LongModel { lines: m.lines.push(first), phase: LongPhase::FlowControl, ..m };
    let b = a.to(LongPhase::Reading);
    assert(events[0] == start[0]);
    assert(long_next(m, events[0]) == LongNext::More(a));
    let rest = events.drop_first();
    assert(rest[0] == start[1]);
    assert(long_next(a, rest[0]) == LongNext::More(b));
    assert(rest.drop_first() =~= line_events(lines) + seq![end] + replies);
    lemma_further_lines(b, lines, end, replies);
    assert(m.lines.push(first) + lines == seq![first] + lines);
    reveal_with_fuel(long_outcome, 3);
}

/// The twenty-fifth line is the last one that is read.
pub proof fn reading_stops_at_the_last_line(m: LongModel, line: Seq<u8>)
    requires
        m.wf(),
        m.phase == LongPhase::Reading,
        is_kept(line),
    ensures
        long_next(m, EventModel::Line(Ok(line))) == LongNext::More(
            LongModel {
                lines: m.lines.push(line),
                phase: if m.lines.len() == 0 {
                    LongPhase::FlowControl
                } else if m.lines.len() == 24 {
                    LongPhase::Restore(0)
                } else {
                    LongPhase::Reading
                },
                ..m
            },
        ),
{
}

/// A line that reports an error fails the request with the text of that line,
/// once the headers are off; a read that fails otherwise than by silence fails
/// it with that failure.
pub proof fn error_line_fails_the_request(
    m: LongModel,
    line: Seq<u8>,
    e: ErrorModel,
    reply: Result<Seq<u8>, ErrorModel>,
)
    requires
        m.wf(),
        m.phase == LongPhase::Reading,
        found(trimmed(lossy_text(line)), "NO DATA"@) || found(trimmed(lossy_text(line)), "7F"@),
        e.kind != Some(ErrorKind::TimedOut),
    ensures
        long_outcome(m, seq![EventModel::Line(Ok(line)), EventModel::Replied(reply)]) == Some(
            Err::<Seq<u8>, ErrorModel>(
                ErrorModel {
                    kind: None,
                    message: "UDS error response: "@ + trimmed(lossy_text(line)),
                },
            ),
        ),
        long_outcome(m, seq![EventModel::Line(Err(e)), EventModel::Replied(reply)]) == Some(
            Err::<Seq<u8>, ErrorModel>(
                ErrorModel { kind: None, message: "multiframe read: "@ + e.message },
            ),
        ),
{
    reveal_with_fuel(long_outcome, 3);
    reveal_strlit("NO DATA");
    reveal_strlit("7F");
    reveal_strlit(">");
    let text = trimmed(lossy_text(line));
    let pat = if found(text, "NO DATA"@) {
        "NO DATA"@
    } else {
        "7F"@
    };
    let i = choose|i: int| #[trigger] crate::text::stands_at(text, pat, i);
    assert(text.len() >= 2);
    let a = seq![EventModel::Line(Ok(line)), EventModel::Replied(reply)];
    assert(a.drop_first() == seq![EventModel::Replied(reply)]);
    let b = seq![EventModel::Line(Err(e)), EventModel::Replied(reply)];
    assert(b.drop_first() == seq![EventModel::Replied(reply)]);
}

/// Every setup command of a long request has to succeed: each goes out in its
/// order, the PID behind the last, and the first failure ends the request with
/// that failure.
pub proof fn long_setup_has_to_succeed(
    m: LongModel,
    i: usize,
    reply: Result<Seq<u8>, ErrorModel>,
    w: Result<(), ErrorModel>,
)
    requires
        m.wf(),
    ensures
        m.phase == LongPhase::Setup(i) ==> m.action() == ActionModel::Send(m.setup[i as int]),
        m.phase == LongPhase::Setup(i) && reply is Err ==> long_next(m, EventModel::Replied(reply))
            == LongNext::Done(Err(reply->Err_0)),
        m.phase == LongPhase::Setup(i) && reply is Ok ==> long_next(m, EventModel::Replied(reply))
            == LongNext::More(
            m.to(
                if i == 5 {
                    LongPhase::Request
                } else {
                    LongPhase::Setup((i + 1) as usize)
                },
            ),
        ),
        m.phase == LongPhase::Request ==> m.action() == ActionModel::Write(
            encode_utf8(m.pid).push(13),
        ),
        m.phase == LongPhase::FlowControl ==> m.action() == ActionModel::Write(
            encode_utf8("300200"@).push(13),
        ),
        m.phase == LongPhase::Request || m.phase == LongPhase::FlowControl ==> match w {
            Ok(_) => long_next(m, EventModel::Written(w)) == LongNext::More(
                m.to(LongPhase::Reading),
            ),
            Err(e) => long_next(m, EventModel::Written(w)) is Done && long_next(
                m,
                EventModel::Written(w),
            )->Done_0 is Err && long_next(m, EventModel::Written(w))->Done_0->Err_0.kind == e.kind,
        },
{
}

/// An event that does not answer the action of the moment changes nothing.
pub proof fn long_request_waits_for_its_answer(m: LongModel, event: EventModel)
    requires
        match m.action() {
            ActionModel::Send(_) => !(event is Replied),
            ActionModel::Write(_) => !(event is Written),
            ActionModel::ReadLine(_) => !(event is Line),
            ActionModel::ReadByte(_) => !(event is Byte),
        },
    ensures
        long_next(m, event) == LongNext::More(m),
{
}

/// A long request reads its lines with half a second for each byte, and sends
/// `ATH0`, `ATS1` and `ATCRA` behind them.
pub proof fn long_request_restores_the_adapter(m: LongModel)
    ensures
        m.phase == LongPhase::Reading ==> m.action() == ActionModel::ReadLine(500),
        m.phase == LongPhase::Restore(0) ==> m.action() == ActionModel::Send("ATH0"@),
        m.phase == LongPhase::Restore(1) ==> m.action() == ActionModel::Send("ATS1"@),
        m.phase == LongPhase::Restore(2) ==> m.action() == ActionModel::Send("ATCRA"@),
        m.phase == LongPhase::Abort ==> m.action() == ActionModel::Send("ATH0"@),
{
}

/// A write that fails ends the request with what was being written and the
/// failure of the write, whose kind is kept.
pub proof fn failed_writes_say_what_was_written(m: LongModel, what: Seq<char>, e: ErrorModel)
    ensures
        write_failure(what, e).kind == e.kind,
        write_failure(what, e).message == what + ": "@ + e.message,
        m.phase == LongPhase::Request ==> long_next(m, EventModel::Written(Err(e)))
            == LongNext::Done(
            Err(ErrorModel { kind: e.kind, message: "multiframe PID write"@ + ": "@ + e.message }),
        ),
        m.phase == LongPhase::FlowControl ==> long_next(m, EventModel::Written(Err(e)))
            == LongNext::Done(
            Err(ErrorModel { kind: e.kind, message: "FC frame write"@ + ": "@ + e.message }),
        ),
{
}

} // verus!
