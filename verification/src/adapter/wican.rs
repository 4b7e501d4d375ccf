//! WiCAN Pro over BLE: finding, pairing and connecting the device, and the
//! JSON reading that it sends on request.

use crate::adapter::errors::{AdapterError, AdapterErrorModel};
use crate::adapter::link::{LinkAction, LinkActionModel, LinkEvent, LinkEventModel};
use crate::adapter::session::{about, about_text};
use crate::metrics::{Metrics, Quantity, Single};
use crate::numbers::{address_bytes, decimal, format_decimal, parse_address};
use crate::text::{
    all_space, chars_of, is_space, join, owned_text, string_of, trim, trimmed,
    trimming_keeps_the_last_letter, trimming_takes_off_the_ends, utf8_error, utf8_text,
};
use vstd::hash_map::StringHashMap;
use vstd::prelude::*;
use vstd::utf8::{decode_utf8, encode_utf8, valid_utf8};

verus! {

/// The characteristic on which the device answers.
pub const WICAN_NOTIFY_UUID: u128 = 0x0200dec001efbc9a56781234deadf0be;

/// The characteristic to which requests are written.
pub const WICAN_WRITE_UUID: u128 = 0x0300dec001efbc9a56781234deadf0be;

/// The seconds between two attempts to connect.
pub const WICAN_PAUSE_SECS: u64 = 10;

/// A WiCAN device.
#[derive(Debug)]
pub struct WicanAdapter {
    pub address: [u8; 6],
    pub passkey: Option<u32>,
    pub max_retries: u8,
    pub timeout_secs: u8,
}

impl WicanAdapter {
    /// An adapter for the device with an address; fails if that is none.
    pub fn new(mac: &str, passkey: Option<u32>, max_retries: u8, timeout_secs: u8) -> (r: Result<
        Self,
        String,
    >)
        ensures
            match r {
                Ok(a) => {
                    &&& address_bytes(mac@) == Some(a.address@)
                    &&& a.passkey == passkey
                    &&& a.max_retries == max_retries
                    &&& a.timeout_secs == timeout_secs
                },
                Err(e) => address_bytes(mac@) is None && e@ == about(
                    "invalid WiCAN MAC "@,
                    mac@,
                    ""@,
                ),
            },
    {
        match parse_address(mac) {
            Some(address) => Ok(WicanAdapter { address, passkey, max_retries, timeout_secs }),
            None => Err(about_text("invalid WiCAN MAC ", mac, "")),
        }
    }
}

/// Where connecting stands.
#[derive(Clone, Copy, PartialEq, Eq, Debug, Structural)]
pub enum WicanPhase {
    /// Opening a session.
    Session,
    /// Getting the default adapter.
    Adapter,
    /// Asking whether the device is known.
    Known,
    /// Searching for the device.
    Discover,
    /// Getting a handle of the device.
    Device,
    /// Asking whether the device is paired.
    Paired,
    /// Registering the pairing agent.
    Agent,
    /// Pairing.
    Pair,
    /// Asking whether the device is connected.
    Connected,
    /// The attempt with this number.
    Attempt(u8),
    /// Waiting after the failed attempt with this number.
    Pause(u8),
    /// Removing the device after the last attempt.
    Forget,
}

/// Connecting under way.
pub struct WicanModel {
    pub address: Seq<u8>,
    pub passkey: Option<u32>,
    pub max_retries: u8,
    pub timeout_secs: u8,
    pub phase: WicanPhase,
    /// Why the last attempt failed.
    pub reason: Seq<char>,
}

/// What follows an event.
pub enum WicanNext {
    More(WicanModel),
    Done(Result<(), AdapterErrorModel>),
}

impl WicanModel {
    pub open spec fn wf(self) -> bool {
        match self.phase {
            WicanPhase::Agent => self.passkey is Some,
            WicanPhase::Attempt(n) => 1 <= n <= self.max_retries,
            WicanPhase::Pause(n) => 1 <= n < self.max_retries,
            _ => true,
        }
    }

    /// What the phase asks for.
    pub open spec fn action(self) -> LinkActionModel {
        match self.phase {
            WicanPhase::Session => LinkActionModel::OpenSession,
            WicanPhase::Adapter => LinkActionModel::OpenAdapter,
            WicanPhase::Known => LinkActionModel::CheckKnown,
            WicanPhase::Discover => LinkActionModel::Discover(self.timeout_secs),
            WicanPhase::Device => LinkActionModel::OpenDevice,
            WicanPhase::Paired => LinkActionModel::CheckPaired,
            WicanPhase::Agent => LinkActionModel::RegisterAgent(self.passkey->0),
            WicanPhase::Pair => LinkActionModel::Pair,
            WicanPhase::Connected => LinkActionModel::CheckConnected,
            WicanPhase::Attempt(_) => LinkActionModel::Connect(None),
            WicanPhase::Pause(_) => LinkActionModel::Sleep(WICAN_PAUSE_SECS),
            WicanPhase::Forget => LinkActionModel::Forget,
        }
    }

    pub open spec fn to(self, phase: WicanPhase) -> WicanNext {
        WicanNext::More(WicanModel { phase, ..self })
    }
}

/// Connecting ends for good.
pub open spec fn wican_fatal(message: Seq<char>) -> WicanNext {
    WicanNext::Done(Err(AdapterErrorModel::FatalConn(message)))
}

/// The start of connecting.
pub open spec fn wican_start(a: WicanAdapter) -> WicanModel {
    WicanModel {
        address: a.address@,
        passkey: a.passkey,
        max_retries: a.max_retries,
        timeout_secs: a.timeout_secs,
        phase: WicanPhase::Session,
        reason: ""@,
    }
}

/// What follows an event of connecting. A known device is not searched for, a
/// paired one is not paired and a connected one is not connected. An event that
/// answers another action changes nothing.
pub open spec fn wican_next(m: WicanModel, event: LinkEventModel) -> WicanNext {
    match (m.phase, event) {
        (WicanPhase::Session, LinkEventModel::Done) => m.to(WicanPhase::Adapter),
        (WicanPhase::Session, LinkEventModel::Failed(e)) => wican_fatal("bluer session: "@ + e),
        (WicanPhase::Adapter, LinkEventModel::Done) => m.to(WicanPhase::Known),
        (WicanPhase::Adapter, LinkEventModel::Failed(e)) => wican_fatal("default adapter: "@ + e),
        (WicanPhase::Known, LinkEventModel::Answer(known)) => if known {
            m.to(WicanPhase::Device)
        } else {
            m.to(WicanPhase::Discover)
        },
        (WicanPhase::Known, LinkEventModel::Failed(e)) => wican_fatal(e),
        (WicanPhase::Discover, LinkEventModel::Seen(address)) => if address == m.address {
            m.to(WicanPhase::Device)
        } else {
            WicanNext::More(m)
        },
        (WicanPhase::Discover, LinkEventModel::Ended) => wican_fatal("discovery stream ended"@),
        (WicanPhase::Discover, LinkEventModel::TimedOut) => wican_fatal(
            "WiCAN discovery timed out after "@ + decimal(m.timeout_secs as nat) + "s"@,
        ),
        (WicanPhase::Discover, LinkEventModel::Failed(e)) => wican_fatal(e),
        (WicanPhase::Device, LinkEventModel::Done) => m.to(WicanPhase::Paired),
        (WicanPhase::Device, LinkEventModel::Failed(e)) => wican_fatal(e),
        (WicanPhase::Paired, LinkEventModel::Answer(paired)) => if paired {
            m.to(WicanPhase::Connected)
        } else if m.passkey is Some {
            m.to(WicanPhase::Agent)
        } else {
            m.to(WicanPhase::Pair)
        },
        (WicanPhase::Paired, LinkEventModel::Failed(e)) => wican_fatal(e),
        (WicanPhase::Agent, LinkEventModel::Done) => m.to(WicanPhase::Pair),
        (WicanPhase::Agent, LinkEventModel::Failed(e)) => wican_fatal(
            "register passkey agent: "@ + e,
        ),
        (WicanPhase::Pair, LinkEventModel::Done) => m.to(WicanPhase::Connected),
        (WicanPhase::Pair, LinkEventModel::Failed(e)) => wican_fatal("pair failed: "@ + e),
        (WicanPhase::Connected, LinkEventModel::Answer(connected)) => if connected {
            WicanNext::Done(Ok(()))
        } else if m.max_retries == 0 {
            wican_fatal("WiCAN connect exhausted retries"@)
        } else {
            m.to(WicanPhase::Attempt(1))
        },
        (WicanPhase::Connected, LinkEventModel::Failed(e)) => wican_fatal(e),
        (WicanPhase::Attempt(_), LinkEventModel::Done) => WicanNext::Done(Ok(())),
        (WicanPhase::Attempt(n), LinkEventModel::Failed(e)) => if n < m.max_retries {
            WicanNext::More(WicanModel { phase: WicanPhase::Pause(n), reason: e, ..m })
        } else {
            WicanNext::More(WicanModel { phase: WicanPhase::Forget, reason: e, ..m })
        },
        (WicanPhase::Pause(n), LinkEventModel::Done) => m.to(WicanPhase::Attempt((n + 1) as u8)),
        (WicanPhase::Forget, LinkEventModel::Done) => wican_fatal(
            "WiCAN connect exhausted retries: "@ + m.reason,
        ),
        (WicanPhase::Forget, LinkEventModel::Failed(_)) => wican_fatal(
            "WiCAN connect exhausted retries: "@ + m.reason,
        ),
        _ => WicanNext::More(m),
    }
}

/// Connecting to a WiCAN device.
pub struct WicanConnect {
    address: [u8; 6],
    passkey: Option<u32>,
    max_retries: u8,
    timeout_secs: u8,
    phase: WicanPhase,
    reason: String,
}

/// What follows an event of connecting.
pub enum WicanStep {
    More(WicanConnect),
    Done(Result<(), AdapterError>),
}

impl WicanStep {
    pub open spec fn model(self) -> WicanNext {
        match self {
            WicanStep::More(c) => WicanNext::More(c@),
            WicanStep::Done(Ok(u)) => WicanNext::Done(Ok(u)),
            WicanStep::Done(Err(e)) => WicanNext::Done(Err(e@)),
        }
    }
}

impl View for WicanConnect {
    type V = WicanModel;

    closed spec fn view(&self) -> WicanModel {
        WicanModel {
            address: self.address@,
            passkey: self.passkey,
            max_retries: self.max_retries,
            timeout_secs: self.timeout_secs,
            phase: self.phase,
            reason: self.reason@,
        }
    }
}

/// Are two addresses the same?
pub(crate) fn same_address(a: &[u8; 6], b: &[u8; 6]) -> (r: bool)
    ensures
        r == (a@ == b@),
{
    for i in 0..6usize
        invariant
            forall|k: int| 0 <= k < i ==> a@[k] == b@[k],
    {
        if a[i] != b[i] {
            assert(a@[i as int] != b@[i as int]);
            return false;
        }
    }
    assert(a@ == b@);
    true
}

fn fatal(before: &str, e: &str) -> (r: WicanStep)
    ensures
        r.model() == wican_fatal(before@ + e@),
        r is Done,
{
    WicanStep::Done(Err(AdapterError::FatalConn(join(before, e))))
}

fn fatal_as_is(e: String) -> (r: WicanStep)
    ensures
        r.model() == wican_fatal(e@),
        r is Done,
{
    WicanStep::Done(Err(AdapterError::FatalConn(e)))
}

impl WicanConnect {
    /// Starts connecting.
    pub fn start(a: &WicanAdapter) -> (r: WicanConnect)
        ensures
            r@ == wican_start(*a),
            r@.wf(),
    {
        WicanConnect {
            address: a.address,
            passkey: a.passkey,
            max_retries: a.max_retries,
            timeout_secs: a.timeout_secs,
            phase: WicanPhase::Session,
            reason: "".to_owned(),
        }
    }

    /// What to do now.
    pub fn action(&self) -> (r: LinkAction)
        requires
            self@.wf(),
        ensures
            r@ == self@.action(),
    {
        match self.phase {
            WicanPhase::Session => LinkAction::OpenSession,
            WicanPhase::Adapter => LinkAction::OpenAdapter,
            WicanPhase::Known => LinkAction::CheckKnown,
            WicanPhase::Discover => LinkAction::Discover(self.timeout_secs),
            WicanPhase::Device => LinkAction::OpenDevice,
            WicanPhase::Paired => LinkAction::CheckPaired,
            WicanPhase::Agent => LinkAction::RegisterAgent(self.passkey.unwrap()),
            WicanPhase::Pair => LinkAction::Pair,
            WicanPhase::Connected => LinkAction::CheckConnected,
            WicanPhase::Attempt(_) => LinkAction::Connect(None),
            WicanPhase::Pause(_) => LinkAction::Sleep(WICAN_PAUSE_SECS),
            WicanPhase::Forget => LinkAction::Forget,
        }
    }

    fn to(self, phase: WicanPhase) -> (r: WicanStep)
        ensures
            r.model() == self@.to(phase),
            r is More && r->More_0@ == (WicanModel { phase, ..self@ }),
    {
        WicanStep::More(WicanConnect { phase, ..self })
    }

    /// Takes in what came of the action.
    pub fn on_event(self, event: LinkEvent) -> (r: WicanStep)
        requires
            self@.wf(),
        ensures
            r.model() == wican_next(self@, event@),
            r is More ==> r->More_0@.wf(),
    {
        match (self.phase, event) {
            (WicanPhase::Session, LinkEvent::Done) => self.to(WicanPhase::Adapter),
            (WicanPhase::Session, LinkEvent::Failed(e)) => fatal("bluer session: ", e.as_str()),
            (WicanPhase::Adapter, LinkEvent::Done) => self.to(WicanPhase::Known),
            (WicanPhase::Adapter, LinkEvent::Failed(e)) => fatal("default adapter: ", e.as_str()),
            (WicanPhase::Known, LinkEvent::Answer(known)) => {
                if known {
                    self.to(WicanPhase::Device)
                } else {
                    self.to(WicanPhase::Discover)
                }
            },
            (WicanPhase::Known, LinkEvent::Failed(e)) => fatal_as_is(e),
            (WicanPhase::Discover, LinkEvent::Seen(address)) => {
                if same_address(&address, &self.address) {
                    self.to(WicanPhase::Device)
                } else {
                    WicanStep::More(self)
                }
            },
            (WicanPhase::Discover, LinkEvent::Ended) => fatal_as_is(
                "discovery stream ended".to_owned(),
            ),
            (WicanPhase::Discover, LinkEvent::TimedOut) => {
                let count = format_decimal(self.timeout_secs as u64);
                let mut s = join("WiCAN discovery timed out after ", count.as_str());
                s.append("s");
                fatal_as_is(s)
            },
            (WicanPhase::Discover, LinkEvent::Failed(e)) => fatal_as_is(e),
            (WicanPhase::Device, LinkEvent::Done) => self.to(WicanPhase::Paired),
            (WicanPhase::Device, LinkEvent::Failed(e)) => fatal_as_is(e),
            (WicanPhase::Paired, LinkEvent::Answer(paired)) => {
                if paired {
                    self.to(WicanPhase::Connected)
                } else if self.passkey.is_some() {
                    self.to(WicanPhase::Agent)
                } else {
                    self.to(WicanPhase::Pair)
                }
            },
            (WicanPhase::Paired, LinkEvent::Failed(e)) => fatal_as_is(e),
            (WicanPhase::Agent, LinkEvent::Done) => self.to(WicanPhase::Pair),
            (WicanPhase::Agent, LinkEvent::Failed(e)) => fatal(
                "register passkey agent: ",
                e.as_str(),
            ),
            (WicanPhase::Pair, LinkEvent::Done) => self.to(WicanPhase::Connected),
            (WicanPhase::Pair, LinkEvent::Failed(e)) => fatal("pair failed: ", e.as_str()),
            (WicanPhase::Connected, LinkEvent::Answer(connected)) => {
                if connected {
                    WicanStep::Done(Ok(()))
                } else if self.max_retries == 0 {
                    fatal_as_is("WiCAN connect exhausted retries".to_owned())
                } else {
                    self.to(WicanPhase::Attempt(1))
                }
            },
            (WicanPhase::Connected, LinkEvent::Failed(e)) => fatal_as_is(e),
            (WicanPhase::Attempt(_), LinkEvent::Done) => WicanStep::Done(Ok(())),
            (WicanPhase::Attempt(n), LinkEvent::Failed(e)) => {
                let phase = if n < self.max_retries {
                    WicanPhase::Pause(n)
                } else {
                    WicanPhase::Forget
                };
                WicanStep::More(WicanConnect { phase, reason: e, ..self })
            },
            (WicanPhase::Pause(n), LinkEvent::Done) => self.to(WicanPhase::Attempt(n + 1)),
            (WicanPhase::Forget, LinkEvent::Done) => fatal(
                "WiCAN connect exhausted retries: ",
                self.reason.as_str(),
            ),
            (WicanPhase::Forget, LinkEvent::Failed(_)) => fatal(
                "WiCAN connect exhausted retries: ",
                self.reason.as_str(),
            ),
            _ => WicanStep::More(self),
        }
    }
}

/// What connecting comes to on a run of events.
pub open spec fn wican_after(next: WicanNext, events: Seq<LinkEventModel>) -> WicanNext
    decreases events.len(),
{
    if events.len() == 0 {
        next
    } else {
        match next {
            WicanNext::Done(_) => next,
            WicanNext::More(m) => wican_after(wican_next(m, events[0]), events.drop_first()),
        }
    }
}

/// Failed attempts, each followed by the end of the pause, or of the removal
/// that follows the last one.
pub open spec fn wican_failures(reasons: Seq<Seq<char>>) -> Seq<LinkEventModel>
    decreases reasons.len(),
{
    if reasons.len() == 0 {
        Seq::<LinkEventModel>::empty()
    } else {
        seq![LinkEventModel::Failed(reasons[0]), LinkEventModel::Done] + wican_failures(
            reasons.drop_first(),
        )
    }
}

proof fn lemma_wican_gives_up(m: WicanModel, reasons: Seq<Seq<char>>, n: int)
    requires
        m.wf(),
        m.phase == WicanPhase::Attempt(n as u8),
        1 <= n <= m.max_retries,
        reasons.len() == m.max_retries - n + 1,
    ensures
        wican_after(WicanNext::More(m), wican_failures(reasons)) == wican_fatal(
            "WiCAN connect exhausted retries: "@ + reasons.last(),
        ),
    decreases reasons.len(),
{
    reveal_with_fuel(wican_after, 3);
    let events = wican_failures(reasons);
    let rest = wican_failures(reasons.drop_first());
    assert(events[0] == LinkEventModel::Failed(reasons[0]));
    assert(events.drop_first()[0] == LinkEventModel::Done);
    assert(events.drop_first().drop_first() == rest);
    if reasons.len() > 1 {
        let p = WicanModel { phase: WicanPhase::Pause(n as u8), reason: reasons[0], ..m };
        let q = WicanModel { phase: WicanPhase::Attempt((n + 1) as u8), ..p };
        assert(wican_next(m, events[0]) == WicanNext::More(p));
        assert(wican_next(p, LinkEventModel::Done) == WicanNext::More(q));
        lemma_wican_gives_up(q, reasons.drop_first(), n + 1);
        assert(reasons.drop_first().last() == reasons.last());
    } else {
        assert(rest.len() == 0);
    }
}

/// Connecting gives up after as many failed attempts as are allowed, with the
/// reason of the last one, and the device is removed before.
pub proof fn wican_gives_up_after_all_attempts(m: WicanModel, reasons: Seq<Seq<char>>)
    requires
        m.wf(),
        m.phase == WicanPhase::Attempt(1),
        reasons.len() == m.max_retries,
    ensures
        wican_after(WicanNext::More(m), wican_failures(reasons)) == wican_fatal(
            "WiCAN connect exhausted retries: "@ + reasons.last(),
        ),
        forall|n: u8, e: Seq<char>|
            1 <= n <= m.max_retries ==> ((#[trigger] wican_next(
                WicanModel { phase: WicanPhase::Attempt(n), ..m },
                LinkEventModel::Failed(e),
            ))->More_0.action() is Forget <==> n == m.max_retries),
{
    lemma_wican_gives_up(m, reasons, 1);
}

/// Connecting does no more than is needed: only an unknown device is searched
/// for, only an unpaired one is paired, the agent is registered only where
/// there is a passkey, and only an unconnected device is connected.
pub proof fn wican_does_what_is_needed(m: WicanModel, event: LinkEventModel)
    requires
        m.wf(),
    ensures
        match wican_next(m, event) {
            WicanNext::More(q) => {
                &&& q.phase is Discover && m.phase !is Discover ==> m.phase is Known && event
                    == LinkEventModel::Answer(false)
                &&& q.phase is Agent && m.phase !is Agent ==> m.phase is Paired && event
                    == LinkEventModel::Answer(false) && m.passkey is Some
                &&& q.phase is Pair && m.phase !is Pair ==> (m.phase is Agent && event is Done) || (
                m.phase is Paired && event == LinkEventModel::Answer(false) && m.passkey is None)
                &&& q.phase is Attempt && m.phase !is Attempt ==> m.phase is Pause || (
                m.phase is Connected && event == LinkEventModel::Answer(false))
            },
            WicanNext::Done(Ok(_)) => (m.phase is Connected && event == LinkEventModel::Answer(
                true,
            )) || (m.phase is Attempt && event is Done),
            WicanNext::Done(Err(e)) => e is FatalConn,
        },
{
}

/// The last place of an identifier.
pub open spec fn last_place(uuids: Seq<u128>, uuid: u128) -> Option<int>
    decreases uuids.len(),
{
    if uuids.len() == 0 {
        None
    } else if uuids.last() == uuid {
        Some(uuids.len() - 1)
    } else {
        last_place(uuids.drop_last(), uuid)
    }
}

/// The places of the two characteristics, the one that notifies first; where
/// one is missing, which.
pub open spec fn chars_at(uuids: Seq<u128>) -> Result<(int, int), Seq<char>> {
    match last_place(uuids, WICAN_NOTIFY_UUID) {
        None => Err("WiCAN notify characteristic missing"@),
        Some(notify) => match last_place(uuids, WICAN_WRITE_UUID) {
            None => Err("WiCAN write characteristic missing"@),
            Some(write) => Ok((notify, write)),
        },
    }
}

fn find_last(uuids: &Vec<u128>, uuid: u128) -> (r: Option<usize>)
    ensures
        match r {
            Some(k) => k < uuids@.len() && last_place(uuids@, uuid) == Some(k as int),
            None => last_place(uuids@, uuid) is None,
        },
{
    let mut i: usize = uuids.len();
    assert(uuids@.take(i as int) == uuids@);
    while i > 0
        invariant
            i <= uuids@.len(),
            last_place(uuids@, uuid) == last_place(uuids@.take(i as int), uuid),
        decreases i,
    {
        assert(uuids@.take(i as int).drop_last() == uuids@.take(i - 1));
        if uuids[i - 1] == uuid {
            return Some(i - 1);
        }
        i = i - 1;
    }
    None
}

/// Finds the two characteristics among those that the device offers, in the
/// order in which it lists them.
pub fn find_chars(uuids: &Vec<u128>) -> (r: Result<(usize, usize), String>)
    ensures
        match (r, chars_at(uuids@)) {
            (Ok((n, w)), Ok(places)) => n < uuids@.len() && w < uuids@.len() && places == (
                n as int,
                w as int,
            ),
            (Err(e), Err(text)) => e@ == text,
            _ => false,
        },
{
    match find_last(uuids, WICAN_NOTIFY_UUID) {
        None => Err("WiCAN notify characteristic missing".to_owned()),
        Some(notify) => match find_last(uuids, WICAN_WRITE_UUID) {
            None => Err("WiCAN write characteristic missing".to_owned()),
            Some(write) => Ok((notify, write)),
        },
    }
}

/// The request for a reading: `autopid -d` and a line feed.
pub open spec fn request_wire() -> Seq<u8> {
    seq![0x61u8, 0x75, 0x74, 0x6f, 0x70, 0x69, 0x64, 0x20, 0x2d, 0x64, 0x0a]
}

/// The bytes of the request for a reading.
pub fn request_bytes() -> (r: Vec<u8>)
    ensures
        r@ == request_wire(),
{
    let mut out: Vec<u8> = Vec::new();
    out.push(0x61);
    out.push(0x75);
    out.push(0x74);
    out.push(0x6f);
    out.push(0x70);
    out.push(0x69);
    out.push(0x64);
    out.push(0x20);
    out.push(0x2d);
    out.push(0x64);
    out.push(0x0a);
    assert(out@ =~= request_wire());
    out
}

/// A reading is complete once it is text that ends, but for whitespace, in a
/// closing brace.
pub open spec fn is_complete(buf: Seq<u8>) -> bool {
    valid_utf8(buf) && trimmed(decode_utf8(buf)).len() > 0 && trimmed(decode_utf8(buf)).last()
        == '}'
}

fn complete(buf: &Vec<u8>) -> (r: bool)
    ensures
        r == is_complete(buf@),
{
    match utf8_text(buf) {
        None => false,
        Some(text) => {
            let t = trim(&chars_of(text.as_str()));
            t.len() > 0 && t[t.len() - 1] == '}'
        },
    }
}

/// What happened while a reading was waited for.
#[derive(Debug)]
pub enum ReadingEvent {
    /// The device sent bytes.
    Chunk(Vec<u8>),
    /// The device stopped notifying.
    Ended,
    /// The wait was over.
    TimedOut,
}

/// What an event says.
pub enum ReadingEventModel {
    Chunk(Seq<u8>),
    Ended,
    TimedOut,
}

impl View for ReadingEvent {
    type V = ReadingEventModel;

    open spec fn view(&self) -> ReadingEventModel {
        match *self {
            ReadingEvent::Chunk(b) => ReadingEventModel::Chunk(b@),
            ReadingEvent::Ended => ReadingEventModel::Ended,
            ReadingEvent::TimedOut => ReadingEventModel::TimedOut,
        }
    }
}

/// A reading that is being received. Times are in nanoseconds.
pub struct ReadingModel {
    pub started: u128,
    pub limit: u64,
    pub buf: Seq<u8>,
}

/// What follows: waiting for so long, or the text that came.
pub enum ReadingNext {
    Wait(ReadingModel, int),
    Done(Result<Seq<char>, Seq<char>>),
}

/// The text of the bytes that came. None at all, or bytes that are no text,
/// are an error.
pub open spec fn reading_text(buf: Seq<u8>) -> Result<Seq<char>, Seq<char>> {
    if buf.len() == 0 {
        Err("empty WiCAN response"@)
    } else if valid_utf8(buf) {
        Ok(decode_utf8(buf))
    } else {
        Err("WiCAN response not utf-8: "@ + utf8_error(buf))
    }
}

/// The time since the start.
pub open spec fn waited(m: ReadingModel, now: u128) -> int {
    if now <= m.started {
        0
    } else {
        now - m.started
    }
}

/// Waiting goes on while there is time left.
pub open spec fn keep_waiting(m: ReadingModel, now: u128) -> ReadingNext {
    if waited(m, now) >= m.limit {
        ReadingNext::Done(reading_text(m.buf))
    } else {
        ReadingNext::Wait(m, m.limit - waited(m, now))
    }
}

/// The start of receiving a reading.
pub open spec fn reading_start(timeout_secs: u8, now: u128) -> ReadingModel {
    ReadingModel {
        started: now,
        limit: (timeout_secs * 1_000_000_000) as u64,
        buf: Seq::<u8>::empty(),
    }
}

/// What follows an event. Receiving ends when the reading is complete, the
/// device stops or the time is over.
pub open spec fn reading_next(m: ReadingModel, event: ReadingEventModel, now: u128) -> ReadingNext {
    match event {
        ReadingEventModel::Chunk(b) => {
            let buf = m.buf + b;
            if is_complete(buf) {
                ReadingNext::Done(reading_text(buf))
            } else {
                keep_waiting(ReadingModel { buf, ..m }, now)
            }
        },
        _ => ReadingNext::Done(reading_text(m.buf)),
    }
}

/// Receiving a reading.
pub struct Reading {
    started: u128,
    limit: u64,
    buf: Vec<u8>,
}

/// What follows an event of receiving.
pub enum ReadingStep {
    /// Wait for the next event, for so many nanoseconds at most.
    Wait(Reading, u64),
    /// The text of the reading.
    Done(Result<String, String>),
}

impl ReadingStep {
    pub open spec fn model(self) -> ReadingNext {
        match self {
            ReadingStep::Wait(r, left) => ReadingNext::Wait(r@, left as int),
            ReadingStep::Done(Ok(text)) => ReadingNext::Done(Ok(text@)),
            ReadingStep::Done(Err(e)) => ReadingNext::Done(Err(e@)),
        }
    }
}

impl View for Reading {
    type V = ReadingModel;

    closed spec fn view(&self) -> ReadingModel {
        ReadingModel { started: self.started, limit: self.limit, buf: self.buf@ }
    }
}

impl Reading {
    /// Starts to wait for a reading.
    pub fn start(timeout_secs: u8, now: u128) -> (r: ReadingStep)
        ensures
            r.model() == keep_waiting(reading_start(timeout_secs, now), now),
    {
        let r = Reading {
            started: now,
            limit: timeout_secs as u64 * 1_000_000_000,
            buf: Vec::new(),
        };
        r.keep_waiting(now)
    }

    fn text(self) -> (r: ReadingStep)
        ensures
            r.model() == ReadingNext::Done(reading_text(self@.buf)),
    {
        if self.buf.len() == 0 {
            ReadingStep::Done(Err("empty WiCAN response".to_owned()))
        } else {
            match owned_text(self.buf) {
                Ok(text) => ReadingStep::Done(Ok(text)),
                Err(cause) => ReadingStep::Done(
                    Err(join("WiCAN response not utf-8: ", cause.as_str())),
                ),
            }
        }
    }

    fn keep_waiting(self, now: u128) -> (r: ReadingStep)
        ensures
            r.model() == keep_waiting(self@, now),
    {
        let waited: u128 = if now <= self.started {
            0
        } else {
            now - self.started
        };
        if waited >= self.limit as u128 {
            self.text()
        } else {
            let left: u64 = self.limit - waited as u64;
            ReadingStep::Wait(self, left)
        }
    }

    /// Takes in an event.
    pub fn on_event(self, event: ReadingEvent, now: u128) -> (r: ReadingStep)
        ensures
            r.model() == reading_next(self@, event@, now),
    {
        let mut this = self;
        match event {
            ReadingEvent::Chunk(b) => {
                this.buf.extend_from_slice(b.as_slice());
                assert(this.buf@ == self@.buf + b@);
                if complete(&this.buf) {
                    this.text()
                } else {
                    this.keep_waiting(now)
                }
            },
            _ => this.text(),
        }
    }
}

/// The numbers of a reading.
#[derive(Clone, Copy, Debug)]
pub struct WicanResponse {
    pub soc: Single,
    pub soc_d: Option<Single>,
    pub outdoor_temperature: Option<Single>,
}

/// The metrics of a reading: the displayed state of charge is preferred.
pub open spec fn reading_metrics(resp: WicanResponse) -> Map<Seq<char>, Quantity> {
    let level = match resp.soc_d {
        Some(d) => d,
        None => resp.soc,
    };
    let m = Map::<Seq<char>, Quantity>::empty().insert(
        "battery_level_percentage"@,
        Quantity::Plain(level),
    );
    match resp.outdoor_temperature {
        Some(t) => m.insert("external_temp_celsius"@, Quantity::Plain(t)),
        None => m,
    }
}

/// Makes metrics of a reading.
pub fn metrics_of(resp: &WicanResponse) -> (r: Metrics)
    ensures
        r@ == reading_metrics(*resp),
{
    let level = match resp.soc_d {
        Some(d) => d,
        None => resp.soc,
    };
    let mut m: Metrics = StringHashMap::new();
    m.insert("battery_level_percentage".to_owned(), Quantity::Plain(level));
    if let Some(t) = resp.outdoor_temperature {
        m.insert("external_temp_celsius".to_owned(), Quantity::Plain(t));
    }
    m
}

/// The JSON of a reading: its text without the whitespace around it.
pub fn reading_json(text: &str) -> (r: String)
    ensures
        r@ == trimmed(text@),
{
    string_of(&trim(&chars_of(text)))
}

/// Why no reading was had.
#[derive(Debug)]
pub enum ReadingFault {
    /// The text was no JSON of a reading.
    Malformed { text: String, cause: String },
    /// Anything else.
    Lost(String),
}

/// What it means for the connection. A malformed reading is passing, since the
/// next one may be well formed; anything else is a lost connection.
pub open spec fn fault_meaning(fault: ReadingFault) -> AdapterErrorModel {
    match fault {
        ReadingFault::Malformed { text, cause } => AdapterErrorModel::Transient(
            about("WiCAN JSON parse failed: "@, text@, ": "@ + cause@),
        ),
        ReadingFault::Lost(e) => AdapterErrorModel::FatalConn(e@),
    }
}

/// Judges why no reading was had.
pub fn judge_fault(fault: ReadingFault) -> (r: AdapterError)
    ensures
        r@ == fault_meaning(fault),
{
    match fault {
        ReadingFault::Malformed { text, cause } => {
            let after = join(": ", cause.as_str());
            AdapterError::Transient(
                about_text("WiCAN JSON parse failed: ", text.as_str(), after.as_str()),
            )
        },
        ReadingFault::Lost(e) => AdapterError::FatalConn(e),
    }
}

/// Waiting is never longer than the time that is left, counted from the start.
pub proof fn waiting_is_bounded(m: ReadingModel, event: ReadingEventModel, now: u128)
    ensures
        match reading_next(m, event, now) {
            ReadingNext::Wait(q, left) => {
                &&& left > 0
                &&& waited(m, now) + left == m.limit
                &&& q.started == m.started
                &&& q.limit == m.limit
                &&& !is_complete(q.buf)
            },
            ReadingNext::Done(_) => true,
        },
        event is TimedOut || event is Ended ==> reading_next(m, event, now) is Done,
{
}

/// How a reading is cut into chunks does not matter: bytes that come in two
/// chunks are received as in one, unless the first completes the reading or
/// the time is over before the second.
pub proof fn chunking_does_not_matter(
    m: ReadingModel,
    a: Seq<u8>,
    b: Seq<u8>,
    first: u128,
    second: u128,
)
    requires
        !is_complete(m.buf + a),
        waited(m, first) < m.limit,
    ensures
        reading_next(m, ReadingEventModel::Chunk(a), first) is Wait,
        reading_next(
            reading_next(m, ReadingEventModel::Chunk(a), first)->Wait_0,
            ReadingEventModel::Chunk(b),
            second,
        ) == reading_next(m, ReadingEventModel::Chunk(a + b), second),
{
    assert((m.buf + a) + b == m.buf + (a + b));
}

/// What happens on the way to a connection where nothing fails: the session and
/// the adapter are opened, the device is asked for and found if it was not
/// known, opened, paired if it was not, and connected if it was not.
pub open spec fn smooth_way(m: WicanModel, known: bool, paired: bool, connected: bool) -> Seq<
    LinkEventModel,
> {
    let none = Seq::<LinkEventModel>::empty();
    let done = seq![LinkEventModel::Done];
    done + done + seq![LinkEventModel::Answer(known)] + (if known {
        none
    } else {
        seq![LinkEventModel::Seen(m.address)]
    }) + done + seq![LinkEventModel::Answer(paired)] + (if paired {
        none
    } else if m.passkey is Some {
        done + done
    } else {
        done
    }) + seq![LinkEventModel::Answer(connected)] + (if connected {
        none
    } else {
        done
    })
}

proof fn lemma_wican_step(m: WicanModel, events: Seq<LinkEventModel>, n: WicanNext)
    requires
        events.len() > 0,
        wican_next(m, events[0]) == n,
    ensures
        wican_after(WicanNext::More(m), events) == wican_after(n, events.drop_first()),
{
}

proof fn lemma_wican_connects(m: WicanModel, connected: bool, events: Seq<LinkEventModel>)
    requires
        m.phase is Connected,
        m.max_retries >= 1,
        events == seq![LinkEventModel::Answer(connected)] + (if connected {
            Seq::<LinkEventModel>::empty()
        } else {
            seq![LinkEventModel::Done]
        }),
    ensures
        wican_after(WicanNext::More(m), events) == WicanNext::Done(Ok(())),
{
    reveal_with_fuel(wican_after, 3);
    assert(events[0] == LinkEventModel::Answer(connected));
    if !connected {
        assert(events.drop_first()[0] == LinkEventModel::Done);
        assert(events.drop_first().drop_first().len() == 0);
    } else {
        assert(events.drop_first().len() == 0);
    }
}

proof fn lemma_wican_pairs(
    m: WicanModel,
    paired: bool,
    tail: Seq<LinkEventModel>,
    events: Seq<LinkEventModel>,
)
    requires
        m.phase is Paired,
        events == seq![LinkEventModel::Answer(paired)] + (if paired {
            Seq::<LinkEventModel>::empty()
        } else if m.passkey is Some {
            seq![LinkEventModel::Done, LinkEventModel::Done]
        } else {
            seq![LinkEventModel::Done]
        }) + tail,
    ensures
        wican_after(WicanNext::More(m), events) == wican_after(m.to(WicanPhase::Connected), tail),
{
    reveal_with_fuel(wican_after, 4);
    assert(events[0] == LinkEventModel::Answer(paired));
    let a = events.drop_first();
    if paired {
        assert(a == tail);
    } else if m.passkey is Some {
        assert(a[0] == LinkEventModel::Done);
        assert(a.drop_first()[0] == LinkEventModel::Done);
        assert(a.drop_first().drop_first() == tail);
    } else {
        assert(a[0] == LinkEventModel::Done);
        assert(a.drop_first() == tail);
    }
}

/// Where nothing fails, connecting ends well, whether or not the device was
/// known, paired or connected before, with a passkey or without.
pub proof fn wican_connects(m: WicanModel, known: bool, paired: bool, connected: bool)
    requires
        m.phase is Session,
        m.max_retries >= 1,
    ensures
        wican_after(WicanNext::More(m), smooth_way(m, known, paired, connected))
            == WicanNext::Done(Ok(())),
{
    let none = Seq::<LinkEventModel>::empty();
    let done = seq![LinkEventModel::Done];
    let last = seq![LinkEventModel::Answer(connected)] + (if connected {
        none
    } else {
        done
    });
    let pairing = seq![LinkEventModel::Answer(paired)] + (if paired {
        none
    } else if m.passkey is Some {
        seq![LinkEventModel::Done, LinkEventModel::Done]
    } else {
        done
    }) + last;
    let found = if known {
        none
    } else {
        seq![LinkEventModel::Seen(m.address)]
    };
    let events = done + done + seq![LinkEventModel::Answer(known)] + found + done + pairing;
    assert(smooth_way(m, known, paired, connected) =~= events);
    let e1 = events.drop_first();
    let e2 = e1.drop_first();
    let e3 = e2.drop_first();
    assert(events[0] == LinkEventModel::Done);
    assert(e1[0] == LinkEventModel::Done);
    assert(e2[0] == LinkEventModel::Answer(known));
    assert(e3 =~= found + done + pairing);
    let at = |phase: WicanPhase| WicanModel { phase, ..m };
    lemma_wican_step(m, events, WicanNext::More(at(WicanPhase::Adapter)));
    lemma_wican_step(at(WicanPhase::Adapter), e1, WicanNext::More(at(WicanPhase::Known)));
    let device = at(WicanPhase::Device);
    if known {
        lemma_wican_step(at(WicanPhase::Known), e2, WicanNext::More(device));
        assert(e3 =~= done + pairing);
        assert(e3[0] == LinkEventModel::Done);
        assert(e3.drop_first() =~= pairing);
        lemma_wican_step(device, e3, WicanNext::More(at(WicanPhase::Paired)));
    } else {
        lemma_wican_step(at(WicanPhase::Known), e2, WicanNext::More(at(WicanPhase::Discover)));
        assert(e3[0] == LinkEventModel::Seen(m.address));
        let e4 = e3.drop_first();
        assert(e4 =~= done + pairing);
        lemma_wican_step(at(WicanPhase::Discover), e3, WicanNext::More(device));
        assert(e4[0] == LinkEventModel::Done);
        assert(e4.drop_first() =~= pairing);
        lemma_wican_step(device, e4, WicanNext::More(at(WicanPhase::Paired)));
    }
    lemma_wican_pairs(at(WicanPhase::Paired), paired, last, pairing);
    lemma_wican_connects(at(WicanPhase::Connected), connected, last);
}

/// Connecting works with what the adapter was made with. The search looks for
/// its address, passes over every other device and is limited by its time; the
/// agent is given its passkey; a pause takes ten seconds, and each failure is
/// told with its cause.
pub proof fn wican_steps_use_the_settings(
    a: WicanAdapter,
    m: WicanModel,
    n: u8,
    seen: Seq<u8>,
    e: Seq<char>,
)
    requires
        m.wf(),
    ensures
        wican_start(a).address == a.address@,
        wican_start(a).passkey == a.passkey,
        wican_start(a).max_retries == a.max_retries,
        wican_start(a).timeout_secs == a.timeout_secs,
        wican_start(a).action() == LinkActionModel::OpenSession,
        m.phase is Discover ==> m.action() == LinkActionModel::Discover(m.timeout_secs),
        m.phase is Discover && seen == m.address ==> wican_next(m, LinkEventModel::Seen(seen))
            == m.to(WicanPhase::Device),
        m.phase is Discover && seen != m.address ==> wican_next(m, LinkEventModel::Seen(seen))
            == WicanNext::More(m),
        m.phase is Discover ==> wican_next(m, LinkEventModel::Ended) == wican_fatal(
            "discovery stream ended"@,
        ),
        m.phase is Discover ==> wican_next(m, LinkEventModel::TimedOut) == wican_fatal(
            "WiCAN discovery timed out after "@ + decimal(m.timeout_secs as nat) + "s"@,
        ),
        m.phase is Agent ==> m.action() == LinkActionModel::RegisterAgent(m.passkey->0),
        m.phase is Attempt ==> m.action() == LinkActionModel::Connect(None) && wican_next(
            m,
            LinkEventModel::Done,
        ) == WicanNext::Done(Ok(())),
        m.phase == WicanPhase::Attempt(n) && n < m.max_retries ==> wican_next(
            m,
            LinkEventModel::Failed(e),
        ) == WicanNext::More(WicanModel { phase: WicanPhase::Pause(n), reason: e, ..m }),
        m.phase == WicanPhase::Attempt(n) && n == m.max_retries ==> wican_next(
            m,
            LinkEventModel::Failed(e),
        ) == WicanNext::More(WicanModel { phase: WicanPhase::Forget, reason: e, ..m }),
        m.phase == WicanPhase::Pause(n) ==> m.action() == LinkActionModel::Sleep(10) && wican_next(
            m,
            LinkEventModel::Done,
        ) == m.to(WicanPhase::Attempt((n + 1) as u8)),
        m.phase is Connected && m.max_retries == 0 ==> wican_next(m, LinkEventModel::Answer(false))
            == wican_fatal("WiCAN connect exhausted retries"@),
        m.phase is Session ==> wican_next(m, LinkEventModel::Failed(e)) == wican_fatal(
            "bluer session: "@ + e,
        ),
        m.phase is Adapter ==> wican_next(m, LinkEventModel::Failed(e)) == wican_fatal(
            "default adapter: "@ + e,
        ),
        m.phase is Agent ==> wican_next(m, LinkEventModel::Failed(e)) == wican_fatal(
            "register passkey agent: "@ + e,
        ),
        m.phase is Pair ==> wican_next(m, LinkEventModel::Failed(e)) == wican_fatal(
            "pair failed: "@ + e,
        ),
        m.phase is Known || m.phase is Discover || m.phase is Device || m.phase is Paired
            || m.phase is Connected ==> wican_next(m, LinkEventModel::Failed(e)) == wican_fatal(e),
        wican_fatal(e) == WicanNext::Done(Err(AdapterErrorModel::FatalConn(e))),
{
}

proof fn lemma_last_place(uuids: Seq<u128>, uuid: u128)
    ensures
        last_place(uuids, uuid) matches Some(k) ==> 0 <= k < uuids.len() && uuids[k] == uuid && (
        forall|i: int| k < i < uuids.len() ==> #[trigger] uuids[i] != uuid),
        last_place(uuids, uuid) is None ==> (forall|i: int|
            0 <= i < uuids.len() ==> #[trigger] uuids[i] != uuid),
    decreases uuids.len(),
{
    if uuids.len() > 0 && uuids.last() != uuid {
        let less = uuids.drop_last();
        lemma_last_place(less, uuid);
        if last_place(less, uuid) is Some {
            let k = last_place(less, uuid)->0;
            assert(less[k] == uuids[k]);
            assert forall|i: int| k < i < uuids.len() implies #[trigger] uuids[i] != uuid by {
                if i < less.len() {
                    assert(less[i] == uuids[i]);
                }
            }
        } else {
            assert forall|i: int| 0 <= i < uuids.len() implies #[trigger] uuids[i] != uuid by {
                if i < less.len() {
                    assert(less[i] == uuids[i]);
                }
            }
        }
    }
}

/// The characteristics that are used are the last ones of the device with the
/// two identifiers, the one that notifies first. Where either is not offered
/// there is an error, and the one that notifies is missed first.
pub proof fn characteristics_are_the_last_ones(uuids: Seq<u128>)
    ensures
        chars_at(uuids) matches Ok(places) ==> {
            &&& 0 <= places.0 < uuids.len()
            &&& uuids[places.0] == 0x0200dec001efbc9a56781234deadf0be
            &&& forall|i: int|
                places.0 < i < uuids.len() ==> #[trigger] uuids[i]
                    != 0x0200dec001efbc9a56781234deadf0be
            &&& 0 <= places.1 < uuids.len()
            &&& uuids[places.1] == 0x0300dec001efbc9a56781234deadf0be
            &&& forall|i: int|
                places.1 < i < uuids.len() ==> #[trigger] uuids[i]
                    != 0x0300dec001efbc9a56781234deadf0be
        },
        uuids.contains(0x0200dec001efbc9a56781234deadf0be) && uuids.contains(
            0x0300dec001efbc9a56781234deadf0be,
        ) ==> chars_at(uuids) is Ok,
        !uuids.contains(0x0200dec001efbc9a56781234deadf0be) ==> chars_at(uuids) == Err::<
            (int, int),
            Seq<char>,
        >("WiCAN notify characteristic missing"@),
        uuids.contains(0x0200dec001efbc9a56781234deadf0be) && !uuids.contains(
            0x0300dec001efbc9a56781234deadf0be,
        ) ==> chars_at(uuids) == Err::<(int, int), Seq<char>>(
            "WiCAN write characteristic missing"@,
        ),
{
    lemma_last_place(uuids, WICAN_NOTIFY_UUID);
    lemma_last_place(uuids, WICAN_WRITE_UUID);
}

/// The request for a reading is the text `autopid -d` with a line feed.
pub proof fn request_is_its_text()
    ensures
        request_wire() == encode_utf8("autopid -d\n"@),
{
    reveal_strlit("autopid -d\n");
    let text = "autopid -d\n"@;
    assert(vstd::utf8::is_ascii_chars(text));
    vstd::utf8::is_ascii_chars_encode_utf8(text);
    assert(request_wire() =~= encode_utf8(text));
}

/// A reading is complete exactly if the last character of its text that is no
/// whitespace is a closing brace: text that ends in one is, with any whitespace
/// behind it, text that ends in another character or holds only whitespace is
/// not, and bytes that are no text are not.
pub proof fn complete_readings_end_in_a_brace(a: Seq<char>, c: char, z: Seq<char>, bytes: Seq<u8>)
    requires
        all_space(z),
        !is_space(c),
    ensures
        is_complete(encode_utf8(a.push(c) + z)) <==> c == '}',
        !is_complete(encode_utf8(z)),
        !valid_utf8(bytes) ==> !is_complete(bytes),
{
    let s = a.push(c) + z;
    vstd::utf8::encode_utf8_valid_utf8(s);
    vstd::utf8::encode_utf8_decode_utf8(s);
    vstd::utf8::encode_utf8_valid_utf8(z);
    vstd::utf8::encode_utf8_decode_utf8(z);
    trimming_keeps_the_last_letter(a, c, z);
    let none = Seq::<char>::empty();
    assert(z + none + none == z);
    trimming_takes_off_the_ends(z, none, none);
}

/// A reading is handed out whole: the chunk that completes it ends the waiting
/// with the text of all the bytes that came. So do the end of the notifications
/// and of the time with the text so far, and nothing so far is an error.
pub proof fn readings_are_handed_out_whole(
    m: ReadingModel,
    chunk: Seq<u8>,
    text: Seq<char>,
    now: u128,
)
    requires
        text.len() > 0,
    ensures
        m.buf + chunk == encode_utf8(text) && is_complete(m.buf + chunk) ==> reading_next(
            m,
            ReadingEventModel::Chunk(chunk),
            now,
        ) == ReadingNext::Done(Ok(text)),
        m.buf == encode_utf8(text) ==> reading_next(m, ReadingEventModel::Ended, now)
            == ReadingNext::Done(Ok(text)) && reading_next(m, ReadingEventModel::TimedOut, now)
            == ReadingNext::Done(Ok(text)),
        m.buf.len() == 0 ==> reading_next(m, ReadingEventModel::Ended, now) == ReadingNext::Done(
            Err("empty WiCAN response"@),
        ) && reading_next(m, ReadingEventModel::TimedOut, now) == ReadingNext::Done(
            Err("empty WiCAN response"@),
        ),
        !valid_utf8(m.buf) ==> reading_next(m, ReadingEventModel::Ended, now) == ReadingNext::Done(
            Err("WiCAN response not utf-8: "@ + utf8_error(m.buf)),
        ),
{
    vstd::utf8::encode_utf8_valid_utf8(text);
    vstd::utf8::encode_utf8_decode_utf8(text);
    crate::text::byte_len_is_encoded_len(text);
    crate::text::byte_len_at_least(text);
    assert(valid_utf8(Seq::<u8>::empty())) by {
        vstd::utf8::encode_utf8_valid_utf8(Seq::<char>::empty());
        assert(encode_utf8(Seq::<char>::empty()) == Seq::<u8>::empty());
    }
    if m.buf.len() == 0 {
        assert(m.buf == Seq::<u8>::empty());
    }
}

/// A chunk that does not complete the reading is waited behind for the rest of
/// the seconds, counted from the start, and not at all once they are over. A
/// clock that stepped back has let no time pass.
pub proof fn readings_wait_for_their_seconds(
    secs: u8,
    started: u128,
    before: Seq<u8>,
    chunk: Seq<u8>,
    now: u128,
)
    requires
        !is_complete(before + chunk),
    ensures
        reading_start(secs, started).buf.len() == 0,
        reading_start(secs, started).started == started,
        reading_start(secs, started).limit == secs * 1_000_000_000,
        ({
            let m = ReadingModel { buf: before, ..reading_start(secs, started) };
            let rest = ReadingModel { buf: before + chunk, ..m };
            let next = reading_next(m, ReadingEventModel::Chunk(chunk), now);
            &&& now >= started && now - started < secs * 1_000_000_000 ==> next
                == ReadingNext::Wait(rest, secs * 1_000_000_000 - (now - started))
            &&& now >= started && now - started >= secs * 1_000_000_000 ==> next is Done
            &&& now < started && secs > 0 ==> next == ReadingNext::Wait(rest, secs * 1_000_000_000)
        }),
{
}

/// The metrics of a reading are the charge, the displayed one where there is
/// one, and the outdoor temperature where there is one, and nothing else.
pub proof fn reading_gives_its_metrics(resp: WicanResponse, name: Seq<char>)
    ensures
        reading_metrics(resp).get("battery_level_percentage"@) == Some(
            Quantity::Plain(
                if resp.soc_d is Some {
                    resp.soc_d->0
                } else {
                    resp.soc
                },
            ),
        ),
        resp.outdoor_temperature matches Some(t) ==> reading_metrics(resp).get(
            "external_temp_celsius"@,
        ) == Some(Quantity::Plain(t)),
        resp.outdoor_temperature is None ==> !reading_metrics(resp).contains_key(
            "external_temp_celsius"@,
        ),
        reading_metrics(resp).contains_key(name) ==> name == "battery_level_percentage"@ || name
            == "external_temp_celsius"@,
{
    reveal_strlit("battery_level_percentage");
    reveal_strlit("external_temp_celsius");
    assert("battery_level_percentage"@.len() != "external_temp_celsius"@.len());
}

/// A malformed reading is a passing error that quotes it and gives the cause;
/// anything else is a lost connection.
pub proof fn malformed_readings_are_passing(text: String, cause: String)
    ensures
        fault_meaning(ReadingFault::Malformed { text, cause }) == AdapterErrorModel::Transient(
            "WiCAN JSON parse failed: '"@ + text@ + "': "@ + cause@,
        ),
        fault_meaning(ReadingFault::Lost(cause)) == AdapterErrorModel::FatalConn(cause@),
{
    reveal_strlit("WiCAN JSON parse failed: ");
    reveal_strlit("WiCAN JSON parse failed: '");
    reveal_strlit("'");
    reveal_strlit(": ");
    reveal_strlit("': ");
    assert("WiCAN JSON parse failed: '"@ =~= "WiCAN JSON parse failed: "@ + "'"@);
    assert("': "@ =~= "'"@ + ": "@);
    assert("WiCAN JSON parse failed: '"@ + text@ + "': "@ + cause@ =~= about(
        "WiCAN JSON parse failed: "@,
        text@,
        ": "@ + cause@,
    ));
}

/// An event that does not answer the action of the moment changes nothing.
pub proof fn wican_waits_for_its_answer(m: WicanModel, event: LinkEventModel)
    requires
        match m.action() {
            LinkActionModel::CheckKnown => !(event is Answer || event is Failed),
            LinkActionModel::CheckPaired => !(event is Answer || event is Failed),
            LinkActionModel::CheckConnected => !(event is Answer || event is Failed),
            LinkActionModel::Discover(_) => !(event is Seen || event is Ended || event is TimedOut
                || event is Failed),
            LinkActionModel::Sleep(_) => !(event is Done),
            _ => !(event is Done || event is Failed),
        },
    ensures
        wican_next(m, event) == WicanNext::More(m),
{
}

/// Waiting for a reading starts with all its seconds left; without any there is
/// no reading.
pub proof fn readings_start_with_all_their_seconds(secs: u8, now: u128)
    ensures
        secs > 0 ==> keep_waiting(reading_start(secs, now), now) == ReadingNext::Wait(
            reading_start(secs, now),
            secs * 1_000_000_000,
        ),
        secs == 0 ==> keep_waiting(reading_start(secs, now), now) == ReadingNext::Done(
            Err("empty WiCAN response"@),
        ),
{
}

} // verus!
