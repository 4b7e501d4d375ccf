//! Bluetooth ELM327: an RFCOMM link and the initialisation over it.

use crate::adapter::elm327::texts;
use crate::adapter::errors::{AdapterError, AdapterErrorModel};
use crate::adapter::link::{
    init_commands, init_failure, init_failure_text, init_failures_are_spelled_out, profile_init,
    replies, unsuccessful, LinkAction, LinkActionModel, LinkEvent, LinkEventModel,
};
use crate::adapter::session::{about, about_text, ErrorModel};
use crate::numbers::{address_bytes, decimal, format_decimal, parse_address};
use crate::profile::VehicleProfile;
use crate::text::join;
use vstd::prelude::*;

verus! {

/// The most seconds that the local address of a new link is waited for, less
/// one.
pub const ADDRESS_WAITS: u8 = 5;

/// An ELM327 that is reached over Bluetooth.
#[derive(Debug)]
pub struct BluetoothElm327Adapter {
    pub address: [u8; 6],
    pub profile: VehicleProfile,
    pub bt_passkey: Option<u32>,
    pub max_retries: u8,
    pub timeout_secs: u8,
}

/// At least one attempt is made.
pub open spec fn at_least_one(n: u8) -> u8 {
    if n < 1 {
        1
    } else {
        n
    }
}

impl BluetoothElm327Adapter {
    /// An adapter for the device with an address; fails if that is none.
    pub fn new(
        mac: &str,
        profile: VehicleProfile,
        bt_passkey: Option<u32>,
        max_retries: u8,
        timeout_secs: u8,
    ) -> (r: Result<Self, String>)
        ensures
            match r {
                Ok(a) => {
                    &&& address_bytes(mac@) == Some(a.address@)
                    &&& a.profile == profile
                    &&& a.bt_passkey == bt_passkey
                    &&& a.max_retries == at_least_one(max_retries)
                    &&& a.max_retries >= 1
                    &&& max_retries >= 1 ==> a.max_retries == max_retries
                    &&& max_retries == 0 ==> a.max_retries == 1
                    &&& a.timeout_secs == timeout_secs
                },
                Err(e) => address_bytes(mac@) is None && e@ == about(
                    "invalid bluetooth MAC "@,
                    mac@,
                    ""@,
                ),
            },
    {
        match parse_address(mac) {
            Some(address) => Ok(
                BluetoothElm327Adapter {
                    address,
                    profile,
                    bt_passkey,
                    max_retries: if max_retries < 1 {
                        1
                    } else {
                        max_retries
                    },
                    timeout_secs,
                },
            ),
            None => {
                Err(about_text("invalid bluetooth MAC ", mac, ""))
            },
        }
    }
}

/// Where connecting stands.
#[derive(Clone, Copy, PartialEq, Eq, Debug, Structural)]
pub enum BtPhase {
    /// Opening a session for the pairing agent.
    Session,
    /// Registering the pairing agent.
    Agent,
    /// The attempt with this number.
    Attempt(u8),
    /// Waiting after the failed attempt with this number.
    Pause(u8),
    /// Asking for the local address; it has been waited for so often.
    Address(u8),
    /// Waiting for the local address.
    AddressWait(u8),
    /// Sending the initialisation command with this index.
    Init(usize),
}

/// Connecting under way.
pub struct BtModel {
    pub passkey: Option<u32>,
    pub max_retries: u8,
    pub timeout_secs: u8,
    pub init: Seq<Seq<char>>,
    pub phase: BtPhase,
}

/// What follows an event.
pub enum BtNext {
    More(BtModel),
    Done(Result<(), AdapterErrorModel>),
}

impl BtModel {
    pub open spec fn wf(self) -> bool {
        &&& self.max_retries >= 1
        &&& match self.phase {
            BtPhase::Session => self.passkey is Some,
            BtPhase::Agent => self.passkey is Some,
            BtPhase::Attempt(n) => 1 <= n <= self.max_retries,
            BtPhase::Pause(n) => 1 <= n < self.max_retries,
            BtPhase::Address(i) => i <= ADDRESS_WAITS,
            BtPhase::AddressWait(i) => i <= ADDRESS_WAITS,
            BtPhase::Init(k) => k < self.init.len(),
        }
    }

    /// What the phase asks for.
    pub open spec fn action(self) -> LinkActionModel {
        match self.phase {
            BtPhase::Session => LinkActionModel::OpenSession,
            BtPhase::Agent => LinkActionModel::RegisterAgent(self.passkey->0),
            BtPhase::Attempt(_) => LinkActionModel::Connect(Some(self.timeout_secs)),
            BtPhase::Pause(_) => LinkActionModel::Sleep(2),
            BtPhase::Address(_) => LinkActionModel::CheckAddress,
            BtPhase::AddressWait(_) => LinkActionModel::Sleep(1),
            BtPhase::Init(k) => LinkActionModel::Send(self.init[k as int]),
        }
    }

    pub open spec fn to(self, phase: BtPhase) -> BtNext {
        BtNext::More(BtModel { phase, ..self })
    }

    /// The initialisation from a command on, or the end behind the last one.
    pub open spec fn init_from(self, k: int) -> BtNext {
        if k < self.init.len() {
            self.to(BtPhase::Init(k as usize))
        } else {
            BtNext::Done(Ok(()))
        }
    }

    /// What follows the unsuccessful attempt with a number.
    pub open spec fn after_attempt(self, n: u8) -> BtNext {
        if n < self.max_retries {
            self.to(BtPhase::Pause(n))
        } else {
            bt_fatal("BT connect failed after "@ + decimal(self.max_retries as nat) + " attempts"@)
        }
    }
}

/// Connecting ends for good.
pub open spec fn bt_fatal(message: Seq<char>) -> BtNext {
    BtNext::Done(Err(AdapterErrorModel::FatalConn(message)))
}

/// The start of connecting. The pairing agent is registered once, and only
/// where there is a passkey.
pub open spec fn bt_start(a: BluetoothElm327Adapter, registered: bool) -> BtModel {
    BtModel {
        passkey: a.bt_passkey,
        max_retries: a.max_retries,
        timeout_secs: a.timeout_secs,
        init: profile_init(a.profile),
        phase: if a.bt_passkey is Some && !registered {
            BtPhase::Session
        } else {
            BtPhase::Attempt(1)
        },
    }
}

/// What follows an event of connecting. An event that answers another action
/// changes nothing.
pub open spec fn bt_next(m: BtModel, event: LinkEventModel) -> BtNext {
    match (m.phase, event) {
        (BtPhase::Session, LinkEventModel::Done) => m.to(BtPhase::Agent),
        (BtPhase::Session, LinkEventModel::Failed(e)) => bt_fatal("bluer session: "@ + e),
        (BtPhase::Agent, LinkEventModel::Done) => m.to(BtPhase::Attempt(1)),
        (BtPhase::Agent, LinkEventModel::Failed(e)) => bt_fatal("register passkey agent: "@ + e),
        (BtPhase::Attempt(_), LinkEventModel::Done) => m.to(BtPhase::Address(0)),
        (BtPhase::Attempt(n), LinkEventModel::Failed(_)) => m.after_attempt(n),
        (BtPhase::Attempt(n), LinkEventModel::TimedOut) => m.after_attempt(n),
        (BtPhase::Pause(n), LinkEventModel::Done) => m.to(BtPhase::Attempt((n + 1) as u8)),
        (BtPhase::Address(i), LinkEventModel::Answer(missing)) => if missing {
            m.to(BtPhase::AddressWait(i))
        } else {
            m.init_from(0)
        },
        (BtPhase::AddressWait(i), LinkEventModel::Done) => if i < ADDRESS_WAITS {
            m.to(BtPhase::Address((i + 1) as u8))
        } else {
            m.init_from(0)
        },
        (BtPhase::Init(k), LinkEventModel::Replied) => m.init_from(k + 1),
        (BtPhase::Init(k), LinkEventModel::CommandFailed(e)) => bt_fatal(
            init_failure(m.init[k as int], e),
        ),
        _ => BtNext::More(m),
    }
}

/// Connecting to an ELM327 over Bluetooth.
pub struct BtConnect {
    passkey: Option<u32>,
    max_retries: u8,
    timeout_secs: u8,
    init: Vec<String>,
    phase: BtPhase,
}

/// What follows an event of connecting.
pub enum BtStep {
    More(BtConnect),
    Done(Result<(), AdapterError>),
}

impl BtStep {
    pub open spec fn model(self) -> BtNext {
        match self {
            BtStep::More(c) => BtNext::More(c@),
            BtStep::Done(Ok(u)) => BtNext::Done(Ok(u)),
            BtStep::Done(Err(e)) => BtNext::Done(Err(e@)),
        }
    }
}

impl View for BtConnect {
    type V = BtModel;

    closed spec fn view(&self) -> BtModel {
        BtModel {
            passkey: self.passkey,
            max_retries: self.max_retries,
            timeout_secs: self.timeout_secs,
            init: texts(self.init@),
            phase: self.phase,
        }
    }
}

impl BtConnect {
    /// Starts connecting; the pairing agent may be registered already.
    pub fn start(a: &BluetoothElm327Adapter, registered: bool) -> (r: BtConnect)
        requires
            a.max_retries >= 1,
        ensures
            r@ == bt_start(*a, registered),
            r@.wf(),
    {
        BtConnect {
            passkey: a.bt_passkey,
            max_retries: a.max_retries,
            timeout_secs: a.timeout_secs,
            init: init_commands(&a.profile),
            phase: if a.bt_passkey.is_some() && !registered {
                BtPhase::Session
            } else {
                BtPhase::Attempt(1)
            },
        }
    }

    /// What to do now.
    pub fn action(&self) -> (r: LinkAction)
        requires
            self@.wf(),
        ensures
            r@ == self@.action(),
    {
        match self.phase {
            BtPhase::Session => LinkAction::OpenSession,
            BtPhase::Agent => LinkAction::RegisterAgent(self.passkey.unwrap()),
            BtPhase::Attempt(_) => LinkAction::Connect(Some(self.timeout_secs)),
            BtPhase::Pause(_) => LinkAction::Sleep(2),
            BtPhase::Address(_) => LinkAction::CheckAddress,
            BtPhase::AddressWait(_) => LinkAction::Sleep(1),
            BtPhase::Init(k) => LinkAction::Send(self.init[k].clone()),
        }
    }

    fn to(self, phase: BtPhase) -> (r: BtStep)
        ensures
            r.model() == self@.to(phase),
            r is More && r->More_0@ == (BtModel { phase, ..self@ }),
    {
        BtStep::More(BtConnect { phase, ..self })
    }

    fn init_from(self, k: usize) -> (r: BtStep)
        requires
            self@.max_retries >= 1,
        ensures
            r.model() == self@.init_from(k as int),
            r is More ==> r->More_0@.wf(),
    {
        if k < self.init.len() {
            self.to(BtPhase::Init(k))
        } else {
            BtStep::Done(Ok(()))
        }
    }

    fn after_attempt(self, n: u8) -> (r: BtStep)
        requires
            self@.wf(),
            self@.phase == BtPhase::Attempt(n),
        ensures
            r.model() == self@.after_attempt(n),
            r is More ==> r->More_0@.wf(),
    {
        if n < self.max_retries {
            self.to(BtPhase::Pause(n))
        } else {
            let count = format_decimal(self.max_retries as u64);
            let mut s = join("BT connect failed after ", count.as_str());
            s.append(" attempts");
            BtStep::Done(Err(AdapterError::FatalConn(s)))
        }
    }

    /// Takes in what came of the action.
    pub fn on_event(self, event: LinkEvent) -> (r: BtStep)
        requires
            self@.wf(),
        ensures
            r.model() == bt_next(self@, event@),
            r is More ==> r->More_0@.wf(),
    {
        match (self.phase, event) {
            (BtPhase::Session, LinkEvent::Done) => self.to(BtPhase::Agent),
            (BtPhase::Session, LinkEvent::Failed(e)) => BtStep::Done(
                Err(AdapterError::FatalConn(join("bluer session: ", e.as_str()))),
            ),
            (BtPhase::Agent, LinkEvent::Done) => self.to(BtPhase::Attempt(1)),
            (BtPhase::Agent, LinkEvent::Failed(e)) => BtStep::Done(
                Err(AdapterError::FatalConn(join("register passkey agent: ", e.as_str()))),
            ),
            (BtPhase::Attempt(_), LinkEvent::Done) => self.to(BtPhase::Address(0)),
            (BtPhase::Attempt(n), LinkEvent::Failed(_)) => self.after_attempt(n),
            (BtPhase::Attempt(n), LinkEvent::TimedOut) => self.after_attempt(n),
            (BtPhase::Pause(n), LinkEvent::Done) => self.to(BtPhase::Attempt(n + 1)),
            (BtPhase::Address(i), LinkEvent::Answer(missing)) => {
                if missing {
                    self.to(BtPhase::AddressWait(i))
                } else {
                    self.init_from(0)
                }
            },
            (BtPhase::AddressWait(i), LinkEvent::Done) => {
                if i < ADDRESS_WAITS {
                    self.to(BtPhase::Address(i + 1))
                } else {
                    self.init_from(0)
                }
            },
            (BtPhase::Init(k), LinkEvent::Replied) => {
                let total: usize = self.init.len();
                assert(k < total);
                self.init_from(k + 1)
            },
            (BtPhase::Init(k), LinkEvent::CommandFailed(e)) => BtStep::Done(
                Err(AdapterError::FatalConn(init_failure_text(self.init[k].as_str(), &e))),
            ),
            _ => BtStep::More(self),
        }
    }
}

/// What connecting comes to on a run of events.
pub open spec fn bt_after(next: BtNext, events: Seq<LinkEventModel>) -> BtNext
    decreases events.len(),
{
    if events.len() == 0 {
        next
    } else {
        match next {
            BtNext::Done(_) => next,
            BtNext::More(m) => bt_after(bt_next(m, events[0]), events.drop_first()),
        }
    }
}

/// Unsuccessful attempts with their pauses; there is no pause after the last
/// one.
pub open spec fn with_pauses(attempts: Seq<LinkEventModel>) -> Seq<LinkEventModel>
    decreases attempts.len(),
{
    if attempts.len() <= 1 {
        attempts
    } else {
        seq![attempts[0], LinkEventModel::Done] + with_pauses(attempts.drop_first())
    }
}

proof fn lemma_bt_gives_up(m: BtModel, attempts: Seq<LinkEventModel>, n: int)
    requires
        m.wf(),
        m.phase == BtPhase::Attempt(n as u8),
        1 <= n <= m.max_retries,
        attempts.len() == m.max_retries - n + 1,
        forall|k: int| 0 <= k < attempts.len() ==> unsuccessful(#[trigger] attempts[k]),
    ensures
        bt_after(BtNext::More(m), with_pauses(attempts)) == bt_fatal(
            "BT connect failed after "@ + decimal(m.max_retries as nat) + " attempts"@,
        ),
    decreases attempts.len(),
{
    reveal_with_fuel(bt_after, 3);
    let events = with_pauses(attempts);
    assert(unsuccessful(attempts[0]));
    if attempts.len() == 1 {
        assert(events.drop_first().len() == 0);
    } else {
        let rest = with_pauses(attempts.drop_first());
        assert(events[0] == attempts[0]);
        assert(events.drop_first()[0] == LinkEventModel::Done);
        assert(events.drop_first().drop_first() == rest);
        let p = BtModel { phase: BtPhase::Pause(n as u8), ..m };
        let q = BtModel { phase: BtPhase::Attempt((n + 1) as u8), ..m };
        assert(bt_next(m, events[0]) == BtNext::More(p));
        assert(bt_next(p, LinkEventModel::Done) == BtNext::More(q));
        lemma_bt_gives_up(q, attempts.drop_first(), n + 1);
    }
}

/// Connecting gives up after as many unsuccessful attempts as are allowed, and
/// not before: each attempt before the last one is followed by a pause and
/// another attempt.
pub proof fn bt_gives_up_after_all_attempts(m: BtModel, attempts: Seq<LinkEventModel>)
    requires
        m.wf(),
        m.phase == BtPhase::Attempt(1),
        attempts.len() == m.max_retries,
        forall|k: int| 0 <= k < attempts.len() ==> unsuccessful(#[trigger] attempts[k]),
    ensures
        bt_after(BtNext::More(m), with_pauses(attempts)) == bt_fatal(
            "BT connect failed after "@ + decimal(m.max_retries as nat) + " attempts"@,
        ),
        forall|n: u8, e: LinkEventModel|
            1 <= n < m.max_retries && unsuccessful(e) ==> #[trigger] bt_next(
                BtModel { phase: BtPhase::Attempt(n), ..m },
                e,
            ) == m.to(BtPhase::Pause(n)),
{
    lemma_bt_gives_up(m, attempts, 1);
}

/// The initialisation sends every command once, in order, and connecting ends
/// well with the reply to the last one.
pub proof fn bt_init_sends_all(m: BtModel, k: usize, n: nat)
    requires
        m.wf(),
        m.phase == BtPhase::Init(k),
        m.init.len() <= usize::MAX,
        k + n <= m.init.len(),
    ensures
        bt_after(BtNext::More(m), replies(n)) == m.init_from(k + n),
    decreases n,
{
    reveal_with_fuel(bt_after, 2);
    let events = replies(n);
    if n > 0 {
        let less = (n - 1) as nat;
        let rest = replies(less);
        assert(events.drop_first() == rest);
        if k + 1 < m.init.len() {
            let q = BtModel { phase: BtPhase::Init((k + 1) as usize), ..m };
            bt_init_sends_all(q, (k + 1) as usize, less);
        } else {
            assert(rest.len() == 0);
        }
    }
}

/// The pairing agent is registered at the very start or not at all: with an
/// agent in place, or without a passkey, no step asks for one.
pub proof fn bt_registers_agent_once(
    a: BluetoothElm327Adapter,
    registered: bool,
    m: BtModel,
    event: LinkEventModel,
)
    ensures
        bt_start(a, registered).phase is Session <==> a.bt_passkey is Some && !registered,
        !(bt_start(a, registered).phase is Agent),
        !(m.phase is Session || m.phase is Agent) ==> match bt_next(m, event) {
            BtNext::More(q) => !(q.action() is OpenSession || q.action() is RegisterAgent),
            BtNext::Done(_) => true,
        },
{
}

/// Questions for a local address that is missing, each with its wait.
pub open spec fn missing_address(n: nat) -> Seq<LinkEventModel>
    decreases n,
{
    if n == 0 {
        Seq::<LinkEventModel>::empty()
    } else {
        seq![LinkEventModel::Answer(true), LinkEventModel::Done] + missing_address((n - 1) as nat)
    }
}

/// The local address of a new link is asked for up to six times, with a second
/// of waiting behind each time that it is missing. With the address, or after
/// the sixth wait without it, the initialisation starts.
pub proof fn bt_waits_for_its_address(m: BtModel, i: u8, n: nat)
    requires
        m.wf(),
        m.phase == BtPhase::Address(i),
        i + n <= 6,
    ensures
        m.action() == LinkActionModel::CheckAddress,
        bt_next(m, LinkEventModel::Answer(false)) == m.init_from(0),
        i + n < 6 ==> bt_after(BtNext::More(m), missing_address(n)) == m.to(
            BtPhase::Address((i + n) as u8),
        ),
        i + n == 6 && n > 0 ==> bt_after(BtNext::More(m), missing_address(n)) == m.init_from(0),
    decreases n,
{
    reveal_with_fuel(bt_after, 3);
    if n > 0 {
        let less = (n - 1) as nat;
        let events = missing_address(n);
        assert(events[0] == LinkEventModel::Answer(true));
        assert(events.drop_first()[0] == LinkEventModel::Done);
        assert(events.drop_first().drop_first() == missing_address(less));
        if i < 5 {
            let q = BtModel { phase: BtPhase::Address((i + 1) as u8), ..m };
            bt_waits_for_its_address(q, (i + 1) as u8, less);
        }
    }
}

/// A link that comes up in one of the attempts, with its local address, is
/// initialised with the commands of the profile one after the other: after k
/// replies the command with index k is next, and behind the last one connecting
/// has ended well.
pub proof fn bt_connects(m: BtModel, n: u8, k: nat)
    requires
        m.wf(),
        m.phase == BtPhase::Attempt(n),
        k <= m.init.len() <= usize::MAX,
    ensures
        m.action() == LinkActionModel::Connect(Some(m.timeout_secs)),
        ({
            let next = bt_after(
                BtNext::More(m),
                seq![LinkEventModel::Done, LinkEventModel::Answer(false)] + replies(k),
            );
            &&& k == m.init.len() ==> next == BtNext::Done(Ok(()))
            &&& k < m.init.len() ==> next is More && next->More_0.action() == LinkActionModel::Send(
                m.init[k as int],
            )
        }),
{
    let events = seq![LinkEventModel::Done, LinkEventModel::Answer(false)] + replies(k);
    reveal_with_fuel(bt_after, 3);
    assert(events[0] == LinkEventModel::Done);
    assert(events.drop_first()[0] == LinkEventModel::Answer(false));
    assert(events.drop_first().drop_first() == replies(k));
    let a = BtModel { phase: BtPhase::Address(0), ..m };
    assert(bt_next(m, events[0]) == BtNext::More(a));
    if m.init.len() > 0 {
        let q = BtModel { phase: BtPhase::Init(0), ..m };
        assert(bt_next(a, LinkEventModel::Answer(false)) == BtNext::More(q));
        bt_init_sends_all(q, 0, k);
    } else {
        assert(replies(k).len() == 0);
    }
}

/// Connecting starts with what the adapter was made with: its passkey, its
/// attempts, its time limit and the commands of its profile. The agent is given
/// the passkey, a pause takes two seconds, and each failure before the link
/// names its step.
pub proof fn bt_steps_use_the_settings(
    a: BluetoothElm327Adapter,
    registered: bool,
    m: BtModel,
    n: u8,
    k: usize,
    e: Seq<char>,
    c: ErrorModel,
)
    requires
        m.wf(),
    ensures
        bt_start(a, registered).passkey == a.bt_passkey,
        bt_start(a, registered).max_retries == a.max_retries,
        bt_start(a, registered).timeout_secs == a.timeout_secs,
        bt_start(a, registered).init == profile_init(a.profile),
        !(bt_start(a, registered).phase is Session) ==> bt_start(a, registered).phase
            == BtPhase::Attempt(1),
        m.phase is Agent ==> m.action() == LinkActionModel::RegisterAgent(m.passkey->0),
        m.phase == BtPhase::Pause(n) ==> m.action() == LinkActionModel::Sleep(2) && bt_next(
            m,
            LinkEventModel::Done,
        ) == m.to(BtPhase::Attempt((n + 1) as u8)),
        m.phase is AddressWait ==> m.action() == LinkActionModel::Sleep(1),
        m.phase is Session ==> bt_next(m, LinkEventModel::Done) == m.to(BtPhase::Agent),
        m.phase is Agent ==> bt_next(m, LinkEventModel::Done) == m.to(BtPhase::Attempt(1)),
        m.phase is Session ==> bt_next(m, LinkEventModel::Failed(e)) == BtNext::Done(
            Err(AdapterErrorModel::FatalConn("bluer session: "@ + e)),
        ),
        m.phase is Agent ==> bt_next(m, LinkEventModel::Failed(e)) == BtNext::Done(
            Err(AdapterErrorModel::FatalConn("register passkey agent: "@ + e)),
        ),
        m.phase == BtPhase::Init(k) ==> bt_next(m, LinkEventModel::CommandFailed(c))
            == BtNext::Done(
            Err(
                AdapterErrorModel::FatalConn(
                    "init step '"@ + m.init[k as int] + "' failed: "@ + c.message,
                ),
            ),
        ),
{
    init_failures_are_spelled_out(m.init[k as int], c);
}

/// An event that does not answer the action of the moment changes nothing.
pub proof fn bt_waits_for_its_answer(m: BtModel, event: LinkEventModel)
    requires
        match m.action() {
            LinkActionModel::OpenSession => !(event is Done || event is Failed),
            LinkActionModel::RegisterAgent(_) => !(event is Done || event is Failed),
            LinkActionModel::Connect(_) => !(event is Done || unsuccessful(event)),
            LinkActionModel::Sleep(_) => !(event is Done),
            LinkActionModel::CheckAddress => !(event is Answer),
            _ => !(event is Replied || event is CommandFailed),
        },
    ensures
        bt_next(m, event) == BtNext::More(m),
{
}

} // verus!
