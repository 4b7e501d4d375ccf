//! USB ELM327: a serial port and the initialisation over it.

use crate::adapter::elm327::texts;
use crate::adapter::errors::{AdapterError, AdapterErrorModel};
use crate::adapter::link::{
    init_commands, init_failure, init_failure_text, init_failures_are_spelled_out, profile_init,
    replies, LinkAction, LinkActionModel, LinkEvent, LinkEventModel,
};
use crate::adapter::session::ErrorModel;
use crate::profile::VehicleProfile;
use crate::text::join;
use vstd::prelude::*;

verus! {

/// An ELM327 that is reached over a serial port.
#[derive(Debug)]
pub struct UsbElm327Adapter {
    pub port: String,
    pub baud: u32,
    pub profile: VehicleProfile,
}

impl UsbElm327Adapter {
    /// An adapter on a port. It is always made: whether the port can be used
    /// shows when it is opened.
    pub fn new(port: &str, baud: u32, profile: VehicleProfile) -> (r: Result<Self, String>)
        ensures
            match r {
                Ok(a) => a.port@ == port@ && a.baud == baud && a.profile == profile,
                Err(_) => false,
            },
    {
        Ok(UsbElm327Adapter { port: port.to_owned(), baud, profile })
    }
}

/// Where connecting stands.
#[derive(Clone, Copy, PartialEq, Eq, Debug, Structural)]
pub enum UsbPhase {
    /// Opening the port.
    Open,
    /// Sending the initialisation command with this index.
    Init(usize),
}

/// Connecting under way.
pub struct UsbModel {
    pub port: Seq<char>,
    pub init: Seq<Seq<char>>,
    pub phase: UsbPhase,
}

/// What follows an event.
pub enum UsbNext {
    More(UsbModel),
    Done(Result<(), AdapterErrorModel>),
}

impl UsbModel {
    pub open spec fn wf(self) -> bool {
        match self.phase {
            UsbPhase::Open => true,
            UsbPhase::Init(k) => k < self.init.len(),
        }
    }

    /// What the phase asks for.
    pub open spec fn action(self) -> LinkActionModel {
        match self.phase {
            UsbPhase::Open => LinkActionModel::OpenPort,
            UsbPhase::Init(k) => LinkActionModel::Send(self.init[k as int]),
        }
    }

    /// The initialisation from a command on, or the end behind the last one.
    pub open spec fn init_from(self, k: int) -> UsbNext {
        if k < self.init.len() {
            UsbNext::More(UsbModel { phase: UsbPhase::Init(k as usize), ..self })
        } else {
            UsbNext::Done(Ok(()))
        }
    }
}

/// The start of connecting.
pub open spec fn usb_start(a: UsbElm327Adapter) -> UsbModel {
    UsbModel { port: a.port@, init: profile_init(a.profile), phase: UsbPhase::Open }
}

/// What follows an event of connecting. An event that answers another action
/// changes nothing.
pub open spec fn usb_next(m: UsbModel, event: LinkEventModel) -> UsbNext {
    match (m.phase, event) {
        (UsbPhase::Open, LinkEventModel::Done) => m.init_from(0),
        (UsbPhase::Open, LinkEventModel::Failed(e)) => UsbNext::Done(
            Err(AdapterErrorModel::FatalConn("open "@ + m.port + ": "@ + e)),
        ),
        (UsbPhase::Init(k), LinkEventModel::Replied) => m.init_from(k + 1),
        (UsbPhase::Init(k), LinkEventModel::CommandFailed(e)) => UsbNext::Done(
            Err(AdapterErrorModel::FatalConn(init_failure(m.init[k as int], e))),
        ),
        _ => UsbNext::More(m),
    }
}

/// Connecting to an ELM327 over a serial port.
pub struct UsbConnect {
    port: String,
    init: Vec<String>,
    phase: UsbPhase,
}

/// What follows an event of connecting.
pub enum UsbStep {
    More(UsbConnect),
    Done(Result<(), AdapterError>),
}

impl UsbStep {
    pub open spec fn model(self) -> UsbNext {
        match self {
            UsbStep::More(c) => UsbNext::More(c@),
            UsbStep::Done(Ok(u)) => UsbNext::Done(Ok(u)),
            UsbStep::Done(Err(e)) => UsbNext::Done(Err(e@)),
        }
    }
}

impl View for UsbConnect {
    type V = UsbModel;

    closed spec fn view(&self) -> UsbModel {
        UsbModel { port: self.port@, init: texts(self.init@), phase: self.phase }
    }
}

impl UsbConnect {
    /// Starts connecting.
    pub fn start(a: &UsbElm327Adapter) -> (r: UsbConnect)
        ensures
            r@ == usb_start(*a),
            r@.wf(),
    {
        UsbConnect {
            port: a.port.clone(),
            init: init_commands(&a.profile),
            phase: UsbPhase::Open,
        }
    }

    /// What to do now.
    pub fn action(&self) -> (r: LinkAction)
        requires
            self@.wf(),
        ensures
            r@ == self@.action(),
    {
        match self.phase {
            UsbPhase::Open => LinkAction::OpenPort,
            UsbPhase::Init(k) => LinkAction::Send(self.init[k].clone()),
        }
    }

    fn init_from(self, k: usize) -> (r: UsbStep)
        ensures
            r.model() == self@.init_from(k as int),
            r is More ==> r->More_0@.wf(),
    {
        if k < self.init.len() {
            UsbStep::More(UsbConnect { phase: UsbPhase::Init(k), ..self })
        } else {
            UsbStep::Done(Ok(()))
        }
    }

    /// Takes in what came of the action.
    pub fn on_event(self, event: LinkEvent) -> (r: UsbStep)
        requires
            self@.wf(),
        ensures
            r.model() == usb_next(self@, event@),
            r is More ==> r->More_0@.wf(),
    {
        match (self.phase, event) {
            (UsbPhase::Open, LinkEvent::Done) => self.init_from(0),
            (UsbPhase::Open, LinkEvent::Failed(e)) => {
                let mut s = join("open ", self.port.as_str());
                s.append(": ");
                s.append(e.as_str());
                UsbStep::Done(Err(AdapterError::FatalConn(s)))
            },
            (UsbPhase::Init(k), LinkEvent::Replied) => {
                let total: usize = self.init.len();
                assert(k < total);
                self.init_from(k + 1)
            },
            (UsbPhase::Init(k), LinkEvent::CommandFailed(e)) => UsbStep::Done(
                Err(AdapterError::FatalConn(init_failure_text(self.init[k].as_str(), &e))),
            ),
            _ => UsbStep::More(self),
        }
    }
}

/// What connecting comes to on a run of events.
pub open spec fn usb_after(next: UsbNext, events: Seq<LinkEventModel>) -> UsbNext
    decreases events.len(),
{
    if events.len() == 0 {
        next
    } else {
        match next {
            UsbNext::Done(_) => next,
            UsbNext::More(m) => usb_after(usb_next(m, events[0]), events.drop_first()),
        }
    }
}

/// The initialisation sends every command once, in order, and connecting ends
/// well with the reply to the last one.
pub proof fn usb_init_sends_all(m: UsbModel, k: usize, n: nat)
    requires
        m.wf(),
        m.phase == UsbPhase::Init(k),
        m.init.len() <= usize::MAX,
        k + n <= m.init.len(),
    ensures
        usb_after(UsbNext::More(m), replies(n)) == m.init_from(k + n),
    decreases n,
{
    reveal_with_fuel(usb_after, 2);
    let events = replies(n);
    if n > 0 {
        let less = (n - 1) as nat;
        let rest = replies(less);
        assert(events.drop_first() == rest);
        if k + 1 < m.init.len() {
            let q = UsbModel { phase: UsbPhase::Init((k + 1) as usize), ..m };
            usb_init_sends_all(q, (k + 1) as usize, less);
        } else {
            assert(rest.len() == 0);
        }
    }
}

/// Connecting opens the port and sends the commands of the profile one after
/// the other: with the port open and k replies the command with index k is
/// next, and behind the last one connecting has ended well.
pub proof fn usb_connects(a: UsbElm327Adapter, k: nat)
    requires
        k <= profile_init(a.profile).len() <= usize::MAX,
    ensures
        usb_start(a).action() == LinkActionModel::OpenPort,
        ({
            let next = usb_after(
                UsbNext::More(usb_start(a)),
                seq![LinkEventModel::Done] + replies(k),
            );
            &&& k == profile_init(a.profile).len() ==> next == UsbNext::Done(Ok(()))
            &&& k < profile_init(a.profile).len() ==> next is More && next->More_0.action()
                == LinkActionModel::Send(profile_init(a.profile)[k as int])
        }),
{
    let m = usb_start(a);
    let events = seq![LinkEventModel::Done] + replies(k);
    reveal_with_fuel(usb_after, 2);
    assert(events[0] == LinkEventModel::Done);
    assert(events.drop_first() == replies(k));
    if m.init.len() > 0 {
        let q = UsbModel { phase: UsbPhase::Init(0), ..m };
        usb_init_sends_all(q, 0, k);
    } else {
        assert(replies(k).len() == 0);
    }
}

/// A port that cannot be opened, or a command that fails, ends connecting with
/// an error that names the port or the command and gives the cause.
pub proof fn usb_failures_name_their_step(m: UsbModel, k: usize, e: Seq<char>, c: ErrorModel)
    ensures
        m.phase == UsbPhase::Open ==> usb_next(m, LinkEventModel::Failed(e)) == UsbNext::Done(
            Err(AdapterErrorModel::FatalConn("open "@ + m.port + ": "@ + e)),
        ),
        m.phase == UsbPhase::Init(k) ==> usb_next(m, LinkEventModel::CommandFailed(c))
            == UsbNext::Done(
            Err(
                AdapterErrorModel::FatalConn(
                    "init step '"@ + m.init[k as int] + "' failed: "@ + c.message,
                ),
            ),
        ),
{
    init_failures_are_spelled_out(m.init[k as int], c);
}

/// An event that does not answer the action of the moment changes nothing.
pub proof fn usb_waits_for_its_answer(m: UsbModel, event: LinkEventModel)
    requires
        match m.action() {
            LinkActionModel::OpenPort => !(event is Done || event is Failed),
            _ => !(event is Replied || event is CommandFailed),
        },
    ensures
        usb_next(m, event) == UsbNext::More(m),
{
}

} // verus!
