//! Steps of setting up a link, and the initialisation that follows it.

use crate::adapter::elm327::texts;
use crate::adapter::session::{about, about_text, ErrorModel, SessionError};
use crate::profile::VehicleProfile;
use crate::text::join;
use vstd::prelude::*;

verus! {

/// What setting up a link asks for next.
#[derive(Debug)]
pub enum LinkAction {
    /// Open a session with the Bluetooth daemon.
    OpenSession,
    /// Get the default Bluetooth adapter.
    OpenAdapter,
    /// Register a pairing agent that answers with this passkey.
    RegisterAgent(u32),
    /// Is the device known?
    CheckKnown,
    /// Search for the device for so many seconds.
    Discover(u8),
    /// Get a handle of the device.
    OpenDevice,
    /// Is the device paired?
    CheckPaired,
    Pair,
    /// Is the device connected?
    CheckConnected,
    /// Connect; there may be a limit in seconds.
    Connect(Option<u8>),
    /// Remove the device.
    Forget,
    /// Is the local address of the link still missing?
    CheckAddress,
    /// Wait for so many seconds.
    Sleep(u64),
    /// Open the serial port.
    OpenPort,
    /// Send a command and read up to the prompt.
    Send(String),
}

/// What an action says.
pub enum LinkActionModel {
    OpenSession,
    OpenAdapter,
    RegisterAgent(u32),
    CheckKnown,
    Discover(u8),
    OpenDevice,
    CheckPaired,
    Pair,
    CheckConnected,
    Connect(Option<u8>),
    Forget,
    CheckAddress,
    Sleep(u64),
    OpenPort,
    Send(Seq<char>),
}

impl View for LinkAction {
    type V = LinkActionModel;

    open spec fn view(&self) -> LinkActionModel {
        match *self {
            LinkAction::OpenSession => LinkActionModel::OpenSession,
            LinkAction::OpenAdapter => LinkActionModel::OpenAdapter,
            LinkAction::RegisterAgent(p) => LinkActionModel::RegisterAgent(p),
            LinkAction::CheckKnown => LinkActionModel::CheckKnown,
            LinkAction::Discover(s) => LinkActionModel::Discover(s),
            LinkAction::OpenDevice => LinkActionModel::OpenDevice,
            LinkAction::CheckPaired => LinkActionModel::CheckPaired,
            LinkAction::Pair => LinkActionModel::Pair,
            LinkAction::CheckConnected => LinkActionModel::CheckConnected,
            LinkAction::Connect(t) => LinkActionModel::Connect(t),
            LinkAction::Forget => LinkActionModel::Forget,
            LinkAction::CheckAddress => LinkActionModel::CheckAddress,
            LinkAction::Sleep(s) => LinkActionModel::Sleep(s),
            LinkAction::OpenPort => LinkActionModel::OpenPort,
            LinkAction::Send(c) => LinkActionModel::Send(c@),
        }
    }
}

/// An action that did not come to its end: it failed, or its time ran out.
pub open spec fn unsuccessful(event: LinkEventModel) -> bool {
    event is Failed || event is TimedOut
}

/// What came of an action.
#[derive(Debug)]
pub enum LinkEvent {
    /// It was carried out.
    Done,
    /// The answer to a question.
    Answer(bool),
    /// The search met the device with this address.
    Seen([u8; 6]),
    /// The search ended by itself.
    Ended,
    /// The time for it ran out.
    TimedOut,
    /// It failed, with this text.
    Failed(String),
    /// A command was answered.
    Replied,
    /// A command failed.
    CommandFailed(SessionError),
}

/// What an event says.
pub enum LinkEventModel {
    Done,
    Answer(bool),
    Seen(Seq<u8>),
    Ended,
    TimedOut,
    Failed(Seq<char>),
    Replied,
    CommandFailed(ErrorModel),
}

impl View for LinkEvent {
    type V = LinkEventModel;

    open spec fn view(&self) -> LinkEventModel {
        match *self {
            LinkEvent::Done => LinkEventModel::Done,
            LinkEvent::Answer(b) => LinkEventModel::Answer(b),
            LinkEvent::Seen(a) => LinkEventModel::Seen(a@),
            LinkEvent::Ended => LinkEventModel::Ended,
            LinkEvent::TimedOut => LinkEventModel::TimedOut,
            LinkEvent::Failed(m) => LinkEventModel::Failed(m@),
            LinkEvent::Replied => LinkEventModel::Replied,
            LinkEvent::CommandFailed(e) => LinkEventModel::CommandFailed(e@),
        }
    }
}

/// So many replies.
pub open spec fn replies(n: nat) -> Seq<LinkEventModel> {
    Seq::new(n, |i: int| LinkEventModel::Replied)
}

/// The default initialisation: reset, no echo, long messages, timeout, CAN
/// priority, flow control and protocol.
pub open spec fn default_init() -> Seq<Seq<char>> {
    seq!["ATZ"@, "ATE0"@, "ATAL"@, "ATST96"@, "ATCP18"@, "ATFCSD300000"@, "ATSP6"@]
}

/// The initialisation of a profile: its own commands where it has any, else
/// the default.
pub open spec fn profile_init(profile: VehicleProfile) -> Seq<Seq<char>> {
    match profile.elm327 {
        Some(e) => match e.init {
            Some(init) => texts(init@),
            None => default_init(),
        },
        None => default_init(),
    }
}

/// Copies strings.
pub(crate) fn copy_strings(v: &Vec<String>) -> (r: Vec<String>)
    ensures
        texts(r@) == texts(v@),
{
    let mut out: Vec<String> = Vec::new();
    for i in 0..v.len()
        invariant
            out@.len() == i,
            forall|k: int| 0 <= k < i ==> out@[k]@ == v@[k]@,
    {
        out.push(v[i].clone());
    }
    assert(texts(out@) =~= texts(v@));
    out
}

/// The default initialisation commands.
pub fn default_init_commands() -> (r: Vec<String>)
    ensures
        texts(r@) == default_init(),
{
    let mut out: Vec<String> = Vec::new();
    out.push("ATZ".to_owned());
    out.push("ATE0".to_owned());
    out.push("ATAL".to_owned());
    out.push("ATST96".to_owned());
    out.push("ATCP18".to_owned());
    out.push("ATFCSD300000".to_owned());
    out.push("ATSP6".to_owned());
    assert(texts(out@) =~= default_init());
    out
}

/// The initialisation commands of a profile.
pub fn init_commands(profile: &VehicleProfile) -> (r: Vec<String>)
    ensures
        texts(r@) == profile_init(*profile),
{
    match &profile.elm327 {
        Some(e) => match &e.init {
            Some(init) => copy_strings(init),
            None => default_init_commands(),
        },
        None => default_init_commands(),
    }
}

/// The text of a failed initialisation command.
pub open spec fn init_failure(cmd: Seq<char>, e: ErrorModel) -> Seq<char> {
    about("init step "@, cmd, " failed: "@ + e.message)
}

/// Writes the text of a failed initialisation command.
pub fn init_failure_text(cmd: &str, e: &SessionError) -> (r: String)
    ensures
        r@ == init_failure(cmd@, e@),
{
    let after = join(" failed: ", e.message.as_str());
    about_text("init step ", cmd, after.as_str())
}

/// A profile with initialisation commands of its own is initialised with
/// exactly those, in their order, be there none of them; every other profile is
/// with the default ones.
pub proof fn own_commands_replace_the_default(profile: VehicleProfile, i: int)
    ensures
        profile.elm327 is Some && profile.elm327->0.init is Some ==> profile_init(profile).len()
            == profile.elm327->0.init->0@.len() && (0 <= i < profile.elm327->0.init->0@.len()
            ==> profile_init(profile)[i] == profile.elm327->0.init->0@[i]@),
        profile.elm327 is None || profile.elm327->0.init is None ==> profile_init(profile)
            == default_init(),
        default_init().len() == 7,
        default_init()[0] == "ATZ"@,
        default_init()[1] == "ATE0"@,
        default_init()[2] == "ATAL"@,
        default_init()[3] == "ATST96"@,
        default_init()[4] == "ATCP18"@,
        default_init()[5] == "ATFCSD300000"@,
        default_init()[6] == "ATSP6"@,
{
}

/// The text of a failed initialisation command quotes the command and gives the
/// cause.
pub proof fn init_failures_are_spelled_out(cmd: Seq<char>, e: ErrorModel)
    ensures
        init_failure(cmd, e) == "init step '"@ + cmd + "' failed: "@ + e.message,
{
    reveal_strlit("init step ");
    reveal_strlit("init step '");
    reveal_strlit("'");
    reveal_strlit(" failed: ");
    reveal_strlit("' failed: ");
    assert("init step '"@ =~= "init step "@ + "'"@);
    assert("' failed: "@ =~= "'"@ + " failed: "@);
    assert(init_failure(cmd, e) =~= "init step '"@ + cmd + "' failed: "@ + e.message);
}

} // verus!
