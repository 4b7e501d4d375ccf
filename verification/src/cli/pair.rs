//! Pairing the configured device, and writing the passkey into the
//! configuration.

use crate::adapter::link::{LinkAction, LinkActionModel, LinkEvent, LinkEventModel};
use crate::adapter::session::{about, about_text};
use crate::adapter::wican::same_address;
use crate::config::{text_of, DeviceConfig, DeviceType};
use crate::numbers::{
    address_bytes, decimal, decimal_error, decimal_fault, decimal_has_no_space, decimal_round_trip,
    parse, parse_address, parsed, single_digits_are_numbers,
};
use crate::text::{
    all_space, chars_of, is_space, join, same, string_of, trim, trimmed,
    trimming_takes_off_the_ends,
};
use toml_edit::{DocumentMut, TomlError};
use vstd::prelude::*;

verus! {

/// The seconds that the device is searched for.
pub const DISCOVERY_SECS: u8 = 15;

/// The key of the passkey in the device section.
pub const PASSKEY_KEY: &'static str = "bt_passkey";

/// The address of the device to pair, or why there is none.
pub open spec fn wanted_target(device: DeviceConfig) -> Result<Seq<u8>, Seq<char>> {
    if device.kind == DeviceType::Usb {
        Err("`pair` is not applicable for device.type = 'usb'"@)
    } else {
        match text_of(device.bt_mac) {
            None => Err("[device].bt_mac is required"@),
            Some(mac) => match address_bytes(mac) {
                Some(address) => Ok(address),
                None => Err(about("invalid MAC "@, mac, ""@)),
            },
        }
    }
}

/// Finds the device to pair.
pub fn pair_target(device: &DeviceConfig) -> (r: Result<[u8; 6], String>)
    ensures
        match (r, wanted_target(*device)) {
            (Ok(address), Ok(want)) => address@ == want,
            (Err(e), Err(want)) => e@ == want,
            _ => false,
        },
{
    match device.kind {
        DeviceType::Usb => Err("`pair` is not applicable for device.type = 'usb'".to_owned()),
        _ => match &device.bt_mac {
            None => Err("[device].bt_mac is required".to_owned()),
            Some(mac) => match parse_address(mac.as_str()) {
                Some(address) => Ok(address),
                None => Err(about_text("invalid MAC ", mac.as_str(), "")),
            },
        },
    }
}

/// The passkey in a line that was typed in: a decimal number, with whitespace
/// around it or not.
pub open spec fn typed_passkey(line: Seq<char>) -> Option<nat> {
    parsed(trimmed(line), 10, u32::MAX as nat)
}

/// Reads a passkey that was typed in.
pub fn read_passkey(line: &str) -> (r: Result<u32, String>)
    ensures
        match r {
            Ok(p) => typed_passkey(line@) == Some(p as nat),
            Err(e) => typed_passkey(line@) is None && e@ == "passkey must be a number: "@
                + decimal_error(trimmed(line@)),
        },
{
    let word = trim(&chars_of(line));
    match parse(&word, 10, u32::MAX) {
        Some(p) => Ok(p),
        None => {
            let cause = decimal_fault(string_of(&word).as_str());
            Err(join("passkey must be a number: ", cause.as_str()))
        },
    }
}

/// Does an answer agree to saving the passkey?
pub open spec fn agrees(answer: Seq<char>) -> bool {
    trimmed(answer) == "y"@ || trimmed(answer) == "Y"@ || trimmed(answer) == "yes"@
}

/// Judges the answer to whether the passkey is to be saved.
pub fn wants_save(answer: &str) -> (r: bool)
    ensures
        r == agrees(answer@),
{
    let word = trim(&chars_of(answer));
    same(&word, &chars_of("y")) || same(&word, &chars_of("Y")) || same(&word, &chars_of("yes"))
}

/// Where pairing stands.
#[derive(Clone, Copy, PartialEq, Eq, Debug, Structural)]
pub enum PairPhase {
    /// Opening a session.
    Session,
    /// Registering the pairing agent.
    Agent,
    /// Getting the default adapter.
    Adapter,
    /// Asking whether the device is known.
    Known,
    /// Searching for the device.
    Discover,
    /// Getting a handle of the device.
    Device,
    /// Asking whether the device is paired.
    Paired,
    /// Pairing.
    Pair,
}

/// How pairing ended well.
#[derive(Clone, Copy, PartialEq, Eq, Debug, Structural)]
pub enum PairOutcome {
    AlreadyPaired,
    Paired,
}

/// Pairing under way.
pub struct PairModel {
    pub address: Seq<u8>,
    pub passkey: u32,
    pub phase: PairPhase,
}

/// What follows an event.
pub enum PairNext {
    More(PairModel),
    Done(Result<PairOutcome, Seq<char>>),
}

impl PairModel {
    /// What the phase asks for.
    pub open spec fn action(self) -> LinkActionModel {
        match self.phase {
            PairPhase::Session => LinkActionModel::OpenSession,
            PairPhase::Agent => LinkActionModel::RegisterAgent(self.passkey),
            PairPhase::Adapter => LinkActionModel::OpenAdapter,
            PairPhase::Known => LinkActionModel::CheckKnown,
            PairPhase::Discover => LinkActionModel::Discover(DISCOVERY_SECS),
            PairPhase::Device => LinkActionModel::OpenDevice,
            PairPhase::Paired => LinkActionModel::CheckPaired,
            PairPhase::Pair => LinkActionModel::Pair,
        }
    }

    pub open spec fn to(self, phase: PairPhase) -> PairNext {
        PairNext::More(PairModel { phase, ..self })
    }
}

/// Pairing ends for good.
pub open spec fn pair_error(message: Seq<char>) -> PairNext {
    PairNext::Done(Err(message))
}

/// The start of pairing.
pub open spec fn pair_start(address: Seq<u8>, passkey: u32) -> PairModel {
    PairModel { address, passkey, phase: PairPhase::Session }
}

/// What follows an event of pairing. A device that is known is not searched
/// for, and one that is paired is not paired again; where it cannot be told, it
/// is searched for, or paired. An event that answers another action changes
/// nothing.
pub open spec fn pair_next(m: PairModel, event: LinkEventModel) -> PairNext {
    let lost = "discovery timed out; ensure the device is powered and advertising"@;
    match (m.phase, event) {
        (PairPhase::Session, LinkEventModel::Done) => m.to(PairPhase::Agent),
        (PairPhase::Session, LinkEventModel::Failed(e)) => pair_error("bluer Session::new: "@ + e),
        (PairPhase::Agent, LinkEventModel::Done) => m.to(PairPhase::Adapter),
        (PairPhase::Agent, LinkEventModel::Failed(e)) => pair_error(
            "register passkey agent: "@ + e,
        ),
        (PairPhase::Adapter, LinkEventModel::Done) => m.to(PairPhase::Known),
        (PairPhase::Adapter, LinkEventModel::Failed(e)) => pair_error("default adapter: "@ + e),
        (PairPhase::Known, LinkEventModel::Answer(known)) => if known {
            m.to(PairPhase::Device)
        } else {
            m.to(PairPhase::Discover)
        },
        (PairPhase::Known, LinkEventModel::Failed(_)) => m.to(PairPhase::Discover),
        (PairPhase::Discover, LinkEventModel::Seen(address)) => if address == m.address {
            m.to(PairPhase::Device)
        } else {
            PairNext::More(m)
        },
        (PairPhase::Discover, LinkEventModel::Ended) => pair_error(lost),
        (PairPhase::Discover, LinkEventModel::TimedOut) => pair_error(lost),
        (PairPhase::Discover, LinkEventModel::Failed(e)) => pair_error(e),
        (PairPhase::Device, LinkEventModel::Done) => m.to(PairPhase::Paired),
        (PairPhase::Device, LinkEventModel::Failed(e)) => pair_error("device handle: "@ + e),
        (PairPhase::Paired, LinkEventModel::Answer(paired)) => if paired {
            PairNext::Done(Ok(PairOutcome::AlreadyPaired))
        } else {
            m.to(PairPhase::Pair)
        },
        (PairPhase::Paired, LinkEventModel::Failed(_)) => m.to(PairPhase::Pair),
        (PairPhase::Pair, LinkEventModel::Done) => PairNext::Done(Ok(PairOutcome::Paired)),
        (PairPhase::Pair, LinkEventModel::Failed(e)) => pair_error("pair failed: "@ + e),
        _ => PairNext::More(m),
    }
}

/// Pairing a device.
#[derive(Clone, Copy)]
pub struct Pairing {
    address: [u8; 6],
    passkey: u32,
    phase: PairPhase,
}

/// What follows an event of pairing.
pub enum PairStep {
    More(Pairing),
    Done(Result<PairOutcome, String>),
}

impl PairStep {
    pub open spec fn model(self) -> PairNext {
        match self {
            PairStep::More(p) => PairNext::More(p@),
            PairStep::Done(Ok(o)) => PairNext::Done(Ok(o)),
            PairStep::Done(Err(e)) => PairNext::Done(Err(e@)),
        }
    }
}

impl View for Pairing {
    type V = PairModel;

    closed spec fn view(&self) -> PairModel {
        PairModel { address: self.address@, passkey: self.passkey, phase: self.phase }
    }
}

fn failed(before: &str, e: &str) -> (r: PairStep)
    ensures
        r.model() == pair_error(before@ + e@),
{
    PairStep::Done(Err(join(before, e)))
}

fn not_found() -> (r: PairStep)
    ensures
        r.model() == pair_error(
            "discovery timed out; ensure the device is powered and advertising"@,
        ),
{
    PairStep::Done(
        Err("discovery timed out; ensure the device is powered and advertising".to_owned()),
    )
}

impl Pairing {
    /// Starts pairing.
    pub fn start(address: [u8; 6], passkey: u32) -> (r: Pairing)
        ensures
            r@ == pair_start(address@, passkey),
    {
        Pairing { address, passkey, phase: PairPhase::Session }
    }

    /// What to do now.
    pub fn action(&self) -> (r: LinkAction)
        ensures
            r@ == self@.action(),
    {
        match self.phase {
            PairPhase::Session => LinkAction::OpenSession,
            PairPhase::Agent => LinkAction::RegisterAgent(self.passkey),
            PairPhase::Adapter => LinkAction::OpenAdapter,
            PairPhase::Known => LinkAction::CheckKnown,
            PairPhase::Discover => LinkAction::Discover(DISCOVERY_SECS),
            PairPhase::Device => LinkAction::OpenDevice,
            PairPhase::Paired => LinkAction::CheckPaired,
            PairPhase::Pair => LinkAction::Pair,
        }
    }

    fn to(self, phase: PairPhase) -> (r: PairStep)
        ensures
            r.model() == self@.to(phase),
    {
        PairStep::More(Pairing { phase, ..self })
    }

    /// Takes in what came of the action.
    pub fn on_event(self, event: LinkEvent) -> (r: PairStep)
        ensures
            r.model() == pair_next(self@, event@),
    {
        match (self.phase, event) {
            (PairPhase::Session, LinkEvent::Done) => self.to(PairPhase::Agent),
            (PairPhase::Session, LinkEvent::Failed(e)) => failed(
                "bluer Session::new: ",
                e.as_str(),
            ),
            (PairPhase::Agent, LinkEvent::Done) => self.to(PairPhase::Adapter),
            (PairPhase::Agent, LinkEvent::Failed(e)) => failed(
                "register passkey agent: ",
                e.as_str(),
            ),
            (PairPhase::Adapter, LinkEvent::Done) => self.to(PairPhase::Known),
            (PairPhase::Adapter, LinkEvent::Failed(e)) => failed("default adapter: ", e.as_str()),
            (PairPhase::Known, LinkEvent::Answer(known)) => {
                if known {
                    self.to(PairPhase::Device)
                } else {
                    self.to(PairPhase::Discover)
                }
            },
            (PairPhase::Known, LinkEvent::Failed(_)) => self.to(PairPhase::Discover),
            (PairPhase::Discover, LinkEvent::Seen(address)) => {
                if same_address(&address, &self.address) {
                    self.to(PairPhase::Device)
                } else {
                    PairStep::More(self)
                }
            },
            (PairPhase::Discover, LinkEvent::Ended) => not_found(),
            (PairPhase::Discover, LinkEvent::TimedOut) => not_found(),
            (PairPhase::Discover, LinkEvent::Failed(e)) => PairStep::Done(Err(e)),
            (PairPhase::Device, LinkEvent::Done) => self.to(PairPhase::Paired),
            (PairPhase::Device, LinkEvent::Failed(e)) => failed("device handle: ", e.as_str()),
            (PairPhase::Paired, LinkEvent::Answer(paired)) => {
                if paired {
                    PairStep::Done(Ok(PairOutcome::AlreadyPaired))
                } else {
                    self.to(PairPhase::Pair)
                }
            },
            (PairPhase::Paired, LinkEvent::Failed(_)) => self.to(PairPhase::Pair),
            (PairPhase::Pair, LinkEvent::Done) => PairStep::Done(Ok(PairOutcome::Paired)),
            (PairPhase::Pair, LinkEvent::Failed(e)) => failed("pair failed: ", e.as_str()),
            _ => PairStep::More(self),
        }
    }
}

/// A device is only paired where it is known or has been met by the search,
/// and is not known to be paired already.
pub proof fn pairs_only_where_needed(m: PairModel, event: LinkEventModel)
    ensures
        match pair_next(m, event) {
            PairNext::More(q) => {
                &&& q.phase is Pair && m.phase !is Pair ==> m.phase is Paired && event
                    != LinkEventModel::Answer(true)
                &&& q.phase is Paired && m.phase !is Paired ==> m.phase is Device && event is Done
                &&& q.phase is Device && m.phase !is Device ==> (m.phase is Known && event
                    == LinkEventModel::Answer(true)) || (m.phase is Discover && event
                    == LinkEventModel::Seen(m.address))
            },
            PairNext::Done(Ok(PairOutcome::Paired)) => m.phase is Pair && event is Done,
            PairNext::Done(_) => true,
        },
{
}

/// A TOML document that can be edited.
#[verifier::external_type_specification]
#[verifier::external_body]
pub struct ExDocumentMut(toml_edit::DocumentMut);

/// Why a text is no TOML.
#[verifier::external_type_specification]
#[verifier::external_body]
pub struct ExTomlError(toml_edit::TomlError);

/// What `DocumentMut::from_str` makes of a text.
pub uninterp spec fn parsed_toml(text: Seq<char>) -> Result<DocumentMut, TomlError>;

/// What stands under a key of a document: nothing, a table (`true`) or
/// something else (`false`).
pub uninterp spec fn section_of(doc: DocumentMut, key: Seq<char>) -> Option<bool>;

/// The integers that stand in the tables of a document, by table and key.
pub uninterp spec fn integers_of(doc: DocumentMut) -> Map<(Seq<char>, Seq<char>), i64>;

/// A document with an empty table under a key.
pub uninterp spec fn with_table(doc: DocumentMut, key: Seq<char>) -> DocumentMut;

/// A document with an integer under a key of a table.
pub uninterp spec fn with_integer(
    doc: DocumentMut,
    table: Seq<char>,
    key: Seq<char>,
    value: i64,
) -> DocumentMut;

/// The text of a document.
pub uninterp spec fn toml_text(doc: DocumentMut) -> Seq<char>;

/// Calls `DocumentMut::from_str`, which makes a document of a text or says why
/// it cannot.
#[verifier::external_body]
fn parse_toml(text: &str) -> (r: Result<DocumentMut, TomlError>)
    ensures
        r == parsed_toml(text@),
{
    text.parse::<DocumentMut>()
}

/// Calls `Table::get` on a document and `Item::is_table_like` on what stands
/// there.
#[verifier::external_body]
fn find_section(doc: &DocumentMut, key: &str) -> (r: Option<bool>)
    ensures
        r == section_of(*doc, key@),
{
    doc.get(key).map(|item| item.is_table_like())
}

/// Assigns a new table to a key of a document, which
/// `DocumentMut::index_mut` adds. No integer in a table comes or goes.
#[verifier::external_body]
fn add_table(doc: &mut DocumentMut, key: &str)
    requires
        section_of(*old(doc), key@) is None,
    ensures
        *final(doc) == with_table(*old(doc), key@),
        section_of(*final(doc), key@) == Some(true),
        integers_of(*final(doc)) == integers_of(*old(doc)),
{
    doc[key] = toml_edit::Item::Table(toml_edit::Table::new());
}

/// Assigns an integer to a key of a table of a document, which
/// `Item::index_mut` finds or adds; it panics where there is no table. No other
/// integer in a table comes or goes.
#[verifier::external_body]
fn set_integer(doc: &mut DocumentMut, table: &str, key: &str, value: i64)
    requires
        section_of(*old(doc), table@) == Some(true),
    ensures
        *final(doc) == with_integer(*old(doc), table@, key@, value),
        integers_of(*final(doc)) == integers_of(*old(doc)).insert((table@, key@), value),
{
    doc[table][key] = toml_edit::value(value);
}

/// Calls `DocumentMut::to_string`, which writes a document out.
#[verifier::external_body]
fn write_toml(doc: &DocumentMut) -> (r: String)
    ensures
        r@ == toml_text(*doc),
{
    doc.to_string()
}

/// Why a passkey cannot be written.
#[derive(Debug)]
pub enum WriteError {
    /// The configuration is no TOML.
    Syntax(TomlError),
    /// The device section is no table.
    NotATable,
}

/// A document whose device section is a table: an empty one is added where
/// there is none.
pub open spec fn with_section(doc: DocumentMut) -> DocumentMut {
    if section_of(doc, "device"@) is None {
        with_table(doc, "device"@)
    } else {
        doc
    }
}

/// Can the device section hold a passkey?
pub open spec fn is_writable(doc: DocumentMut) -> bool {
    section_of(doc, "device"@) != Some(false)
}

/// Sets the passkey in a document: it then holds that integer, and the others
/// that it held. A document whose device section is no table stays as it is.
pub fn set_passkey(doc: &mut DocumentMut, key_name: &str, passkey: u32) -> (r: Result<
    (),
    WriteError,
>)
    ensures
        match r {
            Ok(_) => {
                &&& is_writable(*old(doc))
                &&& *final(doc) == with_integer(
                    with_section(*old(doc)),
                    "device"@,
                    key_name@,
                    passkey as i64,
                )
                &&& integers_of(*final(doc)) == integers_of(*old(doc)).insert(
                    ("device"@, key_name@),
                    passkey as i64,
                )
            },
            Err(e) => e is NotATable && !is_writable(*old(doc)) && *final(doc) == *old(doc),
        },
{
    match find_section(doc, "device") {
        None => {
            add_table(doc, "device");
        },
        Some(true) => {},
        Some(false) => {
            return Err(WriteError::NotATable);
        },
    }
    set_integer(doc, "device", key_name, passkey as i64);
    Ok(())
}

/// The text of a configuration with the passkey in its device section.
pub fn write_passkey(raw: &str, key_name: &str, passkey: u32) -> (r: Result<String, WriteError>)
    ensures
        match parsed_toml(raw@) {
            Err(e) => r == Err::<String, WriteError>(WriteError::Syntax(e)),
            Ok(doc) => match r {
                Ok(text) => is_writable(doc) && text@ == toml_text(
                    with_integer(with_section(doc), "device"@, key_name@, passkey as i64),
                ),
                Err(e) => e is NotATable && !is_writable(doc),
            },
        },
{
    match parse_toml(raw) {
        Err(e) => Err(WriteError::Syntax(e)),
        Ok(doc) => {
            let mut doc = doc;
            match set_passkey(&mut doc, key_name, passkey) {
                Ok(_) => Ok(write_toml(&doc)),
                Err(e) => Err(e),
            }
        },
    }
}

/// A passkey that is typed in reads back: a number of at most 32 bits in
/// decimal, with any whitespace around it, is read as that number. Nothing but
/// whitespace is none.
pub proof fn passkeys_read_back(a: Seq<char>, n: nat, z: Seq<char>)
    requires
        all_space(a),
        all_space(z),
        n <= u32::MAX,
    ensures
        typed_passkey(a + decimal(n) + z) == Some(n),
        typed_passkey(a) is None,
{
    decimal_round_trip(n, u32::MAX as nat);
    decimal_has_no_space(n);
    trimming_takes_off_the_ends(a, decimal(n), z);
    let none = Seq::<char>::empty();
    assert(a + none + none == a);
    trimming_takes_off_the_ends(a, none, none);
    single_digits_are_numbers('0', 10, u32::MAX as nat);
}

/// An answer agrees exactly if it is `y`, `Y` or `yes`, with any whitespace
/// around it.
pub proof fn only_yes_agrees(a: Seq<char>, word: Seq<char>, z: Seq<char>)
    requires
        all_space(a),
        all_space(z),
        word.len() > 0 ==> !is_space(word[0]) && !is_space(word.last()),
    ensures
        agrees(a + word + z) <==> word == "y"@ || word == "Y"@ || word == "yes"@,
{
    trimming_takes_off_the_ends(a, word, z);
}

/// A device can be paired if it is reached over Bluetooth and its address is
/// one; that address is then the one to pair.
pub proof fn pairing_needs_an_address(device: DeviceConfig)
    ensures
        device.kind == DeviceType::Usb ==> wanted_target(device) is Err,
        device.bt_mac is None ==> wanted_target(device) is Err,
        device.kind != DeviceType::Usb && device.bt_mac is None ==> wanted_target(device) == Err::<
            Seq<u8>,
            Seq<char>,
        >("[device].bt_mac is required"@),
        device.kind != DeviceType::Usb && device.bt_mac is Some ==> match address_bytes(
            device.bt_mac->0@,
        ) {
            Some(address) => wanted_target(device) == Ok::<Seq<u8>, Seq<char>>(address),
            None => wanted_target(device) == Err::<Seq<u8>, Seq<char>>(
                about("invalid MAC "@, device.bt_mac->0@, ""@),
            ),
        },
{
}

/// What pairing comes to on a run of events.
pub open spec fn pair_after(next: PairNext, events: Seq<LinkEventModel>) -> PairNext
    decreases events.len(),
{
    if events.len() == 0 {
        next
    } else {
        match next {
            PairNext::Done(_) => next,
            PairNext::More(m) => pair_after(pair_next(m, events[0]), events.drop_first()),
        }
    }
}

proof fn lemma_pair_step(m: PairModel, events: Seq<LinkEventModel>, n: PairNext)
    requires
        events.len() > 0,
        pair_next(m, events[0]) == n,
    ensures
        pair_after(PairNext::More(m), events) == pair_after(n, events.drop_first()),
{
}

proof fn lemma_pair_device(m: PairModel, paired: bool, events: Seq<LinkEventModel>)
    requires
        m.phase is Device,
        events == seq![LinkEventModel::Done, LinkEventModel::Answer(paired)] + (if paired {
            Seq::<LinkEventModel>::empty()
        } else {
            seq![LinkEventModel::Done]
        }),
    ensures
        pair_after(PairNext::More(m), events) == PairNext::Done(
            Ok(
                if paired {
                    PairOutcome::AlreadyPaired
                } else {
                    PairOutcome::Paired
                },
            ),
        ),
{
    reveal_with_fuel(pair_after, 4);
    assert(events[0] == LinkEventModel::Done);
    assert(events.drop_first()[0] == LinkEventModel::Answer(paired));
    if !paired {
        assert(events.drop_first().drop_first()[0] == LinkEventModel::Done);
    }
    assert(events.drop_first().drop_first().len() == if paired {
        0int
    } else {
        1int
    });
}

/// Where nothing fails, pairing ends well, whether or not the device was known:
/// it is paired, or was so already.
pub proof fn pairing_ends_well(m: PairModel, known: bool, paired: bool)
    requires
        m.phase is Session,
    ensures
        pair_after(
            PairNext::More(m),
            seq![
                LinkEventModel::Done,
                LinkEventModel::Done,
                LinkEventModel::Done,
                LinkEventModel::Answer(known),
            ] + (if known {
                Seq::<LinkEventModel>::empty()
            } else {
                seq![LinkEventModel::Seen(m.address)]
            }) + (seq![LinkEventModel::Done, LinkEventModel::Answer(paired)] + (if paired {
                Seq::<LinkEventModel>::empty()
            } else {
                seq![LinkEventModel::Done]
            })),
        ) == PairNext::Done(
            Ok(
                if paired {
                    PairOutcome::AlreadyPaired
                } else {
                    PairOutcome::Paired
                },
            ),
        ),
{
    let none = Seq::<LinkEventModel>::empty();
    let start = seq![
        LinkEventModel::Done,
        LinkEventModel::Done,
        LinkEventModel::Done,
        LinkEventModel::Answer(known),
    ];
    let found = if known {
        none
    } else {
        seq![LinkEventModel::Seen(m.address)]
    };
    let last = seq![LinkEventModel::Done, LinkEventModel::Answer(paired)] + (if paired {
        none
    } else {
        seq![LinkEventModel::Done]
    });
    let events = start + found + last;
    let e1 = events.drop_first();
    let e2 = e1.drop_first();
    let e3 = e2.drop_first();
    let e4 = e3.drop_first();
    assert(events[0] == start[0] && e1[0] == start[1] && e2[0] == start[2] && e3[0] == start[3]);
    assert(e4 =~= found + last);
    let at = |phase: PairPhase| PairModel { phase, ..m };
    lemma_pair_step(m, events, PairNext::More(at(PairPhase::Agent)));
    lemma_pair_step(at(PairPhase::Agent), e1, PairNext::More(at(PairPhase::Adapter)));
    lemma_pair_step(at(PairPhase::Adapter), e2, PairNext::More(at(PairPhase::Known)));
    if known {
        assert(e4 =~= last);
        lemma_pair_step(at(PairPhase::Known), e3, PairNext::More(at(PairPhase::Device)));
    } else {
        lemma_pair_step(at(PairPhase::Known), e3, PairNext::More(at(PairPhase::Discover)));
        assert(e4[0] == LinkEventModel::Seen(m.address));
        assert(e4.drop_first() =~= last);
        lemma_pair_step(at(PairPhase::Discover), e4, PairNext::More(at(PairPhase::Device)));
    }
    lemma_pair_device(at(PairPhase::Device), paired, last);
}

/// The agent is given the passkey, the search takes fifteen seconds and passes
/// over other devices, a question that fails is taken for a no, and each other
/// failure ends pairing with its step and cause.
pub proof fn pairing_steps(
    address: Seq<u8>,
    passkey: u32,
    m: PairModel,
    seen: Seq<u8>,
    e: Seq<char>,
)
    ensures
        pair_start(address, passkey).action() == LinkActionModel::OpenSession,
        pair_start(address, passkey).address == address,
        pair_start(address, passkey).passkey == passkey,
        m.phase is Agent ==> m.action() == LinkActionModel::RegisterAgent(m.passkey),
        m.phase is Discover ==> m.action() == LinkActionModel::Discover(15),
        m.phase is Discover && seen != m.address ==> pair_next(m, LinkEventModel::Seen(seen))
            == PairNext::More(m),
        m.phase is Known ==> pair_next(m, LinkEventModel::Failed(e)) == m.to(PairPhase::Discover),
        m.phase is Paired ==> pair_next(m, LinkEventModel::Failed(e)) == m.to(PairPhase::Pair),
        m.phase is Discover ==> pair_next(m, LinkEventModel::Ended) == PairNext::Done(
            Err("discovery timed out; ensure the device is powered and advertising"@),
        ) && pair_next(m, LinkEventModel::TimedOut) == PairNext::Done(
            Err("discovery timed out; ensure the device is powered and advertising"@),
        ) && pair_next(m, LinkEventModel::Failed(e)) == PairNext::Done(Err(e)),
        m.phase is Session ==> pair_next(m, LinkEventModel::Failed(e)) == PairNext::Done(
            Err("bluer Session::new: "@ + e),
        ),
        m.phase is Agent ==> pair_next(m, LinkEventModel::Failed(e)) == PairNext::Done(
            Err("register passkey agent: "@ + e),
        ),
        m.phase is Adapter ==> pair_next(m, LinkEventModel::Failed(e)) == PairNext::Done(
            Err("default adapter: "@ + e),
        ),
        m.phase is Device ==> pair_next(m, LinkEventModel::Failed(e)) == PairNext::Done(
            Err("device handle: "@ + e),
        ),
        m.phase is Pair ==> pair_next(m, LinkEventModel::Failed(e)) == PairNext::Done(
            Err("pair failed: "@ + e),
        ),
{
}

/// A passkey is written into the device section wherever that is a table or is
/// missing, in which case a table is added first; only something else there
/// stands in the way.
pub proof fn sections_are_added_where_missing(doc: DocumentMut)
    ensures
        section_of(doc, "device"@) is None ==> is_writable(doc) && with_section(doc) == with_table(
            doc,
            "device"@,
        ),
        section_of(doc, "device"@) == Some(true) ==> is_writable(doc) && with_section(doc) == doc,
        section_of(doc, "device"@) == Some(false) ==> !is_writable(doc),
{
}

/// An event that does not answer the action of the moment changes nothing.
pub proof fn pairing_waits_for_its_answer(m: PairModel, event: LinkEventModel)
    requires
        match m.action() {
            LinkActionModel::CheckKnown => !(event is Answer || event is Failed),
            LinkActionModel::CheckPaired => !(event is Answer || event is Failed),
            LinkActionModel::Discover(_) => !(event is Seen || event is Ended || event is TimedOut
                || event is Failed),
            _ => !(event is Done || event is Failed),
        },
    ensures
        pair_next(m, event) == PairNext::More(m),
{
}

} // verus!
