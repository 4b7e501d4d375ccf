//! Passive listening: reading the bus until the wanted frames have come.

use crate::adapter::elm327::{
    byte_views, frames_of, lossy, lossy_text, route_broadcast_lines, texts, traffic,
    unheard_identifier_has_no_frames,
};
use crate::adapter::fields::{
    broadcast_value, collect_fields, collected_fields_are_there, other_metrics_stay, value_of,
    with_fields, Framing,
};
use crate::adapter::session::{
    command_wire, wire, ActionModel, ByteOutcome, ErrorKind, ErrorModel, EventModel,
    SessionAction, SessionError, SessionEvent, EOM_PROMPT,
};
use crate::adapter::uds::{failed_write, write_failure};
use crate::metrics::{Metrics, Quantity};
use crate::numbers::{all_digits, is_hex_word};
use crate::profile::{BroadcastFrame, BroadcastSource, FieldSpec};
use crate::text::{
    all_space, chars_of, join, only_blank_text_trims_to_nothing, split_words, string_of, trim,
    trimmed, trimming_takes_off_the_ends, views, words,
};
use vstd::prelude::*;
use vstd::utf8::encode_utf8;

verus! {

/// How long one byte of bus traffic may take, in milliseconds.
pub const LISTEN_TIMEOUT_MS: u64 = 200;

/// How long one byte may take after listening was stopped, in milliseconds.
pub const DRAIN_TIMEOUT_MS: u64 = 50;

/// The most bytes that are read after listening was stopped.
pub const MAX_DRAINED: usize = 200;

/// The identifier that a line of bus traffic starts with: its first word, if
/// that is hexadecimal.
pub open spec fn leading_id(line: Seq<char>) -> Option<Seq<char>> {
    let w = words(line);
    if w.len() > 0 && all_digits(w[0], 16) {
        Some(w[0])
    } else {
        None
    }
}

/// True if one of the fields is named in the list.
pub open spec fn names_a_field(names: Seq<String>, fields: Seq<FieldSpec>) -> bool {
    exists|s: int, j: int|
        0 <= s < names.len() && 0 <= j < fields.len() && #[trigger] names[s]@
            == #[trigger] fields[j].name@
}

/// True if the frame with this identifier carries a field that the listening
/// may stop for.
pub open spec fn needs(source: BroadcastSource, id: Seq<char>) -> bool {
    exists|k: int|
        0 <= k < source.frames@.len() && (#[trigger] source.frames@[k]).can_id@ == id
            && names_a_field(source.stop_when@, source.frames@[k].fields@)
}

/// True if there is something to stop for, and all of it has been seen.
pub open spec fn satisfied(source: BroadcastSource, seen: Set<Seq<char>>) -> bool {
    &&& exists|id: Seq<char>| needs(source, id)
    &&& forall|id: Seq<char>| needs(source, id) ==> seen.contains(id)
}

/// The number of silent reads in a row that end the listening: the idle time
/// in units of the read limit, rounded up, and at least one.
pub open spec fn idle_attempts(idle_timeout_ms: nat) -> nat {
    let n = (idle_timeout_ms + 199) / 200;
    if n < 1 {
        1
    } else {
        n
    }
}

/// The metrics of the most recent frame of each listed identifier.
pub open spec fn frame_metrics(
    base: Map<Seq<char>, Quantity>,
    frames: Seq<BroadcastFrame>,
    lines: Seq<Seq<char>>,
) -> Map<Seq<char>, Quantity>
    decreases frames.len(),
{
    if frames.len() == 0 {
        base
    } else {
        let head = frame_metrics(base, frames.drop_last(), lines);
        let payloads = frames_of(lines, frames.last().can_id@);
        if payloads.len() == 0 {
            head
        } else {
            with_fields(head, frames.last().fields@, Framing::Broadcast, payloads.last())
        }
    }
}

/// Where the listening stands.
#[derive(Clone, Copy, PartialEq, Eq, Debug, Structural)]
pub enum ListenPhase {
    /// Sending the preparing command with this index.
    Init(usize),
    /// Writing the command that starts the traffic.
    Command,
    /// Reading a line of traffic.
    Listening,
    /// Writing the carriage return that stops the traffic.
    Stop,
    /// Reading up to the prompt; so many bytes have been read.
    Drain(usize),
    /// Sending the restoring command with this index.
    Restore(usize),
}

/// A spell of listening under way.
pub struct ListenModel {
    pub source: BroadcastSource,
    pub phase: ListenPhase,
    /// The lines kept so far.
    pub lines: Seq<Seq<char>>,
    /// The identifiers that these lines start with.
    pub seen: Set<Seq<char>>,
    /// How many reads in a row were silent.
    pub timeouts: nat,
    /// When the listening began, in nanoseconds.
    pub started: nat,
}

pub enum ListenNext {
    More(ListenModel),
    Done(Result<Map<Seq<char>, Quantity>, ErrorModel>),
}

/// True if the time for listening is over.
pub open spec fn expired(deadline_ms: nat, started: nat, now: nat) -> bool {
    now >= started && now - started >= deadline_ms * 1_000_000 || deadline_ms == 0
}

/// The listening before its first command.
pub open spec fn listen_start(source: BroadcastSource) -> ListenModel {
    ListenModel {
        source,
        phase: if source.init@.len() == 0 {
            ListenPhase::Command
        } else {
            ListenPhase::Init(0)
        },
        lines: Seq::<Seq<char>>::empty(),
        seen: Set::<Seq<char>>::empty(),
        timeouts: 0,
        started: 0,
    }
}

/// The commands after listening: no receive filter, headers off.
pub open spec fn listen_restore() -> Seq<Seq<char>> {
    seq!["ATCRA"@, "ATH0"@]
}

impl ListenModel {
    pub open spec fn wf(self) -> bool {
        match self.phase {
            ListenPhase::Init(i) => i < self.source.init@.len(),
            ListenPhase::Listening => self.timeouts < idle_attempts(
                self.source.idle_timeout_ms as nat,
            ),
            ListenPhase::Drain(n) => n < MAX_DRAINED,
            ListenPhase::Restore(i) => i < 2,
            _ => true,
        }
    }

    /// What the phase asks for.
    pub open spec fn action(self) -> ActionModel {
        match self.phase {
            ListenPhase::Init(i) => ActionModel::Send(self.source.init@[i as int]@),
            ListenPhase::Command => ActionModel::Write(wire(self.source.command@)),
            ListenPhase::Listening => ActionModel::ReadLine(LISTEN_TIMEOUT_MS),
            ListenPhase::Stop => ActionModel::Write(seq![13u8]),
            ListenPhase::Drain(_) => ActionModel::ReadByte(DRAIN_TIMEOUT_MS),
            ListenPhase::Restore(i) => ActionModel::Send(listen_restore()[i as int]),
        }
    }

    pub open spec fn to(self, phase: ListenPhase) -> ListenModel {
        ListenModel { phase, ..self }
    }

    /// On with listening, unless the time is over.
    pub open spec fn unless_expired(self, now: nat) -> ListenModel {
        self.to(
            if expired(self.source.deadline_ms as nat, self.started, now) {
                ListenPhase::Stop
            } else {
                ListenPhase::Listening
            },
        )
    }

    /// The model with one more line of traffic; a blank line counts only as a
    /// sign of life.
    pub open spec fn hearing(self, line: Seq<char>) -> ListenModel {
        if trimmed(line).len() == 0 {
            ListenModel { timeouts: 0, ..self }
        } else {
            ListenModel {
                lines: self.lines.push(line),
                seen: match leading_id(line) {
                    Some(id) => self.seen.insert(id),
                    None => self.seen,
                },
                timeouts: 0,
                ..self
            }
        }
    }
}

/// What follows a line of traffic.
pub open spec fn heard(m: ListenModel, line: Seq<char>, now: nat) -> ListenModel {
    let n = m.hearing(line);
    if n.lines.len() > m.lines.len() && satisfied(m.source, n.seen) {
        n.to(ListenPhase::Stop)
    } else {
        n.unless_expired(now)
    }
}

/// What follows a silent read.
pub open spec fn silent(m: ListenModel, now: nat) -> ListenModel {
    let n = ListenModel { timeouts: m.timeouts + 1, ..m };
    if n.timeouts >= idle_attempts(m.source.idle_timeout_ms as nat) {
        n.to(ListenPhase::Stop)
    } else {
        n.unless_expired(now)
    }
}

/// What follows an event of the listening at a given time. An event that
/// answers another action changes nothing.
pub open spec fn listen_next(m: ListenModel, event: EventModel, now: nat) -> ListenNext {
    match (m.phase, event) {
        (ListenPhase::Init(i), EventModel::Replied(_)) => ListenNext::More(
            m.to(
                if i + 1 < m.source.init@.len() {
                    ListenPhase::Init((i + 1) as usize)
                } else {
                    ListenPhase::Command
                },
            ),
        ),
        (ListenPhase::Command, EventModel::Written(Err(e))) => ListenNext::Done(
            Err(write_failure("broadcast command write"@, e)),
        ),
        (ListenPhase::Command, EventModel::Written(Ok(_))) => ListenNext::More(
            ListenModel { timeouts: 0, started: now, ..m }.unless_expired(now),
        ),
        (ListenPhase::Listening, EventModel::Line(Ok(bytes))) => ListenNext::More(
            heard(m, lossy_text(bytes), now),
        ),
        (ListenPhase::Listening, EventModel::Line(Err(e))) => if e.kind == Some(
            ErrorKind::TimedOut,
        ) {
            ListenNext::More(silent(m, now))
        } else {
            ListenNext::Done(
                Err(ErrorModel { kind: None, message: "broadcast read: "@ + e.message }),
            )
        },
        (ListenPhase::Stop, EventModel::Written(_)) => ListenNext::More(
            m.to(ListenPhase::Drain(0)),
        ),
        (ListenPhase::Drain(n), EventModel::Byte(b)) => ListenNext::More(
            m.to(
                if b is None || b == Some(EOM_PROMPT) || n + 1 == MAX_DRAINED {
                    ListenPhase::Restore(0)
                } else {
                    ListenPhase::Drain((n + 1) as usize)
                },
            ),
        ),
        (ListenPhase::Restore(i), EventModel::Replied(_)) => if i < 1 {
            ListenNext::More(m.to(ListenPhase::Restore(1)))
        } else {
            ListenNext::Done(
                Ok(frame_metrics(Map::<Seq<char>, Quantity>::empty(), m.source.frames@, m.lines)),
            )
        },
        _ => ListenNext::More(m),
    }
}

/// A spell of passive listening.
pub struct BroadcastMonitor<'a> {
    source: &'a BroadcastSource,
    needed: Vec<String>,
    phase: ListenPhase,
    lines: Vec<String>,
    seen: Vec<String>,
    timeouts: u64,
    started: u128,
}

/// What follows an event of the listening.
pub enum ListenStep<'a> {
    More(BroadcastMonitor<'a>),
    Done(Result<Metrics, SessionError>),
}

impl<'a> ListenStep<'a> {
    pub open spec fn model(self) -> ListenNext {
        match self {
            ListenStep::More(p) => ListenNext::More(p@),
            ListenStep::Done(Ok(m)) => ListenNext::Done(Ok(m@)),
            ListenStep::Done(Err(e)) => ListenNext::Done(Err(e@)),
        }
    }
}

impl<'a> View for BroadcastMonitor<'a> {
    type V = ListenModel;

    closed spec fn view(&self) -> ListenModel {
        ListenModel {
            source: *self.source,
            phase: self.phase,
            lines: texts(self.lines@),
            seen: texts(self.seen@).to_set(),
            timeouts: self.timeouts as nat,
            started: self.started as nat,
        }
    }
}

fn names_one(names: &Vec<String>, fields: &Vec<FieldSpec>) -> (r: bool)
    ensures
        r == names_a_field(names@, fields@),
{
    for s in 0..names.len()
        invariant
            forall|i: int, j: int|
                0 <= i < s && 0 <= j < fields@.len() ==> names@[i]@ != fields@[j].name@,
    {
        for j in 0..fields.len()
            invariant
                s < names@.len(),
                forall|k: int| 0 <= k < j ==> names@[s as int]@ != fields@[k].name@,
        {
            if names[s] == fields[j].name {
                assert(names@[s as int]@ == fields@[j as int].name@);
                return true;
            }
        }
    }
    false
}

/// True if the list holds the text.
pub(crate) fn listed(list: &Vec<String>, s: &String) -> (r: bool)
    ensures
        r == texts(list@).contains(s@),
{
    for i in 0..list.len()
        invariant
            forall|k: int| 0 <= k < i ==> list@[k]@ != s@,
    {
        if list[i] == *s {
            assert(texts(list@)[i as int] == s@);
            return true;
        }
    }
    assert forall|k: int| 0 <= k < texts(list@).len() implies texts(list@)[k] != s@ by {
        assert(texts(list@)[k] == list@[k]@);
    }
    false
}

fn needed_ids(source: &BroadcastSource) -> (r: Vec<String>)
    ensures
        forall|id: Seq<char>| #[trigger] texts(r@).contains(id) == needs(*source, id),
{
    let mut out: Vec<String> = Vec::new();
    let ghost frames = source.frames@;
    let ghost upto = |n: int, id: Seq<char>|
        exists|k: int|
            0 <= k < n && (#[trigger] frames[k]).can_id@ == id && names_a_field(
                source.stop_when@,
                frames[k].fields@,
            );
    for i in 0..source.frames.len()
        invariant
            frames == source.frames@,
            upto == |n: int, id: Seq<char>|
                exists|k: int|
                    0 <= k < n && (#[trigger] frames[k]).can_id@ == id && names_a_field(
                        source.stop_when@,
                        frames[k].fields@,
                    ),
            forall|id: Seq<char>| #[trigger] texts(out@).contains(id) == upto(i as int, id),
    {
        let ghost was = out@;
        if names_one(&source.stop_when, &source.frames[i].fields) {
            out.push(source.frames[i].can_id.clone());
            assert(texts(out@) == texts(was).push(frames[i as int].can_id@));
            assert forall|id: Seq<char>| #[trigger]
                texts(out@).contains(id) == upto(i + 1, id) by {
                let t = texts(was);
                let a = frames[i as int].can_id@;
                if t.push(a).contains(id) {
                    let k = choose|k: int| 0 <= k < t.push(a).len() && t.push(a)[k] == id;
                    if k < t.len() {
                        assert(t[k] == id);
                        assert(t.contains(id));
                    }
                }
                if t.contains(id) {
                    let k = choose|k: int| 0 <= k < t.len() && t[k] == id;
                    assert(t.push(a)[k] == id);
                }
                if id == a {
                    assert(t.push(a)[t.len() as int] == id);
                }
            }
        }
    }
    out
}

/// Adds a text to a list that stands for a set.
fn note(list: Vec<String>, s: String) -> (r: Vec<String>)
    ensures
        texts(r@).to_set() == texts(list@).to_set().insert(s@),
{
    let mut list = list;
    if listed(&list, &s) {
        assert(texts(list@).to_set() =~= texts(list@).to_set().insert(s@));
        return list;
    }
    let ghost was = list@;
    let ghost a = s@;
    list.push(s);
    assert(texts(list@) == texts(was).push(a));
    assert(texts(was).push(a).to_set() =~= texts(was).to_set().insert(a)) by {
        let t = texts(was);
        assert forall|x: Seq<char>| t.push(a).contains(x) == (t.contains(x) || x == a) by {
            if t.contains(x) {
                let k = choose|k: int| 0 <= k < t.len() && t[k] == x;
                assert(t.push(a)[k] == x);
            }
            if x == a {
                assert(t.push(a)[t.len() as int] == x);
            }
        }
    }
    list
}

fn read_leading_id(line: &Vec<char>) -> (r: Option<String>)
    ensures
        r is Some == leading_id(line@) is Some,
        r is Some ==> r->0@ == leading_id(line@)->0,
{
    let w = split_words(line);
    if w.len() == 0 {
        return None;
    }
    assert(views(w@)[0] == w@[0]@);
    if is_hex_word(&w[0]) {
        Some(string_of(&w[0]))
    } else {
        None
    }
}

/// Reads the metrics out of the lines of traffic.
pub fn extract_frames(frames: &Vec<BroadcastFrame>, lines: &Vec<String>) -> (r: Metrics)
    ensures
        r@ == frame_metrics(Map::<Seq<char>, Quantity>::empty(), frames@, texts(lines@)),
{
    let mut metrics = Metrics::new();
    let routed = route_broadcast_lines(lines.as_slice());
    let ghost base = metrics@;
    assert(frames@.take(0) == Seq::<BroadcastFrame>::empty());
    for i in 0..frames.len()
        invariant
            forall|id: Seq<char>| #[trigger]
                routed@.contains_key(id) == (frames_of(texts(lines@), id).len() > 0),
            forall|id: Seq<char>| #[trigger]
                routed@.contains_key(id) ==> byte_views(routed@[id]@) == frames_of(
                    texts(lines@),
                    id,
                ),
            metrics@ == frame_metrics(base, frames@.take(i as int), texts(lines@)),
    {
        assert(frames@.take(i + 1).drop_last() == frames@.take(i as int));
        match routed.get(frames[i].can_id.as_str()) {
            Some(payloads) => {
                assert(payloads@.len() > 0);
                let last: usize = payloads.len() - 1;
                assert(byte_views(payloads@).last() == payloads@[last as int]@);
                collect_fields(
                    &mut metrics,
                    &frames[i].fields,
                    Framing::Broadcast,
                    payloads[last].as_slice(),
                );
            },
            None => {},
        }
    }
    assert(frames@.take(frames@.len() as int) == frames@);
    metrics
}

impl<'a> BroadcastMonitor<'a> {
    /// The identifiers to wait for are those that the source names.
    pub closed spec fn consistent(self) -> bool {
        forall|id: Seq<char>| #[trigger]
            texts(self.needed@).contains(id) == needs(*self.source, id)
    }

    /// A monitor in one of its phases.
    pub open spec fn wf(self) -> bool {
        self.consistent() && self@.wf()
    }

    /// Starts a spell of listening.
    pub fn new(source: &'a BroadcastSource) -> (r: BroadcastMonitor<'a>)
        ensures
            r@ == listen_start(*source),
            r.wf(),
    {
        let lines: Vec<String> = Vec::new();
        let seen: Vec<String> = Vec::new();
        assert(texts(lines@) == Seq::<Seq<char>>::empty());
        assert(texts(seen@).to_set() =~= Set::<Seq<char>>::empty());
        BroadcastMonitor {
            source,
            needed: needed_ids(source),
            phase: if source.init.len() == 0 {
                ListenPhase::Command
            } else {
                ListenPhase::Init(0)
            },
            lines,
            seen,
            timeouts: 0,
            started: 0,
        }
    }

    /// What to do now.
    pub fn action(&self) -> (r: SessionAction)
        requires
            self.wf(),
        ensures
            r@ == self@.action(),
    {
        match self.phase {
            ListenPhase::Init(i) => SessionAction::Send(self.source.init[i].clone()),
            ListenPhase::Command => SessionAction::Write(
                command_wire(self.source.command.as_str()),
            ),
            ListenPhase::Listening => SessionAction::ReadLine(LISTEN_TIMEOUT_MS),
            ListenPhase::Stop => {
                let mut b: Vec<u8> = Vec::new();
                b.push(13);
                assert(b@ == seq![13u8]);
                SessionAction::Write(b)
            },
            ListenPhase::Drain(_) => SessionAction::ReadByte(DRAIN_TIMEOUT_MS),
            ListenPhase::Restore(i) => SessionAction::Send(
                if i == 0 {
                    "ATCRA".to_owned()
                } else {
                    "ATH0".to_owned()
                },
            ),
        }
    }

    fn to(self, phase: ListenPhase) -> (r: BroadcastMonitor<'a>)
        requires
            self.consistent(),
        ensures
            r@ == self@.to(phase),
            r.consistent(),
    {
        BroadcastMonitor { phase, ..self }
    }

    fn unless_expired(self, now: u128) -> (r: BroadcastMonitor<'a>)
        requires
            self.consistent(),
        ensures
            r@ == self@.unless_expired(now as nat),
            r.consistent(),
    {
        let limit: u128 = self.source.deadline_ms as u128 * 1_000_000;
        let over = limit == 0 || (now >= self.started && now - self.started >= limit);
        if over {
            self.to(ListenPhase::Stop)
        } else {
            self.to(ListenPhase::Listening)
        }
    }

    fn all_seen(&self) -> (r: bool)
        requires
            self.consistent(),
        ensures
            r == satisfied(self@.source, self@.seen),
    {
        let ghost needed = texts(self.needed@);
        if self.needed.len() == 0 {
            assert forall|id: Seq<char>| !needs(*self.source, id) by {
                assert(!needed.contains(id));
            }
            return false;
        }
        assert(needed[0] == self.needed@[0]@);
        assert(needed.contains(needed[0]));
        assert(needs(*self.source, needed[0]));
        for i in 0..self.needed.len()
            invariant
                self.consistent(),
                needed == texts(self.needed@),
                needs(*self.source, needed[0]),
                forall|k: int| 0 <= k < i ==> self@.seen.contains(#[trigger] needed[k]),
        {
            assert(needed[i as int] == self.needed@[i as int]@);
            if !listed(&self.seen, &self.needed[i]) {
                assert(needed.contains(needed[i as int]));
                assert(needs(*self.source, needed[i as int]));
                assert(!self@.seen.contains(needed[i as int]));
                return false;
            }
        }
        assert forall|id: Seq<char>| needs(*self.source, id) implies self@.seen.contains(id) by {
            assert(needed.contains(id));
            let k = choose|k: int| 0 <= k < needed.len() && needed[k] == id;
            assert(self@.seen.contains(needed[k]));
        }
        true
    }

    fn heard(self, bytes: Vec<u8>, now: u128) -> (r: BroadcastMonitor<'a>)
        requires
            self.consistent(),
        ensures
            r@ == heard(self@, lossy_text(bytes@), now as nat),
            r.wf(),
    {
        let line = lossy(&bytes);
        let text = chars_of(line.as_str());
        let ghost m = self@;
        if trim(&text).len() == 0 {
            return BroadcastMonitor { timeouts: 0, ..self }.unless_expired(now);
        }
        let seen = match read_leading_id(&text) {
            Some(id) => note(self.seen, id),
            None => self.seen,
        };
        let mut lines = self.lines;
        let ghost was = lines@;
        let ghost a = line@;
        lines.push(line);
        assert(texts(lines@) == texts(was).push(a));
        let next = BroadcastMonitor {
            source: self.source,
            needed: self.needed,
            phase: self.phase,
            lines,
            seen,
            timeouts: 0,
            started: self.started,
        };
        assert(next@ == m.hearing(a));
        if next.all_seen() {
            next.to(ListenPhase::Stop)
        } else {
            next.unless_expired(now)
        }
    }

    fn silent(self, now: u128) -> (r: BroadcastMonitor<'a>)
        requires
            self.wf(),
            self@.phase == ListenPhase::Listening,
        ensures
            r@ == silent(self@, now as nat),
            r.wf(),
    {
        let idle: u64 = self.source.idle_timeout_ms;
        let attempts: u64 = if idle == 0 {
            1
        } else {
            (idle - 1) / 200 + 1
        };
        assert(attempts == idle_attempts(idle as nat));
        let timeouts: u64 = self.timeouts + 1;
        let next = BroadcastMonitor { timeouts, ..self };
        if timeouts >= attempts {
            next.to(ListenPhase::Stop)
        } else {
            next.unless_expired(now)
        }
    }

    /// Takes in what came of the action, at a time in nanoseconds.
    pub fn on_event(self, event: SessionEvent, now: u128) -> (r: ListenStep<'a>)
        requires
            self.wf(),
        ensures
            r.model() == listen_next(self@, event@, now as nat),
            r is More ==> r->More_0.wf(),
    {
        match (self.phase, event) {
            (ListenPhase::Init(i), SessionEvent::Replied(_)) => {
                if self.source.init.len() - i > 1 {
                    ListenStep::More(self.to(ListenPhase::Init(i + 1)))
                } else {
                    ListenStep::More(self.to(ListenPhase::Command))
                }
            },
            (ListenPhase::Command, SessionEvent::Written(Err(f))) => ListenStep::Done(
                Err(failed_write("broadcast command write", f)),
            ),
            (ListenPhase::Command, SessionEvent::Written(Ok(_))) => ListenStep::More(
                BroadcastMonitor { timeouts: 0, started: now, ..self }.unless_expired(now),
            ),
            (ListenPhase::Listening, SessionEvent::Line(Ok(bytes))) => ListenStep::More(
                self.heard(bytes, now),
            ),
            (ListenPhase::Listening, SessionEvent::Line(Err(f))) => {
                if f.kind == ErrorKind::TimedOut {
                    ListenStep::More(self.silent(now))
                } else {
                    let message = join("broadcast read: ", f.message.as_str());
                    ListenStep::Done(Err(SessionError { kind: None, message }))
                }
            },
            (ListenPhase::Stop, SessionEvent::Written(_)) => ListenStep::More(
                self.to(ListenPhase::Drain(0)),
            ),
            (ListenPhase::Drain(n), SessionEvent::Byte(outcome)) => {
                let end = match outcome {
                    ByteOutcome::Byte(b) => b == EOM_PROMPT || n + 1 == MAX_DRAINED,
                    _ => true,
                };
                if end {
                    ListenStep::More(self.to(ListenPhase::Restore(0)))
                } else {
                    ListenStep::More(self.to(ListenPhase::Drain(n + 1)))
                }
            },
            (ListenPhase::Restore(i), SessionEvent::Replied(_)) => {
                if i < 1 {
                    ListenStep::More(self.to(ListenPhase::Restore(1)))
                } else {
                    ListenStep::Done(Ok(extract_frames(&self.source.frames, &self.lines)))
                }
            },
            _ => ListenStep::More(self),
        }
    }
}

/// The identifiers that lines start with.
pub open spec fn ids_of(lines: Seq<Seq<char>>) -> Set<Seq<char>>
    decreases lines.len(),
{
    if lines.len() == 0 {
        Set::<Seq<char>>::empty()
    } else {
        match leading_id(lines.last()) {
            Some(id) => ids_of(lines.drop_last()).insert(id),
            None => ids_of(lines.drop_last()),
        }
    }
}

/// The identifiers counted as seen are those of the kept lines, before the
/// first line and after every event.
pub proof fn seen_matches_lines(
    source: BroadcastSource,
    m: ListenModel,
    event: EventModel,
    now: nat,
)
    requires
        m.seen == ids_of(m.lines),
    ensures
        listen_start(source).seen == ids_of(listen_start(source).lines),
        listen_next(m, event, now) is More ==> listen_next(m, event, now)->More_0.seen == ids_of(
            listen_next(m, event, now)->More_0.lines,
        ),
{
    if m.phase == ListenPhase::Listening {
        if let EventModel::Line(Ok(bytes)) = event {
            let line = lossy_text(bytes);
            assert(m.lines.push(line).drop_last() == m.lines);
        }
    }
}

/// Listening hands out metrics only as the answer to its last restoring
/// command, which turns headers off.
pub proof fn listening_ends_with_headers_off(m: ListenModel, event: EventModel, now: nat)
    requires
        m.wf(),
        listen_next(m, event, now) is Done,
        listen_next(m, event, now)->Done_0 is Ok,
    ensures
        m.phase == ListenPhase::Restore(1),
        m.action() == ActionModel::Send("ATH0"@),
{
}

/// A line that completes the wanted identifiers stops the listening at once.
pub proof fn listening_stops_when_satisfied(m: ListenModel, line: Seq<char>, now: nat)
    requires
        m.phase == ListenPhase::Listening,
        trimmed(line).len() > 0,
        satisfied(m.source, m.hearing(line).seen),
    ensures
        heard(m, line, now).phase == ListenPhase::Stop,
{
}

/// Once the time is over, no event leads to another read of bus traffic.
pub proof fn listening_ends_at_deadline(m: ListenModel, event: EventModel, now: nat)
    requires
        m.phase == ListenPhase::Listening,
        event is Line,
        expired(m.source.deadline_ms as nat, m.started, now),
    ensures
        listen_next(m, event, now) is More ==> listen_next(m, event, now)->More_0.phase
            == ListenPhase::Stop,
{
}

/// A source that names no field to stop for is listened to until the time is
/// over or the bus falls silent: no line stops it.
pub proof fn listening_without_wants(m: ListenModel, line: Seq<char>, now: nat)
    requires
        m.phase == ListenPhase::Listening,
        m.source.stop_when@.len() == 0,
        !expired(m.source.deadline_ms as nat, m.started, now),
    ensures
        heard(m, line, now).phase == ListenPhase::Listening,
{
}

/// What a field of a frame reads from the latest payload of its identifier,
/// nothing where the identifier was not heard.
pub open spec fn latest_value(
    lines: Seq<Seq<char>>,
    frame: BroadcastFrame,
    field: FieldSpec,
) -> Option<Quantity> {
    let payloads = frames_of(lines, frame.can_id@);
    if payloads.len() > 0 {
        broadcast_value(payloads.last(), field)
    } else {
        None
    }
}

/// A field of a listed frame that reads a value from the latest payload of its
/// identifier is in the metrics with that value, whatever other frames are
/// listed or heard, unless a later listed field of the same name reads one too.
pub proof fn heard_fields_are_there(
    base: Map<Seq<char>, Quantity>,
    frames: Seq<BroadcastFrame>,
    lines: Seq<Seq<char>>,
    k: int,
    j: int,
)
    requires
        0 <= k < frames.len(),
        0 <= j < frames[k].fields@.len(),
        latest_value(lines, frames[k], frames[k].fields@[j]) is Some,
        forall|i: int|
            j < i < frames[k].fields@.len() && #[trigger] frames[k].fields@[i].name@
                == frames[k].fields@[j].name@ ==> latest_value(
                lines,
                frames[k],
                frames[k].fields@[i],
            ) is None,
        forall|n: int, i: int|
            k < n < frames.len() && 0 <= i < frames[n].fields@.len()
                && #[trigger] frames[n].fields@[i].name@ == frames[k].fields@[j].name@
                ==> latest_value(lines, frames[n], frames[n].fields@[i]) is None,
    ensures
        frame_metrics(base, frames, lines).contains_key(frames[k].fields@[j].name@),
        Some(frame_metrics(base, frames, lines)[frames[k].fields@[j].name@]) == latest_value(
            lines,
            frames[k],
            frames[k].fields@[j],
        ),
    decreases frames.len(),
{
    let name = frames[k].fields@[j].name@;
    let head = frame_metrics(base, frames.drop_last(), lines);
    let n = frames.len() - 1;
    let payloads = frames_of(lines, frames[n].can_id@);
    let fields = frames[n].fields@;
    if k == n {
        assert forall|i: int| j < i < fields.len() && #[trigger] fields[i].name@
            == name implies value_of(Framing::Broadcast, payloads.last(), fields[i]) is None by {
            assert(latest_value(lines, frames[k], frames[k].fields@[i]) is None);
        }
        collected_fields_are_there(head, fields, Framing::Broadcast, payloads.last(), j);
    } else {
        let less = frames.drop_last();
        assert forall|m: int, i: int|
            k < m < less.len() && 0 <= i < less[m].fields@.len()
                && #[trigger] less[m].fields@[i].name@ == name implies latest_value(
            lines,
            less[m],
            less[m].fields@[i],
        ) is None by {
            assert(frames[m].fields@[i].name@ == name);
        }
        heard_fields_are_there(base, less, lines, k, j);
        if payloads.len() > 0 {
            assert forall|i: int|
                0 <= i < fields.len() && #[trigger] fields[i].name@ == name implies value_of(
                Framing::Broadcast,
                payloads.last(),
                fields[i],
            ) is None by {
                assert(frames[n].fields@[i].name@ == name);
            }
            other_metrics_stay(head, fields, Framing::Broadcast, payloads.last(), name);
        }
    }
}

/// A metric whose name no field with a reading has stays as it was: frames that
/// were not heard, fields that read nothing and traffic that is not listed add
/// nothing.
pub proof fn unheard_fields_add_nothing(
    base: Map<Seq<char>, Quantity>,
    frames: Seq<BroadcastFrame>,
    lines: Seq<Seq<char>>,
    name: Seq<char>,
)
    requires
        forall|n: int, i: int|
            0 <= n < frames.len() && 0 <= i < frames[n].fields@.len()
                && #[trigger] frames[n].fields@[i].name@ == name ==> latest_value(
                lines,
                frames[n],
                frames[n].fields@[i],
            ) is None,
    ensures
        frame_metrics(base, frames, lines).get(name) == base.get(name),
    decreases frames.len(),
{
    if frames.len() > 0 {
        let less = frames.drop_last();
        let n = frames.len() - 1;
        assert forall|m: int, i: int|
            0 <= m < less.len() && 0 <= i < less[m].fields@.len()
                && #[trigger] less[m].fields@[i].name@ == name implies latest_value(
            lines,
            less[m],
            less[m].fields@[i],
        ) is None by {
            assert(frames[m].fields@[i].name@ == name);
        }
        unheard_fields_add_nothing(base, less, lines, name);
        let payloads = frames_of(lines, frames[n].can_id@);
        let fields = frames[n].fields@;
        if payloads.len() > 0 {
            assert forall|i: int|
                0 <= i < fields.len() && #[trigger] fields[i].name@ == name implies value_of(
                Framing::Broadcast,
                payloads.last(),
                fields[i],
            ) is None by {
                assert(frames[n].fields@[i].name@ == name);
            }
            let head = frame_metrics(base, less, lines);
            other_metrics_stay(head, fields, Framing::Broadcast, payloads.last(), name);
        }
    }
}

/// A frame that was not heard makes no difference, wherever it is listed.
pub proof fn unheard_frames_make_no_difference(
    base: Map<Seq<char>, Quantity>,
    x: Seq<BroadcastFrame>,
    frame: BroadcastFrame,
    y: Seq<BroadcastFrame>,
    lines: Seq<Seq<char>>,
)
    requires
        forall|i: int|
            0 <= i < lines.len() ==> (#[trigger] traffic(lines[i]) is None || (traffic(
                lines[i],
            )->0).0 != frame.can_id@),
    ensures
        frame_metrics(base, x + seq![frame] + y, lines) == frame_metrics(base, x + y, lines),
    decreases y.len(),
{
    unheard_identifier_has_no_frames(lines, frame.can_id@);
    if y.len() == 0 {
        assert((x + seq![frame] + y).drop_last() == x);
        assert((x + seq![frame] + y).last() == frame);
        assert(x + y == x);
    } else {
        unheard_frames_make_no_difference(base, x, frame, y.drop_last(), lines);
        assert((x + seq![frame] + y).drop_last() == x + seq![frame] + y.drop_last());
        assert((x + y).drop_last() == x + y.drop_last());
        assert((x + seq![frame] + y).last() == (x + y).last());
    }
}

/// Silence ends the listening once the silent reads in a row, of 200
/// milliseconds each, make up the idle time; else it goes on, unless the time
/// is over.
pub proof fn silence_ends_listening(m: ListenModel, now: nat)
    requires
        m.phase == ListenPhase::Listening,
    ensures
        silent(m, now).timeouts == m.timeouts + 1,
        silent(m, now).lines == m.lines,
        silent(m, now).phase == ListenPhase::Stop || silent(m, now).phase == ListenPhase::Listening,
        silent(m, now).phase == ListenPhase::Stop <==> (m.timeouts + 1) * 200
            >= m.source.idle_timeout_ms || expired(m.source.deadline_ms as nat, m.started, now),
{
    let idle = m.source.idle_timeout_ms as nat;
    let n = (idle + 199) / 200;
    assert(n * 200 >= idle && n * 200 < idle + 200);
}

/// The time is over once as many nanoseconds have passed as the deadline has
/// milliseconds, a million each. A clock that stepped back has let none pass.
pub proof fn time_is_over_at_the_deadline(deadline_ms: nat, started: nat, now: nat)
    ensures
        now >= started ==> (expired(deadline_ms, started, now) <==> now - started >= deadline_ms
            * 1_000_000),
        now < started ==> (expired(deadline_ms, started, now) <==> deadline_ms == 0),
{
}

/// Everything wanted was heard exactly if some field to stop for belongs to a
/// listed frame, and the identifier of every such frame was seen.
pub proof fn wanted_is_all_heard(source: BroadcastSource, seen: Set<Seq<char>>)
    ensures
        satisfied(source, seen) <==> {
            &&& exists|s: int, k: int, j: int|
                0 <= s < source.stop_when@.len() && 0 <= k < source.frames@.len() && 0 <= j
                    < source.frames@[k].fields@.len() && #[trigger] source.stop_when@[s]@
                    == #[trigger] source.frames@[k].fields@[j].name@
            &&& forall|s: int, k: int, j: int|
                0 <= s < source.stop_when@.len() && 0 <= k < source.frames@.len() && 0 <= j
                    < source.frames@[k].fields@.len() && #[trigger] source.stop_when@[s]@
                    == #[trigger] source.frames@[k].fields@[j].name@ ==> seen.contains(
                    source.frames@[k].can_id@,
                )
        },
{
    let names = source.stop_when@;
    let frames = source.frames@;
    if satisfied(source, seen) {
        let id = choose|id: Seq<char>| needs(source, id);
        let k = choose|k: int|
            0 <= k < frames.len() && (#[trigger] frames[k]).can_id@ == id && names_a_field(
                names,
                frames[k].fields@,
            );
        let (s, j) = choose|s: int, j: int|
            0 <= s < names.len() && 0 <= j < frames[k].fields@.len() && #[trigger] names[s]@
                == #[trigger] frames[k].fields@[j].name@;
        assert(names[s]@ == frames[k].fields@[j].name@);
        assert forall|s: int, k: int, j: int|
            0 <= s < names.len() && 0 <= k < frames.len() && 0 <= j < frames[k].fields@.len()
                && #[trigger] names[s]@
                == #[trigger] frames[k].fields@[j].name@ implies seen.contains(
            frames[k].can_id@,
        ) by {
            assert(names_a_field(names, frames[k].fields@));
            assert(needs(source, frames[k].can_id@));
        }
    }
    if (exists|s: int, k: int, j: int|
        0 <= s < names.len() && 0 <= k < frames.len() && 0 <= j < frames[k].fields@.len()
            && #[trigger] names[s]@ == #[trigger] frames[k].fields@[j].name@) && (forall|
        s: int,
        k: int,
        j: int,
    |
        0 <= s < names.len() && 0 <= k < frames.len() && 0 <= j < frames[k].fields@.len()
            && #[trigger] names[s]@ == #[trigger] frames[k].fields@[j].name@ ==> seen.contains(
            frames[k].can_id@,
        )) {
        let (s, k, j) = choose|s: int, k: int, j: int|
            0 <= s < names.len() && 0 <= k < frames.len() && 0 <= j < frames[k].fields@.len()
                && #[trigger] names[s]@ == #[trigger] frames[k].fields@[j].name@;
        assert(names_a_field(names, frames[k].fields@));
        assert(needs(source, frames[k].can_id@));
        assert forall|id: Seq<char>| needs(source, id) implies seen.contains(id) by {
            let k = choose|k: int|
                0 <= k < frames.len() && (#[trigger] frames[k]).can_id@ == id && names_a_field(
                    names,
                    frames[k].fields@,
                );
            let (s, j) = choose|s: int, j: int|
                0 <= s < names.len() && 0 <= j < frames[k].fields@.len() && #[trigger] names[s]@
                    == #[trigger] frames[k].fields@[j].name@;
            assert(names[s]@ == frames[k].fields@[j].name@);
        }
    }
}

/// Every line that is not blank is kept, behind those before it, and its
/// identifier is seen; a blank one only ends the silence. The listening stops
/// where a kept line completes what is wanted or the time is over, and only
/// there.
pub proof fn heard_lines_are_kept(m: ListenModel, bytes: Seq<u8>, now: nat)
    requires
        m.phase == ListenPhase::Listening,
    ensures
        listen_next(m, EventModel::Line(Ok(bytes)), now) matches ListenNext::More(n) && {
            let line = lossy_text(bytes);
            let over = expired(m.source.deadline_ms as nat, m.started, now);
            &&& n.source == m.source
            &&& n.started == m.started
            &&& n.timeouts == 0
            &&& all_space(line) ==> n.lines == m.lines && n.seen == m.seen
            &&& !all_space(line) ==> n.lines == m.lines.push(line)
            &&& !all_space(line) && words(line).len() > 0 && all_digits(words(line)[0], 16)
                ==> n.seen == m.seen.insert(words(line)[0])
            &&& words(line).len() == 0 || !all_digits(words(line)[0], 16) ==> n.seen == m.seen
            &&& n.phase == ListenPhase::Stop || n.phase == ListenPhase::Listening
            &&& n.phase == ListenPhase::Stop <==> over || !all_space(line) && satisfied(
                m.source,
                n.seen,
            )
        },
{
    let line = lossy_text(bytes);
    if all_space(line) {
        let none = Seq::<char>::empty();
        assert(line + none + none == line);
        trimming_takes_off_the_ends(line, none, none);
    } else {
        only_blank_text_trims_to_nothing(line);
    }
}

/// Listening starts with nothing heard, and with the first preparing command
/// where there is one. An event that does not answer the action of the moment
/// changes nothing.
pub proof fn listening_starts_fresh(
    source: BroadcastSource,
    m: ListenModel,
    event: EventModel,
    now: nat,
)
    ensures
        listen_start(source).source == source,
        listen_start(source).lines.len() == 0,
        listen_start(source).seen == Set::<Seq<char>>::empty(),
        source.init@.len() > 0 ==> listen_start(source).phase == ListenPhase::Init(0),
        source.init@.len() == 0 ==> listen_start(source).phase == ListenPhase::Command,
        match m.action() {
            ActionModel::Send(_) => !(event is Replied),
            ActionModel::Write(_) => !(event is Written),
            ActionModel::ReadLine(_) => !(event is Line),
            ActionModel::ReadByte(_) => !(event is Byte),
        } ==> listen_next(m, event, now) == ListenNext::More(m),
{
}

/// The preparing commands are sent one after the other, whatever is replied;
/// behind the last the traffic is started, and its time starts to count. Where
/// that fails, or a read fails otherwise than by silence, the listening ends
/// with the error.
pub proof fn listening_starts_in_order(
    m: ListenModel,
    i: usize,
    reply: Result<Seq<u8>, ErrorModel>,
    e: ErrorModel,
    now: nat,
)
    requires
        m.wf(),
    ensures
        m.phase == ListenPhase::Init(i) ==> m.action() == ActionModel::Send(
            m.source.init@[i as int]@,
        ) && listen_next(m, EventModel::Replied(reply), now) == ListenNext::More(
            m.to(
                if i + 1 == m.source.init@.len() {
                    ListenPhase::Command
                } else {
                    ListenPhase::Init((i + 1) as usize)
                },
            ),
        ),
        m.phase == ListenPhase::Command ==> m.action() == ActionModel::Write(
            encode_utf8(m.source.command@).push(13),
        ) && listen_next(m, EventModel::Written(Ok(())), now) == ListenNext::More(
            ListenModel {
                started: now,
                timeouts: 0,
                phase: if m.source.deadline_ms == 0 {
                    ListenPhase::Stop
                } else {
                    ListenPhase::Listening
                },
                ..m
            },
        ),
        m.phase == ListenPhase::Listening && e.kind != Some(ErrorKind::TimedOut) ==> listen_next(
            m,
            EventModel::Line(Err(e)),
            now,
        ) == ListenNext::Done(
            Err(ErrorModel { kind: None, message: "broadcast read: "@ + e.message }),
        ),
{
}

/// After the traffic was stopped, bytes are read up to a prompt, a read that
/// gives none, or the two-hundredth; then the receive filter and the headers
/// are restored, whatever is replied, and the metrics of the kept lines are
/// handed out.
pub proof fn listening_ends_in_order(
    m: ListenModel,
    n: usize,
    b: Option<u8>,
    w: Result<(), ErrorModel>,
    reply: Result<Seq<u8>, ErrorModel>,
    now: nat,
)
    requires
        m.wf(),
    ensures
        m.phase == ListenPhase::Stop ==> m.action() == ActionModel::Write(seq![13u8])
            && listen_next(m, EventModel::Written(w), now) == ListenNext::More(
            m.to(ListenPhase::Drain(0)),
        ),
        m.phase == ListenPhase::Drain(n) ==> listen_next(m, EventModel::Byte(b), now)
            == ListenNext::More(
            m.to(
                if b is Some && b->0 != 62 && n < 199 {
                    ListenPhase::Drain((n + 1) as usize)
                } else {
                    ListenPhase::Restore(0)
                },
            ),
        ),
        m.phase == ListenPhase::Restore(0) ==> m.action() == ActionModel::Send("ATCRA"@)
            && listen_next(m, EventModel::Replied(reply), now) == ListenNext::More(
            m.to(ListenPhase::Restore(1)),
        ),
        m.phase == ListenPhase::Restore(1) ==> listen_next(m, EventModel::Replied(reply), now)
            == ListenNext::Done(
            Ok(frame_metrics(Map::<Seq<char>, Quantity>::empty(), m.source.frames@, m.lines)),
        ),
{
}

/// Bus traffic is read with 200 milliseconds for each byte, and what follows
/// the end of the listening with 50.
pub proof fn listening_reads_with_limits(m: ListenModel)
    ensures
        m.phase == ListenPhase::Listening ==> m.action() == ActionModel::ReadLine(200),
        m.phase is Drain ==> m.action() == ActionModel::ReadByte(50),
{
}

/// Traffic that cannot be started ends the listening with the failure of the
/// write, whose kind is kept.
pub proof fn listening_needs_its_command(m: ListenModel, e: ErrorModel, now: nat)
    requires
        m.phase == ListenPhase::Command,
    ensures
        listen_next(m, EventModel::Written(Err(e)), now) == ListenNext::Done(
            Err(
                ErrorModel {
                    kind: e.kind,
                    message: "broadcast command write"@ + ": "@ + e.message,
                },
            ),
        ),
{
}

} // verus!
