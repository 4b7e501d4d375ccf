//! The exchange with an ELM327: commands, replies, lines and faults.
//!
//! The library decides what to send and what a reply means; whoever holds the
//! stream carries the decisions out and reports back.

use crate::adapter::elm327::{lossy, lossy_text};
use crate::text::{
    chars_of, found, join, mentions, stands_at, text_is_found_where_it_stands,
};
use vstd::prelude::*;
use vstd::utf8::{decode_utf8, encode_utf8, valid_utf8};

verus! {

/// The kinds of input/output error that decisions depend on.
#[derive(Clone, Copy, PartialEq, Eq, Debug, Structural)]
pub enum ErrorKind {
    AddrNotAvailable,
    BrokenPipe,
    TimedOut,
    NotConnected,
    Other,
}

/// An input/output error of the stream.
#[derive(Debug)]
pub struct Fault {
    pub kind: ErrorKind,
    pub message: String,
}

/// The failure of an exchange. `kind` is there where an input/output error
/// caused it.
#[derive(Debug)]
pub struct SessionError {
    pub kind: Option<ErrorKind>,
    pub message: String,
}

/// What a session error says.
pub struct ErrorModel {
    pub kind: Option<ErrorKind>,
    pub message: Seq<char>,
}

impl View for SessionError {
    type V = ErrorModel;

    open spec fn view(&self) -> ErrorModel {
        ErrorModel { kind: self.kind, message: self.message@ }
    }
}

impl View for Fault {
    type V = ErrorModel;

    open spec fn view(&self) -> ErrorModel {
        ErrorModel { kind: Some(self.kind), message: self.message@ }
    }
}

/// A stream that ELM327 commands are exchanged over.
pub struct Elm327Session<T> {
    pub stream: T,
}

impl<T> Elm327Session<T> {
    pub fn new(stream: T) -> (r: Self)
        ensures
            r.stream == stream,
    {
        Elm327Session { stream }
    }
}

/// The byte that ends a reply: the prompt.
pub const EOM_PROMPT: u8 = 0x3e;

/// How long a reply may take, in milliseconds.
pub const SEND_CMD_TIMEOUT_MS: u64 = 5000;

/// The bytes of a command on the wire: its UTF-8 text and a carriage return.
pub open spec fn wire(cmd: Seq<char>) -> Seq<u8> {
    encode_utf8(cmd).push(13u8)
}

/// The bytes that send a command.
pub fn command_wire(cmd: &str) -> (r: Vec<u8>)
    ensures
        r@ == wire(cmd@),
{
    let mut out: Vec<u8> = Vec::new();
    out.extend_from_slice(cmd.as_bytes());
    assert(out@ == encode_utf8(cmd@));
    out.push(13);
    out
}

/// How reading a reply ended.
#[derive(Debug)]
pub enum ReplyOutcome {
    /// The command could not be written.
    WriteFailed(Fault),
    /// These bytes were read, up to the prompt or the end of the stream; none,
    /// if the stream had ended.
    Bytes(Vec<u8>),
    /// The stream failed.
    ReadFailed(Fault),
    /// The prompt did not come in time.
    TimedOut,
}

/// `before 'cmd'after`.
pub open spec fn about(before: Seq<char>, cmd: Seq<char>, after: Seq<char>) -> Seq<char> {
    before + "'"@ + cmd + "'"@ + after
}

/// Puts a quoted text between two others.
pub(crate) fn about_text(before: &str, cmd: &str, after: &str) -> (r: String)
    ensures
        r@ == about(before@, cmd@, after@),
{
    let mut s = join(before, "'");
    s.append(cmd);
    s.append("'");
    s.append(after);
    s
}

/// What the end of reading a reply means for the command.
pub open spec fn reply_meaning(cmd: Seq<char>, outcome: ReplyOutcome) -> Result<
    Seq<u8>,
    ErrorModel,
> {
    match outcome {
        ReplyOutcome::WriteFailed(f) => Err(
            ErrorModel {
                kind: Some(f.kind),
                message: about("write "@, cmd, ": "@ + f.message@),
            },
        ),
        ReplyOutcome::Bytes(b) => if b@.len() == 0 {
            Err(
                ErrorModel {
                    kind: Some(ErrorKind::Other),
                    message: about("0 bytes for "@, cmd, Seq::<char>::empty()),
                },
            )
        } else if found(lossy_text(b@), "NO DATA"@) {
            Err(ErrorModel { kind: Some(ErrorKind::Other), message: "no data"@ })
        } else if found(lossy_text(b@), "7F 22 12"@) {
            Err(ErrorModel { kind: Some(ErrorKind::Other), message: "Service Not Supported"@ })
        } else {
            Ok(b@)
        },
        ReplyOutcome::ReadFailed(f) => Err(
            ErrorModel {
                kind: Some(f.kind),
                message: about("read "@, cmd, ": "@ + f.message@),
            },
        ),
        ReplyOutcome::TimedOut => Err(
            ErrorModel {
                kind: Some(ErrorKind::TimedOut),
                message: about("timeout "@, cmd, Seq::<char>::empty()),
            },
        ),
    }
}

/// The reply as its meaning.
pub open spec fn reply_model(r: Result<Vec<u8>, SessionError>) -> Result<Seq<u8>, ErrorModel> {
    match r {
        Ok(b) => Ok(b@),
        Err(e) => Err(e@),
    }
}

/// Judges the reply to a command.
pub fn judge_reply(cmd: &str, outcome: ReplyOutcome) -> (r: Result<Vec<u8>, SessionError>)
    ensures
        reply_model(r) == reply_meaning(cmd@, outcome),
{
    proof {
        reveal_strlit("");
        assert(""@ == Seq::<char>::empty());
    }
    match outcome {
        ReplyOutcome::WriteFailed(f) => {
            let message = about_text("write ", cmd, join(": ", f.message.as_str()).as_str());
            Err(SessionError { kind: Some(f.kind), message })
        },
        ReplyOutcome::Bytes(b) => {
            if b.len() == 0 {
                let message = about_text("0 bytes for ", cmd, "");
                return Err(SessionError { kind: Some(ErrorKind::Other), message });
            }
            let text = chars_of(lossy(&b).as_str());
            if mentions(&text, "NO DATA") {
                return Err(
                    SessionError { kind: Some(ErrorKind::Other), message: "no data".to_owned() },
                );
            }
            if mentions(&text, "7F 22 12") {
                return Err(
                    SessionError {
                        kind: Some(ErrorKind::Other),
                        message: "Service Not Supported".to_owned(),
                    },
                );
            }
            Ok(b)
        },
        ReplyOutcome::ReadFailed(f) => {
            let message = about_text("read ", cmd, join(": ", f.message.as_str()).as_str());
            Err(SessionError { kind: Some(f.kind), message })
        },
        ReplyOutcome::TimedOut => {
            let message = about_text("timeout ", cmd, "");
            Err(SessionError { kind: Some(ErrorKind::TimedOut), message })
        },
    }
}

/// How reading one byte ended.
#[derive(Debug)]
pub enum ByteOutcome {
    Byte(u8),
    /// The stream has ended.
    End,
    Failed(Fault),
    TimedOut,
}

/// What an exchange asks for next.
#[derive(Debug)]
pub enum SessionAction {
    /// Send a command and read up to the prompt.
    Send(String),
    /// Write bytes and read nothing.
    Write(Vec<u8>),
    /// Read one line, with a limit in milliseconds for each byte.
    ReadLine(u64),
    /// Read one byte, with a limit in milliseconds.
    ReadByte(u64),
}

/// What an action says.
pub enum ActionModel {
    Send(Seq<char>),
    Write(Seq<u8>),
    ReadLine(u64),
    ReadByte(u64),
}

impl View for SessionAction {
    type V = ActionModel;

    open spec fn view(&self) -> ActionModel {
        match *self {
            SessionAction::Send(c) => ActionModel::Send(c@),
            SessionAction::Write(b) => ActionModel::Write(b@),
            SessionAction::ReadLine(ms) => ActionModel::ReadLine(ms),
            SessionAction::ReadByte(ms) => ActionModel::ReadByte(ms),
        }
    }
}

/// What came of an action.
#[derive(Debug)]
pub enum SessionEvent {
    /// The judged reply to a command.
    Replied(Result<Vec<u8>, SessionError>),
    Written(Result<(), Fault>),
    Line(Result<Vec<u8>, Fault>),
    Byte(ByteOutcome),
}

/// What an event says.
pub enum EventModel {
    Replied(Result<Seq<u8>, ErrorModel>),
    Written(Result<(), ErrorModel>),
    Line(Result<Seq<u8>, ErrorModel>),
    Byte(Option<u8>),
}

impl View for SessionEvent {
    type V = EventModel;

    open spec fn view(&self) -> EventModel {
        match *self {
            SessionEvent::Replied(r) => EventModel::Replied(reply_model(r)),
            SessionEvent::Written(Ok(u)) => EventModel::Written(Ok(u)),
            SessionEvent::Written(Err(f)) => EventModel::Written(Err(f@)),
            SessionEvent::Line(Ok(l)) => EventModel::Line(Ok(l@)),
            SessionEvent::Line(Err(f)) => EventModel::Line(Err(f@)),
            SessionEvent::Byte(ByteOutcome::Byte(b)) => EventModel::Byte(Some(b)),
            SessionEvent::Byte(_) => EventModel::Byte(None),
        }
    }
}

/// A line that is being read byte by byte.
pub struct LineReader {
    line: Vec<u8>,
}

/// What to do after a byte.
pub enum LineStep {
    /// Read another byte.
    More(LineReader),
    /// The line, or why there is none.
    Done(Result<Vec<u8>, Fault>),
}

/// True for the bytes that end a line.
pub open spec fn ends_line(b: u8) -> bool {
    b == 13 || b == 10
}

/// The state of a line after one more byte: the bytes so far, or the finished
/// line. Terminators before the first byte of the line are skipped.
pub open spec fn line_after(line: Seq<u8>, b: u8) -> Result<Seq<u8>, Seq<u8>> {
    if !ends_line(b) {
        Ok(line.push(b))
    } else if line.len() == 0 {
        Ok(line)
    } else {
        Err(line)
    }
}

impl LineReader {
    /// The bytes read so far.
    pub closed spec fn so_far(self) -> Seq<u8> {
        self.line@
    }

    /// An empty line.
    pub fn new() -> (r: LineReader)
        ensures
            r.so_far() == Seq::<u8>::empty(),
    {
        LineReader { line: Vec::new() }
    }

    /// Takes in one byte, or the reason why there is none.
    pub fn feed(self, outcome: ByteOutcome) -> (r: LineStep)
        ensures
            match outcome {
                ByteOutcome::Byte(b) => match line_after(self.so_far(), b) {
                    Ok(line) => r is More && r->More_0.so_far() == line,
                    Err(line) => r is Done && r->Done_0 is Ok && r->Done_0->Ok_0@ == line,
                },
                ByteOutcome::End => r is Done && r->Done_0 is Ok && r->Done_0->Ok_0@
                    == self.so_far(),
                ByteOutcome::Failed(f) => r == LineStep::Done(Err(f)),
                ByteOutcome::TimedOut => if self.so_far().len() == 0 {
                    &&& r is Done
                    &&& r->Done_0 is Err
                    &&& r->Done_0->Err_0.kind == ErrorKind::TimedOut
                    &&& r->Done_0->Err_0.message@ == "line read timeout"@
                } else {
                    r is Done && r->Done_0 is Ok && r->Done_0->Ok_0@ == self.so_far()
                },
            },
    {
        let mut line = self.line;
        match outcome {
            ByteOutcome::Byte(b) => {
                if b != 13 && b != 10 {
                    line.push(b);
                    LineStep::More(LineReader { line })
                } else if line.len() == 0 {
                    LineStep::More(LineReader { line })
                } else {
                    LineStep::Done(Ok(line))
                }
            },
            ByteOutcome::End => LineStep::Done(Ok(line)),
            ByteOutcome::Failed(f) => LineStep::Done(Err(f)),
            ByteOutcome::TimedOut => {
                if line.len() == 0 {
                    LineStep::Done(
                        Err(
                            Fault {
                                kind: ErrorKind::TimedOut,
                                message: "line read timeout".to_owned(),
                            },
                        ),
                    )
                } else {
                    LineStep::Done(Ok(line))
                }
            },
        }
    }
}

/// The line that comes out of a stream of bytes, `None` while it is not
/// finished.
pub open spec fn line_from(line: Seq<u8>, bytes: Seq<u8>) -> Option<Seq<u8>>
    decreases bytes.len(),
{
    if bytes.len() == 0 {
        None
    } else {
        match line_after(line, bytes[0]) {
            Ok(next) => line_from(next, bytes.drop_first()),
            Err(done) => Some(done),
        }
    }
}

proof fn lemma_line_body(line: Seq<u8>, body: Seq<u8>, end: u8, rest: Seq<u8>)
    requires
        line.len() + body.len() > 0,
        forall|i: int| 0 <= i < body.len() ==> !ends_line(#[trigger] body[i]),
        ends_line(end),
    ensures
        line_from(line, body + seq![end] + rest) == Some(line + body),
    decreases body.len(),
{
    let all = body + seq![end] + rest;
    if body.len() == 0 {
        assert(all[0] == end);
        assert(line + body == line);
    } else {
        assert(all[0] == body[0]);
        assert(!ends_line(body[0]));
        let tail = body.drop_first();
        assert forall|i: int| 0 <= i < tail.len() implies !ends_line(#[trigger] tail[i]) by {
            assert(tail[i] == body[i + 1]);
        }
        assert(all.drop_first() == tail + seq![end] + rest);
        lemma_line_body(line.push(body[0]), tail, end, rest);
        assert(line.push(body[0]) + tail == line + body);
    }
}

/// The line read from a stream is the first run of bytes between terminators,
/// without them; terminators before it are skipped.
pub proof fn line_is_first_run(before: Seq<u8>, body: Seq<u8>, end: u8, rest: Seq<u8>)
    requires
        forall|i: int| 0 <= i < before.len() ==> ends_line(#[trigger] before[i]),
        body.len() > 0,
        forall|i: int| 0 <= i < body.len() ==> !ends_line(#[trigger] body[i]),
        ends_line(end),
    ensures
        line_from(Seq::<u8>::empty(), before + body + seq![end] + rest) == Some(body),
    decreases before.len(),
{
    let none = Seq::<u8>::empty();
    let all = before + body + seq![end] + rest;
    if before.len() == 0 {
        assert(all == body + seq![end] + rest);
        lemma_line_body(none, body, end, rest);
        assert(none + body == body);
    } else {
        assert(ends_line(before[0]));
        assert(all[0] == before[0]);
        let tail = before.drop_first();
        assert forall|i: int| 0 <= i < tail.len() implies ends_line(#[trigger] tail[i]) by {
            assert(tail[i] == before[i + 1]);
        }
        assert(all.drop_first() == tail + body + seq![end] + rest);
        line_is_first_run(tail, body, end, rest);
    }
}

/// Bytes that a command is answered with are handed on as they are, unless
/// there are none or their text reports that there is no data or that the
/// service is not supported; those three are failures.
pub proof fn replies_are_handed_on(cmd: Seq<char>, b: Vec<u8>, before: Seq<char>, after: Seq<char>)
    ensures
        b@.len() == 0 ==> reply_meaning(cmd, ReplyOutcome::Bytes(b)) is Err,
        b@.len() > 0 && lossy_text(b@) == before + "NO DATA"@ + after ==> reply_meaning(
            cmd,
            ReplyOutcome::Bytes(b),
        ) == Err::<Seq<u8>, ErrorModel>(
            ErrorModel { kind: Some(ErrorKind::Other), message: "no data"@ },
        ),
        b@.len() > 0 && lossy_text(b@) == before + "7F 22 12"@ + after ==> reply_meaning(
            cmd,
            ReplyOutcome::Bytes(b),
        ) is Err,
        b@.len() > 0 && lossy_text(b@) == before + "7F 22 12"@ + after && !found(
            lossy_text(b@),
            "NO DATA"@,
        ) ==> reply_meaning(cmd, ReplyOutcome::Bytes(b)) == Err::<Seq<u8>, ErrorModel>(
            ErrorModel { kind: Some(ErrorKind::Other), message: "Service Not Supported"@ },
        ),
        b@.len() > 0 && (forall|i: int|
            0 <= i <= lossy_text(b@).len() - 7 ==> #[trigger] lossy_text(b@).subrange(i, i + 7)
                != "NO DATA"@) && (forall|i: int|
            0 <= i <= lossy_text(b@).len() - 8 ==> #[trigger] lossy_text(b@).subrange(i, i + 8)
                != "7F 22 12"@) ==> reply_meaning(cmd, ReplyOutcome::Bytes(b)) == Ok::<
            Seq<u8>,
            ErrorModel,
        >(b@),
{
    reveal_strlit("NO DATA");
    reveal_strlit("7F 22 12");
    text_is_found_where_it_stands(before, "NO DATA"@, after);
    text_is_found_where_it_stands(before, "7F 22 12"@, after);
    let text = lossy_text(b@);
    if found(text, "NO DATA"@) {
        let i = choose|i: int| #[trigger] stands_at(text, "NO DATA"@, i);
        assert(text.subrange(i, i + 7) == "NO DATA"@);
    }
    if found(text, "7F 22 12"@) {
        let i = choose|i: int| #[trigger] stands_at(text, "7F 22 12"@, i);
        assert(text.subrange(i, i + 8) == "7F 22 12"@);
    }
}

/// A failed exchange keeps the kind of its input/output error and says which
/// command it was; a reply that does not come in time is a timeout.
pub proof fn failures_keep_their_kind(cmd: Seq<char>, f: Fault)
    ensures
        reply_meaning(cmd, ReplyOutcome::WriteFailed(f)) == Err::<Seq<u8>, ErrorModel>(
            ErrorModel {
                kind: Some(f.kind),
                message: "write '"@ + cmd + "': "@ + f.message@,
            },
        ),
        reply_meaning(cmd, ReplyOutcome::ReadFailed(f)) == Err::<Seq<u8>, ErrorModel>(
            ErrorModel { kind: Some(f.kind), message: "read '"@ + cmd + "': "@ + f.message@ },
        ),
        reply_meaning(cmd, ReplyOutcome::TimedOut) == Err::<Seq<u8>, ErrorModel>(
            ErrorModel {
                kind: Some(ErrorKind::TimedOut),
                message: "timeout '"@ + cmd + "'"@,
            },
        ),
{
    reveal_strlit("write ");
    reveal_strlit("write '");
    reveal_strlit("read ");
    reveal_strlit("read '");
    reveal_strlit("timeout ");
    reveal_strlit("timeout '");
    reveal_strlit("'");
    reveal_strlit(": ");
    reveal_strlit("': ");
    assert("write '"@ =~= "write "@ + "'"@);
    assert("read '"@ =~= "read "@ + "'"@);
    assert("timeout '"@ =~= "timeout "@ + "'"@);
    assert("': "@ =~= "'"@ + ": "@);
    assert("write '"@ + cmd + "': "@ + f.message@ =~= about("write "@, cmd, ": "@ + f.message@));
    assert("read '"@ + cmd + "': "@ + f.message@ =~= about("read "@, cmd, ": "@ + f.message@));
    assert("timeout '"@ + cmd + "'"@ =~= about("timeout "@, cmd, Seq::<char>::empty()));
}

/// A command goes out as its text in UTF-8 with a carriage return behind it, so
/// the text comes back from all but the last byte. Its reply ends with the
/// prompt `>` and may take five seconds.
pub proof fn commands_go_out_as_text(cmd: Seq<char>)
    ensures
        wire(cmd).last() == 13,
        valid_utf8(wire(cmd).drop_last()),
        decode_utf8(wire(cmd).drop_last()) == cmd,
        EOM_PROMPT == '>' as u32,
        SEND_CMD_TIMEOUT_MS == 5000,
{
    assert(wire(cmd).drop_last() == encode_utf8(cmd));
    vstd::utf8::encode_utf8_valid_utf8(cmd);
    vstd::utf8::encode_utf8_decode_utf8(cmd);
}

} // verus!
