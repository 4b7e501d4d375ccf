//! Log lines. Messages may hold markup such as `<b><blue>text</>`. The console
//! shows it as colour; the file gets the same text without it.

use crate::text::{found, join, stands_at};
use vstd::prelude::*;

verus! {

/// The level of a message.
#[derive(Clone, Copy, PartialEq, Eq, Debug, Structural)]
pub enum Level {
    Error,
    Warn,
    Info,
    Debug,
    Trace,
}

/// The lowest level that is logged.
#[derive(Clone, Copy, PartialEq, Eq, Debug, Structural)]
pub enum LevelFilter {
    Off,
    Error,
    Warn,
    Info,
    Debug,
    Trace,
}

/// A name that stands for no level.
#[derive(Clone, Copy, PartialEq, Eq, Debug, Structural)]
pub struct UnknownLevel;

/// A capital letter of ASCII as a small one; any other character as it is.
pub open spec fn ascii_lower(c: char) -> char {
    if 'A' <= c && c <= 'Z' {
        (c as u32 + 32) as char
    } else {
        c
    }
}

/// Are two texts the same but for ASCII capitals?
pub open spec fn same_ignoring_case(a: Seq<char>, b: Seq<char>) -> bool {
    a.len() == b.len() && forall|i: int|
        0 <= i < a.len() ==> ascii_lower(#[trigger] a[i]) == ascii_lower(b[i])
}

/// The level that a name stands for.
pub open spec fn named_filter(name: Seq<char>) -> Option<LevelFilter> {
    if same_ignoring_case(name, "off"@) {
        Some(LevelFilter::Off)
    } else if same_ignoring_case(name, "error"@) {
        Some(LevelFilter::Error)
    } else if same_ignoring_case(name, "warn"@) {
        Some(LevelFilter::Warn)
    } else if same_ignoring_case(name, "info"@) {
        Some(LevelFilter::Info)
    } else if same_ignoring_case(name, "debug"@) {
        Some(LevelFilter::Debug)
    } else if same_ignoring_case(name, "trace"@) {
        Some(LevelFilter::Trace)
    } else {
        None
    }
}

/// Calls `log::LevelFilter::from_str`, which takes the names of the levels,
/// in capitals or not, and nothing else.
#[verifier::external_body]
fn parse_filter(name: &str) -> (r: Option<LevelFilter>)
    ensures
        r == named_filter(name@),
{
    match name.parse::<log::LevelFilter>() {
        Ok(log::LevelFilter::Off) => Some(LevelFilter::Off),
        Ok(log::LevelFilter::Error) => Some(LevelFilter::Error),
        Ok(log::LevelFilter::Warn) => Some(LevelFilter::Warn),
        Ok(log::LevelFilter::Info) => Some(LevelFilter::Info),
        Ok(log::LevelFilter::Debug) => Some(LevelFilter::Debug),
        Ok(log::LevelFilter::Trace) => Some(LevelFilter::Trace),
        Err(_) => None,
    }
}

impl LevelFilter {
    /// The level with a name.
    pub fn from_str(name: &str) -> (r: Result<LevelFilter, UnknownLevel>)
        ensures
            match r {
                Ok(level) => named_filter(name@) == Some(level),
                Err(_) => named_filter(name@) is None,
            },
    {
        match parse_filter(name) {
            Some(level) => Ok(level),
            None => Err(UnknownLevel),
        }
    }
}

/// The level to log at: debugging, if that is asked for; else the configured
/// one, or information where that is none.
pub open spec fn chosen_filter(log_level: Seq<char>, debug_override: bool) -> LevelFilter {
    if debug_override {
        LevelFilter::Debug
    } else {
        match named_filter(log_level) {
            Some(level) => level,
            None => LevelFilter::Info,
        }
    }
}

/// Chooses the level to log at.
pub fn choose_filter(log_level: &str, debug_override: bool) -> (r: LevelFilter)
    ensures
        r == chosen_filter(log_level@, debug_override),
{
    if debug_override {
        LevelFilter::Debug
    } else {
        match LevelFilter::from_str(log_level) {
            Ok(level) => level,
            Err(_) => LevelFilter::Info,
        }
    }
}

/// The name of a level in colour markup.
pub open spec fn marked_up(level: Level) -> Seq<char> {
    match level {
        Level::Error => "<red>ERROR</>"@,
        Level::Warn => "<yellow>WARN</>"@,
        Level::Info => "<green>INFO</>"@,
        Level::Debug => "<cyan>DEBUG</>"@,
        Level::Trace => "<bright black>TRACE</>"@,
    }
}

/// The name of a level in colour markup.
pub fn level_markup(level: Level) -> (r: &'static str)
    ensures
        r@ == marked_up(level),
        level == Level::Error ==> r@ == "<red>ERROR</>"@,
        level == Level::Warn ==> r@ == "<yellow>WARN</>"@,
        level == Level::Info ==> r@ == "<green>INFO</>"@,
        level == Level::Debug ==> r@ == "<cyan>DEBUG</>"@,
        level == Level::Trace ==> r@ == "<bright black>TRACE</>"@,
{
    match level {
        Level::Error => "<red>ERROR</>",
        Level::Warn => "<yellow>WARN</>",
        Level::Info => "<green>INFO</>",
        Level::Debug => "<cyan>DEBUG</>",
        Level::Trace => "<bright black>TRACE</>",
    }
}

/// The name of a level.
pub open spec fn level_text(level: Level) -> Seq<char> {
    match level {
        Level::Error => "ERROR"@,
        Level::Warn => "WARN"@,
        Level::Info => "INFO"@,
        Level::Debug => "DEBUG"@,
        Level::Trace => "TRACE"@,
    }
}

/// The name of a level.
pub fn level_name(level: Level) -> (r: &'static str)
    ensures
        r@ == level_text(level),
        level == Level::Error ==> r@ == "ERROR"@,
        level == Level::Warn ==> r@ == "WARN"@,
        level == Level::Info ==> r@ == "INFO"@,
        level == Level::Debug ==> r@ == "DEBUG"@,
        level == Level::Trace ==> r@ == "TRACE"@,
{
    match level {
        Level::Error => "ERROR",
        Level::Warn => "WARN",
        Level::Info => "INFO",
        Level::Debug => "DEBUG",
        Level::Trace => "TRACE",
    }
}

/// What `paris::formatter::format_string` makes of a text, in colour or not.
pub uninterp spec fn rendered(text: Seq<char>, colour: bool) -> Seq<char>;

/// Calls `paris::formatter::format_string`, which puts escape codes in the
/// place of the tags in a text, or nothing where no colour is wanted. A text
/// without an opening bracket has no tags and stays as it is; and without
/// colour nothing is added to a text.
#[verifier::external_body]
fn render_markup(text: &str, colour: bool) -> (r: String)
    ensures
        r@ == rendered(text@, colour),
        !text@.contains('<') ==> r@ == text@,
        !colour ==> forall|c: char| #[trigger] r@.contains(c) ==> text@.contains(c),
{
    paris::formatter::format_string(text, colour)
}

/// Renders the markup in a text.
pub fn render(text: &str, colour: bool) -> (r: String)
    ensures
        r@ == rendered(text@, colour),
        !text@.contains('<') ==> r@ == text@,
        !colour ==> forall|c: char| #[trigger] r@.contains(c) ==> text@.contains(c),
{
    render_markup(text, colour)
}

/// A line of the log: the time, a tag and the message.
pub open spec fn line(time: Seq<char>, tag: Seq<char>, message: Seq<char>) -> Seq<char> {
    time + " ["@ + tag + "] "@ + message
}

/// Puts a line together.
pub fn format_line(time: &str, tag: &str, message: &str) -> (r: String)
    ensures
        r@ == line(time@, tag@, message@),
        r@ == time@ + " ["@ + tag@ + "] "@ + message@,
{
    let mut s = join(time, " [");
    s.append(tag);
    s.append("] ");
    s.append(message);
    s
}

/// A line for the console.
pub fn console_line(time: &str, level: Level, message: &str, colour: bool) -> (r: String)
    ensures
        r@ == rendered(line(time@, marked_up(level), message@), colour),
{
    let s = format_line(time, level_markup(level), message);
    render(s.as_str(), colour)
}

/// A line for the file. It holds no character that is not in the time, the
/// level or the message: no escape codes get into it.
pub fn file_line(time: &str, level: Level, message: &str) -> (r: String)
    ensures
        r@ == rendered(line(time@, level_text(level), message@), false),
        forall|c: char| #[trigger]
            r@.contains(c) ==> line(time@, level_text(level), message@).contains(c),
        !line(time@, level_text(level), message@).contains('<') ==> r@ == line(
            time@,
            level_text(level),
            message@,
        ),
{
    let s = format_line(time, level_name(level), message);
    render(s.as_str(), false)
}

/// Capitals make no difference to the name of a level.
pub proof fn level_names_ignore_capitals(a: Seq<char>, b: Seq<char>)
    requires
        same_ignoring_case(a, b),
    ensures
        named_filter(a) == named_filter(b),
{
    assert forall|n: Seq<char>| same_ignoring_case(a, n) == #[trigger] same_ignoring_case(
        b,
        n,
    ) by {
        if same_ignoring_case(a, n) {
            assert forall|i: int| 0 <= i < b.len() implies ascii_lower(#[trigger] b[i])
                == ascii_lower(n[i]) by {
                assert(ascii_lower(a[i]) == ascii_lower(b[i]));
                assert(ascii_lower(a[i]) == ascii_lower(n[i]));
            }
        }
        if same_ignoring_case(b, n) {
            assert forall|i: int| 0 <= i < a.len() implies ascii_lower(#[trigger] a[i])
                == ascii_lower(n[i]) by {
                assert(ascii_lower(b[i]) == ascii_lower(n[i]));
            }
        }
    }
    assert(same_ignoring_case(a, "off"@) == same_ignoring_case(b, "off"@));
    assert(same_ignoring_case(a, "error"@) == same_ignoring_case(b, "error"@));
    assert(same_ignoring_case(a, "warn"@) == same_ignoring_case(b, "warn"@));
    assert(same_ignoring_case(a, "info"@) == same_ignoring_case(b, "info"@));
    assert(same_ignoring_case(a, "debug"@) == same_ignoring_case(b, "debug"@));
    assert(same_ignoring_case(a, "trace"@) == same_ignoring_case(b, "trace"@));
}

/// The level to log at is the one for debugging where that is asked for,
/// whatever is configured, else the configured one, else the one for
/// information.
pub proof fn levels_are_chosen_in_order(log_level: Seq<char>, level: LevelFilter)
    ensures
        chosen_filter(log_level, true) == LevelFilter::Debug,
        named_filter(log_level) == Some(level) ==> chosen_filter(log_level, false) == level,
        named_filter(log_level) is None ==> chosen_filter(log_level, false) == LevelFilter::Info,
{
}

/// The levels are told apart by their names and by their markup, and the markup
/// of a level holds its name.
pub proof fn levels_are_told_apart(a: Level, b: Level)
    ensures
        a != b ==> level_text(a) != level_text(b),
        a != b ==> marked_up(a) != marked_up(b),
        found(marked_up(a), level_text(a)),
{
    reveal_strlit("ERROR");
    reveal_strlit("WARN");
    reveal_strlit("INFO");
    reveal_strlit("DEBUG");
    reveal_strlit("TRACE");
    reveal_strlit("<red>ERROR</>");
    reveal_strlit("<yellow>WARN</>");
    reveal_strlit("<green>INFO</>");
    reveal_strlit("<cyan>DEBUG</>");
    reveal_strlit("<bright black>TRACE</>");
    let at: int = match a {
        Level::Error => 5,
        Level::Warn => 8,
        Level::Info => 7,
        Level::Debug => 6,
        Level::Trace => 14,
    };
    let text = level_text(a);
    assert(marked_up(a).subrange(at, at + text.len()) =~= text);
    assert(stands_at(marked_up(a), text, at));
    assert(level_text(a)[0] == level_text(b)[0] ==> a == b);
    assert(marked_up(a)[1] == marked_up(b)[1] ==> a == b);
}

} // verus!
