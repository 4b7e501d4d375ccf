//! ELM327 replies: from text to payload bytes.

pub use crate::adapter::fields::{extract_value, extract_value_broadcast};
pub use crate::adapter::link::default_init_commands;
pub use crate::adapter::session::Elm327Session;

use crate::numbers::{
    all_digits, digit, is_hex_word, number, parse_hex_byte, parsed, unsigned_body,
};
use crate::text::{
    all_space, at_most_three_bytes, byte_len, byte_len_at_least, byte_len_is_encoded_len, chars_of,
    found, is_space, joined, joined_text_splits_again, mentions, only_blank_text_trims_to_nothing,
    parts,
    slice_of, split, split_words, splitting_goes_part_by_part, stands_at, string_of, strip_spaces,
    trim, trimmed, trimmed_end, trimmed_start, trimmed_text_is_of_the_text,
    trimming_takes_off_the_ends, unsplit_text_is_one_part, views, without_spaces, words,
    words_are_found_again, Separator,
};
use vstd::hash_map::StringHashMap;
use vstd::prelude::*;
use vstd::utf8::{decode_utf8, encode_utf8, valid_utf8};

verus! {

/// The text that `String::from_utf8_lossy` gives for bytes that are not valid
/// UTF-8.
pub uninterp spec fn mended_text(bytes: Seq<u8>) -> Seq<char>;

/// The text of a sequence of bytes: what they encode, and some text for bytes
/// that are not valid UTF-8.
pub open spec fn lossy_text(bytes: Seq<u8>) -> Seq<char> {
    if valid_utf8(bytes) {
        decode_utf8(bytes)
    } else {
        mended_text(bytes)
    }
}

/// Calls `String::from_utf8_lossy`: bytes that are valid UTF-8 are decoded as
/// they stand; of other bytes the result is only named.
#[verifier::external_body]
pub(crate) fn lossy(bytes: &Vec<u8>) -> (r: String)
    ensures
        valid_utf8(bytes@) ==> r@ == decode_utf8(bytes@),
        !valid_utf8(bytes@) ==> r@ == mended_text(bytes@),
{
    String::from_utf8_lossy(bytes).into_owned()
}

/// The byte that two characters write in hexadecimal.
pub open spec fn pair_byte(a: char, b: char) -> Option<nat> {
    parsed(seq![a, b], 16, 255)
}

/// The bytes of a run of hexadecimal pairs. A pair that writes no byte is left
/// out, and so is a character without a partner at the end.
pub open spec fn pair_bytes(s: Seq<char>) -> Seq<u8>
    decreases s.len(),
{
    if s.len() < 2 {
        Seq::<u8>::empty()
    } else {
        let rest = pair_bytes(s.skip(2));
        match pair_byte(s[0], s[1]) {
            Some(b) => seq![b as u8] + rest,
            None => rest,
        }
    }
}

/// The data of a reply line without its spaces: what stands between the first
/// colon and the next, or the whole line where there is no colon.
pub open spec fn line_data(s: Seq<char>) -> Seq<char> {
    if s.contains(':') {
        parts(s, Separator::Colon)[1]
    } else {
        s
    }
}

/// The lines of a reply that carry data: trimmed, not empty, and no progress
/// message.
pub open spec fn reply_lines(p: Seq<Seq<char>>) -> Seq<Seq<char>>
    decreases p.len(),
{
    if p.len() == 0 {
        Seq::<Seq<char>>::empty()
    } else {
        let head = reply_lines(p.drop_last());
        let line = trimmed(p.last());
        if line.len() > 0 && !found(line, "SEARCHING"@) {
            head.push(line)
        } else {
            head
        }
    }
}

/// The bytes of one reply line. A first line of at most three bytes of text is
/// the length header of a long reply and carries no data.
pub open spec fn line_bytes(line: Seq<char>, first: bool) -> Seq<u8> {
    let cleaned = without_spaces(line);
    if first && byte_len(cleaned) <= 3 {
        Seq::<u8>::empty()
    } else {
        pair_bytes(line_data(cleaned))
    }
}

/// The bytes of the reply lines, one after the other.
pub open spec fn lines_bytes(lines: Seq<Seq<char>>) -> Seq<u8>
    decreases lines.len(),
{
    if lines.len() == 0 {
        Seq::<u8>::empty()
    } else {
        lines_bytes(lines.drop_last()) + line_bytes(lines.last(), lines.len() == 1)
    }
}

/// The payload of a reply: the UDS header and data bytes.
pub open spec fn payload_of(response: Seq<char>) -> Seq<u8> {
    lines_bytes(reply_lines(parts(response, Separator::LineEnd)))
}

fn read_pairs(v: &Vec<char>) -> (r: Vec<u8>)
    ensures
        r@ == pair_bytes(v@),
{
    let mut out: Vec<u8> = Vec::new();
    let total: usize = v.len();
    let mut i: usize = 0;
    assert(v@.skip(0) == v@);
    while total - i >= 2
        invariant
            i <= total,
            total == v@.len(),
            out@ + pair_bytes(v@.skip(i as int)) == pair_bytes(v@),
        decreases total - i,
    {
        let pair = slice_of(v, i, i + 2);
        let ghost rest = v@.skip(i as int);
        assert(rest[0] == v@[i as int] && rest[1] == v@[i + 1]);
        assert(pair@ == seq![rest[0], rest[1]]);
        assert(rest.skip(2) == v@.skip(i + 2));
        let ghost was = out@;
        match parse_hex_byte(&pair) {
            Some(b) => {
                out.push(b);
                assert(out@ + pair_bytes(v@.skip(i + 2)) == was + (seq![b] + pair_bytes(
                    v@.skip(i + 2),
                )));
            },
            None => {},
        }
        i = i + 2;
    }
    assert(out@ + pair_bytes(v@.skip(i as int)) == out@);
    out
}

proof fn lemma_colon_parts(s: Seq<char>)
    requires
        s.contains(':'),
    ensures
        parts(s, Separator::Colon).len() >= 2,
    decreases s.len(),
{
    let head = s.drop_last();
    lemma_parts_at_least_one(head);
    if s.last() != ':' {
        let i = choose|i: int| 0 <= i < s.len() && s[i] == ':';
        assert(head[i] == ':');
        lemma_colon_parts(head);
    }
}

proof fn lemma_parts_at_least_one(s: Seq<char>)
    ensures
        parts(s, Separator::Colon).len() >= 1,
    decreases s.len(),
{
    if s.len() > 0 {
        lemma_parts_at_least_one(s.drop_last());
    }
}

fn has_char(v: &Vec<char>, c: char) -> (r: bool)
    ensures
        r == v@.contains(c),
{
    for i in 0..v.len()
        invariant
            forall|k: int| 0 <= k < i ==> v@[k] != c,
    {
        if v[i] == c {
            return true;
        }
    }
    false
}

fn read_line_bytes(line: &Vec<char>, first: bool) -> (r: Vec<u8>)
    ensures
        r@ == line_bytes(line@, first),
{
    let cleaned = strip_spaces(line);
    if first && at_most_three_bytes(&cleaned) {
        return Vec::new();
    }
    if has_char(&cleaned, ':') {
        let p = split(&cleaned, Separator::Colon);
        proof {
            lemma_colon_parts(cleaned@);
        }
        assert(views(p@)[1] == p@[1]@);
        read_pairs(&p[1])
    } else {
        read_pairs(&cleaned)
    }
}

/// Strips the ELM327 framing from a reply and returns the UDS payload, header
/// and data.
pub fn get_payload(response: &str) -> (payload: Vec<u8>)
    ensures
        payload@ == payload_of(response@),
{
    let text = chars_of(response);
    let pieces = split(&text, Separator::LineEnd);
    let ghost all = parts(response@, Separator::LineEnd);
    let mut out: Vec<u8> = Vec::new();
    let mut first = true;
    assert(all.take(0) == Seq::<Seq<char>>::empty());
    for i in 0..pieces.len()
        invariant
            views(pieces@) == all,
            out@ == lines_bytes(reply_lines(all.take(i as int))),
            first == (reply_lines(all.take(i as int)).len() == 0),
    {
        assert(all.take(i + 1).drop_last() == all.take(i as int));
        assert(all[i as int] == pieces@[i as int]@);
        let line = trim(&pieces[i]);
        let ghost head = reply_lines(all.take(i as int));
        if line.len() > 0 && !mentions(&line, "SEARCHING") {
            assert(head.push(line@).drop_last() == head);
            let mut bytes = read_line_bytes(&line, first);
            out.append(&mut bytes);
            first = false;
        }
    }
    assert(all.take(all.len() as int) == all);
    out
}

/// Does a text write these bytes in hexadecimal, two digits each, in small
/// letters or capitals?
pub open spec fn writes(s: Seq<char>, p: Seq<u8>) -> bool {
    &&& s.len() == 2 * p.len()
    &&& forall|i: int|
        0 <= i < p.len() ==> digit(s[2 * i], 16) == Some((#[trigger] p[i]) as nat / 16)
    &&& forall|i: int|
        0 <= i < p.len() ==> digit(s[2 * i + 1], 16) == Some((#[trigger] p[i]) as nat % 16)
}

/// A hexadecimal digit or a blank.
pub open spec fn is_plain(c: char) -> bool {
    c == ' ' || digit(c, 16) is Some
}

/// What may stand around the lines of a reply: whitespace and prompts.
pub open spec fn is_frame(c: char) -> bool {
    is_space(c) || c == '>'
}

/// A character of a tidy line: the only whitespace is the blank, and no
/// progress message starts with it.
pub open spec fn is_tidy(c: char) -> bool {
    (is_space(c) ==> c == ' ') && c != 'S'
}

/// Is every character of a text such a one?
pub open spec fn all_such(s: Seq<char>, f: spec_fn(char) -> bool) -> bool {
    forall|i: int| 0 <= i < s.len() ==> f(#[trigger] s[i])
}

proof fn lemma_writes(s: Seq<char>, p: Seq<u8>)
    requires
        writes(s, p),
    ensures
        pair_bytes(s) == p,
    decreases p.len(),
{
    if p.len() > 0 {
        let b = p[0] as nat;
        let rest = p.skip(1);
        assert forall|i: int| 0 <= i < rest.len() implies digit(s.skip(2)[2 * i], 16) == Some(
            (#[trigger] rest[i]) as nat / 16,
        ) by {
            assert(rest[i] == p[i + 1] && s.skip(2)[2 * i] == s[2 * (i + 1)]);
        }
        assert forall|i: int| 0 <= i < rest.len() implies digit(s.skip(2)[2 * i + 1], 16) == Some(
            (#[trigger] rest[i]) as nat % 16,
        ) by {
            assert(rest[i] == p[i + 1] && s.skip(2)[2 * i + 1] == s[2 * (i + 1) + 1]);
        }
        lemma_writes(s.skip(2), rest);
        assert(digit(s[2 * 0int], 16) == Some(b / 16));
        assert(digit(s[2 * 0int + 1], 16) == Some(b % 16));
        let pair = seq![s[0], s[1]];
        assert(pair.drop_last() == seq![s[0]]);
        assert(seq![s[0]].drop_last() == Seq::<char>::empty());
        assert(number(Seq::<char>::empty(), 16) == 0);
        assert(number(seq![s[0]], 16) == b / 16);
        assert(number(pair, 16) == (b / 16) * 16 + b % 16);
        assert(unsigned_body(pair) == pair);
        assert(all_digits(pair, 16));
        assert(pair_byte(s[0], s[1]) == Some(b));
        assert(seq![p[0]] + rest == p);
    }
}

proof fn lemma_writes_digits(s: Seq<char>, p: Seq<u8>)
    requires
        writes(s, p),
    ensures
        all_digits(s, 16),
{
    assert forall|i: int| 0 <= i < s.len() implies (#[trigger] digit(s[i], 16)) is Some by {
        let k = i / 2;
        assert(digit(s[2 * k], 16) == Some(p[k] as nat / 16));
        assert(digit(s[2 * k + 1], 16) == Some(p[k] as nat % 16));
        assert(i == 2 * k || i == 2 * k + 1);
    }
}

proof fn lemma_trimmed_start_keeps(s: Seq<char>, f: spec_fn(char) -> bool)
    requires
        all_such(s, f),
    ensures
        all_such(trimmed_start(s), f),
    decreases s.len(),
{
    if s.len() > 0 && is_space(s[0]) {
        assert forall|i: int| 0 <= i < s.drop_first().len() implies f(
            #[trigger] s.drop_first()[i],
        ) by {
            assert(s.drop_first()[i] == s[i + 1]);
        }
        lemma_trimmed_start_keeps(s.drop_first(), f);
    }
}

proof fn lemma_trimmed_end_keeps(s: Seq<char>, f: spec_fn(char) -> bool)
    requires
        all_such(s, f),
    ensures
        all_such(trimmed_end(s), f),
    decreases s.len(),
{
    if s.len() > 0 && is_space(s.last()) {
        lemma_trimmed_end_keeps(s.drop_last(), f);
    }
}

proof fn lemma_leading_blank(s: Seq<char>)
    requires
        s.len() > 0,
        s[0] == ' ',
    ensures
        without_spaces(s.drop_first()) == without_spaces(s),
    decreases s.len(),
{
    if s.len() == 1 {
        assert(s.drop_last() == Seq::<char>::empty());
        assert(s.drop_first() == Seq::<char>::empty());
    } else {
        lemma_leading_blank(s.drop_last());
        assert(s.drop_last().drop_first() == s.drop_first().drop_last());
        assert(s.drop_first().last() == s.last());
    }
}

proof fn lemma_trimmed_start_blanks(s: Seq<char>)
    requires
        all_such(s, |c: char| is_tidy(c)),
    ensures
        without_spaces(trimmed_start(s)) == without_spaces(s),
    decreases s.len(),
{
    if s.len() > 0 && is_space(s[0]) {
        assert(is_tidy(s[0]));
        lemma_leading_blank(s);
        assert forall|i: int| 0 <= i < s.drop_first().len() implies is_tidy(
            #[trigger] s.drop_first()[i],
        ) by {
            assert(s.drop_first()[i] == s[i + 1]);
        }
        lemma_trimmed_start_blanks(s.drop_first());
    }
}

proof fn lemma_trimmed_end_blanks(s: Seq<char>)
    requires
        all_such(s, |c: char| is_tidy(c)),
    ensures
        without_spaces(trimmed_end(s)) == without_spaces(s),
    decreases s.len(),
{
    if s.len() > 0 && is_space(s.last()) {
        assert(is_tidy(s.last()));
        lemma_trimmed_end_blanks(s.drop_last());
    }
}

proof fn lemma_trimmed_start_plain(s: Seq<char>)
    requires
        all_such(s, |c: char| is_plain(c)),
    ensures
        without_spaces(trimmed_start(s)) == without_spaces(s),
    decreases s.len(),
{
    if s.len() > 0 && is_space(s[0]) {
        assert(is_plain(s[0]));
        lemma_leading_blank(s);
        assert forall|i: int| 0 <= i < s.drop_first().len() implies is_plain(
            #[trigger] s.drop_first()[i],
        ) by {
            assert(s.drop_first()[i] == s[i + 1]);
        }
        lemma_trimmed_start_plain(s.drop_first());
    }
}

proof fn lemma_trimmed_end_plain(s: Seq<char>)
    requires
        all_such(s, |c: char| is_plain(c)),
    ensures
        without_spaces(trimmed_end(s)) == without_spaces(s),
    decreases s.len(),
{
    if s.len() > 0 && is_space(s.last()) {
        assert(is_plain(s.last()));
        lemma_trimmed_end_plain(s.drop_last());
    }
}

proof fn lemma_without_spaces_keeps(s: Seq<char>, f: spec_fn(char) -> bool)
    requires
        all_such(s, f),
    ensures
        all_such(without_spaces(s), f),
    decreases s.len(),
{
    if s.len() > 0 {
        lemma_without_spaces_keeps(s.drop_last(), f);
    }
}

proof fn lemma_no_progress(s: Seq<char>)
    requires
        !s.contains('S'),
    ensures
        !found(s, "SEARCHING"@),
{
    reveal_strlit("SEARCHING");
    let pat = "SEARCHING"@;
    if found(s, pat) {
        let i = choose|i: int| #[trigger] stands_at(s, pat, i);
        assert(s.subrange(i, i + pat.len())[0] == 'S');
        assert(s[i] == 'S');
    }
}

/// A line of digits and blanks is read as the bytes that its digits write.
proof fn lemma_plain_line(line: Seq<char>, p: Seq<u8>)
    requires
        p.len() >= 2,
        all_such(line, |c: char| is_plain(c)),
        writes(without_spaces(line), p),
    ensures
        trimmed(line).len() > 0,
        !found(trimmed(line), "SEARCHING"@),
        line_bytes(trimmed(line), true) == p,
{
    let plain = |c: char| is_plain(c);
    let cleaned = without_spaces(line);
    lemma_trimmed_start_keeps(line, plain);
    lemma_trimmed_end_keeps(trimmed_start(line), plain);
    lemma_trimmed_start_plain(line);
    lemma_trimmed_end_plain(trimmed_start(line));
    let text = trimmed(line);
    assert(without_spaces(text) == cleaned);
    assert(text.len() > 0);
    assert(!text.contains('S')) by {
        if text.contains('S') {
            let i = choose|i: int| 0 <= i < text.len() && text[i] == 'S';
            assert(plain(text[i]));
        }
    }
    lemma_no_progress(text);
    lemma_writes_digits(cleaned, p);
    byte_len_at_least(cleaned);
    assert(!cleaned.contains(':')) by {
        if cleaned.contains(':') {
            let i = choose|i: int| 0 <= i < cleaned.len() && cleaned[i] == ':';
            assert(digit(cleaned[i], 16) is Some);
        }
    }
    lemma_writes(cleaned, p);
}

proof fn lemma_colon_cut(n: Seq<char>, h: Seq<char>)
    requires
        !n.contains(':'),
        !h.contains(':'),
    ensures
        line_data(n.push(':') + h) == h,
{
    let s = n.push(':') + h;
    assert(s[n.len() as int] == ':');
    assert forall|i: int| 0 <= i < n.len() implies !Separator::Colon.splits(#[trigger] n[i]) by {}
    assert forall|i: int| 0 <= i < h.len() implies !Separator::Colon.splits(#[trigger] h[i]) by {}
    unsplit_text_is_one_part(n, Separator::Colon);
    unsplit_text_is_one_part(h, Separator::Colon);
    splitting_goes_part_by_part(n, ':', h, Separator::Colon);
}

/// Is this a reply line that carries these bytes? It holds blanks anywhere, no
/// other whitespace and no progress message. Without its blanks it is the bytes
/// in hexadecimal, behind a line number and a colon where it has a number.
pub open spec fn carries(line: Seq<char>, number: Option<Seq<char>>, p: Seq<u8>) -> bool {
    let cleaned = without_spaces(line);
    &&& all_such(line, |c: char| is_tidy(c))
    &&& match number {
        Some(n) => {
            &&& !n.contains(':')
            &&& cleaned.len() > n.len()
            &&& cleaned.take(n.len() as int) == n
            &&& cleaned[n.len() as int] == ':'
            &&& writes(cleaned.skip((n.len() + 1) as int), p)
        },
        None => writes(cleaned, p),
    }
}

/// Is the line too long for a length header?
pub open spec fn is_long(number: Option<Seq<char>>, p: Seq<u8>) -> bool {
    match number {
        Some(n) => n.len() >= 1 && p.len() >= 1,
        None => p.len() >= 2,
    }
}

proof fn lemma_no_colon(h: Seq<char>)
    requires
        all_digits(h, 16),
    ensures
        !h.contains(':'),
{
    if h.contains(':') {
        let i = choose|i: int| 0 <= i < h.len() && h[i] == ':';
        assert(digit(h[i], 16) is Some);
    }
}

/// A reply line is read as the bytes that it carries.
proof fn lemma_data_line(line: Seq<char>, number: Option<Seq<char>>, p: Seq<u8>)
    requires
        carries(line, number, p),
    ensures
        !found(trimmed(line), "SEARCHING"@),
        line_bytes(trimmed(line), false) == p,
        trimmed(line).len() == 0 ==> p.len() == 0,
        is_long(number, p) ==> trimmed(line).len() > 0 && line_bytes(trimmed(line), true) == p,
{
    let tidy = |c: char| is_tidy(c);
    let cleaned = without_spaces(line);
    lemma_trimmed_start_keeps(line, tidy);
    lemma_trimmed_end_keeps(trimmed_start(line), tidy);
    lemma_trimmed_start_blanks(line);
    lemma_trimmed_end_blanks(trimmed_start(line));
    let text = trimmed(line);
    assert(without_spaces(text) == cleaned);
    assert(!text.contains('S')) by {
        if text.contains('S') {
            let i = choose|i: int| 0 <= i < text.len() && text[i] == 'S';
            assert(tidy(text[i]));
        }
    }
    lemma_no_progress(text);
    byte_len_at_least(cleaned);
    match number {
        Some(n) => {
            let h = cleaned.skip((n.len() + 1) as int);
            lemma_writes_digits(h, p);
            lemma_no_colon(h);
            assert(cleaned == n.push(':') + h);
            lemma_colon_cut(n, h);
            lemma_writes(h, p);
        },
        None => {
            lemma_writes_digits(cleaned, p);
            lemma_no_colon(cleaned);
            lemma_writes(cleaned, p);
        },
    }
}

proof fn lemma_frame_pairs(s: Seq<char>)
    requires
        all_such(s, |c: char| is_frame(c)),
    ensures
        pair_bytes(s) == Seq::<u8>::empty(),
    decreases s.len(),
{
    if s.len() >= 2 {
        assert forall|i: int| 0 <= i < s.skip(2).len() implies is_frame(
            #[trigger] s.skip(2)[i],
        ) by {
            assert(s.skip(2)[i] == s[i + 2]);
        }
        lemma_frame_pairs(s.skip(2));
        let pair = seq![s[0], s[1]];
        assert(is_frame(s[0]) && is_frame(s[1]));
        assert(unsigned_body(pair) == pair);
        assert(digit(pair[0], 16) is None);
        assert(pair_byte(s[0], s[1]) is None);
    }
}

/// A line of whitespace and prompts is read as nothing.
proof fn lemma_frame_line(line: Seq<char>)
    requires
        all_such(line, |c: char| is_frame(c)),
    ensures
        !found(trimmed(line), "SEARCHING"@),
        line_bytes(trimmed(line), true) == Seq::<u8>::empty(),
        line_bytes(trimmed(line), false) == Seq::<u8>::empty(),
{
    let frame = |c: char| is_frame(c);
    lemma_trimmed_start_keeps(line, frame);
    lemma_trimmed_end_keeps(trimmed_start(line), frame);
    let text = trimmed(line);
    assert(!text.contains('S')) by {
        if text.contains('S') {
            let i = choose|i: int| 0 <= i < text.len() && text[i] == 'S';
            assert(frame(text[i]));
        }
    }
    lemma_no_progress(text);
    let cleaned = without_spaces(text);
    lemma_without_spaces_keeps(text, frame);
    assert(!cleaned.contains(':')) by {
        if cleaned.contains(':') {
            let i = choose|i: int| 0 <= i < cleaned.len() && cleaned[i] == ':';
            assert(frame(cleaned[i]));
        }
    }
    lemma_frame_pairs(cleaned);
}

/// Are these the lines of a framed reply: the line with the data, and then
/// whitespace and prompts?
spec fn is_framed(q: Seq<Seq<char>>, line: Seq<char>) -> bool {
    &&& q.len() >= 1
    &&& q[0] == line
    &&& forall|k: int| 1 <= k < q.len() ==> all_such(#[trigger] q[k], |c: char| is_frame(c))
}

proof fn lemma_framed_lines(q: Seq<Seq<char>>, line: Seq<char>, p: Seq<u8>)
    requires
        is_framed(q, line),
        p.len() >= 2,
        all_such(line, |c: char| is_plain(c)),
        writes(without_spaces(line), p),
    ensures
        reply_lines(q).len() >= 1,
        lines_bytes(reply_lines(q)) == p,
    decreases q.len(),
{
    let head = reply_lines(q.drop_last());
    let text = trimmed(q.last());
    if q.len() == 1 {
        lemma_plain_line(line, p);
        assert(head == Seq::<Seq<char>>::empty());
        assert(reply_lines(q) == head.push(text));
        assert(head.push(text).drop_last() == head);
        assert(lines_bytes(head) == Seq::<u8>::empty());
        assert(Seq::<u8>::empty() + p == p);
    } else {
        assert(is_framed(q.drop_last(), line));
        lemma_framed_lines(q.drop_last(), line, p);
        assert(all_such(q[q.len() - 1], |c: char| is_frame(c)));
        lemma_frame_line(q.last());
        assert(head.push(text).drop_last() == head);
        assert(p + Seq::<u8>::empty() == p);
    }
}

proof fn lemma_one_line(s: Seq<char>)
    requires
        all_such(s, |c: char| is_plain(c)),
    ensures
        parts(s, Separator::LineEnd) == seq![s],
    decreases s.len(),
{
    if s.len() > 0 {
        assert(is_plain(s.last()));
        lemma_one_line(s.drop_last());
        assert(s.drop_last().push(s.last()) == s);
        assert(!Separator::LineEnd.splits(s.last()));
        assert(seq![s.drop_last()].drop_last().push(s) == seq![s]);
    } else {
        assert(s == Seq::<char>::empty());
    }
}

proof fn lemma_framed_parts(line: Seq<char>, tail: Seq<char>)
    requires
        all_such(line, |c: char| is_plain(c)),
        all_such(tail, |c: char| is_frame(c)),
        tail.len() > 0 ==> Separator::LineEnd.splits(tail[0]),
    ensures
        is_framed(parts(line + tail, Separator::LineEnd), line),
        tail.len() > 0 ==> parts(line + tail, Separator::LineEnd).len() >= 2,
    decreases tail.len(),
{
    let sep = Separator::LineEnd;
    if tail.len() == 0 {
        lemma_one_line(line);
        assert(line + tail == line);
    } else {
        let shorter = tail.drop_last();
        let c = tail.last();
        assert(is_frame(c));
        lemma_framed_parts(line, shorter);
        let s = line + tail;
        assert(s.drop_last() == line + shorter);
        assert(s.last() == c);
        let before = parts(line + shorter, sep);
        let after = parts(s, sep);
        let frame = |c: char| is_frame(c);
        assert forall|k: int| 1 <= k < after.len() implies all_such(#[trigger] after[k], frame) by {
            if sep.splits(c) {
                if k < before.len() {
                    assert(after[k] == before[k]);
                }
            } else if k < before.len() - 1 {
                assert(after[k] == before[k]);
            } else {
                assert(all_such(before[k], frame));
                assert(after[k] == before[k].push(c));
            }
        }
    }
}

/// A reply of one line is read as the bytes that it writes. The line is a
/// payload of two or more bytes in hexadecimal, in small letters or capitals,
/// with blanks anywhere; behind it stand line ends, other whitespace and
/// prompts, or nothing.
pub proof fn plain_reply_reads_back(p: Seq<u8>, line: Seq<char>, tail: Seq<char>)
    requires
        p.len() >= 2,
        all_such(line, |c: char| is_plain(c)),
        writes(without_spaces(line), p),
        all_such(tail, |c: char| is_frame(c)),
        tail.len() > 0 ==> Separator::LineEnd.splits(tail[0]),
    ensures
        payload_of(line + tail) == p,
{
    lemma_framed_parts(line, tail);
    lemma_framed_lines(parts(line + tail, Separator::LineEnd), line, p);
}

proof fn lemma_joined_parts(a: Seq<char>, c: char, b: Seq<char>)
    requires
        Separator::LineEnd.splits(c),
    ensures
        parts(a.push(c) + b, Separator::LineEnd) == parts(a, Separator::LineEnd) + parts(
            b,
            Separator::LineEnd,
        ),
        parts(b, Separator::LineEnd).len() >= 1,
{
    splitting_goes_part_by_part(a, c, b, Separator::LineEnd);
}

proof fn lemma_joined_lines(x: Seq<Seq<char>>, y: Seq<Seq<char>>)
    ensures
        reply_lines(x + y) == reply_lines(x) + reply_lines(y),
    decreases y.len(),
{
    if y.len() == 0 {
        assert(x + y == x);
    } else {
        lemma_joined_lines(x, y.drop_last());
        assert((x + y).drop_last() == x + y.drop_last());
        assert((x + y).last() == y.last());
    }
}

proof fn lemma_joined_bytes(x: Seq<Seq<char>>, y: Seq<Seq<char>>)
    requires
        x.len() > 0,
        y.len() > 0 ==> byte_len(without_spaces(y[0])) > 3,
    ensures
        lines_bytes(x + y) == lines_bytes(x) + lines_bytes(y),
    decreases y.len(),
{
    if y.len() == 0 {
        assert(x + y == x);
    } else {
        lemma_joined_bytes(x, y.drop_last());
        assert((x + y).drop_last() == x + y.drop_last());
        assert((x + y).last() == y.last());
        assert(line_bytes(y.last(), y.len() == 1) == line_bytes(y.last(), false));
    }
}

/// The payloads of replies that follow each other are joined: behind a reply
/// with a line of data, another one adds its payload, where its first line is
/// too long for a length header.
pub proof fn joined_replies_concatenate(a: Seq<char>, c: char, b: Seq<char>)
    requires
        Separator::LineEnd.splits(c),
        reply_lines(parts(a, Separator::LineEnd)).len() > 0,
        ({
            let lines = reply_lines(parts(b, Separator::LineEnd));
            lines.len() > 0 ==> byte_len(without_spaces(lines[0])) > 3
        }),
    ensures
        payload_of(a.push(c) + b) == payload_of(a) + payload_of(b),
{
    lemma_joined_parts(a, c, b);
    lemma_joined_lines(parts(a, Separator::LineEnd), parts(b, Separator::LineEnd));
    lemma_joined_bytes(
        reply_lines(parts(a, Separator::LineEnd)),
        reply_lines(parts(b, Separator::LineEnd)),
    );
}

/// The bytes of reply lines none of which is the first.
spec fn later_bytes(lines: Seq<Seq<char>>) -> Seq<u8>
    decreases lines.len(),
{
    if lines.len() == 0 {
        Seq::<u8>::empty()
    } else {
        later_bytes(lines.drop_last()) + line_bytes(lines.last(), false)
    }
}

proof fn lemma_later_bytes(x: Seq<Seq<char>>, y: Seq<Seq<char>>)
    ensures
        x.len() > 0 ==> lines_bytes(x + y) == lines_bytes(x) + later_bytes(y),
        later_bytes(x + y) == later_bytes(x) + later_bytes(y),
    decreases y.len(),
{
    if y.len() == 0 {
        assert(x + y == x);
    } else {
        lemma_later_bytes(x, y.drop_last());
        assert((x + y).drop_last() == x + y.drop_last());
        assert((x + y).last() == y.last());
    }
}

proof fn lemma_long_first(x: Seq<Seq<char>>)
    requires
        x.len() > 0 ==> line_bytes(x[0], true) == line_bytes(x[0], false),
    ensures
        lines_bytes(x) == later_bytes(x),
    decreases x.len(),
{
    if x.len() > 0 {
        if x.len() > 1 {
            assert(x.drop_last()[0] == x[0]);
        }
        lemma_long_first(x.drop_last());
    }
}

/// Does a line say nothing: only whitespace, or a progress message?
pub open spec fn is_silent(line: Seq<char>) -> bool {
    all_space(line) || found(line, "SEARCHING"@)
}

proof fn lemma_progress_start(s: Seq<char>, i: int)
    requires
        stands_at(s, "SEARCHING"@, i),
    ensures
        found(trimmed_start(s), "SEARCHING"@),
    decreases s.len(),
{
    reveal_strlit("SEARCHING");
    let pat = "SEARCHING"@;
    assert(s.subrange(i, i + pat.len())[0] == s[i]);
    if is_space(s[0]) {
        let t = s.drop_first();
        assert(t.subrange(i - 1, i - 1 + pat.len()) == s.subrange(i, i + pat.len()));
        lemma_progress_start(t, i - 1);
    }
}

proof fn lemma_progress_end(s: Seq<char>, i: int)
    requires
        stands_at(s, "SEARCHING"@, i),
    ensures
        found(trimmed_end(s), "SEARCHING"@),
    decreases s.len(),
{
    reveal_strlit("SEARCHING");
    let pat = "SEARCHING"@;
    assert(s.subrange(i, i + pat.len())[8] == s[i + 8]);
    if is_space(s.last()) {
        let t = s.drop_last();
        assert(t.subrange(i, i + pat.len()) == s.subrange(i, i + pat.len()));
        lemma_progress_end(t, i);
    }
}

proof fn lemma_silent_lines(p: Seq<Seq<char>>)
    requires
        forall|i: int| 0 <= i < p.len() ==> is_silent(#[trigger] p[i]),
    ensures
        reply_lines(p) == Seq::<Seq<char>>::empty(),
    decreases p.len(),
{
    if p.len() > 0 {
        let head = p.drop_last();
        assert forall|i: int| 0 <= i < head.len() implies is_silent(#[trigger] head[i]) by {
            assert(head[i] == p[i]);
        }
        lemma_silent_lines(head);
        let line = p[p.len() - 1];
        if all_space(line) {
            let none = Seq::<char>::empty();
            assert(line + none + none == line);
            trimming_takes_off_the_ends(line, none, none);
        } else {
            let i = choose|i: int| #[trigger] stands_at(line, "SEARCHING"@, i);
            lemma_progress_start(line, i);
            let j = choose|j: int| #[trigger] stands_at(trimmed_start(line), "SEARCHING"@, j);
            lemma_progress_end(trimmed_start(line), j);
        }
    }
}

proof fn lemma_data_lines(
    lines: Seq<Seq<char>>,
    numbers: Seq<Option<Seq<char>>>,
    data: Seq<Seq<u8>>,
)
    requires
        numbers.len() == lines.len(),
        data.len() == lines.len(),
        forall|i: int| 0 <= i < lines.len() ==> carries(#[trigger] lines[i], numbers[i], data[i]),
    ensures
        later_bytes(reply_lines(lines)) == data.flatten(),
    decreases lines.len(),
{
    data.lemma_flatten_and_flatten_alt_are_equivalent();
    if lines.len() > 0 {
        let head = lines.drop_last();
        let less = data.drop_last();
        assert forall|i: int| 0 <= i < head.len() implies carries(
            #[trigger] head[i],
            numbers.drop_last()[i],
            less[i],
        ) by {
            assert(carries(lines[i], numbers[i], data[i]));
        }
        lemma_data_lines(head, numbers.drop_last(), less);
        less.lemma_flatten_and_flatten_alt_are_equivalent();
        let line = lines[lines.len() - 1];
        lemma_data_line(line, numbers.last(), data.last());
        let before = reply_lines(head);
        assert(before.push(trimmed(line)).drop_last() == before);
        assert(less.flatten() + Seq::<u8>::empty() == less.flatten());
    }
}

/// Does a line hold nothing but whitespace and prompts?
pub open spec fn is_prompt(line: Seq<char>) -> bool {
    forall|i: int| 0 <= i < line.len() ==> is_frame(#[trigger] line[i])
}

proof fn lemma_frame_lines(p: Seq<Seq<char>>)
    requires
        forall|i: int| 0 <= i < p.len() ==> is_prompt(#[trigger] p[i]),
    ensures
        later_bytes(reply_lines(p)) == Seq::<u8>::empty(),
        reply_lines(p).len() > 0 ==> line_bytes(reply_lines(p)[0], true) == Seq::<u8>::empty(),
        reply_lines(p).len() > 0 ==> line_bytes(reply_lines(p)[0], false) == Seq::<u8>::empty(),
    decreases p.len(),
{
    if p.len() > 0 {
        let head = p.drop_last();
        assert forall|i: int| 0 <= i < head.len() implies is_prompt(#[trigger] head[i]) by {
            assert(head[i] == p[i]);
        }
        lemma_frame_lines(head);
        let line = p[p.len() - 1];
        assert(is_prompt(line));
        lemma_frame_line(line);
        let before = reply_lines(head);
        assert(before.push(trimmed(line)).drop_last() == before);
        if before.len() > 0 {
            assert(before.push(trimmed(line))[0] == before[0]);
        }
    }
}

proof fn lemma_header_line(h: Seq<char>)
    requires
        all_such(h, |c: char| is_tidy(c)),
        without_spaces(h).len() >= 1,
        byte_len(without_spaces(h)) <= 3,
    ensures
        reply_lines(seq![h]) == seq![trimmed(h)],
        lines_bytes(reply_lines(seq![h])) == Seq::<u8>::empty(),
{
    let tidy = |c: char| is_tidy(c);
    lemma_trimmed_start_keeps(h, tidy);
    lemma_trimmed_end_keeps(trimmed_start(h), tidy);
    lemma_trimmed_start_blanks(h);
    lemma_trimmed_end_blanks(trimmed_start(h));
    let text = trimmed(h);
    assert(!text.contains('S')) by {
        if text.contains('S') {
            let i = choose|i: int| 0 <= i < text.len() && text[i] == 'S';
            assert(tidy(text[i]));
        }
    }
    lemma_no_progress(text);
    assert(seq![h].drop_last() == Seq::<Seq<char>>::empty());
    assert(reply_lines(Seq::<Seq<char>>::empty()) == Seq::<Seq<char>>::empty());
    assert(Seq::<Seq<char>>::empty().push(text) == seq![text]);
    assert(seq![text].drop_last() == Seq::<Seq<char>>::empty());
    assert(lines_bytes(Seq::<Seq<char>>::empty()) == Seq::<u8>::empty());
    assert(Seq::<u8>::empty() + Seq::<u8>::empty() == Seq::<u8>::empty());
}

/// The payload of a reply that is given line by line.
proof fn lemma_reply_by_lines(
    before: Seq<Seq<char>>,
    header: Seq<Seq<char>>,
    lines: Seq<Seq<char>>,
    numbers: Seq<Option<Seq<char>>>,
    data: Seq<Seq<u8>>,
    after: Seq<Seq<char>>,
)
    requires
        forall|i: int| 0 <= i < before.len() ==> is_silent(#[trigger] before[i]),
        header.len() <= 1,
        header.len() == 1 ==> all_such(header[0], |c: char| is_tidy(c)) && without_spaces(
            header[0],
        ).len() >= 1 && byte_len(without_spaces(header[0])) <= 3,
        numbers.len() == lines.len(),
        data.len() == lines.len(),
        forall|i: int| 0 <= i < lines.len() ==> carries(#[trigger] lines[i], numbers[i], data[i]),
        header.len() == 0 && lines.len() > 0 ==> is_long(numbers[0], data[0]),
        forall|i: int| 0 <= i < after.len() ==> is_prompt(#[trigger] after[i]),
    ensures
        lines_bytes(reply_lines(before + header + lines + after)) == data.flatten(),
{
    let none = Seq::<Seq<char>>::empty();
    lemma_silent_lines(before);
    lemma_data_lines(lines, numbers, data);
    lemma_frame_lines(after);
    lemma_joined_lines(before + header + lines, after);
    lemma_joined_lines(before + header, lines);
    lemma_joined_lines(before, header);
    let h = reply_lines(header);
    let l = reply_lines(lines);
    let a = reply_lines(after);
    assert(none + h == h);
    assert(reply_lines(before + header + lines + after) == h + (l + a));
    lemma_later_bytes(l, a);
    assert(later_bytes(l + a) == data.flatten());
    if header.len() == 1 {
        assert(header == seq![header[0]]);
        lemma_header_line(header[0]);
        lemma_later_bytes(h, l + a);
    } else {
        assert(header == none);
        assert(h == none);
        assert(none + (l + a) == l + a);
        if lines.len() > 0 {
            assert(carries(lines[0], numbers[0], data[0]));
            lemma_data_line(lines[0], numbers[0], data[0]);
            let first = seq![lines[0]];
            assert(lines == first + lines.skip(1));
            lemma_joined_lines(first, lines.skip(1));
            assert(first.drop_last() == none);
            assert(reply_lines(none) == none);
            assert(reply_lines(first) == none.push(trimmed(lines[0])));
            assert(l[0] == trimmed(lines[0]));
            assert((l + a)[0] == l[0]);
        } else {
            assert(lines == none);
            assert(l == none);
            assert(l + a == a);
        }
        lemma_long_first(l + a);
    }
}

/// A reply reads back line by line. It may start with empty lines and progress
/// messages, and then with a length header of at most three characters. Each
/// line behind that carries some bytes in hexadecimal, any number of them, with
/// blanks anywhere, behind a line number and a colon or without. Prompts may
/// follow. The payload is the bytes of those lines, one line after the other.
/// Without a header the first of them is longer than one.
pub proof fn replies_read_back(
    before: Seq<Seq<char>>,
    header: Seq<Seq<char>>,
    lines: Seq<Seq<char>>,
    numbers: Seq<Option<Seq<char>>>,
    data: Seq<Seq<u8>>,
    after: Seq<Seq<char>>,
    ends: Seq<char>,
)
    requires
        (before + header + lines + after).len() == ends.len() + 1,
        forall|i: int| 0 <= i < ends.len() ==> #[trigger] ends[i] == '\r' || ends[i] == '\n',
        forall|i: int, j: int|
            0 <= i < (before + header + lines + after).len() && 0 <= j < (before + header + lines
                + after)[i].len() ==> !Separator::LineEnd.splits(
                #[trigger] (before + header + lines + after)[i][j],
            ),
        forall|i: int| 0 <= i < before.len() ==> is_silent(#[trigger] before[i]),
        header.len() <= 1,
        header.len() == 1 ==> all_such(header[0], |c: char| is_tidy(c)) && without_spaces(
            header[0],
        ).len() >= 1 && byte_len(without_spaces(header[0])) <= 3,
        numbers.len() == lines.len(),
        data.len() == lines.len(),
        forall|i: int| 0 <= i < lines.len() ==> carries(#[trigger] lines[i], numbers[i], data[i]),
        header.len() == 0 && lines.len() > 0 ==> is_long(numbers[0], data[0]),
        forall|i: int| 0 <= i < after.len() ==> is_prompt(#[trigger] after[i]),
    ensures
        payload_of(joined(before + header + lines + after, ends)) == data.flatten(),
{
    let all = before + header + lines + after;
    let sep = Separator::LineEnd;
    assert forall|i: int| 0 <= i < ends.len() implies sep.splits(#[trigger] ends[i]) by {}
    assert forall|i: int, j: int|
        0 <= i < all.len() && 0 <= j < all[i].len() implies !sep.splits(#[trigger] all[i][j]) by {}
    joined_text_splits_again(all, ends, sep);
    lemma_reply_by_lines(before, header, lines, numbers, data, after);
}

proof fn lemma_spoken_line(line: Seq<char>)
    ensures
        is_silent(line) ==> reply_lines(seq![line]) == Seq::<Seq<char>>::empty(),
        !is_silent(line) ==> reply_lines(seq![line]) == seq![trimmed(line)],
{
    let none = Seq::<Seq<char>>::empty();
    if is_silent(line) {
        assert forall|i: int| 0 <= i < seq![line].len() implies is_silent(
            #[trigger] seq![line][i],
        ) by {}
        lemma_silent_lines(seq![line]);
    } else {
        only_blank_text_trims_to_nothing(line);
        if found(trimmed(line), "SEARCHING"@) {
            trimmed_text_is_of_the_text(line, "SEARCHING"@);
        }
        assert(seq![line].drop_last() == none);
        assert(reply_lines(none) == none);
        assert(none.push(trimmed(line)) == seq![trimmed(line)]);
    }
}

/// A reply of one line, whatever it holds, carries the bytes that its
/// hexadecimal pairs write, but for a silent line and for one of at most three
/// bytes of text, blanks aside, which is a length header.
pub proof fn one_line_replies(line: Seq<char>)
    requires
        forall|i: int| 0 <= i < line.len() ==> !Separator::LineEnd.splits(#[trigger] line[i]),
    ensures
        is_silent(line) ==> payload_of(line) == Seq::<u8>::empty(),
        !is_silent(line) && encode_utf8(without_spaces(trimmed(line))).len() <= 3 ==> payload_of(
            line,
        ) == Seq::<u8>::empty(),
        !is_silent(line) && encode_utf8(without_spaces(trimmed(line))).len() > 3 ==> payload_of(
            line,
        ) == pair_bytes(line_data(without_spaces(trimmed(line)))),
{
    unsplit_text_is_one_part(line, Separator::LineEnd);
    lemma_spoken_line(line);
    byte_len_is_encoded_len(without_spaces(trimmed(line)));
    let text = trimmed(line);
    assert(seq![text].drop_last() == Seq::<Seq<char>>::empty());
    assert(lines_bytes(Seq::<Seq<char>>::empty()) == Seq::<u8>::empty());
    assert(Seq::<u8>::empty() + line_bytes(text, true) == line_bytes(text, true));
}

/// A line behind a reply, whatever it holds, adds the bytes that its pairs
/// write. It is a length header only where nothing but silent lines stands
/// before it.
pub proof fn further_lines_add_their_bytes(a: Seq<char>, c: char, line: Seq<char>)
    requires
        Separator::LineEnd.splits(c),
        forall|i: int| 0 <= i < line.len() ==> !Separator::LineEnd.splits(#[trigger] line[i]),
    ensures
        is_silent(line) ==> payload_of(a.push(c) + line) == payload_of(a),
        !is_silent(line) && reply_lines(parts(a, Separator::LineEnd)).len() > 0 ==> payload_of(
            a.push(c) + line,
        ) == payload_of(a) + pair_bytes(line_data(without_spaces(trimmed(line)))),
        reply_lines(parts(a, Separator::LineEnd)).len() == 0 ==> payload_of(a.push(c) + line)
            == payload_of(line),
{
    let x = parts(a, Separator::LineEnd);
    lemma_joined_parts(a, c, line);
    unsplit_text_is_one_part(line, Separator::LineEnd);
    lemma_joined_lines(x, seq![line]);
    lemma_spoken_line(line);
    let head = reply_lines(x);
    assert(head + Seq::<Seq<char>>::empty() == head);
    assert(head + seq![trimmed(line)] == head.push(trimmed(line)));
    assert(head.push(trimmed(line)).drop_last() == head);
    if head.len() == 0 {
        assert(head + reply_lines(seq![line]) == reply_lines(seq![line]));
    }
}

/// The data of a line is what stands between its first colon and the next, or
/// behind its only colon, or the whole line where there is no colon.
pub proof fn data_stands_behind_the_first_colon(n: Seq<char>, h: Seq<char>, t: Seq<char>)
    requires
        !n.contains(':'),
        !h.contains(':'),
    ensures
        line_data(h) == h,
        line_data(n.push(':') + h) == h,
        line_data(n.push(':') + (h.push(':') + t)) == h,
{
    lemma_colon_cut(n, h);
    let s = n.push(':') + (h.push(':') + t);
    assert(s[n.len() as int] == ':');
    assert forall|i: int| 0 <= i < n.len() implies !Separator::Colon.splits(#[trigger] n[i]) by {}
    assert forall|i: int| 0 <= i < h.len() implies !Separator::Colon.splits(#[trigger] h[i]) by {}
    unsplit_text_is_one_part(n, Separator::Colon);
    unsplit_text_is_one_part(h, Separator::Colon);
    splitting_goes_part_by_part(n, ':', h.push(':') + t, Separator::Colon);
    splitting_goes_part_by_part(h, ':', t, Separator::Colon);
}

/// Hexadecimal pairs are read in turn: a pair that writes a byte gives it, any
/// other pair is passed over, and a last character without a partner is too.
pub proof fn pairs_are_read_in_turn(a: char, b: char, rest: Seq<char>)
    ensures
        parsed(seq![a, b], 16, 255) matches Some(x) ==> pair_bytes(seq![a, b] + rest) == seq![
            x as u8,
        ] + pair_bytes(rest),
        parsed(seq![a, b], 16, 255) is None ==> pair_bytes(seq![a, b] + rest) == pair_bytes(rest),
        pair_bytes(Seq::<char>::empty()) == Seq::<u8>::empty(),
        pair_bytes(seq![a]) == Seq::<u8>::empty(),
{
    assert((seq![a, b] + rest).skip(2) == rest);
}

/// The bytes that words write in hexadecimal. A word that writes no byte is
/// left out.
pub open spec fn word_bytes(w: Seq<Seq<char>>) -> Seq<u8>
    decreases w.len(),
{
    if w.len() == 0 {
        Seq::<u8>::empty()
    } else {
        let head = word_bytes(w.drop_last());
        match parsed(w.last(), 16, 255) {
            Some(b) => head.push(b as u8),
            None => head,
        }
    }
}

/// The bytes of the words from index `from` on.
fn read_words(w: &Vec<Vec<char>>, from: usize) -> (r: Vec<u8>)
    requires
        from <= w@.len(),
    ensures
        r@ == word_bytes(views(w@).skip(from as int)),
{
    let mut out: Vec<u8> = Vec::new();
    let ghost all = views(w@).skip(from as int);
    assert(all.take(0) == Seq::<Seq<char>>::empty());
    for i in from..w.len()
        invariant
            from <= w@.len(),
            all == views(w@).skip(from as int),
            out@ == word_bytes(all.take(i - from)),
    {
        assert(all.take(i - from + 1).drop_last() == all.take(i - from));
        assert(all[i - from] == w@[i as int]@);
        match parse_hex_byte(&w[i]) {
            Some(b) => out.push(b),
            None => {},
        }
    }
    assert(all.take(all.len() as int) == all);
    out
}

/// The bytes that a raw line writes in hexadecimal words.
pub open spec fn raw_line_bytes(line: Seq<u8>) -> Seq<u8> {
    word_bytes(words(lossy_text(line)))
}

/// The bytes of each raw line.
pub open spec fn raw_lines_bytes(lines: Seq<Seq<u8>>) -> Seq<Seq<u8>> {
    Seq::new(lines.len(), |i: int| raw_line_bytes(lines[i]))
}

fn read_raw_line(line: &Vec<u8>) -> (r: Vec<u8>)
    ensures
        r@ == raw_line_bytes(line@),
{
    let text = lossy(line);
    let w = split_words(&chars_of(text.as_str()));
    assert(views(w@).skip(0) == views(w@));
    read_words(&w, 0)
}

/// The index of the first line with at least two bytes, which is the first
/// line of data; the number of lines if there is none.
pub open spec fn first_data_line(d: Seq<Seq<u8>>) -> int
    decreases d.len(),
{
    if d.len() == 0 || d[0].len() >= 2 {
        0
    } else {
        1 + first_data_line(d.skip(1))
    }
}

/// The total length that the lines before the data announce: the byte of the
/// last line that holds exactly one, or eighteen where none does.
pub open spec fn announced_len(d: Seq<Seq<u8>>) -> nat
    decreases d.len(),
{
    if d.len() == 0 {
        18
    } else if d.last().len() == 1 {
        d.last()[0] as nat
    } else {
        announced_len(d.drop_last())
    }
}

/// The data of a consecutive line: a leading sequence byte `0x2N` is no data,
/// unless it stands alone.
pub open spec fn consecutive_data(b: Seq<u8>) -> Seq<u8> {
    if b.len() > 1 && 0x20 <= b[0] <= 0x2f {
        b.skip(1)
    } else {
        b
    }
}

/// Appends the data of consecutive lines until `want` bytes are there or the
/// lines are used up.
pub open spec fn gathered(acc: Seq<u8>, rest: Seq<Seq<u8>>, want: nat) -> Seq<u8>
    decreases rest.len(),
{
    if acc.len() >= want || rest.len() == 0 {
        acc
    } else {
        gathered(acc + consecutive_data(rest[0]), rest.skip(1), want)
    }
}

/// The payload that the lines of a long reply carry, `None` without a line of
/// data.
pub open spec fn assembled(d: Seq<Seq<u8>>) -> Option<Seq<u8>> {
    let k = first_data_line(d);
    if k >= d.len() {
        None
    } else {
        Some(gathered(d[k], d.skip(k + 1), announced_len(d.take(k))))
    }
}

proof fn lemma_first_data_line(d: Seq<Seq<u8>>, k: int)
    requires
        0 <= k <= d.len(),
        forall|j: int| 0 <= j < k ==> (#[trigger] d[j]).len() < 2,
        k < d.len() ==> d[k].len() >= 2,
    ensures
        first_data_line(d) == k,
    decreases d.len(),
{
    if k > 0 {
        let t = d.skip(1);
        assert(d[0].len() < 2);
        assert forall|j: int| 0 <= j < k - 1 implies (#[trigger] t[j]).len() < 2 by {
            assert(t[j] == d[j + 1]);
        }
        lemma_first_data_line(t, k - 1);
    }
}

/// Reassembles the lines of a long UDS reply. The UDS response header stays in
/// the payload.
pub fn assemble_iso_tp(lines: &[Vec<u8>]) -> (payload: Option<Vec<u8>>)
    ensures
        payload is Some == assembled(raw_lines_bytes(byte_views(lines@))) is Some,
        payload is Some ==> payload->0@ == assembled(raw_lines_bytes(byte_views(lines@)))->0,
{
    let ghost d = raw_lines_bytes(byte_views(lines@));
    let mut want: usize = 18;
    let mut i: usize = 0;
    let mut acc: Vec<u8> = Vec::new();
    let mut got = false;
    assert(d.take(0) == Seq::<Seq<u8>>::empty());
    while i < lines.len() && !got
        invariant
            d == raw_lines_bytes(byte_views(lines@)),
            i <= lines@.len(),
            !got ==> (forall|j: int| 0 <= j < i ==> (#[trigger] d[j]).len() < 2),
            !got ==> want == announced_len(d.take(i as int)),
            got ==> {
                &&& i > 0
                &&& first_data_line(d) == i - 1
                &&& acc@ == d[i - 1]
                &&& want == announced_len(d.take(i - 1))
            },
        decreases lines@.len() - i,
    {
        let bytes = read_raw_line(&lines[i]);
        assert(byte_views(lines@)[i as int] == lines@[i as int]@);
        assert(d[i as int] == bytes@);
        assert(d.take(i + 1).drop_last() == d.take(i as int));
        if bytes.len() >= 2 {
            proof {
                lemma_first_data_line(d, i as int);
            }
            acc = bytes;
            got = true;
        } else if bytes.len() == 1 {
            want = bytes[0] as usize;
        }
        i = i + 1;
    }
    if !got {
        proof {
            lemma_first_data_line(d, d.len() as int);
        }
        return None;
    }
    let ghost goal = assembled(d)->0;
    while i < lines.len() && acc.len() < want
        invariant
            d == raw_lines_bytes(byte_views(lines@)),
            i <= lines@.len(),
            gathered(acc@, d.skip(i as int), want as nat) == goal,
        decreases lines@.len() - i,
    {
        let mut bytes = read_raw_line(&lines[i]);
        let ghost rest = d.skip(i as int);
        assert(byte_views(lines@)[i as int] == lines@[i as int]@);
        assert(rest[0] == bytes@);
        assert(rest.skip(1) == d.skip(i + 1));
        if bytes.len() > 1 && 0x20 <= bytes[0] && bytes[0] <= 0x2f {
            let mut data = bytes.split_off(1);
            assert(data@ == rest[0].skip(1));
            acc.append(&mut data);
        } else {
            acc.append(&mut bytes);
        }
        i = i + 1;
    }
    Some(acc)
}

/// What a line of bus traffic says: the identifier it starts with and the data
/// bytes after it. `None` for an error report, for a line that does not start
/// with a hexadecimal word and for one without data.
pub open spec fn traffic(line: Seq<char>) -> Option<(Seq<char>, Seq<u8>)> {
    let text = trimmed(line);
    let w = words(text);
    let data = word_bytes(w.skip(1));
    if w.len() == 0 || found(text, "ERROR"@) || !all_digits(w[0], 16) || data.len() == 0 {
        None
    } else {
        Some((w[0], data))
    }
}

/// The data frames of one identifier, in the order of the lines.
pub open spec fn frames_of(lines: Seq<Seq<char>>, id: Seq<char>) -> Seq<Seq<u8>>
    decreases lines.len(),
{
    if lines.len() == 0 {
        Seq::<Seq<u8>>::empty()
    } else {
        let head = frames_of(lines.drop_last(), id);
        match traffic(lines.last()) {
            Some((i, data)) if i == id => head.push(data),
            _ => head,
        }
    }
}

/// The texts of strings.
pub open spec fn texts(v: Seq<String>) -> Seq<Seq<char>> {
    Seq::new(v.len(), |i: int| v[i]@)
}

/// The contents of byte vectors.
pub open spec fn byte_views(v: Seq<Vec<u8>>) -> Seq<Seq<u8>> {
    Seq::new(v.len(), |i: int| v[i]@)
}

fn read_traffic(line: &String) -> (r: Option<(String, Vec<u8>)>)
    ensures
        r is Some == traffic(line@) is Some,
        r is Some ==> traffic(line@)->0 == ((r->0).0@, (r->0).1@),
{
    let text = trim(&chars_of(line.as_str()));
    let w = split_words(&text);
    if w.len() == 0 || mentions(&text, "ERROR") {
        return None;
    }
    assert(views(w@)[0] == w@[0]@);
    if !is_hex_word(&w[0]) {
        return None;
    }
    let data = read_words(&w, 1);
    if data.len() == 0 {
        return None;
    }
    Some((string_of(&w[0]), data))
}

fn collect_frames(lines: &[String], id: &String) -> (r: Vec<Vec<u8>>)
    ensures
        byte_views(r@) == frames_of(texts(lines@), id@),
{
    let ghost all = texts(lines@);
    let mut out: Vec<Vec<u8>> = Vec::new();
    assert(byte_views(out@) == frames_of(all.take(0), id@));
    for i in 0..lines.len()
        invariant
            all == texts(lines@),
            byte_views(out@) == frames_of(all.take(i as int), id@),
    {
        assert(all.take(i + 1).drop_last() == all.take(i as int));
        assert(all[i as int] == lines@[i as int]@);
        match read_traffic(&lines[i]) {
            Some((other, data)) => {
                if other == *id {
                    let ghost was = out@;
                    let ghost b = data@;
                    out.push(data);
                    assert(byte_views(out@) == byte_views(was).push(b));
                }
            },
            None => {},
        }
    }
    assert(all.take(all.len() as int) == all);
    out
}

/// Groups lines of bus traffic by the identifier that they start with.
pub fn route_broadcast_lines(lines: &[String]) -> (r: StringHashMap<Vec<Vec<u8>>>)
    ensures
        forall|id: Seq<char>| #[trigger]
            r@.contains_key(id) == (frames_of(texts(lines@), id).len() > 0),
        forall|id: Seq<char>| #[trigger]
            r@.contains_key(id) ==> byte_views(r@[id]@) == frames_of(texts(lines@), id),
{
    let ghost all = texts(lines@);
    let mut out: StringHashMap<Vec<Vec<u8>>> = StringHashMap::new();
    assert(frames_of(all.take(0), Seq::<char>::empty()).len() == 0);
    assert forall|id: Seq<char>| (#[trigger] out@.contains_key(id)) == (frames_of(
        all.take(0),
        id,
    ).len() > 0) by {
        assert(all.take(0).len() == 0);
    }
    for i in 0..lines.len()
        invariant
            all == texts(lines@),
            forall|id: Seq<char>| #[trigger]
                out@.contains_key(id) == (frames_of(all.take(i as int), id).len() > 0),
            forall|id: Seq<char>| #[trigger]
                out@.contains_key(id) ==> byte_views(out@[id]@) == frames_of(all, id),
    {
        assert(all.take(i + 1).drop_last() == all.take(i as int));
        assert(all[i as int] == lines@[i as int]@);
        match read_traffic(&lines[i]) {
            Some((id, _)) => {
                if !out.contains_key(id.as_str()) {
                    let frames = collect_frames(lines, &id);
                    out.insert(id, frames);
                }
            },
            None => {},
        }
    }
    assert(all.take(all.len() as int) == all);
    out
}

/// Words that write bytes are read as those bytes, in their order.
proof fn lemma_word_bytes(w: Seq<Seq<char>>, b: Seq<u8>)
    requires
        w.len() == b.len(),
        forall|i: int| 0 <= i < w.len() ==> parsed(#[trigger] w[i], 16, 255) == Some(b[i] as nat),
    ensures
        word_bytes(w) == b,
    decreases w.len(),
{
    if w.len() > 0 {
        let head = w.drop_last();
        assert forall|i: int| 0 <= i < head.len() implies parsed(#[trigger] head[i], 16, 255)
            == Some(b.drop_last()[i] as nat) by {
            assert(head[i] == w[i]);
        }
        lemma_word_bytes(head, b.drop_last());
        assert(parsed(w[w.len() - 1], 16, 255) == Some(b[b.len() - 1] as nat));
        assert(b.drop_last().push(b.last()) == b);
    }
}

proof fn lemma_number_word(w: Seq<char>)
    requires
        parsed(w, 16, 255) is Some,
    ensures
        w.len() > 0,
        forall|j: int| 0 <= j < w.len() ==> !is_space(#[trigger] w[j]) && w[j] != 'R',
{
    let body = unsigned_body(w);
    assert forall|j: int| 0 <= j < w.len() implies !is_space(#[trigger] w[j]) && w[j]
        != 'R' by {
        if w[0] == '+' {
            if j > 0 {
                assert(body[j - 1] == w[j]);
                assert(digit(body[j - 1], 16) is Some);
            }
        } else {
            assert(body[j] == w[j]);
            assert(digit(body[j], 16) is Some);
        }
    }
}

/// Text that was encoded in UTF-8 is read as itself.
pub proof fn encoded_text_is_read(text: Seq<char>)
    ensures
        lossy_text(encode_utf8(text)) == text,
{
    vstd::utf8::encode_utf8_valid_utf8(text);
    vstd::utf8::encode_utf8_decode_utf8(text);
}

/// A raw line of hexadecimal words, each the number of one byte, with one
/// whitespace character between two of them, is read as those bytes.
pub proof fn raw_lines_read_back(w: Seq<Seq<char>>, blanks: Seq<char>, b: Seq<u8>)
    requires
        w.len() == blanks.len() + 1,
        all_space(blanks),
        w.len() == b.len(),
        forall|i: int| 0 <= i < w.len() ==> parsed(#[trigger] w[i], 16, 255) == Some(b[i] as nat),
    ensures
        raw_line_bytes(encode_utf8(joined(w, blanks))) == b,
{
    encoded_text_is_read(joined(w, blanks));
    assert forall|i: int| 0 <= i < w.len() implies (#[trigger] w[i]).len() > 0 by {
        lemma_number_word(w[i]);
    }
    assert forall|i: int, j: int| 0 <= i < w.len() && 0 <= j < w[i].len() implies !is_space(
        #[trigger] w[i][j],
    ) by {
        assert(parsed(w[i], 16, 255) is Some);
        lemma_number_word(w[i]);
    }
    words_are_found_again(w, blanks);
    lemma_word_bytes(w, b);
}

/// A word that is not the number of a byte is passed over.
pub proof fn other_words_are_passed_over(w: Seq<Seq<char>>, x: Seq<char>, v: Seq<Seq<char>>)
    requires
        parsed(x, 16, 255) is None,
    ensures
        word_bytes(w + seq![x] + v) == word_bytes(w + v),
    decreases v.len(),
{
    if v.len() == 0 {
        assert((w + seq![x] + v).drop_last() == w);
        assert((w + seq![x] + v).last() == x);
        assert(w + v == w);
    } else {
        other_words_are_passed_over(w, x, v.drop_last());
        assert((w + seq![x] + v).drop_last() == w + seq![x] + v.drop_last());
        assert((w + v).drop_last() == w + v.drop_last());
        assert((w + seq![x] + v).last() == (w + v).last());
    }
}

/// Do the lines before the data announce this total length? The last of them
/// that holds one byte gives it; without one it is eighteen.
pub open spec fn announces(header: Seq<Seq<u8>>, at: int, want: nat) -> bool {
    &&& forall|j: int| 0 <= j < header.len() ==> (#[trigger] header[j]).len() <= 1
    &&& forall|j: int| at < j < header.len() ==> (#[trigger] header[j]).len() == 0
    &&& -1 <= at < header.len()
    &&& at == -1 ==> want == 18
    &&& at >= 0 ==> header[at].len() == 1 && want == header[at][0]
}

proof fn lemma_announced(header: Seq<Seq<u8>>, at: int, want: nat)
    requires
        announces(header, at, want),
    ensures
        announced_len(header) == want,
    decreases header.len(),
{
    if header.len() > 0 && at < header.len() - 1 {
        assert(header[header.len() - 1].len() == 0);
        let head = header.drop_last();
        assert forall|j: int| 0 <= j < head.len() implies (#[trigger] head[j]).len() <= 1 by {
            assert(head[j] == header[j]);
        }
        assert forall|j: int| at < j < head.len() implies (#[trigger] head[j]).len() == 0 by {
            assert(head[j] == header[j]);
        }
        lemma_announced(head, at, want);
    }
}

/// Is this a consecutive line with this data? Either a byte from `0x20` to
/// `0x2f` stands before the data, or the data stands alone and does not look
/// like that.
pub open spec fn continues(line: Seq<u8>, data: Seq<u8>) -> bool {
    ||| data.len() > 0 && exists|n: u8| 0x20 <= n <= 0x2f && line == #[trigger] seq![n] + data
    ||| line == data && (data.len() <= 1 || data[0] < 0x20 || data[0] > 0x2f)
}

proof fn lemma_gathered(
    acc: Seq<u8>,
    lines: Seq<Seq<u8>>,
    data: Seq<Seq<u8>>,
    after: Seq<Seq<u8>>,
    want: nat,
)
    requires
        lines.len() == data.len(),
        forall|i: int| 0 <= i < lines.len() ==> continues(#[trigger] lines[i], data[i]),
        forall|i: int|
            0 <= i < lines.len() ==> acc.len() + (#[trigger] data.take(i)).flatten().len() < want,
        after.len() > 0 ==> acc.len() + data.flatten().len() >= want,
    ensures
        gathered(acc, lines + after, want) == acc + data.flatten(),
    decreases lines.len(),
{
    if lines.len() == 0 {
        assert(lines + after == after);
        assert(data.flatten() == Seq::<u8>::empty());
        assert(acc + Seq::<u8>::empty() == acc);
    } else {
        assert(data.take(0).flatten().len() == 0);
        assert(continues(lines[0], data[0]));
        assert(consecutive_data(lines[0]) == data[0]) by {
            if !(lines[0] == data[0] && (data[0].len() <= 1 || data[0][0] < 0x20 || data[0][0]
                > 0x2f)) {
                let n = choose|n: u8|
                    0x20 <= n <= 0x2f && lines[0] == #[trigger] seq![n] + data[0];
                assert((seq![n] + data[0]).skip(1) == data[0]);
            }
        }
        let rest = lines.skip(1);
        let less = data.skip(1);
        let more = acc + data[0];
        assert(data.drop_first() == less);
        assert(data.flatten() == data[0] + less.flatten());
        assert forall|i: int| 0 <= i < rest.len() implies continues(
            #[trigger] rest[i],
            less[i],
        ) by {
            assert(continues(lines[i + 1], data[i + 1]));
        }
        assert forall|i: int| 0 <= i < rest.len() implies more.len() + (#[trigger] less.take(
            i,
        )).flatten().len() < want by {
            let t = data.take(i + 1);
            assert(t.drop_first() == less.take(i));
            assert(t.flatten() == t[0] + less.take(i).flatten());
        }
        lemma_gathered(more, rest, less, after, want);
        assert((lines + after)[0] == lines[0]);
        assert((lines + after).skip(1) == rest + after);
        assert(more + less.flatten() == acc + data.flatten());
    }
}

proof fn lemma_long_reply(
    header: Seq<Seq<u8>>,
    at: int,
    want: nat,
    first: Seq<u8>,
    lines: Seq<Seq<u8>>,
    data: Seq<Seq<u8>>,
    after: Seq<Seq<u8>>,
)
    requires
        announces(header, at, want),
        first.len() >= 2,
        lines.len() == data.len(),
        forall|i: int| 0 <= i < lines.len() ==> continues(#[trigger] lines[i], data[i]),
        forall|i: int|
            0 <= i < lines.len() ==> first.len() + (#[trigger] data.take(i)).flatten().len() < want,
        after.len() > 0 ==> first.len() + data.flatten().len() >= want,
    ensures
        assembled(header + seq![first] + lines + after) == Some(first + data.flatten()),
{
    let d = header + seq![first] + lines + after;
    let k = header.len() as int;
    assert(d[k] == first);
    assert forall|j: int| 0 <= j < k implies (#[trigger] d[j]).len() < 2 by {
        assert(d[j] == header[j]);
    }
    lemma_first_data_line(d, k);
    lemma_announced(header, at, want);
    assert(d.take(k) == header);
    assert(d.skip(k + 1) == lines + after);
    lemma_gathered(first, lines, data, after, want);
}

/// A long reply reads back. It is cut into a first line of two or more bytes and
/// consecutive lines that are numbered `0x21`, `0x22` and so on up to `0x2f`,
/// and then from `0x20` again, each with one or more bytes behind its number.
/// The payload is the first line and then the data of the others without their
/// numbers, for any number of lines that the expected length takes. That length
/// is eighteen, or what a line of one byte before the data says. Lines behind it
/// add nothing.
pub proof fn numbered_long_replies_read_back(
    header: Seq<Seq<u8>>,
    at: int,
    want: nat,
    first: Seq<u8>,
    lines: Seq<Seq<u8>>,
    data: Seq<Seq<u8>>,
    after: Seq<Seq<u8>>,
)
    requires
        announces(header, at, want),
        first.len() >= 2,
        lines.len() == data.len(),
        forall|i: int| 0 <= i < data.len() ==> (#[trigger] data[i]).len() > 0,
        forall|i: int|
            0 <= i < lines.len() ==> #[trigger] lines[i] == seq![(0x20 + (i + 1) % 16) as u8]
                + data[i],
        forall|i: int|
            0 <= i < lines.len() ==> first.len() + (#[trigger] data.take(i)).flatten().len() < want,
        after.len() > 0 ==> first.len() + data.flatten().len() >= want,
    ensures
        assembled(header + seq![first] + lines + after) == Some(first + data.flatten()),
{
    assert forall|i: int| 0 <= i < lines.len() implies continues(#[trigger] lines[i], data[i]) by {
        let n = (0x20 + (i + 1) % 16) as u8;
        assert(0x20 <= n <= 0x2f);
        assert(data[i].len() > 0);
        assert(lines[i] == seq![n] + data[i]);
    }
    lemma_long_reply(header, at, want, first, lines, data, after);
}

/// In a long reply any byte from `0x20` to `0x2f` before the data of a
/// consecutive line is its number, whatever the order; a line that starts with
/// another byte, or holds one byte alone, is data from its first byte on.
pub proof fn long_replies_read_back(
    header: Seq<Seq<u8>>,
    at: int,
    want: nat,
    first: Seq<u8>,
    lines: Seq<Seq<u8>>,
    data: Seq<Seq<u8>>,
    after: Seq<Seq<u8>>,
)
    requires
        announces(header, at, want),
        first.len() >= 2,
        lines.len() == data.len(),
        forall|i: int| 0 <= i < lines.len() ==> continues(#[trigger] lines[i], data[i]),
        forall|i: int|
            0 <= i < lines.len() ==> first.len() + (#[trigger] data.take(i)).flatten().len() < want,
        after.len() > 0 ==> first.len() + data.flatten().len() >= want,
    ensures
        assembled(header + seq![first] + lines + after) == Some(first + data.flatten()),
{
    lemma_long_reply(header, at, want, first, lines, data, after);
}

/// A long reply has no payload exactly if none of its lines holds two bytes or
/// more.
pub proof fn long_reply_needs_a_line_of_data(d: Seq<Seq<u8>>)
    ensures
        assembled(d) is None <==> (forall|j: int| 0 <= j < d.len() ==> (#[trigger] d[j]).len() < 2),
    decreases d.len(),
{
    if d.len() > 0 && d[0].len() < 2 {
        let t = d.skip(1);
        long_reply_needs_a_line_of_data(t);
        if forall|j: int| 0 <= j < t.len() ==> (#[trigger] t[j]).len() < 2 {
            assert forall|j: int| 0 <= j < d.len() implies (#[trigger] d[j]).len() < 2 by {
                if j > 0 {
                    assert(t[j - 1] == d[j]);
                }
            }
        } else {
            let j = choose|j: int| 0 <= j < t.len() && (#[trigger] t[j]).len() >= 2;
            assert(d[j + 1] == t[j]);
        }
    }
}

proof fn lemma_joined_chars(w: Seq<Seq<char>>, blanks: Seq<char>, c: char)
    requires
        w.len() == blanks.len() + 1,
        !is_space(c),
        all_space(blanks),
        forall|i: int, j: int|
            0 <= i < w.len() && 0 <= j < w[i].len() ==> #[trigger] w[i][j] != c,
    ensures
        !joined(w, blanks).contains(c),
    decreases w.len(),
{
    let s = joined(w, blanks);
    if w.len() > 1 {
        let head = w.drop_last();
        let fewer = blanks.drop_last();
        assert forall|i: int, j: int| 0 <= i < head.len() && 0 <= j < head[i].len() implies
            #[trigger] head[i][j] != c by {
            assert(w[i][j] != c);
        }
        lemma_joined_chars(head, fewer, c);
        let front = joined(head, fewer);
        if s.contains(c) {
            let k = choose|k: int| 0 <= k < s.len() && s[k] == c;
            if k < front.len() {
                assert(front[k] == c);
            } else if k == front.len() {
                assert(is_space(blanks[blanks.len() - 1]));
            } else {
                assert(w[w.len() - 1][k - front.len() - 1] == c);
            }
        }
    } else {
        if s.contains(c) {
            let k = choose|k: int| 0 <= k < s.len() && s[k] == c;
            assert(w[0][k] == c);
        }
    }
}

proof fn lemma_joined_ends(w: Seq<Seq<char>>, blanks: Seq<char>)
    requires
        w.len() == blanks.len() + 1,
        w[0].len() > 0,
        w.last().len() > 0,
    ensures
        joined(w, blanks).len() > 0,
        joined(w, blanks)[0] == w[0][0],
        joined(w, blanks).last() == w.last().last(),
    decreases w.len(),
{
    if w.len() == 2 {
        assert(w.drop_last()[0] == w[0]);
        assert(joined(w.drop_last(), blanks.drop_last()) == w[0]);
    } else if w.len() > 2 {
        let front = w.drop_last();
        lemma_joined_front(front, blanks.drop_last());
        assert(front[0] == w[0]);
    }
}

proof fn lemma_joined_front(w: Seq<Seq<char>>, blanks: Seq<char>)
    requires
        w.len() == blanks.len() + 1,
        w[0].len() > 0,
    ensures
        joined(w, blanks).len() > 0,
        joined(w, blanks)[0] == w[0][0],
    decreases w.len(),
{
    if w.len() > 1 {
        assert(w.drop_last()[0] == w[0]);
        lemma_joined_front(w.drop_last(), blanks.drop_last());
    }
}

/// Are these the words of a line of traffic: an identifier and some bytes?
pub open spec fn says(w: Seq<Seq<char>>, b: Seq<u8>) -> bool {
    &&& w.len() == b.len() + 1
    &&& w[0].len() > 0
    &&& all_digits(w[0], 16)
    &&& forall|i: int|
        1 <= i < w.len() ==> parsed(#[trigger] w[i], 16, 255) == Some(b[i - 1] as nat)
}

proof fn lemma_traffic_words(w: Seq<Seq<char>>, b: Seq<u8>)
    requires
        says(w, b),
    ensures
        forall|i: int| 0 <= i < w.len() ==> (#[trigger] w[i]).len() > 0,
        forall|i: int, j: int|
            0 <= i < w.len() && 0 <= j < w[i].len() ==> !is_space(#[trigger] w[i][j]),
        forall|i: int, j: int|
            0 <= i < w.len() && 0 <= j < w[i].len() ==> #[trigger] w[i][j] != 'R',
        word_bytes(w.skip(1)) == b,
{
    assert forall|i: int| 0 <= i < w.len() implies (#[trigger] w[i]).len() > 0 by {
        if i > 0 {
            lemma_number_word(w[i]);
        }
    }
    assert forall|i: int, j: int| 0 <= i < w.len() && 0 <= j < w[i].len() implies !is_space(
        #[trigger] w[i][j],
    ) && w[i][j] != 'R' by {
        if i == 0 {
            assert(digit(w[0][j], 16) is Some);
        } else {
            assert(parsed(w[i], 16, 255) is Some);
            lemma_number_word(w[i]);
        }
    }
    let rest = w.skip(1);
    assert forall|i: int| 0 <= i < rest.len() implies parsed(#[trigger] rest[i], 16, 255) == Some(
        b[i] as nat,
    ) by {
        assert(rest[i] == w[i + 1]);
    }
    lemma_word_bytes(rest, b);
}

proof fn lemma_no_error(text: Seq<char>)
    requires
        !text.contains('R'),
    ensures
        !found(text, "ERROR"@),
{
    reveal_strlit("ERROR");
    let pat = "ERROR"@;
    if found(text, pat) {
        let i = choose|i: int| #[trigger] stands_at(text, pat, i);
        assert(text.subrange(i, i + pat.len())[1] == 'R');
        assert(text[i + 1] == 'R');
    }
}

/// A line of bus traffic reads back: an identifier in hexadecimal and then one
/// or more bytes in hexadecimal, with a whitespace character between two words
/// and any of it around them, says that identifier, letter for letter, and
/// those bytes.
pub proof fn traffic_reads_back(
    a: Seq<char>,
    w: Seq<Seq<char>>,
    blanks: Seq<char>,
    b: Seq<u8>,
    z: Seq<char>,
)
    requires
        all_space(a),
        all_space(z),
        all_space(blanks),
        w.len() == blanks.len() + 1,
        b.len() > 0,
        says(w, b),
    ensures
        traffic(a + joined(w, blanks) + z) == Some((w[0], b)),
{
    let text = joined(w, blanks);
    lemma_traffic_words(w, b);
    lemma_joined_ends(w, blanks);
    let last = w[w.len() - 1];
    assert(!is_space(w[0][0]) && !is_space(w[w.len() - 1][last.len() - 1]));
    trimming_takes_off_the_ends(a, text, z);
    words_are_found_again(w, blanks);
    lemma_joined_chars(w, blanks, 'R');
    lemma_no_error(text);
}

/// Words that write no byte make no difference to a line of traffic.
pub proof fn junk_words_make_no_difference(
    x: Seq<char>,
    y: Seq<char>,
    u: Seq<Seq<char>>,
    junk: Seq<char>,
    v: Seq<Seq<char>>,
)
    requires
        u.len() > 0,
        parsed(junk, 16, 255) is None,
        words(trimmed(x)) == u + seq![junk] + v,
        words(trimmed(y)) == u + v,
        !found(trimmed(x), "ERROR"@),
        !found(trimmed(y), "ERROR"@),
    ensures
        traffic(x) == traffic(y),
{
    let t = u.skip(1);
    other_words_are_passed_over(t, junk, v);
    assert((u + seq![junk] + v).skip(1) == t + seq![junk] + v);
    assert((u + v).skip(1) == t + v);
    assert((u + seq![junk] + v)[0] == (u + v)[0]);
}

/// A line that reports an error, or whose first word is not hexadecimal, or
/// without a byte behind its first word, is no traffic.
pub proof fn other_lines_are_no_traffic(line: Seq<char>)
    ensures
        found(trimmed(line), "ERROR"@) ==> traffic(line) is None,
        words(trimmed(line)).len() == 0 ==> traffic(line) is None,
        words(trimmed(line)).len() > 0 && !all_digits(words(trimmed(line))[0], 16) ==> traffic(
            line,
        ) is None,
        words(trimmed(line)).len() > 0 && (forall|i: int|
            1 <= i < words(trimmed(line)).len() ==> parsed(
                #[trigger] words(trimmed(line))[i],
                16,
                255,
            ) is None) ==> traffic(line) is None,
{
    let w = words(trimmed(line));
    if w.len() > 0 && (forall|i: int|
        1 <= i < w.len() ==> parsed(#[trigger] w[i], 16, 255) is None) {
        let rest = w.skip(1);
        assert forall|i: int| 0 <= i < rest.len() implies parsed(
            #[trigger] rest[i],
            16,
            255,
        ) is None by {
            assert(rest[i] == w[i + 1]);
        }
        lemma_no_words(rest);
    }
}

proof fn lemma_no_words(w: Seq<Seq<char>>)
    requires
        forall|i: int| 0 <= i < w.len() ==> parsed(#[trigger] w[i], 16, 255) is None,
    ensures
        word_bytes(w) == Seq::<u8>::empty(),
    decreases w.len(),
{
    if w.len() > 0 {
        let head = w.drop_last();
        assert forall|i: int| 0 <= i < head.len() implies parsed(
            #[trigger] head[i],
            16,
            255,
        ) is None by {
            assert(head[i] == w[i]);
        }
        lemma_no_words(head);
        assert(parsed(w[w.len() - 1], 16, 255) is None);
    }
}

/// The frames of an identifier are those of its lines, in their order: the ones
/// of more lines come behind those of the lines before, and a line gives its
/// data to its own identifier only.
pub proof fn frames_keep_their_order(
    x: Seq<Seq<char>>,
    y: Seq<Seq<char>>,
    line: Seq<char>,
    id: Seq<char>,
)
    ensures
        frames_of(x + y, id) == frames_of(x, id) + frames_of(y, id),
        traffic(line) matches Some(t) ==> frames_of(seq![line], id) == (if t.0 == id {
            seq![t.1]
        } else {
            Seq::<Seq<u8>>::empty()
        }),
        traffic(line) is None ==> frames_of(seq![line], id) == Seq::<Seq<u8>>::empty(),
    decreases y.len(),
{
    let none = Seq::<Seq<char>>::empty();
    assert(seq![line].drop_last() == none);
    assert(frames_of(none, id) == Seq::<Seq<u8>>::empty());
    if y.len() == 0 {
        assert(x + y == x);
    } else {
        frames_keep_their_order(x, y.drop_last(), line, id);
        assert((x + y).drop_last() == x + y.drop_last());
        assert((x + y).last() == y.last());
    }
}

/// The latest frame of an identifier is the data of its last line.
pub proof fn latest_frame_is_of_the_last_line(
    lines: Seq<Seq<char>>,
    id: Seq<char>,
    at: int,
    data: Seq<u8>,
)
    requires
        0 <= at < lines.len(),
        traffic(lines[at]) == Some((id, data)),
        forall|i: int|
            at < i < lines.len() ==> (#[trigger] traffic(lines[i]) is None || (traffic(
                lines[i],
            )->0).0 != id),
    ensures
        frames_of(lines, id).len() > 0,
        frames_of(lines, id).last() == data,
    decreases lines.len(),
{
    if at < lines.len() - 1 {
        let head = lines.drop_last();
        assert forall|i: int| at < i < head.len() implies (#[trigger] traffic(head[i]) is None || (
        traffic(head[i])->0).0 != id) by {
            assert(head[i] == lines[i]);
        }
        latest_frame_is_of_the_last_line(head, id, at, data);
        assert(traffic(lines[lines.len() - 1]) is None || (traffic(lines[lines.len() - 1])->0).0
            != id);
    }
}

/// An identifier that no line starts with has no frames.
pub proof fn unheard_identifier_has_no_frames(lines: Seq<Seq<char>>, id: Seq<char>)
    requires
        forall|i: int|
            0 <= i < lines.len() ==> (#[trigger] traffic(lines[i]) is None || (traffic(
                lines[i],
            )->0).0 != id),
    ensures
        frames_of(lines, id).len() == 0,
    decreases lines.len(),
{
    if lines.len() > 0 {
        let head = lines.drop_last();
        assert forall|i: int| 0 <= i < head.len() implies (#[trigger] traffic(head[i]) is None || (
        traffic(head[i])->0).0 != id) by {
            assert(head[i] == lines[i]);
        }
        unheard_identifier_has_no_frames(head, id);
        assert(traffic(lines[lines.len() - 1]) is None || (traffic(lines[lines.len() - 1])->0).0
            != id);
    }
}

} // verus!
