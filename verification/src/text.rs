//! Text primitives: whitespace, trimming, splitting, searching.
//!
//! Adapter replies are short lines of text. They are handled as vectors of
//! characters, whose view is a sequence of `char`.

use vstd::prelude::*;
use vstd::utf8::{decode_utf8, encode_scalar, encode_utf8, valid_utf8};

verus! {

/// `String::push` appends one character at the end.
pub assume_specification[ String::push ](s: &mut String, c: char)
    ensures
        final(s)@ == old(s)@.push(c),
;

/// The characters with the Unicode property White_Space.
pub open spec fn is_space(c: char) -> bool {
    let n = c as u32;
    ||| 0x9 <= n <= 0xd
    ||| n == 0x20
    ||| n == 0x85
    ||| n == 0xa0
    ||| n == 0x1680
    ||| 0x2000 <= n <= 0x200a
    ||| n == 0x2028
    ||| n == 0x2029
    ||| n == 0x202f
    ||| n == 0x205f
    ||| n == 0x3000
}

pub fn space(c: char) -> (r: bool)
    ensures
        r == is_space(c),
{
    let n: u32 = c as u32;
    (0x9 <= n && n <= 0xd) || n == 0x20 || n == 0x85 || n == 0xa0 || n == 0x1680 || (0x2000 <= n
        && n <= 0x200a) || n == 0x2028 || n == 0x2029 || n == 0x202f || n == 0x205f || n == 0x3000
}

/// The characters of a string slice.
pub fn chars_of(s: &str) -> (r: Vec<char>)
    ensures
        r@ == s@,
{
    let mut out: Vec<char> = Vec::new();
    for c in it: s.chars()
        invariant
            it.seq() == s@,
            out@ == s@.take(it.index() as int),
    {
        out.push(c);
        assert(s@.take(it.index() as int).push(c) == s@.take(it.index() + 1));
    }
    assert(s@.take(s@.len() as int) == s@);
    out
}

/// The string with the given characters.
pub fn string_of(v: &Vec<char>) -> (r: String)
    ensures
        r@ == v@,
{
    let mut out = String::new();
    for i in 0..v.len()
        invariant
            out@ == v@.take(i as int),
    {
        out.push(v[i]);
        assert(v@.take(i as int).push(v@[i as int]) == v@.take(i + 1));
    }
    assert(v@.take(v@.len() as int) == v@);
    out
}

/// The views of the parts of a split.
pub open spec fn views(v: Seq<Vec<char>>) -> Seq<Seq<char>> {
    Seq::new(v.len(), |i: int| v[i]@)
}

/// Text without its leading whitespace.
pub open spec fn trimmed_start(s: Seq<char>) -> Seq<char>
    decreases s.len(),
{
    if s.len() > 0 && is_space(s[0]) {
        trimmed_start(s.drop_first())
    } else {
        s
    }
}

/// Text without its trailing whitespace.
pub open spec fn trimmed_end(s: Seq<char>) -> Seq<char>
    decreases s.len(),
{
    if s.len() > 0 && is_space(s.last()) {
        trimmed_end(s.drop_last())
    } else {
        s
    }
}

/// Text without whitespace at either end.
pub open spec fn trimmed(s: Seq<char>) -> Seq<char> {
    trimmed_end(trimmed_start(s))
}

/// Copies the characters from `from` up to `to`.
pub fn slice_of(v: &Vec<char>, from: usize, to: usize) -> (r: Vec<char>)
    requires
        from <= to <= v@.len(),
    ensures
        r@ == v@.subrange(from as int, to as int),
{
    let mut out: Vec<char> = Vec::new();
    let mut i: usize = from;
    while i < to
        invariant
            from <= i <= to <= v@.len(),
            out@ == v@.subrange(from as int, i as int),
        decreases to - i,
    {
        out.push(v[i]);
        assert(v@.subrange(from as int, i as int).push(v@[i as int]) == v@.subrange(
            from as int,
            i + 1,
        ));
        i = i + 1;
    }
    out
}

/// Removes whitespace at both ends.
pub fn trim(v: &Vec<char>) -> (r: Vec<char>)
    ensures
        r@ == trimmed(v@),
{
    let mut a: usize = 0;
    assert(v@.skip(0) == v@);
    while a < v.len() && space(v[a])
        invariant
            a <= v@.len(),
            trimmed_start(v@) == trimmed_start(v@.skip(a as int)),
        decreases v@.len() - a,
    {
        assert(v@.skip(a as int).drop_first() == v@.skip(a + 1));
        a = a + 1;
    }
    let ghost tail = v@.skip(a as int);
    assert(trimmed_start(v@) == tail);
    let mut b: usize = v.len();
    assert(v@.subrange(a as int, b as int) == tail);
    while b > a && space(v[b - 1])
        invariant
            a <= b <= v@.len(),
            trimmed_end(tail) == trimmed_end(v@.subrange(a as int, b as int)),
        decreases b,
    {
        assert(v@.subrange(a as int, b as int).drop_last() == v@.subrange(a as int, b - 1));
        b = b - 1;
    }
    slice_of(v, a, b)
}

/// What text is split at.
#[derive(Clone, Copy, PartialEq, Eq, Debug, Structural)]
pub enum Separator {
    /// Any whitespace character.
    Space,
    /// A carriage return or a line feed.
    LineEnd,
    /// A colon.
    Colon,
}

impl Separator {
    /// True if the character separates two parts.
    pub open spec fn splits(self, c: char) -> bool {
        match self {
            Separator::Space => is_space(c),
            Separator::LineEnd => c == '\r' || c == '\n',
            Separator::Colon => c == ':',
        }
    }

    fn hits(self, c: char) -> (r: bool)
        ensures
            r == self.splits(c),
    {
        match self {
            Separator::Space => space(c),
            Separator::LineEnd => c == '\r' || c == '\n',
            Separator::Colon => c == ':',
        }
    }
}

/// The parts of a text between separators, in order, empty ones included.
pub open spec fn parts(s: Seq<char>, sep: Separator) -> Seq<Seq<char>>
    decreases s.len(),
{
    if s.len() == 0 {
        seq![Seq::<char>::empty()]
    } else {
        let head = parts(s.drop_last(), sep);
        if sep.splits(s.last()) {
            head.push(Seq::<char>::empty())
        } else {
            head.drop_last().push(head.last().push(s.last()))
        }
    }
}

/// The parts that hold at least one character, in order.
pub open spec fn nonempty(p: Seq<Seq<char>>) -> Seq<Seq<char>>
    decreases p.len(),
{
    if p.len() == 0 {
        Seq::<Seq<char>>::empty()
    } else if p.last().len() > 0 {
        nonempty(p.drop_last()).push(p.last())
    } else {
        nonempty(p.drop_last())
    }
}

/// The whitespace-separated words of a text.
pub open spec fn words(s: Seq<char>) -> Seq<Seq<char>> {
    nonempty(parts(s, Separator::Space))
}

/// Splits text at every separator.
pub fn split(v: &Vec<char>, sep: Separator) -> (r: Vec<Vec<char>>)
    ensures
        views(r@) == parts(v@, sep),
        r@.len() >= 1,
{
    let mut done: Vec<Vec<char>> = Vec::new();
    let mut cur: Vec<char> = Vec::new();
    assert(views(done@).push(cur@) == parts(v@.take(0), sep));
    for i in 0..v.len()
        invariant
            views(done@).push(cur@) == parts(v@.take(i as int), sep),
    {
        let c = v[i];
        let ghost before = parts(v@.take(i as int), sep);
        assert(v@.take(i + 1).drop_last() == v@.take(i as int));
        assert(before.last() == cur@);
        assert(before.drop_last() == views(done@));
        if sep.hits(c) {
            let ghost was = done@;
            let ghost w = cur@;
            done.push(cur);
            cur = Vec::new();
            assert(views(done@) == views(was).push(w));
        } else {
            cur.push(c);
        }
    }
    assert(v@.take(v@.len() as int) == v@);
    let ghost was = done@;
    let ghost w = cur@;
    done.push(cur);
    assert(views(done@) == views(was).push(w));
    done
}

/// Splits text into its words.
pub fn split_words(v: &Vec<char>) -> (r: Vec<Vec<char>>)
    ensures
        views(r@) == words(v@),
{
    let mut done: Vec<Vec<char>> = Vec::new();
    let mut cur: Vec<char> = Vec::new();
    let ghost sep = Separator::Space;
    assert(parts(v@.take(0), sep).drop_last() == Seq::<Seq<char>>::empty());
    assert(views(done@) == nonempty(parts(v@.take(0), sep).drop_last()));
    for i in 0..v.len()
        invariant
            sep == Separator::Space,
            parts(v@.take(i as int), sep).len() >= 1,
            parts(v@.take(i as int), sep).last() == cur@,
            views(done@) == nonempty(parts(v@.take(i as int), sep).drop_last()),
    {
        let c = v[i];
        let ghost before = parts(v@.take(i as int), sep);
        let ghost after = parts(v@.take(i + 1), sep);
        assert(v@.take(i + 1).drop_last() == v@.take(i as int));
        if space(c) {
            assert(after.drop_last() == before);
            let ghost was = done@;
            let ghost w = cur@;
            if cur.len() > 0 {
                done.push(cur);
                assert(views(done@) == views(was).push(w));
            }
            cur = Vec::new();
        } else {
            cur.push(c);
            assert(after.drop_last() == before.drop_last());
        }
    }
    assert(v@.take(v@.len() as int) == v@);
    let ghost was = done@;
    let ghost w = cur@;
    if cur.len() > 0 {
        done.push(cur);
        assert(views(done@) == views(was).push(w));
    }
    done
}

/// True if `pat` stands in `s` at index `i`.
pub open spec fn stands_at(s: Seq<char>, pat: Seq<char>, i: int) -> bool {
    0 <= i && i + pat.len() <= s.len() && s.subrange(i, i + pat.len()) == pat
}

/// True if `pat` stands somewhere in `s`.
pub open spec fn found(s: Seq<char>, pat: Seq<char>) -> bool {
    exists|i: int| #[trigger] stands_at(s, pat, i)
}

/// True if the two texts are equal.
pub fn same(a: &Vec<char>, b: &Vec<char>) -> (r: bool)
    ensures
        r == (a@ == b@),
{
    if a.len() != b.len() {
        return false;
    }
    for i in 0..a.len()
        invariant
            a@.len() == b@.len(),
            forall|k: int| 0 <= k < i ==> a@[k] == b@[k],
    {
        if a[i] != b[i] {
            return false;
        }
    }
    assert(a@ =~= b@);
    true
}

/// Searches for a text in another.
pub fn contains(v: &Vec<char>, pat: &Vec<char>) -> (r: bool)
    ensures
        r == found(v@, pat@),
{
    if pat.len() > v.len() {
        return false;
    }
    let total: usize = v.len();
    let last: usize = total - pat.len();
    let mut i: usize = 0;
    loop
        invariant
            last + pat@.len() == total,
            total == v@.len(),
            i <= last,
            forall|k: int| 0 <= k < i ==> !#[trigger] stands_at(v@, pat@, k),
        decreases last - i,
    {
        let cut = slice_of(v, i, i + pat.len());
        if same(&cut, pat) {
            assert(stands_at(v@, pat@, i as int));
            return true;
        }
        if i == last {
            assert forall|k: int| !#[trigger] stands_at(v@, pat@, k) by {}
            return false;
        }
        i = i + 1;
    }
}

/// True if the literal `pat` stands in `v`.
pub fn mentions(v: &Vec<char>, pat: &str) -> (r: bool)
    ensures
        r == found(v@, pat@),
{
    let p = chars_of(pat);
    contains(v, &p)
}

/// Text with every space (U+0020) taken out.
pub open spec fn without_spaces(s: Seq<char>) -> Seq<char>
    decreases s.len(),
{
    if s.len() == 0 {
        s
    } else if s.last() == ' ' {
        without_spaces(s.drop_last())
    } else {
        without_spaces(s.drop_last()).push(s.last())
    }
}

pub fn strip_spaces(v: &Vec<char>) -> (r: Vec<char>)
    ensures
        r@ == without_spaces(v@),
{
    let mut out: Vec<char> = Vec::new();
    for i in 0..v.len()
        invariant
            out@ == without_spaces(v@.take(i as int)),
    {
        assert(v@.take(i + 1).drop_last() == v@.take(i as int));
        if v[i] != ' ' {
            out.push(v[i]);
        }
    }
    assert(v@.take(v@.len() as int) == v@);
    out
}

/// The number of bytes that a character takes in UTF-8.
pub open spec fn utf8_width(c: char) -> nat {
    let n = c as u32;
    if n < 0x80 {
        1
    } else if n < 0x800 {
        2
    } else if n < 0x10000 {
        3
    } else {
        4
    }
}

/// The number of bytes that a text takes in UTF-8.
pub open spec fn byte_len(s: Seq<char>) -> nat
    decreases s.len(),
{
    if s.len() == 0 {
        0
    } else {
        byte_len(s.drop_last()) + utf8_width(s.last())
    }
}

/// A text takes at least one byte for each character.
pub proof fn byte_len_at_least(s: Seq<char>)
    ensures
        byte_len(s) >= s.len(),
    decreases s.len(),
{
    if s.len() > 0 {
        byte_len_at_least(s.drop_last());
    }
}

/// True if the text takes at most three bytes in UTF-8.
pub fn at_most_three_bytes(v: &Vec<char>) -> (r: bool)
    ensures
        r == (byte_len(v@) <= 3),
{
    proof {
        byte_len_at_least(v@);
    }
    if v.len() > 3 {
        return false;
    }
    let mut total: usize = 0;
    for i in 0..v.len()
        invariant
            v@.len() <= 3,
            total == byte_len(v@.take(i as int)),
            total <= 4 * i,
    {
        assert(v@.take(i + 1).drop_last() == v@.take(i as int));
        let n: u32 = v[i] as u32;
        let w: usize = if n < 0x80 {
            1
        } else if n < 0x800 {
            2
        } else if n < 0x10000 {
            3
        } else {
            4
        };
        total = total + w;
    }
    assert(v@.take(v@.len() as int) == v@);
    total <= 3
}

/// Two texts, one after the other.
pub fn join(a: &str, b: &str) -> (r: String)
    ensures
        r@ == a@ + b@,
{
    let mut s = a.to_owned();
    s.append(b);
    s
}

/// Calls `std::str::from_utf8`, which turns bytes into text if and only if they
/// are valid UTF-8; the text is then what they encode.
#[verifier::external_body]
pub(crate) fn utf8_text(bytes: &Vec<u8>) -> (r: Option<String>)
    ensures
        r is Some <==> valid_utf8(bytes@),
        r matches Some(text) ==> text@ == decode_utf8(bytes@),
{
    std::str::from_utf8(bytes).ok().map(|s| s.to_owned())
}

/// What the error of `String::from_utf8` says of bytes that are not valid UTF-8.
pub uninterp spec fn utf8_error(bytes: Seq<u8>) -> Seq<char>;

/// Calls `String::from_utf8`, which turns bytes into text if and only if they
/// are valid UTF-8; the text is then what they encode, and else the text of the
/// error is only named.
#[verifier::external_body]
pub(crate) fn owned_text(bytes: Vec<u8>) -> (r: Result<String, String>)
    ensures
        r is Ok <==> valid_utf8(bytes@),
        r matches Ok(text) ==> text@ == decode_utf8(bytes@),
        r matches Err(e) ==> e@ == utf8_error(bytes@),
{
    String::from_utf8(bytes).map_err(|e| e.to_string())
}

/// Is every character of a text whitespace?
pub open spec fn all_space(s: Seq<char>) -> bool {
    forall|i: int| 0 <= i < s.len() ==> is_space(#[trigger] s[i])
}

proof fn lemma_trim_front(a: Seq<char>, t: Seq<char>)
    requires
        all_space(a),
        t.len() > 0 ==> !is_space(t[0]),
    ensures
        trimmed_start(a + t) == t,
    decreases a.len(),
{
    if a.len() == 0 {
        assert(a + t == t);
    } else {
        assert(is_space(a[0]));
        let less = a.drop_first();
        assert forall|i: int| 0 <= i < less.len() implies is_space(#[trigger] less[i]) by {
            assert(less[i] == a[i + 1]);
        }
        lemma_trim_front(less, t);
        assert((a + t).drop_first() == less + t);
    }
}

proof fn lemma_trim_back(t: Seq<char>, b: Seq<char>)
    requires
        all_space(b),
        t.len() > 0 ==> !is_space(t.last()),
    ensures
        trimmed_end(t + b) == t,
    decreases b.len(),
{
    if b.len() == 0 {
        assert(t + b == t);
    } else {
        assert(is_space(b[b.len() - 1]));
        lemma_trim_back(t, b.drop_last());
        assert((t + b).drop_last() == t + b.drop_last());
    }
}

/// Trimming takes away the whitespace at both ends and nothing else: text that
/// neither starts nor ends with whitespace comes back from between any runs of
/// it.
pub proof fn trimming_takes_off_the_ends(a: Seq<char>, s: Seq<char>, b: Seq<char>)
    requires
        all_space(a),
        all_space(b),
        s.len() > 0 ==> !is_space(s[0]) && !is_space(s.last()),
    ensures
        trimmed(a + s + b) == s,
{
    if s.len() == 0 {
        let none = Seq::<char>::empty();
        assert(a + s + b == (a + b) + none);
        lemma_trim_front(a + b, none);
        assert(s == none);
    } else {
        assert(a + s + b == a + (s + b));
        lemma_trim_front(a, s + b);
        lemma_trim_back(s, b);
    }
}

proof fn lemma_trim_start_keeps_letter(s: Seq<char>, i: int)
    requires
        0 <= i < s.len(),
        !is_space(s[i]),
    ensures
        trimmed_start(s).contains(s[i]),
    decreases s.len(),
{
    if is_space(s[0]) {
        assert(s.drop_first()[i - 1] == s[i]);
        lemma_trim_start_keeps_letter(s.drop_first(), i - 1);
    }
}

proof fn lemma_trim_end_keeps_letter(s: Seq<char>, i: int)
    requires
        0 <= i < s.len(),
        !is_space(s[i]),
    ensures
        trimmed_end(s).contains(s[i]),
    decreases s.len(),
{
    if is_space(s.last()) {
        assert(s.drop_last()[i] == s[i]);
        lemma_trim_end_keeps_letter(s.drop_last(), i);
    }
}

/// Text with anything but whitespace in it does not trim to nothing.
pub proof fn only_blank_text_trims_to_nothing(s: Seq<char>)
    ensures
        trimmed(s).len() == 0 ==> all_space(s),
{
    if !all_space(s) {
        let i = choose|i: int| 0 <= i < s.len() && !is_space(#[trigger] s[i]);
        lemma_trim_start_keeps_letter(s, i);
        let t = trimmed_start(s);
        let j = choose|j: int| 0 <= j < t.len() && t[j] == s[i];
        lemma_trim_end_keeps_letter(t, j);
    }
}

/// Texts with separators between them.
pub open spec fn joined(lines: Seq<Seq<char>>, seps: Seq<char>) -> Seq<char>
    decreases lines.len(),
{
    if lines.len() == 0 {
        Seq::<char>::empty()
    } else if lines.len() == 1 {
        lines[0]
    } else {
        joined(lines.drop_last(), seps.drop_last()).push(seps.last()) + lines.last()
    }
}

/// Splitting at a separator splits what stands before it and what stands behind
/// it.
pub proof fn splitting_goes_part_by_part(a: Seq<char>, c: char, b: Seq<char>, sep: Separator)
    requires
        sep.splits(c),
    ensures
        parts(a.push(c) + b, sep) == parts(a, sep) + parts(b, sep),
        parts(b, sep).len() >= 1,
    decreases b.len(),
{
    if b.len() == 0 {
        assert(a.push(c) + b == a.push(c));
        assert(a.push(c).drop_last() == a);
    } else {
        let less = b.drop_last();
        splitting_goes_part_by_part(a, c, less, sep);
        assert((a.push(c) + b).drop_last() == a.push(c) + less);
        assert((a.push(c) + b).last() == b.last());
        let head = parts(a, sep);
        let tail = parts(less, sep);
        assert((head + tail).last() == tail.last());
        assert((head + tail).drop_last() == head + tail.drop_last());
    }
}

/// Text without a separator is one part.
pub proof fn unsplit_text_is_one_part(s: Seq<char>, sep: Separator)
    requires
        forall|i: int| 0 <= i < s.len() ==> !sep.splits(#[trigger] s[i]),
    ensures
        parts(s, sep) == seq![s],
    decreases s.len(),
{
    if s.len() > 0 {
        let head = s.drop_last();
        assert forall|i: int| 0 <= i < head.len() implies !sep.splits(#[trigger] head[i]) by {
            assert(head[i] == s[i]);
        }
        unsplit_text_is_one_part(head, sep);
        assert(!sep.splits(s[s.len() - 1]));
        assert(head.push(s.last()) == s);
        assert(seq![head].drop_last().push(s) == seq![s]);
    } else {
        assert(s == Seq::<char>::empty());
    }
}

/// Splitting undoes joining: texts without separators, joined by separators,
/// are split into those texts again, the empty ones with them.
pub proof fn joined_text_splits_again(lines: Seq<Seq<char>>, seps: Seq<char>, sep: Separator)
    requires
        lines.len() == seps.len() + 1,
        forall|i: int| 0 <= i < seps.len() ==> sep.splits(#[trigger] seps[i]),
        forall|i: int, j: int|
            0 <= i < lines.len() && 0 <= j < lines[i].len() ==> !sep.splits(
                #[trigger] lines[i][j],
            ),
    ensures
        parts(joined(lines, seps), sep) == lines,
    decreases lines.len(),
{
    if lines.len() == 1 {
        assert forall|j: int| 0 <= j < lines[0].len() implies !sep.splits(
            #[trigger] lines[0][j],
        ) by {}
        unsplit_text_is_one_part(lines[0], sep);
        assert(seq![lines[0]] == lines);
    } else {
        let head = lines.drop_last();
        let fewer = seps.drop_last();
        let last = lines[lines.len() - 1];
        assert forall|i: int| 0 <= i < fewer.len() implies sep.splits(#[trigger] fewer[i]) by {
            assert(fewer[i] == seps[i]);
        }
        assert forall|i: int, j: int|
            0 <= i < head.len() && 0 <= j < head[i].len() implies !sep.splits(
            #[trigger] head[i][j],
        ) by {
            assert(head[i] == lines[i]);
            assert(!sep.splits(lines[i][j]));
        }
        joined_text_splits_again(head, fewer, sep);
        assert forall|j: int| 0 <= j < last.len() implies !sep.splits(#[trigger] last[j]) by {
            assert(!sep.splits(lines[lines.len() - 1][j]));
        }
        unsplit_text_is_one_part(last, sep);
        assert(sep.splits(seps[seps.len() - 1]));
        splitting_goes_part_by_part(joined(head, fewer), seps.last(), last, sep);
        assert(head + seq![last] == lines);
    }
}

proof fn lemma_all_nonempty(p: Seq<Seq<char>>)
    requires
        forall|i: int| 0 <= i < p.len() ==> (#[trigger] p[i]).len() > 0,
    ensures
        nonempty(p) == p,
    decreases p.len(),
{
    if p.len() > 0 {
        let head = p.drop_last();
        assert forall|i: int| 0 <= i < head.len() implies (#[trigger] head[i]).len() > 0 by {
            assert(head[i] == p[i]);
        }
        lemma_all_nonempty(head);
        assert(p[p.len() - 1].len() > 0);
        assert(head.push(p.last()) == p);
    } else {
        assert(p == Seq::<Seq<char>>::empty());
    }
}

/// Words with one whitespace character between two of them are found again, in
/// their order.
pub proof fn words_are_found_again(w: Seq<Seq<char>>, blanks: Seq<char>)
    requires
        w.len() == blanks.len() + 1,
        all_space(blanks),
        forall|i: int| 0 <= i < w.len() ==> (#[trigger] w[i]).len() > 0,
        forall|i: int, j: int|
            0 <= i < w.len() && 0 <= j < w[i].len() ==> !is_space(#[trigger] w[i][j]),
    ensures
        words(joined(w, blanks)) == w,
{
    let sep = Separator::Space;
    assert forall|i: int, j: int| 0 <= i < w.len() && 0 <= j < w[i].len() implies !sep.splits(
        #[trigger] w[i][j],
    ) by {}
    assert forall|i: int| 0 <= i < blanks.len() implies sep.splits(#[trigger] blanks[i]) by {}
    joined_text_splits_again(w, blanks, sep);
    lemma_all_nonempty(w);
}

proof fn lemma_nonempty_joins(x: Seq<Seq<char>>, y: Seq<Seq<char>>)
    ensures
        nonempty(x + y) == nonempty(x) + nonempty(y),
    decreases y.len(),
{
    if y.len() == 0 {
        assert(x + y == x);
    } else {
        lemma_nonempty_joins(x, y.drop_last());
        assert((x + y).drop_last() == x + y.drop_last());
        assert((x + y).last() == y.last());
    }
}

/// The words of two texts with a whitespace character between them are those of
/// the first and then those of the second, so more whitespace makes no
/// difference.
pub proof fn words_join(a: Seq<char>, c: char, b: Seq<char>)
    requires
        is_space(c),
    ensures
        words(a.push(c) + b) == words(a) + words(b),
        words(Seq::<char>::empty()) == Seq::<Seq<char>>::empty(),
{
    splitting_goes_part_by_part(a, c, b, Separator::Space);
    lemma_nonempty_joins(parts(a, Separator::Space), parts(b, Separator::Space));
    let none = Seq::<char>::empty();
    assert(seq![none].drop_last() == Seq::<Seq<char>>::empty());
    assert(parts(none, Separator::Space) == seq![none]);
    assert(nonempty(seq![none]) == nonempty(seq![none].drop_last()));
}

/// Taking the spaces out goes character by character: each one that is no space
/// stays, in its order.
pub proof fn spaces_are_taken_out(a: Seq<char>, c: char, b: Seq<char>)
    ensures
        without_spaces(a + b) == without_spaces(a) + without_spaces(b),
        c == ' ' ==> without_spaces(seq![c]) == Seq::<char>::empty(),
        c != ' ' ==> without_spaces(seq![c]) == seq![c],
    decreases b.len(),
{
    assert(seq![c].drop_last() == Seq::<char>::empty());
    assert(without_spaces(Seq::<char>::empty()) == Seq::<char>::empty());
    assert(Seq::<char>::empty().push(c) == seq![c]);
    if b.len() == 0 {
        assert(a + b == a);
    } else {
        spaces_are_taken_out(a, c, b.drop_last());
        assert((a + b).drop_last() == a + b.drop_last());
        assert((a + b).last() == b.last());
    }
}

proof fn lemma_encoding_grows(s: Seq<char>, c: char)
    ensures
        encode_utf8(s.push(c)).len() == encode_utf8(s).len() + utf8_width(c),
    decreases s.len(),
{
    if s.len() == 0 {
        assert(s.push(c).drop_first() == Seq::<char>::empty());
        assert(encode_utf8(Seq::<char>::empty()).len() == 0);
        assert(s.push(c)[0] == c);
        assert(encode_utf8(s.push(c)) == encode_scalar(c as u32) + encode_utf8(
            Seq::<char>::empty(),
        ));
    } else {
        lemma_encoding_grows(s.drop_first(), c);
        assert(s.push(c).drop_first() == s.drop_first().push(c));
        assert(s.push(c)[0] == s[0]);
    }
}

/// The counted bytes of a text are those of its UTF-8 encoding.
pub proof fn byte_len_is_encoded_len(s: Seq<char>)
    ensures
        byte_len(s) == encode_utf8(s).len(),
    decreases s.len(),
{
    if s.len() > 0 {
        byte_len_is_encoded_len(s.drop_last());
        lemma_encoding_grows(s.drop_last(), s.last());
        assert(s.drop_last().push(s.last()) == s);
    }
}

/// A text is found in another exactly where the other is something, the text,
/// and something behind it.
pub proof fn text_is_found_where_it_stands(a: Seq<char>, pat: Seq<char>, b: Seq<char>)
    ensures
        found(a + pat + b, pat),
        forall|s: Seq<char>| #[trigger]
            found(s, pat) ==> exists|i: int|
                0 <= i <= s.len() - pat.len() && s == s.take(i) + pat + #[trigger] s.skip(
                    i + pat.len(),
                ),
{
    let s = a + pat + b;
    assert(s.subrange(a.len() as int, (a.len() + pat.len()) as int) == pat);
    assert(stands_at(s, pat, a.len() as int));
    assert forall|s: Seq<char>| #[trigger] found(s, pat) implies exists|i: int|
        0 <= i <= s.len() - pat.len() && s == s.take(i) + pat + #[trigger] s.skip(
            i + pat.len(),
        ) by {
        let i = choose|i: int| #[trigger] stands_at(s, pat, i);
        let cut = s.subrange(i, i + pat.len());
        assert(s == s.take(i) + cut + s.skip(i + pat.len()));
    }
}

proof fn lemma_trim_start_before_letter(a: Seq<char>, c: char, z: Seq<char>)
    requires
        !is_space(c),
    ensures
        exists|b: Seq<char>| trimmed_start(a.push(c) + z) == #[trigger] b.push(c) + z,
    decreases a.len(),
{
    let s = a.push(c) + z;
    if a.len() > 0 && is_space(a[0]) {
        assert(s[0] == a[0]);
        assert(s.drop_first() == a.drop_first().push(c) + z);
        lemma_trim_start_before_letter(a.drop_first(), c, z);
    } else {
        assert(s[0] == if a.len() > 0 {
            a[0]
        } else {
            c
        });
        assert(trimmed_start(s) == a.push(c) + z);
    }
}

/// The last character of a text that is no whitespace is the last one of the
/// trimmed text.
pub proof fn trimming_keeps_the_last_letter(a: Seq<char>, c: char, z: Seq<char>)
    requires
        !is_space(c),
        all_space(z),
    ensures
        trimmed(a.push(c) + z).len() > 0,
        trimmed(a.push(c) + z).last() == c,
{
    lemma_trim_start_before_letter(a, c, z);
    let b = choose|b: Seq<char>| trimmed_start(a.push(c) + z) == #[trigger] b.push(c) + z;
    lemma_trim_back(b.push(c), z);
}

/// The whitespace characters are the twenty-five of Unicode.
pub proof fn whitespace_is_that_of_unicode(c: char)
    ensures
        is_space(c) <==> seq![
            0x9u32, 0xa, 0xb, 0xc, 0xd, 0x20, 0x85, 0xa0, 0x1680, 0x2000, 0x2001, 0x2002, 0x2003,
            0x2004, 0x2005, 0x2006, 0x2007, 0x2008, 0x2009, 0x200a, 0x2028, 0x2029, 0x202f, 0x205f,
            0x3000,
        ].contains(c as u32),
{
    let all = seq![
        0x9u32, 0xa, 0xb, 0xc, 0xd, 0x20, 0x85, 0xa0, 0x1680, 0x2000, 0x2001, 0x2002, 0x2003,
        0x2004, 0x2005, 0x2006, 0x2007, 0x2008, 0x2009, 0x200a, 0x2028, 0x2029, 0x202f, 0x205f,
        0x3000,
    ];
    let n = c as u32;
    if 0x9 <= n <= 0xd {
        assert(all[n - 9] == n);
    } else if 0x2000 <= n <= 0x200a {
        assert(all[n - 0x2000 + 9] == n);
    } else {
        assert(all[5] == 0x20 && all[6] == 0x85 && all[7] == 0xa0 && all[8] == 0x1680);
        assert(all[20] == 0x2028 && all[21] == 0x2029 && all[22] == 0x202f);
        assert(all[23] == 0x205f && all[24] == 0x3000);
    }
}

/// What stands in a trimmed text stands in the text.
pub proof fn trimmed_text_is_of_the_text(s: Seq<char>, pat: Seq<char>)
    requires
        found(trimmed(s), pat),
    ensures
        found(s, pat),
{
    let i = choose|i: int| #[trigger] stands_at(trimmed(s), pat, i);
    lemma_found_before_end(trimmed_start(s), pat, i);
    let j = choose|j: int| #[trigger] stands_at(trimmed_start(s), pat, j);
    lemma_found_behind_start(s, pat, j);
}

proof fn lemma_found_before_end(s: Seq<char>, pat: Seq<char>, i: int)
    requires
        stands_at(trimmed_end(s), pat, i),
    ensures
        found(s, pat),
    decreases s.len(),
{
    if s.len() > 0 && is_space(s.last()) {
        lemma_found_before_end(s.drop_last(), pat, i);
        let j = choose|j: int| #[trigger] stands_at(s.drop_last(), pat, j);
        assert(s.drop_last().subrange(j, j + pat.len()) == s.subrange(j, j + pat.len()));
        assert(stands_at(s, pat, j));
    } else {
        assert(stands_at(s, pat, i));
    }
}

proof fn lemma_found_behind_start(s: Seq<char>, pat: Seq<char>, i: int)
    requires
        stands_at(trimmed_start(s), pat, i),
    ensures
        found(s, pat),
    decreases s.len(),
{
    if s.len() > 0 && is_space(s[0]) {
        lemma_found_behind_start(s.drop_first(), pat, i);
        let j = choose|j: int| #[trigger] stands_at(s.drop_first(), pat, j);
        assert(s.drop_first().subrange(j, j + pat.len()) == s.subrange(j + 1, j + 1 + pat.len()));
        assert(stands_at(s, pat, j + 1));
    } else {
        assert(stands_at(s, pat, i));
    }
}

} // verus!
