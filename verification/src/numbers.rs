//! Unsigned numbers written in text.

use crate::text::{
    chars_of, is_space, joined, joined_text_splits_again, parts, split, string_of, views, Separator,
};
use vstd::prelude::*;

verus! {

/// The value of a character as a digit, `None` if it is none in that radix.
pub open spec fn digit(c: char, radix: nat) -> Option<nat> {
    let n = c as u32;
    let v: int = if 0x30 <= n <= 0x39 {
        n - 0x30
    } else if 0x61 <= n <= 0x7a {
        n - 0x61 + 10
    } else if 0x41 <= n <= 0x5a {
        n - 0x41 + 10
    } else {
        -1
    };
    if 0 <= v < radix {
        Some(v as nat)
    } else {
        None
    }
}

/// True if every character is a digit.
pub open spec fn all_digits(s: Seq<char>, radix: nat) -> bool {
    forall|i: int| 0 <= i < s.len() ==> (#[trigger] digit(s[i], radix)) is Some
}

/// The number that a sequence of digits denotes, most significant digit first.
pub open spec fn number(s: Seq<char>, radix: nat) -> nat
    decreases s.len(),
{
    if s.len() == 0 {
        0
    } else {
        number(s.drop_last(), radix) * radix + digit(s.last(), radix).unwrap_or(0)
    }
}

/// The digits of a number: what follows an optional leading plus sign.
pub open spec fn unsigned_body(s: Seq<char>) -> Seq<char> {
    if s.len() > 0 && s[0] == '+' {
        s.drop_first()
    } else {
        s
    }
}

/// The number that a text denotes: an optional plus sign, then one or more
/// digits, with a value of at most `max`.
pub open spec fn parsed(s: Seq<char>, radix: nat, max: nat) -> Option<nat> {
    let body = unsigned_body(s);
    if body.len() > 0 && all_digits(body, radix) && number(body, radix) <= max {
        Some(number(body, radix))
    } else {
        None
    }
}

fn digit_value(c: char, radix: u32) -> (r: Option<u32>)
    requires
        radix == 10 || radix == 16,
    ensures
        r is Some == digit(c, radix as nat) is Some,
        r is Some ==> r->0 == digit(c, radix as nat)->0 && r->0 < radix,
{
    let n: u32 = c as u32;
    let v: u32 = if 0x30 <= n && n <= 0x39 {
        n - 0x30
    } else if 0x61 <= n && n <= 0x7a {
        n - 0x61 + 10
    } else if 0x41 <= n && n <= 0x5a {
        n - 0x41 + 10
    } else {
        radix
    };
    if v < radix {
        Some(v)
    } else {
        None
    }
}

/// True if every character is a hexadecimal digit.
pub fn is_hex_word(v: &Vec<char>) -> (r: bool)
    ensures
        r == all_digits(v@, 16),
{
    for i in 0..v.len()
        invariant
            forall|k: int| 0 <= k < i ==> (#[trigger] digit(v@[k], 16)) is Some,
    {
        if digit_value(v[i], 16).is_none() {
            assert(digit(v@[i as int], 16) is None);
            return false;
        }
    }
    true
}

proof fn lemma_number_grows(s: Seq<char>, i: int, radix: nat)
    requires
        0 <= i <= s.len(),
        radix >= 1,
    ensures
        number(s.take(i), radix) <= number(s, radix),
    decreases s.len() - i,
{
    if i == s.len() {
        assert(s.take(i) == s);
    } else {
        lemma_number_grows(s, i + 1, radix);
        let a = number(s.take(i), radix);
        assert(s.take(i + 1).drop_last() == s.take(i));
        assert(a * radix >= a) by (nonlinear_arith)
            requires
                radix >= 1,
        ;
    }
}

/// Reads a number of at most `max`.
pub fn parse(v: &Vec<char>, radix: u32, max: u32) -> (r: Option<u32>)
    requires
        radix == 10 || radix == 16,
    ensures
        r is Some == parsed(v@, radix as nat, max as nat) is Some,
        r is Some ==> r->0 == parsed(v@, radix as nat, max as nat)->0,
{
    let ghost body = unsigned_body(v@);
    let from: usize = if v.len() > 0 && v[0] == '+' {
        1
    } else {
        0
    };
    if v.len() == from {
        return None;
    }
    assert(body == v@.skip(from as int));
    let mut acc: u64 = 0;
    for i in from..v.len()
        invariant
            radix == 10 || radix == 16,
            from <= 1,
            from == 1 ==> v@.len() > 0,
            body == unsigned_body(v@),
            body == v@.skip(from as int),
            acc <= max,
            all_digits(body.take(i - from), radix as nat),
            acc == number(body.take(i - from), radix as nat),
    {
        let ghost k = i - from;
        assert(body[k] == v@[i as int]);
        assert(body.take(k + 1).drop_last() == body.take(k));
        match digit_value(v[i], radix) {
            None => {
                assert(digit(body[k], radix as nat) is None);
                return None;
            },
            Some(d) => {
                let shifted: u64 = if radix == 16 {
                    acc * 16
                } else {
                    acc * 10
                };
                acc = shifted + (d as u64);
                assert(acc == number(body.take(k + 1), radix as nat));
                assert forall|j: int| 0 <= j < k + 1 implies (#[trigger] digit(
                    body.take(k + 1)[j],
                    radix as nat,
                )) is Some by {
                    if j < k {
                        assert(body.take(k)[j] == body[j]);
                    }
                }
                if acc > max as u64 {
                    proof {
                        lemma_number_grows(body, k + 1, radix as nat);
                    }
                    return None;
                }
            },
        }
    }
    assert(body.take(body.len() as int) == body);
    Some(acc as u32)
}

/// Reads one byte in hexadecimal.
pub fn parse_hex_byte(v: &Vec<char>) -> (r: Option<u8>)
    ensures
        r is Some == parsed(v@, 16, 255) is Some,
        r is Some ==> r->0 == parsed(v@, 16, 255)->0,
{
    match parse(v, 16, 255) {
        Some(n) => Some(n as u8),
        None => None,
    }
}

/// The character that writes a digit below sixteen.
pub open spec fn hex_digit(d: nat) -> char {
    if d < 10 {
        (0x30 + d) as char
    } else {
        (0x61 + d - 10) as char
    }
}

/// A number in lower-case hexadecimal, without leading zeros.
pub open spec fn lower_hex(n: nat) -> Seq<char>
    decreases n,
{
    if n < 16 {
        seq![hex_digit(n)]
    } else {
        lower_hex(n / 16).push(hex_digit(n % 16))
    }
}

fn hex_char(d: u32) -> (c: char)
    requires
        d < 16,
    ensures
        c == hex_digit(d as nat),
{
    if d < 10 {
        ((0x30 + d) as u8) as char
    } else {
        ((0x61 + (d - 10)) as u8) as char
    }
}

fn hex_chars(n: u32) -> (r: Vec<char>)
    ensures
        r@ == lower_hex(n as nat),
    decreases n,
{
    if n < 16 {
        let mut out: Vec<char> = Vec::new();
        out.push(hex_char(n));
        assert(out@ == seq![hex_digit(n as nat)]);
        out
    } else {
        let mut out = hex_chars(n / 16);
        out.push(hex_char(n % 16));
        out
    }
}

/// Writes a number in lower-case hexadecimal.
pub fn format_hex(n: u32) -> (r: String)
    ensures
        r@ == lower_hex(n as nat),
{
    string_of(&hex_chars(n))
}

proof fn lemma_lower_hex_digits(n: nat)
    ensures
        lower_hex(n).len() > 0,
        all_digits(lower_hex(n), 16),
        number(lower_hex(n), 16) == n,
        lower_hex(n)[0] != '+',
    decreases n,
{
    assert(forall|d: nat| d < 16 ==> digit(#[trigger] hex_digit(d), 16) == Some(d));
    if n < 16 {
        let s = lower_hex(n);
        assert(s.drop_last() == Seq::<char>::empty());
        assert(number(Seq::<char>::empty(), 16) == 0);
        assert(s.last() == hex_digit(n));
    } else {
        lemma_lower_hex_digits(n / 16);
        let s = lower_hex(n);
        assert(s.drop_last() == lower_hex(n / 16));
        assert(s.last() == hex_digit(n % 16));
        assert forall|i: int| 0 <= i < s.len() implies (#[trigger] digit(s[i], 16)) is Some by {
            if i < s.len() - 1 {
                assert(s[i] == lower_hex(n / 16)[i]);
            }
        }
    }
}

/// A number written in hexadecimal reads back as itself.
pub proof fn hex_round_trip(n: nat, max: nat)
    requires
        n <= max,
    ensures
        parsed(lower_hex(n), 16, max) == Some(n),
{
    lemma_lower_hex_digits(n);
}

/// Reads a 32-bit number in hexadecimal.
pub fn parse_hex_u32(s: &str) -> (r: Option<u32>)
    ensures
        r is Some == parsed(s@, 16, u32::MAX as nat) is Some,
        r is Some ==> r->0 == parsed(s@, 16, u32::MAX as nat)->0,
{
    parse(&chars_of(s), 16, u32::MAX)
}

/// What the error of `u32::from_str_radix` says of a text that is no 32-bit
/// number in hexadecimal.
pub uninterp spec fn hex_error(text: Seq<char>) -> Seq<char>;

/// Calls `u32::from_str_radix` with radix sixteen on a text that it refuses,
/// and gives the text of its error, which is only named.
#[verifier::external_body]
pub(crate) fn hex_fault(text: &str) -> (r: String)
    requires
        parsed(text@, 16, u32::MAX as nat) is None,
    ensures
        r@ == hex_error(text@),
{
    u32::from_str_radix(text, 16).unwrap_err().to_string()
}

/// What the error of `str::parse` says of a text that is no 32-bit number in
/// decimal.
pub uninterp spec fn decimal_error(text: Seq<char>) -> Seq<char>;

/// Calls `str::parse` for a `u32` on a text that it refuses, and gives the text
/// of its error, which is only named.
#[verifier::external_body]
pub(crate) fn decimal_fault(text: &str) -> (r: String)
    requires
        parsed(text@, 10, u32::MAX as nat) is None,
    ensures
        r@ == decimal_error(text@),
{
    text.parse::<u32>().unwrap_err().to_string()
}

/// A number in decimal, without leading zeros.
pub open spec fn decimal(n: nat) -> Seq<char>
    decreases n,
{
    if n < 10 {
        seq![hex_digit(n)]
    } else {
        decimal(n / 10).push(hex_digit(n % 10))
    }
}

fn decimal_chars(n: u64) -> (r: Vec<char>)
    ensures
        r@ == decimal(n as nat),
    decreases n,
{
    if n < 10 {
        let mut out: Vec<char> = Vec::new();
        out.push(hex_char(n as u32));
        assert(out@ == seq![hex_digit(n as nat)]);
        out
    } else {
        let mut out = decimal_chars(n / 10);
        out.push(hex_char((n % 10) as u32));
        out
    }
}

/// Writes a number in decimal.
pub fn format_decimal(n: u64) -> (r: String)
    ensures
        r@ == decimal(n as nat),
{
    string_of(&decimal_chars(n))
}

/// The six bytes of a Bluetooth address: six hexadecimal numbers between
/// colons.
pub open spec fn address_bytes(s: Seq<char>) -> Option<Seq<u8>> {
    let p = parts(s, Separator::Colon);
    if p.len() == 6 && forall|i: int|
        0 <= i < p.len() ==> (#[trigger] parsed(p[i], 16, 255)) is Some {
        Some(Seq::new(6, |i: int| parsed(p[i], 16, 255)->0 as u8))
    } else {
        None
    }
}

/// Reads a Bluetooth address.
pub fn parse_address(s: &str) -> (r: Option<[u8; 6]>)
    ensures
        r is Some == address_bytes(s@) is Some,
        r is Some ==> (r->0)@ == address_bytes(s@)->0,
{
    let p = split(&chars_of(s), Separator::Colon);
    let ghost t = views(p@);
    if p.len() != 6 {
        return None;
    }
    let mut out: [u8; 6] = [0, 0, 0, 0, 0, 0];
    for i in 0..6usize
        invariant
            p@.len() == 6,
            t == views(p@),
            t == parts(s@, Separator::Colon),
            forall|k: int|
                0 <= k < i ==> (#[trigger] parsed(t[k], 16, 255)) is Some && out@[k] == parsed(
                    t[k],
                    16,
                    255,
                )->0,
    {
        assert(t[i as int] == p@[i as int]@);
        match parse_hex_byte(&p[i]) {
            Some(b) => {
                out[i] = b;
            },
            None => {
                return None;
            },
        }
    }
    assert(out@ =~= address_bytes(s@)->0);
    Some(out)
}

/// The digits are the usual ones: `0` to `9` and, in hexadecimal, `a` to `f` in
/// small letters or capitals, each with its value. No other character is one.
pub proof fn digits_are_the_usual(c: char)
    ensures
        forall|d: int|
            0 <= d < 16 ==> digit(#[trigger] "0123456789abcdef"@[d], 16) == Some(d as nat),
        forall|d: int|
            0 <= d < 16 ==> digit(#[trigger] "0123456789ABCDEF"@[d], 16) == Some(d as nat),
        forall|d: int| 0 <= d < 10 ==> digit(#[trigger] "0123456789"@[d], 10) == Some(d as nat),
        digit(c, 16) is Some ==> "0123456789abcdef"@.contains(c) || "0123456789ABCDEF"@.contains(c),
        digit(c, 10) is Some ==> "0123456789"@.contains(c),
{
    reveal_strlit("0123456789abcdef");
    reveal_strlit("0123456789ABCDEF");
    reveal_strlit("0123456789");
    let lower = "0123456789abcdef"@;
    let upper = "0123456789ABCDEF"@;
    let plain = "0123456789"@;
    if digit(c, 16) is Some {
        let d = digit(c, 16)->0 as int;
        assert(lower[d] == c || upper[d] == c);
    }
    if digit(c, 10) is Some {
        let d = digit(c, 10)->0 as int;
        assert(plain[d] == c);
    }
}

/// Numbers are positional: behind a number, a digit makes it radix times as
/// large plus the digit, unless it is then larger than the limit; any other
/// character makes it no number.
pub proof fn numbers_are_positional(s: Seq<char>, n: nat, c: char, radix: nat, max: nat)
    requires
        parsed(s, radix, max) == Some(n),
    ensures
        digit(c, radix) matches Some(d) ==> parsed(s.push(c), radix, max) == (if n * radix + d
            <= max {
            Some(n * radix + d)
        } else {
            None
        }),
        digit(c, radix) is None ==> parsed(s.push(c), radix, max) is None,
{
    let body = unsigned_body(s);
    let more = unsigned_body(s.push(c));
    assert(more == body.push(c));
    assert(more.drop_last() == body);
    if digit(c, radix) is Some {
        assert forall|i: int| 0 <= i < more.len() implies (#[trigger] digit(
            more[i],
            radix,
        )) is Some by {
            if i < body.len() {
                assert(more[i] == body[i]);
            }
        }
    } else {
        assert(more[more.len() - 1] == c);
    }
}

/// A single character is a number exactly if it is a digit. Neither nothing nor
/// a plus sign alone is a number.
pub proof fn single_digits_are_numbers(c: char, radix: nat, max: nat)
    requires
        c != '+',
        radix <= max,
    ensures
        parsed(seq![c], radix, max) == digit(c, radix),
        parsed(Seq::<char>::empty(), radix, max) is None,
        parsed(seq!['+'], radix, max) is None,
{
    let s = seq![c];
    assert(unsigned_body(s) == s);
    assert(s.drop_last() == Seq::<char>::empty());
    assert(number(Seq::<char>::empty(), radix) == 0);
    assert(number(s, radix) == 0 * radix + digit(c, radix).unwrap_or(0));
    if digit(c, radix) is None {
        assert(digit(s[0], radix) is None);
    }
    assert(seq!['+'].drop_first() == Seq::<char>::empty());
}

/// Text that is no number, be it for a character that is no digit or for its
/// size, is none with more behind it either.
pub proof fn no_number_stays_none(s: Seq<char>, c: char, radix: nat, max: nat)
    requires
        1 <= radix,
        s.len() > 0,
        s != seq!['+'],
        parsed(s, radix, max) is None,
    ensures
        parsed(s.push(c), radix, max) is None,
{
    let body = unsigned_body(s);
    let more = unsigned_body(s.push(c));
    assert(more == body.push(c));
    if body.len() == 0 {
        assert(s =~= seq!['+']);
    }
    if all_digits(more, radix) {
        assert forall|i: int| 0 <= i < body.len() implies (#[trigger] digit(
            body[i],
            radix,
        )) is Some by {
            assert(digit(more[i], radix) is Some);
        }
        lemma_number_grows(more, body.len() as int, radix);
        assert(more.take(body.len() as int) == body);
    }
}

/// A plus sign before a number makes no difference; before a sign it does.
pub proof fn plus_sign_is_optional(s: Seq<char>, radix: nat, max: nat)
    requires
        radix <= 36,
    ensures
        s.len() == 0 || s[0] != '+' ==> parsed(seq!['+'] + s, radix, max) == parsed(s, radix, max),
        s.len() > 0 && s[0] == '+' ==> parsed(seq!['+'] + s, radix, max) is None,
{
    assert((seq!['+'] + s).drop_first() == s);
    if s.len() > 0 && s[0] == '+' {
        assert(unsigned_body(seq!['+'] + s) == s);
        assert(digit(s[0], radix) is None);
    }
}

proof fn lemma_decimal_digits(n: nat)
    ensures
        decimal(n).len() > 0,
        all_digits(decimal(n), 10),
        number(decimal(n), 10) == n,
        decimal(n)[0] != '+',
        n > 0 ==> decimal(n)[0] != '0',
    decreases n,
{
    assert(forall|d: nat| d < 10 ==> digit(#[trigger] hex_digit(d), 10) == Some(d));
    let s = decimal(n);
    if n < 10 {
        assert(s.drop_last() == Seq::<char>::empty());
        assert(number(Seq::<char>::empty(), 10) == 0);
        assert(s.last() == hex_digit(n));
    } else {
        lemma_decimal_digits(n / 10);
        assert(s.drop_last() == decimal(n / 10));
        assert(s.last() == hex_digit(n % 10));
        assert forall|i: int| 0 <= i < s.len() implies (#[trigger] digit(s[i], 10)) is Some by {
            if i < s.len() - 1 {
                assert(s[i] == decimal(n / 10)[i]);
            }
        }
    }
}

/// A number written in decimal reads back as itself, and is written without
/// leading zeros.
pub proof fn decimal_round_trip(n: nat, max: nat)
    requires
        n <= max,
    ensures
        parsed(decimal(n), 10, max) == Some(n),
        n > 0 ==> decimal(n)[0] != '0',
        n == 0 ==> decimal(n) == seq!['0'],
{
    lemma_decimal_digits(n);
}

/// A number is written in hexadecimal without leading zeros and capitals.
pub proof fn hex_is_short_and_small(n: nat)
    ensures
        n > 0 ==> lower_hex(n)[0] != '0',
        n == 0 ==> lower_hex(n) == seq!['0'],
        forall|i: int|
            0 <= i < lower_hex(n).len() ==> "0123456789abcdef"@.contains(
                #[trigger] lower_hex(n)[i],
            ),
    decreases n,
{
    reveal_strlit("0123456789abcdef");
    let lower = "0123456789abcdef"@;
    assert forall|d: nat| d < 16 implies lower.contains(#[trigger] hex_digit(d)) by {
        assert(lower[d as int] == hex_digit(d));
    }
    if n >= 16 {
        hex_is_short_and_small(n / 16);
        lemma_lower_hex_digits(n / 16);
        let s = lower_hex(n);
        assert forall|i: int| 0 <= i < s.len() implies lower.contains(#[trigger] s[i]) by {
            if i < s.len() - 1 {
                assert(s[i] == lower_hex(n / 16)[i]);
            }
        }
    }
}

/// A Bluetooth address reads back: six numbers of one byte in hexadecimal,
/// joined by colons, are read as those bytes in their order. Fewer or more, or
/// one that is no such number, are no address.
pub proof fn addresses_read_back(w: Seq<Seq<char>>, colons: Seq<char>)
    requires
        w.len() == colons.len() + 1,
        forall|i: int| 0 <= i < colons.len() ==> #[trigger] colons[i] == ':',
        forall|i: int, j: int|
            0 <= i < w.len() && 0 <= j < w[i].len() ==> #[trigger] w[i][j] != ':',
    ensures
        w.len() != 6 ==> address_bytes(joined(w, colons)) is None,
        forall|i: int|
            0 <= i < w.len() && #[trigger] parsed(w[i], 16, 255) is None ==> address_bytes(
                joined(w, colons),
            ) is None,
        w.len() == 6 && (forall|i: int|
            0 <= i < 6 ==> #[trigger] parsed(w[i], 16, 255) is Some) ==> address_bytes(
            joined(w, colons),
        ) is Some && (forall|i: int|
            0 <= i < 6 ==> Some(
                #[trigger] address_bytes(joined(w, colons))->0[i] as nat,
            ) == parsed(w[i], 16, 255)),
{
    joined_text_splits_again(w, colons, Separator::Colon);
    let p = parts(joined(w, colons), Separator::Colon);
    if w.len() == 6 && (forall|i: int| 0 <= i < 6 ==> #[trigger] parsed(w[i], 16, 255) is Some) {
        assert forall|i: int| 0 <= i < 6 implies Some(
            #[trigger] address_bytes(joined(w, colons))->0[i] as nat,
        ) == parsed(w[i], 16, 255) by {
            assert(parsed(p[i], 16, 255) is Some);
        }
    }
}

/// A number in decimal is written in digits alone, so no whitespace is in it.
pub proof fn decimal_has_no_space(n: nat)
    ensures
        decimal(n).len() > 0,
        forall|i: int|
            0 <= i < decimal(n).len() ==> !is_space(#[trigger] decimal(n)[i]) && digit(
                decimal(n)[i],
                10,
            ) is Some,
{
    lemma_decimal_digits(n);
    let s = decimal(n);
    assert forall|i: int| 0 <= i < s.len() implies !is_space(#[trigger] s[i]) && digit(
        s[i],
        10,
    ) is Some by {
        assert(digit(s[i], 10) is Some);
    }
}

} // verus!
