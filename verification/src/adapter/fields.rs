//! Reading fields out of payloads.

use crate::metrics::{Metrics, Quantity};
use crate::profile::FieldSpec;
use vstd::arithmetic::power2::{lemma_pow2_unfold, lemma2_to64, pow2};
use vstd::prelude::*;

verus! {

/// Bit `k` of a payload; bit 0 is the most significant bit of byte 0.
pub open spec fn bit_at(payload: Seq<u8>, k: int) -> nat {
    ((payload[k / 8] >> ((7 - k % 8) as u8)) & 1u8) as nat
}

/// The number that `len` bits from bit `offset` on write, most significant bit
/// first.
pub open spec fn bits_value(payload: Seq<u8>, offset: int, len: nat) -> nat
    decreases len,
{
    if len == 0 {
        0
    } else {
        2 * bits_value(payload, offset, (len - 1) as nat) + bit_at(payload, offset + len - 1)
    }
}

/// The number that `len` bytes from byte `at` on write, most significant byte
/// first.
pub open spec fn bytes_value(payload: Seq<u8>, at: int, len: nat) -> nat
    decreases len,
{
    if len == 0 {
        0
    } else {
        256 * bytes_value(payload, at, (len - 1) as nat) + payload[at + len - 1] as nat
    }
}

/// The number that an unsigned number of `len` bytes stands for in two's
/// complement.
pub open spec fn twos_complement(v: nat, len: nat) -> int {
    if 2 * v >= pow2(8 * len) {
        v - pow2(8 * len)
    } else {
        v as int
    }
}

/// The packed value of a field: one to sixteen bits that lie in the payload.
pub open spec fn packed_value(payload: Seq<u8>, offset: int, len: int) -> Option<int> {
    if 1 <= len <= 16 && offset + len <= 8 * payload.len() {
        Some(bits_value(payload, offset, len as nat) as int)
    } else {
        None
    }
}

/// The byte at which a byte-aligned field starts. A negative index counts from
/// the end; another one counts from behind a header of `skip` bytes.
pub open spec fn field_start(len: int, byte_index: int, skip: int) -> int {
    if byte_index < 0 {
        len + byte_index
    } else {
        byte_index + skip
    }
}

/// The value of a byte-aligned field: one to three bytes that lie in the
/// payload.
pub open spec fn aligned_value(
    payload: Seq<u8>,
    start: int,
    len: int,
    signed: bool,
) -> Option<int> {
    if start < 0 || start + len > payload.len() || len < 1 || len > 3 {
        None
    } else if signed {
        Some(twos_complement(bytes_value(payload, start, len as nat), len as nat))
    } else {
        Some(bytes_value(payload, start, len as nat) as int)
    }
}

/// The integer that a field reads from a payload. The packed reading is used
/// where the field gives both a bit offset and a bit length.
pub open spec fn raw_value(payload: Seq<u8>, field: FieldSpec, skip: int) -> Option<int> {
    if field.bit_offset is Some && field.bit_length is Some {
        packed_value(payload, field.bit_offset->0 as int, field.bit_length->0 as int)
    } else if field.byte_index is Some && field.length is Some {
        aligned_value(
            payload,
            field_start(payload.len() as int, field.byte_index->0 as int, skip),
            field.length->0 as int,
            field.signed.unwrap_or(false),
        )
    } else {
        None
    }
}

/// The value of a field: its integer together with its scaling.
pub open spec fn scaled(raw: Option<int>, field: FieldSpec) -> Option<Quantity> {
    match raw {
        Some(v) => Some(
            Quantity::Scaled {
                raw: v as i32,
                multiplier: field.multiplier,
                offset: field.offset,
            },
        ),
        None => None,
    }
}

proof fn lemma_bits_bound(payload: Seq<u8>, offset: int, len: nat)
    requires
        offset >= 0,
        len <= 16,
    ensures
        bits_value(payload, offset, len) < pow2(len),
        pow2(len) <= 65536,
    decreases len,
{
    lemma2_to64();
    if len > 0 {
        lemma_bits_bound(payload, offset, (len - 1) as nat);
        lemma_pow2_unfold(len);
        let k = offset + len - 1;
        let b = payload[k / 8];
        let s = (7 - k % 8) as u8;
        assert((b >> s) & 1u8 <= 1u8) by (bit_vector);
        vstd::arithmetic::power2::lemma_pow2_strictly_increases((len - 1) as nat, len);
    }
}

/// Extracts a packed value with Motorola bit numbering.
pub fn extract_bits(payload: &[u8], bit_offset: u32, bit_length: u32) -> (r: Option<u32>)
    ensures
        r is Some == packed_value(payload@, bit_offset as int, bit_length as int) is Some,
        r is Some ==> r->0 == packed_value(payload@, bit_offset as int, bit_length as int)->0,
        r is Some ==> r->0 <= 65535,
{
    if bit_length == 0 || bit_length > 16 {
        return None;
    }
    let last_bit: u64 = bit_offset as u64 + bit_length as u64;
    let needed: u64 = (last_bit + 7) / 8;
    if needed as u128 > payload.len() as u128 {
        return None;
    }
    let mut acc: u32 = 0;
    for i in 0..bit_length
        invariant
            1 <= bit_length <= 16,
            bit_offset + bit_length <= 8 * payload@.len(),
            acc == bits_value(payload@, bit_offset as int, i as nat),
    {
        proof {
            lemma_bits_bound(payload@, bit_offset as int, i as nat);
        }
        let k: u64 = bit_offset as u64 + i as u64;
        let byte: u8 = payload[(k / 8) as usize];
        let shift: u8 = 7 - (k % 8) as u8;
        let bit: u8 = (byte >> shift) & 1;
        assert(bit <= 1) by (bit_vector)
            requires
                bit == (byte >> shift) & 1u8,
        ;
        assert(bit == bit_at(payload@, bit_offset + i));
        acc = acc * 2 + bit as u32;
    }
    proof {
        lemma_bits_bound(payload@, bit_offset as int, bit_length as nat);
    }
    Some(acc)
}

fn read_aligned(payload: &[u8], start: i128, len: usize, signed: bool) -> (r: Option<i32>)
    ensures
        r is Some == aligned_value(payload@, start as int, len as int, signed) is Some,
        r is Some ==> r->0 == aligned_value(payload@, start as int, len as int, signed)->0,
{
    if start < 0 || start > payload.len() as i128 || len as i128 > payload.len() as i128 - start {
        return None;
    }
    if len < 1 || len > 3 {
        return None;
    }
    let total: usize = payload.len();
    let at: usize = start as usize;
    let mut v: i32 = 0;
    proof {
        lemma2_to64();
    }
    assert(pow2(8) == 256 && pow2(16) == 65536 && pow2(24) == 16777216);
    for i in 0..len
        invariant
            len <= 3,
            at + len <= total,
            total == payload@.len(),
            v == bytes_value(payload@, at as int, i as nat),
            i == 0 ==> v == 0,
            i == 1 ==> 0 <= v < 256,
            i == 2 ==> 0 <= v < 65536,
            i == 3 ==> 0 <= v < 16777216,
    {
        v = v * 256 + payload[at + i] as i32;
    }
    if signed {
        let half: i32 = if len == 1 {
            128
        } else if len == 2 {
            32768
        } else {
            8388608
        };
        if v >= half {
            Some(v - 2 * half)
        } else {
            Some(v)
        }
    } else {
        Some(v)
    }
}

fn extract(payload: &[u8], field: &FieldSpec, skip: i32) -> (r: Option<Quantity>)
    ensures
        r == scaled(raw_value(payload@, *field, skip as int), *field),
{
    let raw: Option<i32> = match (field.bit_offset, field.bit_length) {
        (Some(off), Some(len)) => match extract_bits(payload, off, len) {
            Some(v) => Some(v as i32),
            None => None,
        },
        _ => match (field.byte_index, field.length) {
            (Some(index), Some(len)) => {
                let start: i128 = if index < 0 {
                    payload.len() as i128 + index as i128
                } else {
                    index as i128 + skip as i128
                };
                read_aligned(payload, start, len, field.signed.unwrap_or(false))
            },
            _ => None,
        },
    };
    match raw {
        Some(v) => Some(
            Quantity::Scaled { raw: v, multiplier: field.multiplier, offset: field.offset },
        ),
        None => None,
    }
}

/// The value of a field of a UDS payload. Non-negative byte indices count from
/// behind the three-byte positive-response header.
pub open spec fn uds_value(payload: Seq<u8>, field: FieldSpec) -> Option<Quantity> {
    scaled(raw_value(payload, field, 3), field)
}

/// The value of a field of a broadcast frame, which has no header.
pub open spec fn broadcast_value(payload: Seq<u8>, field: FieldSpec) -> Option<Quantity> {
    scaled(raw_value(payload, field, 0), field)
}

/// Reads a field of a UDS payload.
pub fn extract_value(payload: &[u8], field: &FieldSpec) -> (r: Option<Quantity>)
    ensures
        r == uds_value(payload@, *field),
{
    extract(payload, field, 3)
}

/// Reads a field of a broadcast frame.
pub fn extract_value_broadcast(payload: &[u8], field: &FieldSpec) -> (r: Option<Quantity>)
    ensures
        r == broadcast_value(payload@, *field),
{
    extract(payload, field, 0)
}

/// The two kinds of payload that fields are read from.
#[derive(Clone, Copy, PartialEq, Eq, Debug, Structural)]
pub enum Framing {
    /// A UDS reply with its header.
    Uds,
    /// A broadcast frame.
    Broadcast,
}

/// The value of a field of a payload.
pub open spec fn value_of(framing: Framing, payload: Seq<u8>, field: FieldSpec) -> Option<
    Quantity,
> {
    match framing {
        Framing::Uds => uds_value(payload, field),
        Framing::Broadcast => broadcast_value(payload, field),
    }
}

/// Metrics together with the fields of a payload. A field that reads nothing
/// adds nothing; a later field replaces an earlier one of the same name.
pub open spec fn with_fields(
    base: Map<Seq<char>, Quantity>,
    fields: Seq<FieldSpec>,
    framing: Framing,
    payload: Seq<u8>,
) -> Map<Seq<char>, Quantity>
    decreases fields.len(),
{
    if fields.len() == 0 {
        base
    } else {
        let head = with_fields(base, fields.drop_last(), framing, payload);
        match value_of(framing, payload, fields.last()) {
            Some(q) => head.insert(fields.last().name@, q),
            None => head,
        }
    }
}

/// Adds the fields of a payload to the metrics.
pub fn collect_fields(
    metrics: &mut Metrics,
    fields: &Vec<FieldSpec>,
    framing: Framing,
    payload: &[u8],
)
    ensures
        final(metrics)@ == with_fields(old(metrics)@, fields@, framing, payload@),
{
    let ghost base = metrics@;
    assert(fields@.take(0) == Seq::<FieldSpec>::empty());
    for i in 0..fields.len()
        invariant
            metrics@ == with_fields(base, fields@.take(i as int), framing, payload@),
    {
        assert(fields@.take(i + 1).drop_last() == fields@.take(i as int));
        let value = match framing {
            Framing::Uds => extract_value(payload, &fields[i]),
            Framing::Broadcast => extract_value_broadcast(payload, &fields[i]),
        };
        match value {
            Some(q) => metrics.insert(fields[i].name.clone(), q),
            None => {},
        }
    }
    assert(fields@.take(fields@.len() as int) == fields@);
}

/// Neighbouring packed fields combine: the bits of both together write the
/// first number shifted by the length of the second, plus the second.
pub proof fn neighbouring_bits_combine(payload: Seq<u8>, offset: int, a: nat, b: nat)
    ensures
        bits_value(payload, offset, a + b) == bits_value(payload, offset, a) * pow2(b)
            + bits_value(payload, offset + a, b),
    decreases b,
{
    let high = bits_value(payload, offset, a);
    if b == 0 {
        lemma2_to64();
    } else {
        let less = (b - 1) as nat;
        neighbouring_bits_combine(payload, offset, a, less);
        lemma_pow2_unfold(b);
        assert((a + b - 1) as nat == a + less);
        assert(2 * (high * pow2(less)) == high * (2 * pow2(less))) by (nonlinear_arith);
    }
}

/// Eight bits that start at a byte boundary are that byte.
pub proof fn packed_byte_is_byte(payload: Seq<u8>, i: int)
    requires
        0 <= i < payload.len(),
    ensures
        packed_value(payload, 8 * i, 8) == Some(payload[i] as int),
{
    reveal_with_fuel(bits_value, 9);
    let b = payload[i];
    assert forall|k: int| 0 <= k < 8 implies #[trigger] bit_at(payload, 8 * i + k) == ((b >> ((7
        - k) as u8)) & 1u8) as nat by {
        assert((8 * i + k) / 8 == i && (8 * i + k) % 8 == k);
    }
    assert(bit_at(payload, 8 * i + 0) == ((b >> 7u8) & 1u8) as nat);
    assert(bit_at(payload, 8 * i + 1) == ((b >> 6u8) & 1u8) as nat);
    assert(bit_at(payload, 8 * i + 2) == ((b >> 5u8) & 1u8) as nat);
    assert(bit_at(payload, 8 * i + 3) == ((b >> 4u8) & 1u8) as nat);
    assert(bit_at(payload, 8 * i + 4) == ((b >> 3u8) & 1u8) as nat);
    assert(bit_at(payload, 8 * i + 5) == ((b >> 2u8) & 1u8) as nat);
    assert(bit_at(payload, 8 * i + 6) == ((b >> 1u8) & 1u8) as nat);
    assert(bit_at(payload, 8 * i + 7) == ((b >> 0u8) & 1u8) as nat);
    assert(b == 128 * ((b >> 7u8) & 1u8) + 64 * ((b >> 6u8) & 1u8) + 32 * ((b >> 5u8) & 1u8) + 16
        * ((b >> 4u8) & 1u8) + 8 * ((b >> 3u8) & 1u8) + 4 * ((b >> 2u8) & 1u8) + 2 * ((b >> 1u8)
        & 1u8) + ((b >> 0u8) & 1u8)) by (bit_vector);
}

/// Sixteen bits that start at a byte boundary are the two bytes there, most
/// significant byte first.
pub proof fn packed_word_is_word(payload: Seq<u8>, i: int)
    requires
        0 <= i < payload.len() - 1,
    ensures
        packed_value(payload, 8 * i, 16) == Some(bytes_value(payload, i, 2) as int),
{
    packed_byte_is_byte(payload, i);
    packed_byte_is_byte(payload, i + 1);
    neighbouring_bits_combine(payload, 8 * i, 8, 8);
    lemma2_to64();
    assert(8 * i + 8 == 8 * (i + 1));
    reveal_with_fuel(bytes_value, 3);
}

proof fn lemma_bytes_bound(payload: Seq<u8>, at: int, len: nat)
    requires
        len <= 3,
    ensures
        len == 0 ==> bytes_value(payload, at, len) == 0,
        len == 1 ==> bytes_value(payload, at, len) < 256,
        len == 2 ==> bytes_value(payload, at, len) < 65536,
        len == 3 ==> bytes_value(payload, at, len) < 16777216,
    decreases len,
{
    if len > 0 {
        lemma_bytes_bound(payload, at, (len - 1) as nat);
    }
}

/// Every integer read from a payload has a magnitude below two to the power of
/// twenty-four, so a single-precision number holds it exactly.
pub proof fn raw_values_are_exact(payload: Seq<u8>, field: FieldSpec, skip: int)
    requires
        0 <= skip,
    ensures
        raw_value(payload, field, skip) is Some ==> -16777216 < raw_value(payload, field, skip)->0
            < 16777216,
{
    lemma2_to64();
    assert(pow2(8) == 256 && pow2(16) == 65536 && pow2(24) == 16777216);
    if field.bit_offset is Some && field.bit_length is Some {
        let len = field.bit_length->0;
        if 1 <= len <= 16 {
            lemma_bits_bound(payload, field.bit_offset->0 as int, len as nat);
        }
    } else if field.byte_index is Some && field.length is Some {
        let len = field.length->0;
        if 1 <= len <= 3 {
            lemma_bytes_bound(
                payload,
                field_start(payload.len() as int, field.byte_index->0 as int, skip),
                len as nat,
            );
        }
    }
}

proof fn lemma_bytes_behind(header: Seq<u8>, payload: Seq<u8>, at: int, len: nat)
    requires
        0 <= at,
        at + len <= payload.len(),
    ensures
        bytes_value(header + payload, header.len() + at, len) == bytes_value(payload, at, len),
    decreases len,
{
    if len > 0 {
        lemma_bytes_behind(header, payload, at, (len - 1) as nat);
    }
}

/// A broadcast frame is read like a UDS payload, only without its header: a
/// byte-aligned field reads the same in a frame as behind a three-byte header,
/// and a packed field, or one that counts from the end, reads the same in
/// either.
pub proof fn broadcast_is_uds_without_header(header: Seq<u8>, payload: Seq<u8>, field: FieldSpec)
    requires
        header.len() == 3,
    ensures
        field.bit_offset is Some && field.bit_length is Some ==> broadcast_value(payload, field)
            == uds_value(payload, field),
        field.byte_index is Some && field.byte_index->0 < 0 ==> broadcast_value(payload, field)
            == uds_value(payload, field),
        !(field.bit_offset is Some && field.bit_length is Some) && field.byte_index is Some
            && field.byte_index->0 >= 0 ==> broadcast_value(payload, field) == uds_value(
            header + payload,
            field,
        ),
{
    if field.byte_index is Some && field.byte_index->0 >= 0 && field.length is Some {
        let at = field.byte_index->0 as int;
        let len = field.length->0 as int;
        if 1 <= len <= 3 && at + len <= payload.len() {
            lemma_bytes_behind(header, payload, at, len as nat);
        }
    }
}

proof fn lemma_aligned_reads_back(v: int, payload: Seq<u8>, start: int, len: int, signed: bool)
    requires
        1 <= len <= 3,
        0 <= start,
        start + len <= payload.len(),
        if signed {
            -pow2((8 * len - 1) as nat) <= v < pow2((8 * len - 1) as nat)
        } else {
            0 <= v < pow2((8 * len) as nat)
        },
        forall|j: int|
            0 <= j < len ==> #[trigger] payload[start + j] == (v / (pow2(
                (8 * (len - 1 - j)) as nat,
            ) as int)) % 256,
    ensures
        aligned_value(payload, start, len, signed) == Some(v),
{
    lemma2_to64();
    assert(pow2(0) == 1 && pow2(7) == 128 && pow2(8) == 256 && pow2(15) == 32768 && pow2(16)
        == 65536 && pow2(23) == 8388608 && pow2(24) == 16777216);
    reveal_with_fuel(bytes_value, 4);
    assert(payload[start + 0] == (v / (pow2((8 * (len - 1)) as nat) as int)) % 256);
    let u = bytes_value(payload, start, len as nat);
    assert(v / 1 == v);
    if len == 1 {
        assert(u == v % 256);
    } else if len == 2 {
        assert(payload[start + 1] == (v / (pow2(0) as int)) % 256);
        assert(u == 256 * ((v / 256) % 256) + v % 256);
        assert(u == v % 65536);
    } else {
        assert(payload[start + 1] == (v / (pow2(8) as int)) % 256);
        assert(payload[start + 2] == (v / (pow2(0) as int)) % 256);
        assert(u == 256 * (256 * ((v / 65536) % 256) + (v / 256) % 256) + v % 256);
        assert(u == v % 16777216);
    }
}

/// A byte-aligned field reads back what was written: where its one to three
/// bytes hold a number big-endian, in two's complement if the field is signed,
/// the field reads that number, for every number that so many bytes hold. The
/// bytes stand at the field's index, which counts from behind the three-byte
/// header in a UDS payload, from the first byte in a broadcast frame, and from
/// the end where it is negative.
pub proof fn aligned_fields_read_back(
    v: int,
    payload: Seq<u8>,
    field: FieldSpec,
    framing: Framing,
    at: int,
)
    requires
        field.bit_offset is None || field.bit_length is None,
        field.byte_index is Some,
        field.length is Some,
        1 <= field.length->0 <= 3,
        field.byte_index->0 < 0 ==> at == payload.len() + field.byte_index->0,
        field.byte_index->0 >= 0 && framing == Framing::Uds ==> at == field.byte_index->0 + 3,
        field.byte_index->0 >= 0 && framing == Framing::Broadcast ==> at == field.byte_index->0,
        0 <= at,
        at + field.length->0 <= payload.len(),
        field.signed == Some(true) ==> -pow2((8 * field.length->0 - 1) as nat) <= v < pow2(
            (8 * field.length->0 - 1) as nat,
        ),
        field.signed != Some(true) ==> 0 <= v < pow2((8 * field.length->0) as nat),
        forall|j: int|
            0 <= j < field.length->0 ==> #[trigger] payload[at + j] == (v / (pow2(
                (8 * (field.length->0 - 1 - j)) as nat,
            ) as int)) % 256,
    ensures
        value_of(framing, payload, field) == Some(
            Quantity::Scaled {
                raw: v as i32,
                multiplier: field.multiplier,
                offset: field.offset,
            },
        ),
        framing == Framing::Uds ==> uds_value(payload, field) == value_of(framing, payload, field),
        framing == Framing::Broadcast ==> broadcast_value(payload, field) == value_of(
            framing,
            payload,
            field,
        ),
{
    lemma_aligned_reads_back(
        v,
        payload,
        at,
        field.length->0 as int,
        field.signed == Some(true),
    );
}

/// A signed reading lies between minus two to the power of 8n - 1 and below two
/// to the power of 8n - 1, for n bytes, and differs from the unsigned reading
/// of the same bytes by a multiple of two to the power of 8n.
pub proof fn signed_readings_are_congruent(payload: Seq<u8>, start: int, len: int)
    requires
        1 <= len <= 3,
        0 <= start,
        start + len <= payload.len(),
    ensures
        aligned_value(payload, start, len, true) is Some,
        aligned_value(payload, start, len, false) is Some,
        -pow2((8 * len - 1) as nat) <= aligned_value(payload, start, len, true)->0 < pow2(
            (8 * len - 1) as nat,
        ),
        0 <= aligned_value(payload, start, len, false)->0 < pow2((8 * len) as nat),
        (aligned_value(payload, start, len, true)->0 - aligned_value(
            payload,
            start,
            len,
            false,
        )->0) % (pow2((8 * len) as nat) as int) == 0,
{
    lemma2_to64();
    assert(pow2(7) == 128 && pow2(8) == 256 && pow2(15) == 32768 && pow2(16) == 65536 && pow2(23)
        == 8388608 && pow2(24) == 16777216);
    lemma_bytes_bound(payload, start, len as nat);
    let m = pow2((8 * len) as nat) as int;
    assert((-m) % m == 0 && 0int % m == 0) by (nonlinear_arith)
        requires
            m > 0,
    ;
}

proof fn lemma_bit_is_digit(b: u8, s: nat)
    requires
        s < 8,
    ensures
        ((b >> (s as u8)) & 1u8) as int == (b as int / pow2(s) as int) % 2,
{
    let t = s as u8;
    vstd::bits::lemma_u8_shr_is_div(b, t);
    let q = b >> t;
    assert(q & 1u8 == q % 2) by (bit_vector);
}

proof fn lemma_bits_read_back(v: int, payload: Seq<u8>, offset: int, len: nat, m: nat)
    requires
        m <= len <= 16,
        0 <= offset,
        offset + len <= 8 * payload.len(),
        0 <= v < pow2(len),
        forall|j: int|
            0 <= j < len ==> #[trigger] bit_at(payload, offset + j) == (v / (pow2(
                (len - 1 - j) as nat,
            ) as int)) % 2,
    ensures
        bits_value(payload, offset, m) == v / (pow2((len - m) as nat) as int),
    decreases m,
{
    if m == 0 {
        vstd::arithmetic::power2::lemma_pow2_pos(len);
        vstd::arithmetic::div_mod::lemma_basic_div(v, pow2(len) as int);
    } else {
        lemma_bits_read_back(v, payload, offset, len, (m - 1) as nat);
        let p = pow2((len - m) as nat) as int;
        let less = (m - 1) as nat;
        assert(bit_at(payload, offset + less) == (v / (pow2((len - 1 - less) as nat) as int)) % 2);
        lemma_pow2_unfold((len - m + 1) as nat);
        vstd::arithmetic::power2::lemma_pow2_pos((len - m) as nat);
        vstd::arithmetic::div_mod::lemma_div_denominator(v, p, 2);
        assert(p * 2 == pow2((len - m + 1) as nat));
    }
}

/// A packed field reads back what was written: where its one to sixteen bits
/// hold a number, most significant bit first, the field reads that number, in a
/// UDS payload as in a broadcast frame. Bit 0 is the most significant bit of
/// byte 0, so bit k is the digit of weight two to the power of 7 - k % 8 in
/// byte k / 8.
pub proof fn packed_fields_read_back(v: int, payload: Seq<u8>, field: FieldSpec)
    requires
        field.bit_offset is Some,
        field.bit_length is Some,
        1 <= field.bit_length->0 <= 16,
        field.bit_offset->0 + field.bit_length->0 <= 8 * payload.len(),
        0 <= v < pow2(field.bit_length->0 as nat),
        forall|k: int|
            field.bit_offset->0 <= k < field.bit_offset->0 + field.bit_length->0 ==> (
            #[trigger] payload[k / 8] as int / pow2((7 - k % 8) as nat) as int) % 2 == (v / (pow2(
                (field.bit_offset->0 + field.bit_length->0 - 1 - k) as nat,
            ) as int)) % 2,
    ensures
        uds_value(payload, field) == Some(
            Quantity::Scaled {
                raw: v as i32,
                multiplier: field.multiplier,
                offset: field.offset,
            },
        ),
        broadcast_value(payload, field) == uds_value(payload, field),
{
    let offset = field.bit_offset->0 as int;
    let len = field.bit_length->0 as nat;
    assert forall|j: int| 0 <= j < len implies #[trigger] bit_at(payload, offset + j) == (v / (
    pow2((len - 1 - j) as nat) as int)) % 2 by {
        let k = offset + j;
        lemma_bit_is_digit(payload[k / 8], (7 - k % 8) as nat);
    }
    lemma_bits_read_back(v, payload, offset, len, len);
    lemma2_to64();
    assert(v / 1 == v);
}

/// A packed field reads nothing exactly where it has no bits, more than sixteen
/// of them, or some that lie behind the payload.
pub proof fn unreadable_packed_fields(payload: Seq<u8>, field: FieldSpec)
    requires
        field.bit_offset is Some,
        field.bit_length is Some,
    ensures
        uds_value(payload, field) is None <==> field.bit_length->0 == 0 || field.bit_length->0 > 16
            || field.bit_offset->0 + field.bit_length->0 > 8 * payload.len(),
        broadcast_value(payload, field) is None <==> uds_value(payload, field) is None,
{
}

/// A byte-aligned field reads nothing exactly where it gives no index or no
/// length, has no bytes or more than three, or has some that do not lie in the
/// payload.
pub proof fn unreadable_aligned_fields(payload: Seq<u8>, field: FieldSpec)
    requires
        field.bit_offset is None || field.bit_length is None,
    ensures
        field.byte_index is None || field.length is None ==> uds_value(payload, field) is None
            && broadcast_value(payload, field) is None,
        field.byte_index is Some && field.length is Some && field.byte_index->0 >= 0 ==> (uds_value(
            payload,
            field,
        ) is None <==> field.length->0 == 0 || field.length->0 > 3 || field.byte_index->0 + 3
            + field.length->0 > payload.len()),
        field.byte_index is Some && field.length is Some && field.byte_index->0 >= 0 ==> (
        broadcast_value(payload, field) is None <==> field.length->0 == 0 || field.length->0 > 3
            || field.byte_index->0 + field.length->0 > payload.len()),
        field.byte_index is Some && field.length is Some && field.byte_index->0 < 0 ==> (uds_value(
            payload,
            field,
        ) is None <==> field.length->0 == 0 || field.length->0 > 3 || field.length->0
            + field.byte_index->0 > 0 || payload.len() + field.byte_index->0 < 0),
        field.byte_index is Some && field.length is Some && field.byte_index->0 < 0 ==> (
        broadcast_value(payload, field) is None <==> uds_value(payload, field) is None),
{
}

/// A field that reads a value is in the metrics with that value, unless a later
/// field of the same name reads one too.
pub proof fn collected_fields_are_there(
    base: Map<Seq<char>, Quantity>,
    fields: Seq<FieldSpec>,
    framing: Framing,
    payload: Seq<u8>,
    j: int,
)
    requires
        0 <= j < fields.len(),
        value_of(framing, payload, fields[j]) is Some,
        forall|i: int|
            j < i < fields.len() && #[trigger] fields[i].name@ == fields[j].name@ ==> value_of(
                framing,
                payload,
                fields[i],
            ) is None,
    ensures
        with_fields(base, fields, framing, payload).contains_key(fields[j].name@),
        Some(with_fields(base, fields, framing, payload)[fields[j].name@]) == value_of(
            framing,
            payload,
            fields[j],
        ),
    decreases fields.len(),
{
    if j < fields.len() - 1 {
        let head = fields.drop_last();
        assert forall|i: int|
            j < i < head.len() && #[trigger] head[i].name@ == head[j].name@ implies value_of(
            framing,
            payload,
            head[i],
        ) is None by {
            assert(fields[i].name@ == fields[j].name@);
        }
        collected_fields_are_there(base, head, framing, payload, j);
        assert(fields[fields.len() - 1].name@ == fields.last().name@);
    }
}

/// A metric whose name no reading field has stays as it was.
pub proof fn other_metrics_stay(
    base: Map<Seq<char>, Quantity>,
    fields: Seq<FieldSpec>,
    framing: Framing,
    payload: Seq<u8>,
    name: Seq<char>,
)
    requires
        forall|i: int|
            0 <= i < fields.len() && #[trigger] fields[i].name@ == name ==> value_of(
                framing,
                payload,
                fields[i],
            ) is None,
    ensures
        with_fields(base, fields, framing, payload).get(name) == base.get(name),
    decreases fields.len(),
{
    if fields.len() > 0 {
        let head = fields.drop_last();
        assert forall|i: int| 0 <= i < head.len() && #[trigger] head[i].name@
            == name implies value_of(framing, payload, head[i]) is None by {
            assert(fields[i].name@ == name);
        }
        other_metrics_stay(base, head, framing, payload, name);
        assert(fields[fields.len() - 1].name@ == fields.last().name@);
    }
}

} // verus!
