use aa_proxy_obd::adapter::elm327::{
    assemble_iso_tp, default_init_commands, extract_value, extract_value_broadcast, get_payload,
    route_broadcast_lines, Elm327Session,
};
use aa_proxy_obd::adapter::fields::{collect_fields, extract_bits, Framing};
use aa_proxy_obd::metrics::{Metrics, Quantity, Single};
use aa_proxy_obd::profile::FieldSpec;

fn single(v: f32) -> Single {
    Single { bits: v.to_bits() }
}

fn value(q: Quantity) -> f32 {
    match q {
        Quantity::Scaled { raw, multiplier, offset } => {
            raw as f32 * f32::from_bits(multiplier.bits) + f32::from_bits(offset.bits)
        }
        Quantity::Plain(s) => f32::from_bits(s.bits),
    }
}

fn byte_field(name: &str, byte_index: i32, length: usize, multiplier: f32, signed: Option<bool>) -> FieldSpec {
    FieldSpec {
        name: name.into(),
        byte_index: Some(byte_index),
        length: Some(length),
        bit_offset: None,
        bit_length: None,
        multiplier: single(multiplier),
        offset: single(0.0),
        signed,
    }
}

fn bit_field(bit_offset: u32, bit_length: u32) -> FieldSpec {
    FieldSpec {
        name: "x".into(),
        byte_index: None,
        length: None,
        bit_offset: Some(bit_offset),
        bit_length: Some(bit_length),
        multiplier: single(1.0),
        offset: single(0.0),
        signed: None,
    }
}

#[test]
fn extract_unsigned_byte_with_multiplier_and_offset() {
    let mut payload = vec![0u8; 32];
    payload[8] = 134;
    let f = byte_field("soc", 5, 1, 0.5, None);
    assert_eq!(extract_value(&payload, &f).map(value), Some(67.0));
}

#[test]
fn extract_signed_negative_byte() {
    let mut payload = vec![0u8; 16];
    payload[3] = 0xF6;
    let f = byte_field("delta", 0, 1, 1.0, Some(true));
    assert_eq!(extract_value(&payload, &f).map(value), Some(-10.0));
}

#[test]
fn extract_negative_byte_index_from_end() {
    let payload = vec![0xAA, 0xBB, 0xCC, 0xDD, 0xEE, 0xFF, 0x00, 0x11, 0x22];
    let f = byte_field("x", -3, 3, 1.0, None);
    assert_eq!(extract_value(&payload, &f).map(value), Some(4386.0));
}

#[test]
fn extract_out_of_bounds_returns_none() {
    let payload = vec![0u8; 4];
    let f = byte_field("x", 10, 1, 1.0, None);
    assert_eq!(extract_value(&payload, &f).map(value), None);
}

#[test]
fn get_payload_handles_single_frame_with_colon() {
    let raw = "0:6201050011 22\r\n>";
    let p = get_payload(raw);
    assert_eq!(p, vec![0x62, 0x01, 0x05, 0x00, 0x11, 0x22]);
}

#[test]
fn get_payload_strips_length_header_first_frame() {
    let raw = "014\r0:62010511 22 33\r\n>";
    let p = get_payload(raw);
    assert_eq!(p, vec![0x62, 0x01, 0x05, 0x11, 0x22, 0x33]);
}

// Motorola bit numbering: bit 0 = MSB of byte 0.
//   byte 0 = 0xA5 = 1010_0101, bits 0..7
//   byte 1 = 0x3C = 0011_1100, bits 8..15

#[test]
fn extract_single_bit_msb() {
    let p = vec![0xA5, 0x3C, 0xFF, 0x00];
    assert_eq!(extract_value(&p, &bit_field(0, 1)).map(value), Some(1.0));
}

#[test]
fn extract_three_bit_value_spanning_byte_boundary() {
    // bits 6..8 of 0xA5 0x3C: byte0 last two bits = 01, byte1 first bit = 0 -> 010 = 2
    let p = vec![0xA5, 0x3C];
    assert_eq!(extract_value(&p, &bit_field(6, 3)).map(value), Some(2.0));
}

#[test]
fn extract_full_byte_via_bit_field() {
    // bits 8..15 of 0xA5 0x3C = 0x3C = 60
    let p = vec![0xA5, 0x3C];
    assert_eq!(extract_value(&p, &bit_field(8, 8)).map(value), Some(60.0));
}

#[test]
fn extract_bit_out_of_range_returns_none() {
    let p = vec![0xFF, 0xFF];
    assert_eq!(extract_value(&p, &bit_field(20, 4)).map(value), None);
}

#[test]
fn assemble_iso_tp_bare_length_then_data() {
    // ELM prints total length on its own line, then reassembled data lines.
    let lines = vec![
        b"012".to_vec(),                  // length = 0x12 = 18
        b"61 74 00 01 02 03 04".to_vec(), // first data line, taken wholesale
        b"05 06 07 08 09 0A 0B".to_vec(),
        b"0C 0D 0E 0F 10 11 12".to_vec(),
    ];
    let p = assemble_iso_tp(&lines).expect("payload");
    assert_eq!(&p[0..2], &[0x61, 0x74]); // header preserved (no PCI strip / no drop)
    assert!(p.len() >= 18);
    // accumulation order sanity: line2 = idx0..6, line3 = idx7..13,
    // line4 = idx14..20, so idx14 is the first byte of line4 (0x0C).
    assert_eq!(p[14], 0x0C);
}

#[test]
fn assemble_iso_tp_strips_consecutive_pci_nibble() {
    let lines = vec![
        b"10 0A 61 74 11 22 33 44".to_vec(), // first line wholesale (incl 10 0A)
        b"21 55 66 77 88 99 AA".to_vec(),    // 0x2N consecutive -> strip seq byte
    ];
    let p = assemble_iso_tp(&lines).expect("payload");
    assert_eq!(&p[0..4], &[0x10, 0x0A, 0x61, 0x74]);
    assert_eq!(&p[8..14], &[0x55, 0x66, 0x77, 0x88, 0x99, 0xAA]);
}

#[test]
fn assemble_iso_tp_empty_returns_none() {
    let lines: Vec<Vec<u8>> = vec![];
    assert!(assemble_iso_tp(&lines).is_none());
}

#[test]
fn route_broadcast_lines_groups_by_can_id() {
    // ATMA lines look like "673 11 22 33 44 55 66": CAN-ID first, bytes after.
    let lines: Vec<String> = vec![
        "656 01 02 03 04 05 06 07".into(),
        "673 11 22 33 44 55 66".into(),
        "673 AA BB CC DD EE FF".into(),
        "ERROR".into(),
        "656 0A 0B 0C 0D 0E 0F 10".into(),
    ];
    let frames = route_broadcast_lines(&lines);
    assert_eq!(frames.get("673").map(|v| v.len()), Some(2));
    assert_eq!(frames.get("656").map(|v| v.len()), Some(2));
    assert_eq!(frames.get("673").unwrap()[0], vec![0x11, 0x22, 0x33, 0x44, 0x55, 0x66]);
    assert_eq!(frames.get("656").unwrap()[1], vec![0x0A, 0x0B, 0x0C, 0x0D, 0x0E, 0x0F, 0x10]);
}

#[test]
fn get_payload_skips_searching_and_keeps_bytes_of_all_lines() {
    let p = get_payload("SEARCHING...\r0:6201\r1:0506\r\r>");
    assert_eq!(p, vec![0x62, 0x01, 0x05, 0x06]);
}

#[test]
fn get_payload_drops_pairs_that_are_not_hex() {
    // An odd digit at the end is dropped; so is a pair that is no byte.
    assert_eq!(get_payload("62ZZ05 1"), vec![0x62, 0x05]);
    assert_eq!(get_payload(""), Vec::<u8>::new());
}

#[test]
fn get_payload_measures_the_first_line_in_bytes() {
    // Two characters of two bytes each: too long for a length header.
    assert_eq!(get_payload("éé\r62"), vec![0x62]);
    // Only the first line can be a length header.
    assert_eq!(get_payload("6201\r05"), vec![0x62, 0x01, 0x05]);
}

#[test]
fn assemble_iso_tp_stops_at_announced_length() {
    let lines = vec![
        b"003".to_vec(),
        b"61 74 01".to_vec(),
        b"02 03 04".to_vec(),
    ];
    assert_eq!(assemble_iso_tp(&lines), Some(vec![0x61, 0x74, 0x01]));
}

#[test]
fn assemble_iso_tp_ignores_invalid_utf8_tokens() {
    let lines = vec![vec![0xFF, 0x20, 0x36, 0x31, 0x20, 0x37, 0x34], b">".to_vec()];
    assert_eq!(assemble_iso_tp(&lines), Some(vec![0x61, 0x74]));
}

#[test]
fn assemble_iso_tp_with_a_length_alone_is_none() {
    assert_eq!(assemble_iso_tp(&[b"012".to_vec()]), None);
}

#[test]
fn route_broadcast_lines_skips_what_is_no_frame() {
    let lines: Vec<String> = vec!["> ".into(), "673".into(), "  ".into(), "xyz 01".into(), "1 2 ZZ 3".into()];
    let frames = route_broadcast_lines(&lines);
    assert_eq!(frames.len(), 1);
    assert_eq!(frames.get("1").unwrap(), &vec![vec![2u8, 3u8]]);
}

#[test]
fn extract_signed_words() {
    let p = vec![0x62, 0x01, 0x05, 0xFF, 0xFE, 0x80, 0x00, 0x00];
    assert_eq!(extract_value(&p, &byte_field("w", 0, 2, 1.0, Some(true))).map(value), Some(-2.0));
    assert_eq!(extract_value(&p, &byte_field("w", 0, 2, 1.0, None)).map(value), Some(65534.0));
    assert_eq!(extract_value(&p, &byte_field("t", 2, 3, 1.0, Some(true))).map(value), Some(-8388608.0));
    assert_eq!(extract_value(&p, &byte_field("t", 2, 3, 1.0, None)).map(value), Some(8388608.0));
    assert_eq!(extract_value(&p, &byte_field("n", 0, 4, 1.0, None)), None);
    assert_eq!(extract_value(&p, &byte_field("n", -9, 1, 1.0, None)), None);
}

#[test]
fn extract_keeps_the_scale() {
    let mut f = byte_field("t", 0, 1, 0.5, None);
    f.offset = single(-40.0);
    let q = extract_value(&[0, 0, 0, 100], &f).unwrap();
    assert_eq!(q, Quantity::Scaled { raw: 100, multiplier: single(0.5), offset: single(-40.0) });
    assert_eq!(value(q), 10.0);
}

#[test]
fn broadcast_fields_start_at_the_first_byte() {
    let p = vec![0x11, 0xFF, 0x33];
    assert_eq!(extract_value_broadcast(&p, &byte_field("b", 0, 1, 1.0, None)).map(value), Some(17.0));
    assert_eq!(extract_value_broadcast(&p, &byte_field("b", 1, 1, 1.0, Some(true))).map(value), Some(-1.0));
    assert_eq!(extract_value_broadcast(&p, &byte_field("b", -2, 2, 1.0, None)).map(value), Some(65331.0));
    assert_eq!(extract_value_broadcast(&p, &byte_field("b", 0, 3, 1.0, None)).map(value), Some(0x11FF33 as f32));
    assert_eq!(extract_value_broadcast(&p, &byte_field("b", 3, 1, 1.0, None)), None);
    assert_eq!(extract_value_broadcast(&p, &bit_field(4, 4)).map(value), Some(1.0));
}

#[test]
fn bits_have_one_to_sixteen_of_them() {
    let p = [0xA5, 0x3C];
    assert_eq!(extract_bits(&p, 0, 16), Some(0xA53C));
    assert_eq!(extract_bits(&p, 0, 17), None);
    assert_eq!(extract_bits(&p, 0, 0), None);
    assert_eq!(extract_bits(&p, u32::MAX, 16), None);
}

#[test]
fn neighbouring_fields_combine() {
    let p = [0xA5, 0x3C];
    let (high, low) = (extract_bits(&p, 3, 5).unwrap(), extract_bits(&p, 8, 6).unwrap());
    assert_eq!(extract_bits(&p, 3, 11), Some(high * 64 + low));
}

#[test]
fn replies_that_follow_each_other_are_joined() {
    let (a, b) = ("0:6201", "1:0506");
    let mut joined = get_payload(a);
    joined.extend(get_payload(b));
    assert_eq!(get_payload(&format!("{a}\r{b}")), joined);
    // A short line is a length header only at the start.
    assert_eq!(get_payload("05"), Vec::<u8>::new());
    assert_eq!(get_payload("6201\r05"), vec![0x62, 0x01, 0x05]);
}

#[test]
fn packed_byte_equals_aligned_byte() {
    let p = vec![0x00, 0x00, 0x00, 0xC7];
    assert_eq!(
        extract_value(&p, &bit_field(24, 8)).map(value),
        extract_value(&p, &byte_field("x", 0, 1, 1.0, None)).map(value)
    );
}

#[test]
fn fields_are_collected_by_name() {
    let mut m = Metrics::new();
    let fields = vec![
        byte_field("a", 0, 1, 1.0, None),
        byte_field("missing", 9, 1, 1.0, None),
        byte_field("a", 1, 1, 1.0, None),
    ];
    collect_fields(&mut m, &fields, Framing::Uds, &[0x62, 1, 5, 7, 9]);
    assert_eq!(m.len(), 1);
    assert_eq!(m.get("a").copied().map(value), Some(9.0));
}

#[test]
fn default_initialisation_resets_first() {
    assert_eq!(
        default_init_commands(),
        vec!["ATZ", "ATE0", "ATAL", "ATST96", "ATCP18", "ATFCSD300000", "ATSP6"]
    );
}

#[test]
fn session_holds_its_stream() {
    let s = Elm327Session::new(7u8);
    assert_eq!(s.stream, 7);
}

#[test]
fn plain_reply_is_its_bytes() {
    let p = vec![0x62, 0x01, 0x05, 0x11, 0xff];
    assert_eq!(get_payload("62010511ff\r\r>"), p);
    assert_eq!(get_payload(" 62 01 05 11 Ff \r\n\r\n> >\t>"), p);
    assert_eq!(get_payload("6 20 105 11FF"), p);
}

#[test]
fn broadcast_fields_have_up_to_three_bytes() {
    let unsigned = byte_field("x", 0, 3, 1.0, None);
    assert_eq!(extract_value_broadcast(&[1, 2, 3], &unsigned).map(value), Some(66051.0));
    assert_eq!(extract_value(&[0x62, 0x01, 0x05, 1, 2, 3], &unsigned).map(value), Some(66051.0));
    let signed = byte_field("x", 0, 3, 1.0, Some(true));
    assert_eq!(extract_value_broadcast(&[0xFF, 0xFF, 0xFE], &signed).map(value), Some(-2.0));
    assert_eq!(extract_value_broadcast(&[1, 2, 3, 4], &byte_field("x", 0, 4, 1.0, None)), None);
}
