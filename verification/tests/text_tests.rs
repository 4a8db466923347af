use kerb::decode_cp1252;
use kerb::sim_string::to_str;
use kerb::utils::parse_c_str;
use kerb::{SimString, SimStringU16};

#[test]
fn decode_cp1252_ascii() {
    assert_eq!(decode_cp1252(b"hello"), "hello");
}

// A slice that mixes ASCII with one high byte must bypass decode_cp1252's
// all-ASCII fast path and decode as a whole.
#[test]
fn decode_cp1252_mixed_ascii_and_high_byte() {
    // é in cp1252 is byte 0xE9
    let bytes = &[0x41u8, 0x6C, 0x65, 0x78, 0x20, 0xE9]; // "Alex é"

    assert_eq!(decode_cp1252(bytes), "Alex é");
}

#[test]
fn decode_cp1252_is_locale_independent() {
    let bytes = &[0x4Au8, 0x6F, 0x73, 0xE9, 0x20, 0x4D, 0xFC, 0x6C, 0x6C, 0x65, 0x72];

    assert_eq!(decode_cp1252(bytes), "José Müller");
}

#[test]
fn decode_cp1252_reads_the_c1_range_as_printable_punctuation() {
    assert_eq!(decode_cp1252(&[0x93, 0x94]), "\u{201C}\u{201D}");
    assert_eq!(decode_cp1252(&[0x92]), "\u{2019}");
    assert_eq!(decode_cp1252(&[0x96]), "\u{2013}");
    assert_eq!(decode_cp1252(&[0x85]), "\u{2026}");
}

#[test]
fn decode_cp1252_unrepresentable_chars_stay_as_question_marks() {
    let bytes = b"?? ?";

    assert_eq!(decode_cp1252(bytes), "?? ?");
}

#[test]
fn decode_cp1252_undefined_positions_become_replacement_chars() {
    let decoded = decode_cp1252(&[0x41, 0x81, 0x42]);

    assert_eq!(decoded.chars().count(), 3);
    assert!(decoded.starts_with('A') && decoded.ends_with('B'));
}

#[test]
fn decode_cp1252_empty_input() {
    assert_eq!(decode_cp1252(&[]), "");
}

#[test]
fn parse_c_str_stops_at_the_first_nul() {
    assert_eq!(parse_c_str(b"Speed\0\0junk"), "Speed");
    assert_eq!(parse_c_str(b"full"), "full");
    assert_eq!(parse_c_str(b"\0abc"), "");
    assert_eq!(parse_c_str(&[0xE9, 0, 0x41]), "é");
}

#[test]
fn sim_string_decodes_up_to_the_first_nul() {
    let s = SimString::from_bytes(b"Monza\0\0\0");
    assert_eq!(s.to_string_lossy(), "Monza");
    assert!(s == "Monza");
    assert!(!(s == "Monz"));
    let full = SimString::from_u8_array(*b"abc");
    assert_eq!(full.to_string_lossy(), "abc");
    let accented = to_str([0x4A, 0x6F, 0x73, 0xE9, 0]);
    assert!(accented == "José");
    let empty: SimString<4> = SimString::default();
    assert_eq!(empty.to_string_lossy(), "");
    assert!(empty == "");
}

#[test]
fn sim_string_u16_decodes_utf16_up_to_the_first_nul() {
    let units: Vec<u16> = "Spa-Francorchamps".encode_utf16().collect();
    let mut arr = [0u16; 24];
    arr[..units.len()].copy_from_slice(&units);
    let s = SimStringU16::from_u16(&arr);
    assert_eq!(s.to_string_lossy(), "Spa-Francorchamps");
    assert!(s == "Spa-Francorchamps");

    let emoji: Vec<u16> = "N\u{1F3C1}rburgring".encode_utf16().collect();
    let mut arr2 = [0u16; 16];
    arr2[..emoji.len()].copy_from_slice(&emoji);
    assert_eq!(SimStringU16::from_u16_array(arr2).to_string_lossy(), "N\u{1F3C1}rburgring");
}

#[test]
fn sim_string_u16_replaces_unpaired_surrogates() {
    let s = SimStringU16::from_u16_array([0x0041, 0xD800, 0x0042, 0xDC00, 0x0043, 0]);
    assert_eq!(s.to_string_lossy(), "A\u{FFFD}B\u{FFFD}C");
    assert_eq!(
        s.to_string_lossy(),
        String::from_utf16_lossy(&[0x0041, 0xD800, 0x0042, 0xDC00, 0x0043])
    );
    let high_at_end = SimStringU16::from_u16_array([0x0041, 0xDBFF]);
    assert_eq!(high_at_end.to_string_lossy(), "A\u{FFFD}");
    let empty: SimStringU16<3> = SimStringU16::default();
    assert_eq!(empty.to_string_lossy(), "");
}

#[test]
fn is_blank_matches_trim() {
    for s in ["", "   \n", "\t\r\n", " x ", "\u{3000}", "a"] {
        assert_eq!(kerb::text::is_blank(s), s.trim().is_empty());
    }
}

#[test]
fn decode_cp1252_gives_one_char_per_byte_without_a_bom() {
    let all: Vec<u8> = (0u8..=255).collect();
    let text = decode_cp1252(&all);
    assert_eq!(text.chars().count(), 256);
    for (c, b) in text.chars().zip(all.iter()) {
        if *b < 0x80 {
            assert_eq!(c, *b as char);
        }
    }
    let t = decode_cp1252(&[0x41, 0x81, 0x42]);
    assert!(t.starts_with('A') && t.ends_with('B'));
    assert_eq!(t.chars().count(), 3);
}

#[test]
fn decode_cp1252_follows_a_leading_byte_order_mark() {
    assert_eq!(decode_cp1252(&[0xEF, 0xBB, 0xBF, 0x41]), "A");
}

#[test]
fn decode_cp1252_follows_the_windows_1252_table() {
    let cases: [(u8, char); 9] = [
        (0x80, '\u{20AC}'),
        (0x81, '\u{0081}'),
        (0x8D, '\u{008D}'),
        (0x93, '\u{201C}'),
        (0x96, '\u{2013}'),
        (0x9F, '\u{0178}'),
        (0xA0, '\u{00A0}'),
        (0xE9, '\u{00E9}'),
        (0xFF, '\u{00FF}'),
    ];
    for (b, c) in cases {
        assert_eq!(decode_cp1252(&[b'x', b]), format!("x{}", c));
    }
}

#[test]
fn ascii_char_facts_accepts_every_ascii_char() {
    for b in 0u8..128 {
        kerb::text::ascii_char_facts(b as char);
    }
}
