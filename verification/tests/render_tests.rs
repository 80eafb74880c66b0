use serial_relay::colors::ChannelColor;
use serial_relay::format::PrintFormat;
use serial_relay::render::{
    render_ascii, render_ascii_char, render_chunk, render_hexdump, render_xxd,
};

const GREEN: &str = "\u{1b}[32m";
const BLUE: &str = "\u{1b}[34m";
const RESET: &str = "\u{1b}[39m";

#[test]
fn ascii_escapes_bell() {
    assert_eq!(render_ascii_char(0x07), "[07]");
}

#[test]
fn ascii_keeps_printable_byte() {
    assert_eq!(render_ascii_char(0x41), "A");
}

#[test]
fn ascii_keeps_whitespace_verbatim() {
    assert_eq!(render_ascii_char(0x0A), "\n");
    assert_eq!(render_ascii_char(0x09), "\t");
    assert_eq!(render_ascii_char(0x0D), "\r");
    assert_eq!(render_ascii_char(0x20), " ");
}

#[test]
fn ascii_escapes_delete_uppercase() {
    assert_eq!(render_ascii_char(0x7F), "[7F]");
    assert_eq!(render_ascii_char(0x1B), "[1B]");
}

#[test]
fn ascii_high_byte_is_its_own_char() {
    assert_eq!(render_ascii_char(0xE9), "\u{e9}");
}

#[test]
fn ascii_transcript_in_order() {
    let bytes = vec![0x48, 0x69, 0x07, 0x0A];
    assert_eq!(render_ascii(&bytes), "Hi[07]\n");
}

#[test]
fn hexdump_five_byte_row_padding() {
    let bytes = vec![0x68, 0x65, 0x6C, 0x6C, 0x6F];
    let expected = format!("00000000: 68 65 6c 6c 6f {}\n", "   ".repeat(11));
    assert_eq!(render_hexdump(0, &bytes), expected);
}

#[test]
fn hexdump_full_row_has_no_padding() {
    let bytes: Vec<u8> = (0x00..0x10).collect();
    let expected = "00000000: 00 01 02 03 04 05 06 07 08 09 0a 0b 0c 0d 0e 0f \n";
    assert_eq!(render_hexdump(0, &bytes), expected);
}

#[test]
fn hexdump_rows_advance_address() {
    let bytes: Vec<u8> = (0x00..0x11).collect();
    let expected = format!(
        "00000000: 00 01 02 03 04 05 06 07 08 09 0a 0b 0c 0d 0e 0f \n00000010: 10 {}\n",
        "   ".repeat(15)
    );
    assert_eq!(render_hexdump(0, &bytes), expected);
}

#[test]
fn hexdump_empty_buffer_prints_nothing() {
    let bytes: Vec<u8> = vec![];
    assert_eq!(render_hexdump(0, &bytes), "");
}

#[test]
fn hexdump_address_grows_past_eight_digits() {
    let bytes = vec![0xFF];
    let expected = format!("123456789: ff {}\n", "   ".repeat(15));
    assert_eq!(render_hexdump(0x1_2345_6789, &bytes), expected);
}

#[test]
fn xxd_gutter_printable_and_dot() {
    let bytes = vec![0x41, 0x00];
    let expected = format!("00000000: 41 00 {}  A.\n", "   ".repeat(14));
    assert_eq!(render_xxd(0, &bytes), expected);
}

#[test]
fn xxd_gutter_edges_of_printable_range() {
    let bytes = vec![0x1F, 0x20, 0x7E, 0x7F];
    let expected = format!("00000000: 1f 20 7e 7f {}  . ~.\n", "   ".repeat(12));
    assert_eq!(render_xxd(0, &bytes), expected);
}

#[test]
fn chunk_wraps_body_in_color_markers() {
    let bytes = vec![0x41];
    let mut offset: usize = 0;
    let out = render_chunk(&bytes, &mut offset, &PrintFormat::Ascii, ChannelColor::Green);
    assert_eq!(out, format!("{GREEN}A{RESET}\n"));
    assert_eq!(offset, 0);
}

#[test]
fn chunk_ascii_leaves_offset_alone() {
    let bytes = vec![0x41, 0x42, 0x43];
    let mut offset: usize = 7;
    render_chunk(&bytes, &mut offset, &PrintFormat::Ascii, ChannelColor::Blue);
    assert_eq!(offset, 7);
}

#[test]
fn chunk_hexdump_advances_offset_by_len() {
    let bytes = vec![0x41, 0x42, 0x43];
    let mut offset: usize = 5;
    let out = render_chunk(&bytes, &mut offset, &PrintFormat::HexDump, ChannelColor::Blue);
    let expected = format!("{BLUE}00000005: 41 42 43 {}\n{RESET}\n", "   ".repeat(13));
    assert_eq!(out, expected);
    assert_eq!(offset, 8);
}

#[test]
fn chunk_xxd_advances_offset_by_len() {
    let bytes = vec![0x00, 0x41];
    let mut offset: usize = 0;
    let out = render_chunk(&bytes, &mut offset, &PrintFormat::Xxd, ChannelColor::Green);
    let expected = format!("{GREEN}00000000: 00 41 {}  .A\n{RESET}\n", "   ".repeat(14));
    assert_eq!(out, expected);
    assert_eq!(offset, 2);
}
