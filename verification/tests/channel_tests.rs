use serial_relay::channel::Channel;
use serial_relay::colors::ChannelColor;
use serial_relay::format::PrintFormat;

const GREEN: &str = "\u{1b}[32m";
const RESET: &str = "\u{1b}[39m";

#[test]
fn terminator_flushes_regardless_of_time() {
    let mut c = Channel::new(ChannelColor::Green);
    c.process_incoming(&vec![0x0A]);
    assert!(c.flush_is_due(0));
}

#[test]
fn carriage_return_flushes_too() {
    let mut c = Channel::new(ChannelColor::Green);
    c.process_incoming(&vec![0x41, 0x0D, 0x42]);
    assert!(c.flush_is_due(0));
}

#[test]
fn idle_flush_only_strictly_past_threshold() {
    let mut c = Channel::new(ChannelColor::Blue);
    c.process_incoming(&vec![0x41]);
    assert!(!c.flush_is_due(0));
    assert!(!c.flush_is_due(75));
    assert!(c.flush_is_due(76));
}

#[test]
fn empty_buffer_never_flushes() {
    let c = Channel::new(ChannelColor::Blue);
    assert!(!c.flush_is_due(10_000));
}

#[test]
fn maybe_flush_none_keeps_buffer() {
    let mut c = Channel::new(ChannelColor::Green);
    c.process_incoming(&vec![0x41, 0x42]);
    let out = c.maybe_flush(&PrintFormat::Ascii, 10);
    assert!(out.is_none());
    assert_eq!(c.buffer, vec![0x41, 0x42]);
    assert_eq!(c.offset, 0);
}

#[test]
fn process_incoming_returns_identical_bytes() {
    let mut c = Channel::new(ChannelColor::Green);
    let data = vec![0x01, 0x02, 0xFF, 0x00];
    let forward = c.process_incoming(&data);
    assert_eq!(forward, data);
    assert_eq!(c.buffer, data);
}

#[test]
fn process_incoming_appends_in_order() {
    let mut c = Channel::new(ChannelColor::Blue);
    c.process_incoming(&vec![0x01, 0x02]);
    c.process_incoming(&vec![0x03]);
    assert_eq!(c.buffer, vec![0x01, 0x02, 0x03]);
}

#[test]
fn offsets_accumulate_across_flushes() {
    let mut c = Channel::new(ChannelColor::Green);
    c.process_incoming(&vec![0x10, 0x11, 0x12, 0x13, 0x14]);
    let first = c.maybe_flush(&PrintFormat::HexDump, 100).unwrap();
    assert!(first.contains("00000000: 10 11 12 13 14 "));
    assert_eq!(c.offset, 5);

    c.process_incoming(&vec![0x20, 0x21, 0x22, 0x23, 0x24, 0x25, 0x26]);
    let second = c.maybe_flush(&PrintFormat::HexDump, 100).unwrap();
    assert!(second.contains("00000005: 20 21 22 23 24 25 26 "));
    assert_eq!(c.offset, 12);

    assert!(c.buffer.is_empty());
}

#[test]
fn ascii_flushes_do_not_advance_offset() {
    let mut c = Channel::new(ChannelColor::Green);
    c.process_incoming(&vec![0x41, 0x0A]);
    c.maybe_flush(&PrintFormat::Ascii, 0).unwrap();
    assert_eq!(c.offset, 0);
}

#[test]
fn hello_end_to_end() {
    // Primary sends "Hello\n"; the secondary endpoint receives the identical
    // bytes, and the primary display channel, in ASCII mode, flushes at once
    // on the line feed and prints Hello and the newline, leaving nothing
    // buffered.
    let wire = vec![0x48, 0x65, 0x6C, 0x6C, 0x6F, 0x0A];
    let mut primary_channel = Channel::new(ChannelColor::Green);

    let forwarded = primary_channel.process_incoming(&wire);
    assert_eq!(forwarded, wire);

    assert!(primary_channel.flush_is_due(0));
    let out = primary_channel.maybe_flush(&PrintFormat::Ascii, 0).unwrap();
    assert_eq!(out, format!("{GREEN}Hello\n{RESET}\n"));
    assert!(primary_channel.buffer.is_empty());
}
