//! Rendering of flushed byte buffers: an ASCII transcript, a hex dump, or
//! a hex dump with an ASCII gutter, each bracketed by color markers.

use vstd::prelude::*;

use crate::colors::{color_reset, color_reset_seq, color_start, color_start_seq, ChannelColor};
use crate::format::PrintFormat;

verus! {

/// How many bytes one hex-dump row holds.
pub const ROW_BYTES: usize = 16;

/// The lowercase hexadecimal digit for a value below sixteen.
pub open spec fn hex_digit(v: u8) -> char
    recommends
        v < 16,
{
    if v < 10 {
        ((v + 0x30) as u8) as char
    } else {
        ((v + 0x57) as u8) as char
    }
}

/// The uppercase hexadecimal digit for a value below sixteen.
pub open spec fn hex_digit_upper(v: u8) -> char
    recommends
        v < 16,
{
    if v < 10 {
        ((v + 0x30) as u8) as char
    } else {
        ((v + 0x37) as u8) as char
    }
}

/// The lowercase hexadecimal numeral of `n`, padded with leading zeros to
/// at least `width` digits and extended beyond that only when `n` needs
/// more digits.
pub open spec fn hex_rep(n: nat, width: nat) -> Seq<char>
    decreases n, width,
{
    let low = seq![hex_digit((n % 16) as u8)];
    if n < 16 && width <= 1 {
        low
    } else {
        hex_rep(n / 16, if width == 0 { 0 } else { (width - 1) as nat }) + low
    }
}

/// A transcript byte is escaped when it is an ASCII control character but
/// not ASCII whitespace (tab, line feed, form feed, carriage return).
pub open spec fn escaped_in_transcript(b: u8) -> bool {
    (b <= 0x1F || b == 0x7F) && !(b == 0x09 || b == 0x0A || b == 0x0C || b == 0x0D)
}

/// One byte of the ASCII transcript: escaped bytes appear as a bracketed
/// uppercase hex pair, every other byte as its own character.
pub open spec fn ascii_char_render(b: u8) -> Seq<char> {
    if escaped_in_transcript(b) {
        seq!['[', hex_digit_upper(b / 16), hex_digit_upper(b % 16), ']']
    } else {
        seq![b as char]
    }
}

/// The ASCII transcript of a whole buffer, byte by byte in order.
pub open spec fn ascii_body(bytes: Seq<u8>) -> Seq<char>
    decreases bytes.len(),
{
    if bytes.len() == 0 {
        Seq::<char>::empty()
    } else {
        ascii_body(bytes.drop_last()) + ascii_char_render(bytes.last())
    }
}

/// The hex columns of one row: each byte as two lowercase digits followed
/// by a space.
pub open spec fn hex_cols(row: Seq<u8>) -> Seq<char>
    decreases row.len(),
{
    if row.len() == 0 {
        Seq::<char>::empty()
    } else {
        hex_cols(row.drop_last()) + seq![
            hex_digit(row.last() / 16),
            hex_digit(row.last() % 16),
            ' ',
        ]
    }
}

/// Three spaces of padding for each byte missing from a short row.
pub open spec fn pad_cols(missing: nat) -> Seq<char>
    decreases missing,
{
    if missing == 0 {
        Seq::<char>::empty()
    } else {
        pad_cols((missing - 1) as nat) + seq![' ', ' ', ' ']
    }
}

/// The printable ASCII range shown verbatim in the gutter.
pub open spec fn is_printable(b: u8) -> bool {
    0x20 <= b && b <= 0x7E
}

/// One gutter character: the byte itself when printable, otherwise a dot.
pub open spec fn gutter_char(b: u8) -> char {
    if is_printable(b) {
        b as char
    } else {
        '.'
    }
}

/// The ASCII gutter of one row.
pub open spec fn gutter(row: Seq<u8>) -> Seq<char>
    decreases row.len(),
{
    if row.len() == 0 {
        Seq::<char>::empty()
    } else {
        gutter(row.drop_last()).push(gutter_char(row.last()))
    }
}

/// One hex-dump row: an eight-digit lowercase hex address, `: `, the hex
/// columns, padding to a full row, and a newline.
pub open spec fn hexdump_row(offset: nat, row: Seq<u8>) -> Seq<char>
    recommends
        row.len() <= ROW_BYTES,
{
    hex_rep(offset, 8) + seq![':', ' '] + hex_cols(row) + pad_cols(
        (ROW_BYTES - row.len()) as nat,
    ) + seq!['\n']
}

/// One xxd row: the hex-dump row with two spaces and the ASCII gutter
/// before the newline.
pub open spec fn xxd_row(offset: nat, row: Seq<u8>) -> Seq<char>
    recommends
        row.len() <= ROW_BYTES,
{
    hex_rep(offset, 8) + seq![':', ' '] + hex_cols(row) + pad_cols(
        (ROW_BYTES - row.len()) as nat,
    ) + seq![' ', ' '] + gutter(row) + seq!['\n']
}

/// A whole buffer as consecutive hex-dump rows of sixteen bytes, the last
/// row possibly shorter; the address advances by each row's byte count.
pub open spec fn hexdump_body(offset: nat, bytes: Seq<u8>) -> Seq<char>
    decreases bytes.len(),
{
    if bytes.len() == 0 {
        Seq::<char>::empty()
    } else if bytes.len() <= ROW_BYTES {
        hexdump_row(offset, bytes)
    } else {
        hexdump_row(offset, bytes.take(ROW_BYTES as int)) + hexdump_body(
            (offset + ROW_BYTES) as nat,
            bytes.skip(ROW_BYTES as int),
        )
    }
}

/// A whole buffer as consecutive xxd rows, laid out as the hex dump is.
pub open spec fn xxd_body(offset: nat, bytes: Seq<u8>) -> Seq<char>
    decreases bytes.len(),
{
    if bytes.len() == 0 {
        Seq::<char>::empty()
    } else if bytes.len() <= ROW_BYTES {
        xxd_row(offset, bytes)
    } else {
        xxd_row(offset, bytes.take(ROW_BYTES as int)) + xxd_body(
            (offset + ROW_BYTES) as nat,
            bytes.skip(ROW_BYTES as int),
        )
    }
}

/// The body a format renders for a buffer starting at a running offset.
pub open spec fn body_of(fmt: PrintFormat, offset: nat, bytes: Seq<u8>) -> Seq<char> {
    match fmt {
        PrintFormat::Ascii => ascii_body(bytes),
        PrintFormat::HexDump => hexdump_body(offset, bytes),
        PrintFormat::Xxd => xxd_body(offset, bytes),
    }
}

/// A full rendered chunk: the color marker, the body, the color reset and
/// a final newline.
pub open spec fn rendered_chunk(
    fmt: PrintFormat,
    offset: nat,
    bytes: Seq<u8>,
    color: ChannelColor,
) -> Seq<char> {
    color_start_seq(color) + body_of(fmt, offset, bytes) + color_reset_seq() + seq!['\n']
}

/// Where the running offset stands after rendering `len` bytes: advanced
/// by the byte count for the addressed formats, untouched by the ASCII
/// transcript.
pub open spec fn offset_after_render(fmt: PrintFormat, offset: nat, len: nat) -> nat {
    match fmt {
        PrintFormat::Ascii => offset,
        PrintFormat::HexDump => offset + len,
        PrintFormat::Xxd => offset + len,
    }
}

/// The lowercase hexadecimal digit for a value below sixteen.
fn hex_digit_char(v: u8) -> (c: char)
    requires
        v < 16,
    ensures
        c == hex_digit(v),
{
    if v < 10 {
        (v + 0x30) as char
    } else {
        (v + 0x57) as char
    }
}

/// The uppercase hexadecimal digit for a value below sixteen.
fn hex_digit_upper_char(v: u8) -> (c: char)
    requires
        v < 16,
    ensures
        c == hex_digit_upper(v),
{
    if v < 10 {
        (v + 0x30) as char
    } else {
        (v + 0x37) as char
    }
}

/// Relies on `String::push`: appends one character at the end.
#[verifier::external_body]
fn push_char(s: &mut String, c: char)
    ensures
        final(s)@ == old(s)@.push(c),
{
    s.push(c);
}

/// Writes the hexadecimal numeral of `n` with at least `width` digits.
fn hex_rep_exec(n: usize, width: usize) -> (s: String)
    ensures
        s@ == hex_rep(n as nat, width as nat),
    decreases n, width,
{
    let mut s = if n < 16 && width <= 1 {
        String::new()
    } else {
        hex_rep_exec(n / 16, if width == 0 { 0 } else { width - 1 })
    };
    let d = hex_digit_char((n % 16) as u8);
    push_char(&mut s, d);
    proof {
        assert(s@ =~= hex_rep(n as nat, width as nat));
    }
    s
}

/// Appends one transcript byte: escaped as `[HH]`, or verbatim.
fn append_ascii_char(out: &mut String, b: u8)
    ensures
        final(out)@ == old(out)@ + ascii_char_render(b),
{
    if (b <= 0x1F || b == 0x7F) && !(b == 0x09 || b == 0x0A || b == 0x0C || b == 0x0D) {
        push_char(out, '[');
        push_char(out, hex_digit_upper_char(b / 16));
        push_char(out, hex_digit_upper_char(b % 16));
        push_char(out, ']');
    } else {
        push_char(out, b as char);
    }
    proof {
        assert(out@ =~= old(out)@ + ascii_char_render(b));
    }
}

/// One transcript byte on its own, as the ASCII format shows it.
pub fn render_ascii_char(b: u8) -> (s: String)
    ensures
        s@ == ascii_char_render(b),
{
    let mut s = String::new();
    append_ascii_char(&mut s, b);
    proof {
        assert(s@ =~= ascii_char_render(b));
    }
    s
}

/// The ASCII transcript of a whole buffer.
pub fn render_ascii(bytes: &Vec<u8>) -> (out: String)
    ensures
        out@ == ascii_body(bytes@),
{
    let mut out = String::new();
    let mut i: usize = 0;
    proof {
        assert(out@ =~= ascii_body(bytes@.take(0)));
    }
    while i < bytes.len()
        invariant
            0 <= i <= bytes@.len(),
            out@ == ascii_body(bytes@.take(i as int)),
        decreases bytes@.len() - i,
    {
        append_ascii_char(&mut out, bytes[i]);
        proof {
            assert(bytes@.take(i + 1).drop_last() =~= bytes@.take(i as int));
            assert(bytes@.take(i + 1).last() == bytes@[i as int]);
        }
        i += 1;
    }
    proof {
        assert(bytes@.take(bytes@.len() as int) =~= bytes@);
    }
    out
}

/// Appends the hex columns of `bytes[start..end]`.
fn append_hex_cols(out: &mut String, bytes: &Vec<u8>, start: usize, end: usize)
    requires
        start <= end <= bytes@.len(),
    ensures
        final(out)@ == old(out)@ + hex_cols(bytes@.subrange(start as int, end as int)),
{
    let mut j: usize = start;
    proof {
        assert(out@ =~= old(out)@ + hex_cols(bytes@.subrange(start as int, start as int)));
    }
    while j < end
        invariant
            start <= j <= end <= bytes@.len(),
            out@ == old(out)@ + hex_cols(bytes@.subrange(start as int, j as int)),
        decreases end - j,
    {
        let b = bytes[j];
        push_char(out, hex_digit_char(b / 16));
        push_char(out, hex_digit_char(b % 16));
        push_char(out, ' ');
        proof {
            assert(bytes@.subrange(start as int, j + 1).drop_last() =~= bytes@.subrange(
                start as int,
                j as int,
            ));
            assert(bytes@.subrange(start as int, j + 1).last() == bytes@[j as int]);
            assert(out@ =~= old(out)@ + hex_cols(bytes@.subrange(start as int, j + 1)));
        }
        j += 1;
    }
}

/// Appends three spaces for each missing byte of a short row.
fn append_pad(out: &mut String, missing: usize)
    ensures
        final(out)@ == old(out)@ + pad_cols(missing as nat),
{
    let mut k: usize = 0;
    proof {
        assert(out@ =~= old(out)@ + pad_cols(0));
    }
    while k < missing
        invariant
            0 <= k <= missing,
            out@ == old(out)@ + pad_cols(k as nat),
        decreases missing - k,
    {
        push_char(out, ' ');
        push_char(out, ' ');
        push_char(out, ' ');
        proof {
            assert(out@ =~= old(out)@ + pad_cols((k + 1) as nat));
        }
        k += 1;
    }
}

/// Appends the ASCII gutter of `bytes[start..end]`.
fn append_gutter(out: &mut String, bytes: &Vec<u8>, start: usize, end: usize)
    requires
        start <= end <= bytes@.len(),
    ensures
        final(out)@ == old(out)@ + gutter(bytes@.subrange(start as int, end as int)),
{
    let mut j: usize = start;
    proof {
        assert(out@ =~= old(out)@ + gutter(bytes@.subrange(start as int, start as int)));
    }
    while j < end
        invariant
            start <= j <= end <= bytes@.len(),
            out@ == old(out)@ + gutter(bytes@.subrange(start as int, j as int)),
        decreases end - j,
    {
        let b = bytes[j];
        if 0x20 <= b && b <= 0x7E {
            push_char(out, b as char);
        } else {
            push_char(out, '.');
        }
        proof {
            assert(bytes@.subrange(start as int, j + 1).drop_last() =~= bytes@.subrange(
                start as int,
                j as int,
            ));
            assert(bytes@.subrange(start as int, j + 1).last() == bytes@[j as int]);
            assert(out@ =~= old(out)@ + gutter(bytes@.subrange(start as int, j + 1)));
        }
        j += 1;
    }
}

/// Appends one hex-dump row for `bytes[start..end]` at the given address.
fn append_hexdump_row(out: &mut String, row_offset: usize, bytes: &Vec<u8>, start: usize, end: usize)
    requires
        start <= end <= bytes@.len(),
        end - start <= ROW_BYTES,
    ensures
        final(out)@ == old(out)@ + hexdump_row(
            row_offset as nat,
            bytes@.subrange(start as int, end as int),
        ),
{
    let prefix = hex_rep_exec(row_offset, 8);
    out.append(prefix.as_str());
    push_char(out, ':');
    push_char(out, ' ');
    append_hex_cols(out, bytes, start, end);
    append_pad(out, ROW_BYTES - (end - start));
    push_char(out, '\n');
    proof {
        assert(out@ =~= old(out)@ + hexdump_row(
            row_offset as nat,
            bytes@.subrange(start as int, end as int),
        ));
    }
}

/// Appends one xxd row for `bytes[start..end]` at the given address.
fn append_xxd_row(out: &mut String, row_offset: usize, bytes: &Vec<u8>, start: usize, end: usize)
    requires
        start <= end <= bytes@.len(),
        end - start <= ROW_BYTES,
    ensures
        final(out)@ == old(out)@ + xxd_row(
            row_offset as nat,
            bytes@.subrange(start as int, end as int),
        ),
{
    let prefix = hex_rep_exec(row_offset, 8);
    out.append(prefix.as_str());
    push_char(out, ':');
    push_char(out, ' ');
    append_hex_cols(out, bytes, start, end);
    append_pad(out, ROW_BYTES - (end - start));
    push_char(out, ' ');
    push_char(out, ' ');
    append_gutter(out, bytes, start, end);
    push_char(out, '\n');
    proof {
        assert(out@ =~= old(out)@ + xxd_row(
            row_offset as nat,
            bytes@.subrange(start as int, end as int),
        ));
    }
}

/// The hex dump of a whole buffer, rows addressed from `offset`.
pub fn render_hexdump(offset: usize, bytes: &Vec<u8>) -> (out: String)
    requires
        offset + bytes@.len() <= usize::MAX,
    ensures
        out@ == hexdump_body(offset as nat, bytes@),
{
    let mut out = String::new();
    let mut i: usize = 0;
    proof {
        assert(bytes@.skip(0) =~= bytes@);
        assert(out@ + hexdump_body(offset as nat, bytes@) =~= hexdump_body(offset as nat, bytes@));
    }
    while i < bytes.len()
        invariant
            0 <= i <= bytes@.len(),
            offset + bytes@.len() <= usize::MAX,
            hexdump_body(offset as nat, bytes@) == out@ + hexdump_body(
                (offset + i) as nat,
                bytes@.skip(i as int),
            ),
        decreases bytes@.len() - i,
    {
        let remaining = bytes.len() - i;
        let end = if remaining <= ROW_BYTES {
            bytes.len()
        } else {
            i + ROW_BYTES
        };
        proof {
            lemma_hexdump_body_step(offset as nat, bytes@, i as int, end as int);
        }
        append_hexdump_row(&mut out, offset + i, bytes, i, end);
        i = end;
    }
    proof {
        assert(hexdump_body((offset + i) as nat, bytes@.skip(i as int)) =~= Seq::<char>::empty());
        assert(out@ =~= out@ + Seq::<char>::empty());
    }
    out
}

/// The xxd dump of a whole buffer, rows addressed from `offset`.
pub fn render_xxd(offset: usize, bytes: &Vec<u8>) -> (out: String)
    requires
        offset + bytes@.len() <= usize::MAX,
    ensures
        out@ == xxd_body(offset as nat, bytes@),
{
    let mut out = String::new();
    let mut i: usize = 0;
    proof {
        assert(bytes@.skip(0) =~= bytes@);
        assert(out@ + xxd_body(offset as nat, bytes@) =~= xxd_body(offset as nat, bytes@));
    }
    while i < bytes.len()
        invariant
            0 <= i <= bytes@.len(),
            offset + bytes@.len() <= usize::MAX,
            xxd_body(offset as nat, bytes@) == out@ + xxd_body(
                (offset + i) as nat,
                bytes@.skip(i as int),
            ),
        decreases bytes@.len() - i,
    {
        let remaining = bytes.len() - i;
        let end = if remaining <= ROW_BYTES {
            bytes.len()
        } else {
            i + ROW_BYTES
        };
        proof {
            lemma_xxd_body_step(offset as nat, bytes@, i as int, end as int);
        }
        append_xxd_row(&mut out, offset + i, bytes, i, end);
        i = end;
    }
    proof {
        assert(xxd_body((offset + i) as nat, bytes@.skip(i as int)) =~= Seq::<char>::empty());
        assert(out@ =~= out@ + Seq::<char>::empty());
    }
    out
}

/// Unfolds one row of the hex-dump body at position `i` of the buffer.
proof fn lemma_hexdump_body_step(offset: nat, bytes: Seq<u8>, i: int, end: int)
    requires
        0 <= i < bytes.len(),
        end == if bytes.len() - i <= ROW_BYTES {
            bytes.len() as int
        } else {
            i + ROW_BYTES
        },
    ensures
        hexdump_body((offset + i) as nat, bytes.skip(i)) == hexdump_row(
            (offset + i) as nat,
            bytes.subrange(i, end),
        ) + hexdump_body((offset + end) as nat, bytes.skip(end)),
{
    let rest = bytes.skip(i);
    if bytes.len() - i <= ROW_BYTES {
        assert(rest =~= bytes.subrange(i, end));
        assert(bytes.skip(end) =~= Seq::<u8>::empty());
        assert(hexdump_body((offset + end) as nat, bytes.skip(end)) =~= Seq::<char>::empty());
        assert(hexdump_row((offset + i) as nat, bytes.subrange(i, end)) + Seq::<char>::empty()
            =~= hexdump_row((offset + i) as nat, bytes.subrange(i, end)));
    } else {
        assert(rest.take(ROW_BYTES as int) =~= bytes.subrange(i, end));
        assert(rest.skip(ROW_BYTES as int) =~= bytes.skip(end));
    }
}

/// Unfolds one row of the xxd body at position `i` of the buffer.
proof fn lemma_xxd_body_step(offset: nat, bytes: Seq<u8>, i: int, end: int)
    requires
        0 <= i < bytes.len(),
        end == if bytes.len() - i <= ROW_BYTES {
            bytes.len() as int
        } else {
            i + ROW_BYTES
        },
    ensures
        xxd_body((offset + i) as nat, bytes.skip(i)) == xxd_row(
            (offset + i) as nat,
            bytes.subrange(i, end),
        ) + xxd_body((offset + end) as nat, bytes.skip(end)),
{
    let rest = bytes.skip(i);
    if bytes.len() - i <= ROW_BYTES {
        assert(rest =~= bytes.subrange(i, end));
        assert(bytes.skip(end) =~= Seq::<u8>::empty());
        assert(xxd_body((offset + end) as nat, bytes.skip(end)) =~= Seq::<char>::empty());
        assert(xxd_row((offset + i) as nat, bytes.subrange(i, end)) + Seq::<char>::empty()
            =~= xxd_row((offset + i) as nat, bytes.subrange(i, end)));
    } else {
        assert(rest.take(ROW_BYTES as int) =~= bytes.subrange(i, end));
        assert(rest.skip(ROW_BYTES as int) =~= bytes.skip(end));
    }
}

/// Renders one flushed chunk in the selected format, bracketed by the
/// channel color and followed by a newline, and advances the running
/// offset by the byte count for the addressed formats.
pub fn render_chunk(bytes: &Vec<u8>, offset: &mut usize, fmt: &PrintFormat, color: ChannelColor)
    -> (out: String)
    requires
        *old(offset) + bytes@.len() <= usize::MAX,
    ensures
        out@ == rendered_chunk(*fmt, *old(offset) as nat, bytes@, color),
        *final(offset) as nat == offset_after_render(*fmt, *old(offset) as nat, bytes@.len()),
{
    let mut out = String::from_str(color_start(color));
    match fmt {
        PrintFormat::Ascii => {
            let body = render_ascii(bytes);
            out.append(body.as_str());
        },
        PrintFormat::HexDump => {
            let body = render_hexdump(*offset, bytes);
            out.append(body.as_str());
            *offset = *offset + bytes.len();
        },
        PrintFormat::Xxd => {
            let body = render_xxd(*offset, bytes);
            out.append(body.as_str());
            *offset = *offset + bytes.len();
        },
    }
    out.append(color_reset());
    push_char(&mut out, '\n');
    proof {
        assert(out@ =~= rendered_chunk(*fmt, *old(offset) as nat, bytes@, color));
    }
    out
}

} // verus!
