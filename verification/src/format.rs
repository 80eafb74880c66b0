//! The output format selector and its case-insensitive textual parser.

use vstd::prelude::*;

verus! {

/// The console rendering style, fixed at startup and shared read-only by
/// both directions of the relay.
#[derive(Clone, Copy, Debug, PartialEq, Eq, Structural)]
pub enum PrintFormat {
    /// A live transcript: printable bytes verbatim, other bytes escaped.
    Ascii,
    /// Addressed rows of sixteen two-digit hex values.
    HexDump,
    /// Hex rows followed by an ASCII gutter.
    Xxd,
}

/// ASCII upper-casing of one character; characters outside `a..=z` are
/// unchanged.
pub open spec fn upper_char(c: char) -> char {
    if 97 <= c as u32 && c as u32 <= 122 {
        (((c as u32) - 32) as u8) as char
    } else {
        c
    }
}

/// Character sequences that are equal once both are ASCII upper-cased.
pub open spec fn eq_ignore_ascii_case(a: Seq<char>, b: Seq<char>) -> bool {
    a.len() == b.len() && forall|i: int| 0 <= i < a.len() ==> upper_char(a[i]) == upper_char(b[i])
}

/// Which format, if any, a selector string names, matched without regard
/// to ASCII case.
pub open spec fn format_of_text(s: Seq<char>) -> Option<PrintFormat> {
    if eq_ignore_ascii_case(s, "ascii"@) {
        Some(PrintFormat::Ascii)
    } else if eq_ignore_ascii_case(s, "hexdump"@) {
        Some(PrintFormat::HexDump)
    } else if eq_ignore_ascii_case(s, "xxd"@) {
        Some(PrintFormat::Xxd)
    } else {
        None
    }
}

/// ASCII-case-insensitive equality of two selector strings.
fn eq_ignore_case(s: &str, kw: &str) -> (r: bool)
    ensures
        r == eq_ignore_ascii_case(s@, kw@),
{
    let n = s.unicode_len();
    if n != kw.unicode_len() {
        return false;
    }
    let mut i: usize = 0;
    while i < n
        invariant
            n == s@.len(),
            n == kw@.len(),
            0 <= i <= n,
            forall|j: int| 0 <= j < i ==> upper_char(s@[j]) == upper_char(kw@[j]),
        decreases n - i,
    {
        let a = upper_char_exec(s.get_char(i));
        let b = upper_char_exec(kw.get_char(i));
        if a != b {
            return false;
        }
        i += 1;
    }
    true
}

/// ASCII upper-casing of one character.
fn upper_char_exec(c: char) -> (r: char)
    ensures
        r == upper_char(c),
{
    let n = c as u32;
    if 97 <= n && n <= 122 {
        ((n - 32) as u8) as char
    } else {
        c
    }
}

impl PrintFormat {
    /// Parses a format selector, ignoring ASCII case: `ascii`, `hexdump`
    /// or `xxd`; every other string is rejected.
    pub fn from_text(s: &str) -> (r: Option<PrintFormat>)
        ensures
            r == format_of_text(s@),
    {
        if eq_ignore_case(s, "ascii") {
            Some(PrintFormat::Ascii)
        } else if eq_ignore_case(s, "hexdump") {
            Some(PrintFormat::HexDump)
        } else if eq_ignore_case(s, "xxd") {
            Some(PrintFormat::Xxd)
        } else {
            None
        }
    }
}

} // verus!
