//! The header as text for people: one line per field, integers in lower-case
//! hexadecimal, character codes as their characters.

use crate::layout::HeaderView;
use vstd::prelude::*;
use vstd::string::StringExecFns;

verus! {

/// `String::push`: appends one character to the string.
pub assume_specification[ String::push ](s: &mut String, c: char)
    ensures
        final(s)@ == old(s)@.push(c),
;

/// The character of the hexadecimal digit `d`.
pub open spec fn hex_digit(d: int) -> char
    recommends
        0 <= d < 16,
{
    if d < 10 {
        ((0x30 + d) as u8) as char
    } else {
        ((0x61 + d - 10) as u8) as char
    }
}

/// The hexadecimal digits of `v`, without leading zeros.
pub open spec fn hex(v: nat) -> Seq<char>
    decreases v,
{
    if v < 16 {
        seq![hex_digit(v as int)]
    } else {
        hex(v / 16).push(hex_digit((v % 16) as int))
    }
}

/// The character with code `b`.
pub open spec fn code(b: u8) -> Seq<char> {
    seq![b as char]
}

/// The text that shows the header `h`.
pub open spec fn rendered(h: HeaderView) -> Seq<char> {
    "cfg flags: "@ + hex(h.cfg_flags as nat) + "\n"@
        + "clock rate: "@ + hex(h.clck_rate as nat) + "\n"@
        + "lu version: "@ + hex(h.lu_ver as nat) + "\n"@
        + "boot address: "@ + hex(h.boot_addr as nat) + "\n"@
        + "crc: ("@ + hex(h.crc.0 as nat) + "-"@ + hex(h.crc.1 as nat) + ")\n"@
        + "title: "@ + h.title + "\n"@
        + "category: "@ + code(h.category) + "\n"@
        + "category: "@ + code(h.unique[0]) + code(h.unique[1]) + "\n"@
        + "destination: "@ + code(h.destination) + "\n"@
        + "version: "@ + hex(h.version as nat) + "\n"@
}

/// The character of the hexadecimal digit `d`.
fn hex_digit_char(d: u32) -> (c: char)
    requires
        d < 16,
    ensures
        c == hex_digit(d as int),
{
    if d < 10 {
        ((0x30 + d) as u8) as char
    } else {
        ((0x61 + d - 10) as u8) as char
    }
}

/// Appends the hexadecimal digits of `v`.
pub fn push_hex(s: &mut String, v: u32)
    ensures
        final(s)@ == old(s)@ + hex(v as nat),
    decreases v,
{
    if v >= 16 {
        push_hex(s, v / 16);
    }
    s.push(hex_digit_char(v % 16));
    assert(s@ =~= old(s)@ + hex(v as nat));
}

/// Appends a line that shows the number `v` under the name `label`.
pub fn push_hex_line(s: &mut String, label: &str, v: u32)
    ensures
        final(s)@ == old(s)@ + label@ + hex(v as nat) + "\n"@,
{
    s.append(label);
    push_hex(s, v);
    s.append("\n");
}

} // verus!
