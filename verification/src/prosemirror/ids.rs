//! Random version-4 UUIDs, which Docmost needs on every mention node (it
//! tells mentions apart by their id).

use vstd::prelude::*;
use crate::text::push_char;

verus! {

/// A lowercase hexadecimal digit.
pub open spec fn hex_digit(d: u8) -> char {
    (if d < 10 {
        (48 + d) as u8
    } else {
        (87 + d) as u8
    }) as char
}

/// A byte as two lowercase hexadecimal digits (`{:02x}`).
pub open spec fn hex2(b: u8) -> Seq<char> {
    seq![hex_digit(b / 16), hex_digit(b % 16)]
}

/// The canonical text of the version-4 UUID made from 16 bytes: the
/// version nibble of byte 6 set to 4, the variant bits of byte 8 to `10`.
pub open spec fn uuid_text(b: Seq<u8>) -> Seq<char> {
    let v6 = ((b[6] & 0x0f) | 0x40) as u8;
    let v8 = ((b[8] & 0x3f) | 0x80) as u8;
    hex2(b[0]) + hex2(b[1]) + hex2(b[2]) + hex2(b[3]) + seq!['-'] + hex2(b[4]) + hex2(b[5])
        + seq!['-'] + hex2(v6) + hex2(b[7]) + seq!['-'] + hex2(v8) + hex2(b[9]) + seq!['-']
        + hex2(b[10]) + hex2(b[11]) + hex2(b[12]) + hex2(b[13]) + hex2(b[14]) + hex2(b[15])
}

/// A version-4 UUID's text, from some 16 bytes.
pub open spec fn is_uuid_v4(s: Seq<char>) -> bool {
    exists|b: Seq<u8>| b.len() == 16 && s == uuid_text(b)
}

fn hex_digit_exec(d: u8) -> (c: char)
    requires
        d < 16,
    ensures
        c == hex_digit(d),
{
    let x: u8 = if d < 10 {
        48 + d
    } else {
        87 + d
    };
    x as char
}

fn push_hex(s: &mut String, b: u8)
    ensures
        final(s)@ == old(s)@ + hex2(b),
{
    push_char(s, hex_digit_exec(b / 16));
    push_char(s, hex_digit_exec(b % 16));
    assert(s@ =~= old(s)@ + hex2(b));
}

/// The text of the version-4 UUID made from `bytes`.
pub fn uuid_v4(bytes: [u8; 16]) -> (r: String)
    ensures
        r@ == uuid_text(bytes@),
{
    let v6: u8 = (bytes[6] & 0x0f) | 0x40;
    let v8: u8 = (bytes[8] & 0x3f) | 0x80;
    let mut s = String::new();
    push_hex(&mut s, bytes[0]);
    push_hex(&mut s, bytes[1]);
    push_hex(&mut s, bytes[2]);
    push_hex(&mut s, bytes[3]);
    push_char(&mut s, '-');
    push_hex(&mut s, bytes[4]);
    push_hex(&mut s, bytes[5]);
    push_char(&mut s, '-');
    push_hex(&mut s, v6);
    push_hex(&mut s, bytes[7]);
    push_char(&mut s, '-');
    push_hex(&mut s, v8);
    push_hex(&mut s, bytes[9]);
    push_char(&mut s, '-');
    push_hex(&mut s, bytes[10]);
    push_hex(&mut s, bytes[11]);
    push_hex(&mut s, bytes[12]);
    push_hex(&mut s, bytes[13]);
    push_hex(&mut s, bytes[14]);
    push_hex(&mut s, bytes[15]);
    assert(s@ =~= uuid_text(bytes@));
    s
}

/// A random version-4 UUID.
pub fn random_uuid() -> (r: String)
    ensures
        is_uuid_v4(r@),
{
    let mut b = [0u8; 16];
    crate::random::fill_random(&mut b);
    let r = uuid_v4(b);
    assert(b@.len() == 16);
    r
}

} // verus!
