//! What reading base 64 promises.

use vstd::prelude::*;

use crate::b64::{decoded_from, read_letter, sextet, Reading};

verus! {

/// The alphabet: capital letters, small letters, digits, and two signs.
pub proof fn the_alphabet(i: int)
    ensures
        0 <= i < 26 ==> sextet((0x41 + i) as char) == Some(i as u8),
        0 <= i < 26 ==> sextet((0x61 + i) as char) == Some((26 + i) as u8),
        0 <= i < 10 ==> sextet((0x30 + i) as char) == Some((52 + i) as u8),
        sextet('+') == Some(62u8),
        sextet('/') == Some(63u8),
        sextet('=') is None,
        sextet(' ') is None,
        sextet('-') is None,
{
}

/// A reading at the start of a group.
pub open spec fn at_start(bytes: Seq<u8>) -> Reading {
    Reading { bytes, letters: 0, left: 0, pads: 0 }
}

/// A letter of the alphabet is read where it stands.
pub proof fn a_letter_is_read(c: char, v: u8, rest: Seq<char>, r: Reading)
    requires
        sextet(c) == Some(v),
    ensures
        v < 64,
        decoded_from(seq![c] + rest, r) == decoded_from(rest, read_letter(r, v)),
{
    let s = seq![c] + rest;
    assert(s[0] == c);
    assert(s.skip(1) =~= rest);
}

proof fn bits_are_cut(a: u8, b: u8, c: u8, d: u8)
    requires
        a < 64,
        b < 64,
        c < 64,
        d < 64,
    ensures
        a * 4 + b / 16 < 256,
        (b % 16) * 16 + c / 4 < 256,
        (c % 4) * 64 + d < 256,
        (a * 4 + b / 16) * 0x10000 + ((b % 16) * 16 + c / 4) * 0x100 + ((c % 4) * 64 + d) == a * 0x40000 + b * 0x1000
            + c * 0x40 + d,
        a * 4 + b / 16 == (a * 64 + b) / 16,
        (a * 4 + b / 16) * 0x100 + ((b % 16) * 16 + c / 4) == (a * 0x1000 + b * 0x40 + c) / 4,
{
}

/// Four letters are three bytes: the same bits, cut otherwise.
pub proof fn four_letters_are_three_bytes(
    letters: (char, char, char, char),
    bits: (u8, u8, u8, u8),
    rest: Seq<char>,
    bytes: Seq<u8>,
) -> (r: (u8, u8, u8))
    requires
        sextet(letters.0) == Some(bits.0),
        sextet(letters.1) == Some(bits.1),
        sextet(letters.2) == Some(bits.2),
        sextet(letters.3) == Some(bits.3),
    ensures
        decoded_from(seq![letters.0] + (seq![letters.1] + (seq![letters.2] + (seq![letters.3] + rest))), at_start(bytes))
            == decoded_from(rest, at_start(bytes.push(r.0).push(r.1).push(r.2))),
        r.0 * 0x10000 + r.1 * 0x100 + r.2 == bits.0 * 0x40000 + bits.1 * 0x1000 + bits.2 * 0x40 + bits.3,
{
    let s3 = seq![letters.3] + rest;
    let s2 = seq![letters.2] + s3;
    let s1 = seq![letters.1] + s2;
    let r0 = at_start(bytes);
    let r1 = read_letter(r0, bits.0);
    let r2 = read_letter(r1, bits.1);
    let r3 = read_letter(r2, bits.2);
    a_letter_is_read(letters.0, bits.0, s1, r0);
    a_letter_is_read(letters.1, bits.1, s2, r1);
    a_letter_is_read(letters.2, bits.2, s3, r2);
    a_letter_is_read(letters.3, bits.3, rest, r3);
    bits_are_cut(bits.0, bits.1, bits.2, bits.3);
    let a = (bits.0 * 4 + bits.1 / 16) as u8;
    let b = ((bits.1 % 16) as u8 * 16 + bits.2 / 4) as u8;
    let c = ((bits.2 % 4) as u8 * 64 + bits.3) as u8;
    (a, b, c)
}

/// Padding ends a text with the bytes that are whole by then: one behind two letters, two
/// behind three.
pub proof fn padding_ends_a_text(letters: (char, char, char), bits: (u8, u8, u8), rest: Seq<char>, bytes: Seq<u8>) -> (r: (
    u8,
    u8,
))
    requires
        sextet(letters.0) == Some(bits.0),
        sextet(letters.1) == Some(bits.1),
        sextet(letters.2) == Some(bits.2),
    ensures
        decoded_from(seq![letters.0] + (seq![letters.1] + (seq!['='] + (seq!['='] + rest))), at_start(bytes)) == Some(
            bytes.push(r.0),
        ),
        decoded_from(seq![letters.0] + (seq![letters.1] + (seq![letters.2] + (seq!['='] + rest))), at_start(bytes))
            == Some(bytes.push(r.0).push(r.1)),
        r.0 == (bits.0 * 64 + bits.1) / 16,
        r.0 * 0x100 + r.1 == (bits.0 * 0x1000 + bits.1 * 0x40 + bits.2) / 4,
        decoded_from(Seq::empty(), at_start(bytes)) == Some(bytes),
        decoded_from(seq![letters.0] + Seq::empty(), at_start(bytes)) is None,
{
    let pad = seq!['='] + rest;
    let pads = seq!['='] + pad;
    let r0 = at_start(bytes);
    let r1 = read_letter(r0, bits.0);
    let r2 = read_letter(r1, bits.1);
    let r3 = read_letter(r2, bits.2);
    a_letter_is_read(letters.0, bits.0, seq![letters.1] + pads, r0);
    a_letter_is_read(letters.1, bits.1, pads, r1);
    a_letter_is_read(letters.0, bits.0, seq![letters.1] + (seq![letters.2] + pad), r0);
    a_letter_is_read(letters.1, bits.1, seq![letters.2] + pad, r1);
    a_letter_is_read(letters.2, bits.2, pad, r2);
    a_letter_is_read(letters.0, bits.0, Seq::empty(), r0);
    assert(pads[0] == '=' && pad[0] == '=');
    assert(pads.skip(1) =~= pad);
    let half = Reading { pads: 1, ..r2 };
    assert(decoded_from(pads, r2) == decoded_from(pad, half));
    assert(decoded_from(pad, half) == Some(half.bytes));
    assert(decoded_from(pad, r3) == Some(r3.bytes));
    bits_are_cut(bits.0, bits.1, bits.2, 0);
    let a = (bits.0 * 4 + bits.1 / 16) as u8;
    let b = ((bits.1 % 16) as u8 * 16 + bits.2 / 4) as u8;
    (a, b)
}

} // verus!
