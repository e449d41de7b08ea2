//! Base64.

use vstd::prelude::*;

use crate::text::chars_of;

pub mod laws;

verus! {

/// The six bits that a letter of the alphabet stands for.
pub open spec fn sextet(c: char) -> Option<u8> {
    let n = c as u32;
    if 0x41 <= n <= 0x5a {
        Some((n - 0x41) as u8)
    } else if 0x61 <= n <= 0x7a {
        Some((n - 0x61 + 26) as u8)
    } else if 0x30 <= n <= 0x39 {
        Some((n - 0x30 + 52) as u8)
    } else if c == '+' {
        Some(62)
    } else if c == '/' {
        Some(63)
    } else {
        None
    }
}

/// What is read of a text so far: the bytes, the letters of the group that is
/// begun, the bits left over from the last of them, and the padding behind it.
pub struct Reading {
    pub bytes: Seq<u8>,
    pub letters: int,
    pub left: u8,
    pub pads: int,
}

/// The reading after one more letter.
pub open spec fn read_letter(r: Reading, v: u8) -> Reading {
    if r.letters == 0 {
        Reading { letters: 1, left: v, pads: 0, ..r }
    } else if r.letters == 1 {
        Reading { bytes: r.bytes.push((r.left * 4 + v / 16) as u8), letters: 2, left: (v % 16) as u8, pads: 0 }
    } else if r.letters == 2 {
        Reading { bytes: r.bytes.push((r.left * 16 + v / 4) as u8), letters: 3, left: (v % 4) as u8, pads: 0 }
    } else {
        Reading { bytes: r.bytes.push((r.left * 64 + v) as u8), letters: 0, left: 0, pads: 0 }
    }
}

/// The bytes of the rest of a text behind a reading. Characters outside the
/// alphabet are passed over; padding that completes a group ends the text, and a
/// group that is never completed is an error.
pub open spec fn decoded_from(s: Seq<char>, r: Reading) -> Option<Seq<u8>>
    decreases s.len(),
{
    if s.len() == 0 {
        if r.letters == 0 {
            Some(r.bytes)
        } else {
            None
        }
    } else if s[0] == '=' {
        if r.letters >= 2 && r.letters + r.pads + 1 >= 4 {
            Some(r.bytes)
        } else if r.letters >= 2 {
            decoded_from(s.skip(1), Reading { pads: r.pads + 1, ..r })
        } else {
            decoded_from(s.skip(1), r)
        }
    } else {
        match sextet(s[0]) {
            Some(v) => decoded_from(s.skip(1), read_letter(r, v)),
            None => decoded_from(s.skip(1), r),
        }
    }
}

pub open spec fn all_ascii(s: Seq<char>) -> bool {
    forall|i: int| 0 <= i < s.len() ==> (#[trigger] s[i]) as u32 <= 0x7f
}

/// The bytes that a text of ASCII characters stands for.
pub open spec fn decoded(s: Seq<char>) -> Option<Seq<u8>> {
    if all_ascii(s) {
        decoded_from(s, Reading { bytes: Seq::empty(), letters: 0, left: 0, pads: 0 })
    } else {
        None
    }
}

fn sextet_of(c: char) -> (r: Option<u8>)
    ensures
        r == sextet(c),
        match r {
            Some(v) => v < 64,
            None => true,
        },
{
    let n: u32 = c as u32;
    if 0x41 <= n && n <= 0x5a {
        Some((n - 0x41) as u8)
    } else if 0x61 <= n && n <= 0x7a {
        Some((n - 0x61 + 26) as u8)
    } else if 0x30 <= n && n <= 0x39 {
        Some((n - 0x30 + 52) as u8)
    } else if c == '+' {
        Some(62)
    } else if c == '/' {
        Some(63)
    } else {
        None
    }
}

pub open spec fn opt_bytes(r: Option<Vec<u8>>) -> Option<Seq<u8>> {
    match r {
        Some(v) => Some(v@),
        None => None,
    }
}

pub fn decode(s: &str) -> (r: Option<Vec<u8>>)
    ensures
        opt_bytes(r) == decoded(s@),
{
    let a = chars_of(s);
    let mut k: usize = 0;
    while k < a.len()
        invariant
            a@ == s@,
            k <= a@.len(),
            forall|i: int| 0 <= i < k ==> (#[trigger] s@[i]) as u32 <= 0x7f,
        decreases a.len() - k,
    {
        if a[k] as u32 > 0x7f {
            assert(s@[k as int] as u32 > 0x7f);
            return None;
        }
        k += 1;
    }
    let mut bytes: Vec<u8> = Vec::new();
    let mut letters: u8 = 0;
    let mut left: u8 = 0;
    let mut pads: u8 = 0;
    let mut i: usize = 0;
    assert(a@.skip(0) =~= a@);
    assert(bytes@ =~= Seq::empty());
    while i < a.len()
        invariant
            a@ == s@,
            all_ascii(s@),
            i <= a@.len(),
            letters < 4,
            left < 64,
            letters == 2 ==> left < 16,
            letters == 3 ==> left < 4,
            pads <= 1,
            letters >= 2 ==> letters + pads < 4,
            decoded_from(
                a@.skip(i as int),
                Reading { bytes: bytes@, letters: letters as int, left, pads: pads as int },
            ) == decoded(s@),
        decreases a.len() - i,
    {
        assert(a@.skip(i as int).skip(1) =~= a@.skip(i + 1));
        if a[i] == '=' {
            if letters >= 2 {
                if letters + pads + 1 >= 4 {
                    return Some(bytes);
                }
                pads += 1;
            }
        } else {
            match sextet_of(a[i]) {
                Some(v) => {
                    if letters == 0 {
                        letters = 1;
                        left = v;
                    } else if letters == 1 {
                        bytes.push(left * 4 + v / 16);
                        letters = 2;
                        left = v % 16;
                    } else if letters == 2 {
                        bytes.push(left * 16 + v / 4);
                        letters = 3;
                        left = v % 4;
                    } else {
                        bytes.push(left * 64 + v);
                        letters = 0;
                        left = 0;
                    }
                    pads = 0;
                },
                None => {},
            }
        }
        i += 1;
    }
    assert(a@.skip(i as int) =~= Seq::empty());
    if letters == 0 {
        Some(bytes)
    } else {
        None
    }
}

}
