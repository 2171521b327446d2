//! Hexadecimal text of bytes.

use vstd::prelude::*;

use crate::text::{is_lower_hex, lower_hex};

verus! {

/// The lowercase digit of a half byte.
pub open spec fn nibble_char(n: int) -> char {
    if n < 10 {
        (48 + n) as char
    } else {
        (87 + n) as char
    }
}

/// The half byte that a lowercase digit stands for.
pub open spec fn nibble_value(c: char) -> int {
    if c <= '9' {
        c as u32 - 48
    } else {
        c as u32 - 87
    }
}

/// The half byte at position `j` of the bytes, high half first.
pub open spec fn nibble_at(bytes: Seq<u8>, j: int) -> int {
    if j % 2 == 0 {
        bytes[j / 2] as int / 16
    } else {
        bytes[j / 2] as int % 16
    }
}

/// The lowercase hexadecimal digits of the bytes, two for each byte.
#[verifier::opaque]
pub open spec fn hex_of(bytes: Seq<u8>) -> Seq<char> {
    Seq::new(2 * bytes.len(), |j: int| nibble_char(nibble_at(bytes, j)))
}

/// The bytes that an even row of lowercase digits stands for.
#[verifier::opaque]
pub open spec fn bytes_of_hex(s: Seq<char>) -> Seq<u8> {
    Seq::new(
        s.len() / 2,
        |i: int| (16 * nibble_value(s[2 * i]) + nibble_value(s[2 * i + 1])) as u8,
    )
}

/// A half byte has a lowercase digit, which stands for it.
pub proof fn nibble_round_trip(n: int)
    requires
        0 <= n < 16,
    ensures
        is_lower_hex(nibble_char(n)),
        nibble_value(nibble_char(n)) == n,
{
}

/// A lowercase digit is the digit of the half byte that it stands for.
pub proof fn digit_round_trip(c: char)
    requires
        is_lower_hex(c),
    ensures
        0 <= nibble_value(c) < 16,
        nibble_char(nibble_value(c)) == c,
{
}

/// The digits of bytes are lowercase, two for each byte, and are read back as
/// the bytes.
pub proof fn hex_round_trip(bytes: Seq<u8>)
    ensures
        hex_of(bytes).len() == 2 * bytes.len(),
        forall|j: int| 0 <= j < hex_of(bytes).len() ==> is_lower_hex(#[trigger] hex_of(bytes)[j]),
        bytes_of_hex(hex_of(bytes)) == bytes,
{
    reveal(hex_of);
    reveal(bytes_of_hex);
    let s = hex_of(bytes);
    assert forall|j: int| 0 <= j < s.len() implies is_lower_hex(#[trigger] s[j]) by {
        nibble_round_trip(nibble_at(bytes, j));
    }
    assert forall|i: int| 0 <= i < bytes.len() implies bytes_of_hex(s)[i] == bytes[i] by {
        nibble_round_trip(bytes[i] as int / 16);
        nibble_round_trip(bytes[i] as int % 16);
        assert((2 * i) / 2 == i && (2 * i + 1) / 2 == i);
        assert(s[2 * i] == nibble_char(bytes[i] as int / 16));
        assert(s[2 * i + 1] == nibble_char(bytes[i] as int % 16));
    }
    assert(bytes_of_hex(s) =~= bytes);
}

/// An even row of lowercase digits is the hexadecimal form of the bytes that
/// it stands for.
pub proof fn bytes_round_trip(s: Seq<char>)
    requires
        s.len() % 2 == 0,
        forall|j: int| 0 <= j < s.len() ==> is_lower_hex(#[trigger] s[j]),
    ensures
        hex_of(bytes_of_hex(s)) == s,
        bytes_of_hex(s).len() == s.len() / 2,
{
    reveal(hex_of);
    reveal(bytes_of_hex);
    let b = bytes_of_hex(s);
    assert forall|j: int| 0 <= j < s.len() implies hex_of(b)[j] == s[j] by {
        let i = j / 2;
        digit_round_trip(s[2 * i]);
        digit_round_trip(s[2 * i + 1]);
        let hi = nibble_value(s[2 * i]);
        let lo = nibble_value(s[2 * i + 1]);
        assert(b[i] as int == 16 * hi + lo);
        assert(b[i] as int / 16 == hi && b[i] as int % 16 == lo);
        if j % 2 == 0 {
            assert(j == 2 * i);
        } else {
            assert(j == 2 * i + 1);
        }
    }
    assert(hex_of(b) =~= s);
}

/// The digit of a half byte.
pub fn nibble_digit(n: u8) -> (r: char)
    requires
        n < 16,
    ensures
        r == nibble_char(n as int),
{
    if n < 10 {
        let u: u8 = 48 + n;
        u as char
    } else {
        let u: u8 = 87 + n;
        u as char
    }
}

/// The half byte of a digit.
pub fn digit_nibble(c: char) -> (r: u8)
    requires
        is_lower_hex(c),
    ensures
        r == nibble_value(c),
        r < 16,
{
    let u: u32 = c as u32;
    if c <= '9' {
        (u - 48) as u8
    } else {
        (u - 87) as u8
    }
}

/// The half byte at a position of the bytes.
pub fn nibble(bytes: &[u8], j: usize) -> (r: u8)
    requires
        j < 2 * bytes@.len(),
    ensures
        r == nibble_at(bytes@, j as int),
        r < 16,
{
    let b: u8 = bytes[j / 2];
    if j % 2 == 0 {
        b / 16
    } else {
        b % 16
    }
}

/// Appends the hexadecimal digits of the bytes.
pub fn push_hex(out: &mut String, bytes: &[u8])
    ensures
        final(out)@ == old(out)@ + hex_of(bytes@),
{
    let mut i: usize = 0;
    proof {
        reveal(hex_of);
    }
    assert(hex_of(bytes@).take(0) =~= Seq::<char>::empty());
    assert(out@ =~= old(out)@ + hex_of(bytes@).take(0));
    while i < bytes.len()
        invariant
            i <= bytes@.len(),
            out@ == old(out)@ + hex_of(bytes@).take(2 * i),
        decreases bytes@.len() - i,
    {
        let b: u8 = bytes[i];
        out.push(nibble_digit(b / 16));
        out.push(nibble_digit(b % 16));
        proof {
            reveal(hex_of);
            let h = hex_of(bytes@);
            assert((2 * i) / 2 == i && (2 * i + 1) / 2 == i);
            assert(h.take(2 * (i + 1)) =~= h.take(2 * i).push(h[2 * i]).push(h[2 * i + 1]));
            assert(out@ =~= old(out)@ + h.take(2 * (i + 1)));
        }
        i += 1;
    }
    proof {
        reveal(hex_of);
    }
    assert(hex_of(bytes@).take(2 * i) =~= hex_of(bytes@));
}

/// The 32 bytes that 64 lowercase digits stand for.
pub fn read_hex32(chars: &[char]) -> (r: [u8; 32])
    requires
        chars@.len() == 64,
        forall|j: int| 0 <= j < 64 ==> is_lower_hex(#[trigger] chars@[j]),
    ensures
        r@ == bytes_of_hex(chars@),
{
    let mut out: [u8; 32] = [0; 32];
    let mut i: usize = 0;
    while i < 32
        invariant
            i <= 32,
            chars@.len() == 64,
            forall|j: int| 0 <= j < 64 ==> is_lower_hex(#[trigger] chars@[j]),
            forall|k: int| 0 <= k < i ==> #[trigger] out@[k] == bytes_of_hex(chars@)[k],
        decreases 32 - i,
    {
        let hi: u8 = digit_nibble(chars[2 * i]);
        let lo: u8 = digit_nibble(chars[2 * i + 1]);
        out[i] = 16 * hi + lo;
        proof {
            reveal(bytes_of_hex);
        }
        i += 1;
    }
    proof {
        reveal(bytes_of_hex);
    }
    assert(out@ =~= bytes_of_hex(chars@));
    out
}

/// Whether every character from `from` on is a lowercase digit.
pub fn all_lower_hex(chars: &[char], from: usize) -> (b: bool)
    requires
        from <= chars@.len(),
    ensures
        b == forall|j: int| from <= j < chars@.len() ==> is_lower_hex(#[trigger] chars@[j]),
{
    let mut i: usize = from;
    while i < chars.len()
        invariant
            from <= i <= chars@.len(),
            forall|j: int| from <= j < i ==> is_lower_hex(#[trigger] chars@[j]),
        decreases chars@.len() - i,
    {
        if !lower_hex(chars[i]) {
            return false;
        }
        i += 1;
    }
    true
}

} // verus!
