//! Values as text: a commit identity in hexadecimal, whole or shortened, and
//! a timestamp in decimal.

use crate::model::{CommitId, ID_BYTES};
use vstd::prelude::*;

verus! {

/// Number of hexadecimal digits in the short form of a commit identity.
pub const SHORT_ID_DIGITS: usize = 7;

/// The lower-case hexadecimal digit of a value below sixteen.
pub open spec fn hex_digit(n: int) -> char {
    if n == 0 {
        '0'
    } else if n == 1 {
        '1'
    } else if n == 2 {
        '2'
    } else if n == 3 {
        '3'
    } else if n == 4 {
        '4'
    } else if n == 5 {
        '5'
    } else if n == 6 {
        '6'
    } else if n == 7 {
        '7'
    } else if n == 8 {
        '8'
    } else if n == 9 {
        '9'
    } else if n == 10 {
        'a'
    } else if n == 11 {
        'b'
    } else if n == 12 {
        'c'
    } else if n == 13 {
        'd'
    } else if n == 14 {
        'e'
    } else {
        'f'
    }
}

/// The half of a byte that the hexadecimal digit at position `at` of a text
/// shows: the high half at even positions, the low half at odd ones.
pub open spec fn nibble_at(bytes: Seq<u8>, at: int) -> int {
    if at % 2 == 0 {
        bytes[at / 2] as int / 16
    } else {
        bytes[at / 2] as int % 16
    }
}

/// `bytes` in lower-case hexadecimal, two digits for each byte.
pub open spec fn hex_text(bytes: Seq<u8>) -> Seq<char> {
    Seq::new(2 * bytes.len(), |at: int| hex_digit(nibble_at(bytes, at)))
}

/// The short form of an identity: the first seven digits of its hexadecimal
/// text.
pub open spec fn short_text(id: Seq<u8>) -> Seq<char> {
    hex_text(id).take(SHORT_ID_DIGITS as int)
}

/// The decimal digit of a value below ten.
pub open spec fn decimal_digit(n: int) -> char {
    hex_digit(n)
}

/// A natural number in decimal, without leading zeros.
pub open spec fn natural_text(n: nat) -> Seq<char>
    decreases n,
{
    if n < 10 {
        seq![decimal_digit(n as int)]
    } else {
        natural_text(n / 10).push(decimal_digit((n % 10) as int))
    }
}

/// An integer in decimal, with a minus sign before a negative one.
pub open spec fn decimal_text(n: int) -> Seq<char> {
    if n < 0 {
        seq!['-'] + natural_text((-n) as nat)
    } else {
        natural_text(n as nat)
    }
}

/// The digit of `n` as a text of one character.
fn digit_text(n: u8) -> (s: &'static str)
    requires
        n < 16,
    ensures
        s@ == seq![hex_digit(n as int)],
{
    proof {
        reveal_strlit("0");
        reveal_strlit("1");
        reveal_strlit("2");
        reveal_strlit("3");
        reveal_strlit("4");
        reveal_strlit("5");
        reveal_strlit("6");
        reveal_strlit("7");
        reveal_strlit("8");
        reveal_strlit("9");
        reveal_strlit("a");
        reveal_strlit("b");
        reveal_strlit("c");
        reveal_strlit("d");
        reveal_strlit("e");
        reveal_strlit("f");
    }
    let s = if n == 0 {
        "0"
    } else if n == 1 {
        "1"
    } else if n == 2 {
        "2"
    } else if n == 3 {
        "3"
    } else if n == 4 {
        "4"
    } else if n == 5 {
        "5"
    } else if n == 6 {
        "6"
    } else if n == 7 {
        "7"
    } else if n == 8 {
        "8"
    } else if n == 9 {
        "9"
    } else if n == 10 {
        "a"
    } else if n == 11 {
        "b"
    } else if n == 12 {
        "c"
    } else if n == 13 {
        "d"
    } else if n == 14 {
        "e"
    } else {
        "f"
    };
    assert(s@ =~= seq![hex_digit(n as int)]);
    s
}

/// The first `digits` hexadecimal digits of `id`.
fn hex_prefix(id: &CommitId, digits: usize) -> (s: String)
    requires
        digits <= 2 * ID_BYTES,
    ensures
        s@ == hex_text(id@).take(digits as int),
{
    let mut s = String::new();
    let mut at: usize = 0;
    while at < digits
        invariant
            at <= digits <= 2 * ID_BYTES,
            s@ == hex_text(id@).take(at as int),
        decreases digits - at,
    {
        let byte: u8 = id.bytes[at / 2];
        let nibble: u8 = if at % 2 == 0 {
            byte / 16
        } else {
            byte % 16
        };
        assert(nibble as int == nibble_at(id@, at as int));
        s.append(digit_text(nibble));
        assert(s@ =~= hex_text(id@).take(at + 1));
        at = at + 1;
    }
    s
}

impl CommitId {
    /// The identity in lower-case hexadecimal: forty digits.
    pub fn to_hex(&self) -> (s: String)
        ensures
            s@ == hex_text(self@),
            s@.len() == 2 * ID_BYTES,
    {
        let s = hex_prefix(self, 2 * ID_BYTES);
        assert(hex_text(self@).take(2 * ID_BYTES as int) =~= hex_text(self@));
        s
    }

    /// The short form of the identity: the first seven digits of its
    /// hexadecimal text. Two identities may share a short form.
    pub fn short(&self) -> (s: String)
        ensures
            s@ == short_text(self@),
            s@.len() == SHORT_ID_DIGITS,
    {
        hex_prefix(self, SHORT_ID_DIGITS)
    }
}

/// Appends `n` in decimal to `s`.
fn push_natural(s: &mut String, n: u64)
    ensures
        final(s)@ == old(s)@ + natural_text(n as nat),
    decreases n,
{
    if n < 10 {
        s.append(digit_text(n as u8));
        assert(s@ =~= old(s)@ + natural_text(n as nat));
    } else {
        push_natural(s, n / 10);
        s.append(digit_text((n % 10) as u8));
        assert(s@ =~= old(s)@ + natural_text(n as nat));
    }
}

/// `n` in decimal.
pub fn decimal(n: i64) -> (s: String)
    ensures
        s@ == decimal_text(n as int),
{
    let mut s = String::new();
    if n < 0 {
        proof {
            reveal_strlit("-");
        }
        s.append("-");
        let magnitude: u64 = (-(n + 1)) as u64 + 1;
        push_natural(&mut s, magnitude);
        assert(s@ =~= decimal_text(n as int));
    } else {
        push_natural(&mut s, n as u64);
        assert(s@ =~= decimal_text(n as int));
    }
    s
}

} // verus!
