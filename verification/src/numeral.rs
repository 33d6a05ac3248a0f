//! Numerals in base ten and base sixteen: what they denote, how they are
//! read, and how a number is written.

use vstd::prelude::*;
use crate::text::{free_of, is_space, is_word};

verus! {

/// The bases in which numerals are read and written here.
pub open spec fn is_radix(radix: nat) -> bool {
    radix == 10 || radix == 16
}

/// What the digit `c` denotes: `0..=9` for `'0'..='9'`, `10..=15` for
/// `'a'..='f'` and `'A'..='F'`; 16, which is no digit in any base used here,
/// for every other character.
pub open spec fn digit_value(c: char) -> nat {
    let n = c as u32;
    if 0x30 <= n <= 0x39 {
        (n - 0x30) as nat
    } else if 0x61 <= n <= 0x66 {
        (n - 0x61 + 10) as nat
    } else if 0x41 <= n <= 0x46 {
        (n - 0x41 + 10) as nat
    } else {
        16
    }
}

/// Whether `c` is a digit in base `radix`.
pub open spec fn is_digit(c: char, radix: nat) -> bool {
    digit_value(c) < radix
}

/// Whether `s` is a numeral in base `radix`: one digit or more, and nothing else.
pub open spec fn is_numeral(s: Seq<char>, radix: nat) -> bool {
    &&& s.len() > 0
    &&& forall|i: int| 0 <= i < s.len() ==> is_digit(#[trigger] s[i], radix)
}

/// The number that the digits `s` denote in base `radix`, the first digit
/// being the most significant.
pub open spec fn numeral_value(s: Seq<char>, radix: nat) -> nat
    decreases s.len(),
{
    if s.len() == 0 {
        0
    } else {
        numeral_value(s.drop_last(), radix) * radix + digit_value(s.last())
    }
}

/// The number that `s` denotes in base `radix`, if `s` is a numeral and the
/// number is at most `max`.
pub open spec fn bounded_numeral(s: Seq<char>, radix: nat, max: nat) -> Option<nat> {
    if is_numeral(s, radix) && numeral_value(s, radix) <= max {
        Some(numeral_value(s, radix))
    } else {
        None
    }
}

/// A numeral's value does not shrink when more digits follow.
pub proof fn lemma_numeral_prefix(s: Seq<char>, radix: nat, k: int)
    requires
        is_radix(radix),
        0 <= k <= s.len(),
    ensures
        numeral_value(s.take(k), radix) <= numeral_value(s, radix),
    decreases s.len() - k,
{
    if k == s.len() {
        assert(s.take(k) =~= s);
    } else {
        lemma_numeral_prefix(s.drop_last(), radix, k);
        assert(s.drop_last().take(k) =~= s.take(k));
        let v = numeral_value(s.drop_last(), radix);
        assert(v <= v * radix) by (nonlinear_arith)
            requires
                radix >= 1,
        ;
    }
}

/// Reads the digit `c` in base `radix`.
pub fn read_digit(c: char, radix: u32) -> (r: Option<u32>)
    requires
        is_radix(radix as nat),
    ensures
        r == (if is_digit(c, radix as nat) {
            Some(digit_value(c) as u32)
        } else {
            None
        }),
{
    let n: u32 = c as u32;
    let v: u32 = if 0x30 <= n && n <= 0x39 {
        n - 0x30
    } else if 0x61 <= n && n <= 0x66 {
        n - 0x61 + 10
    } else if 0x41 <= n && n <= 0x46 {
        n - 0x41 + 10
    } else {
        16
    };
    if v < radix {
        Some(v)
    } else {
        None
    }
}

/// Reads `cs[from..to]` as a numeral in base `radix` that denotes at most `max`.
pub fn read_numeral(cs: &Vec<char>, from: usize, to: usize, radix: u32, max: u32) -> (r: Option<
    u32,
>)
    requires
        from <= to <= cs@.len(),
        is_radix(radix as nat),
    ensures
        r == match bounded_numeral(cs@.subrange(from as int, to as int), radix as nat, max as nat) {
            Some(v) => Some(v as u32),
            None => None,
        },
{
    let ghost s = cs@.subrange(from as int, to as int);
    if from == to {
        return None;
    }
    let mut acc: u64 = 0;
    let mut i: usize = from;
    proof {
        assert(s.take(0) =~= Seq::<char>::empty());
    }
    while i < to
        invariant
            from <= i <= to <= cs@.len(),
            is_radix(radix as nat),
            s == cs@.subrange(from as int, to as int),
            forall|k: int| 0 <= k < i - from ==> is_digit(#[trigger] s[k], radix as nat),
            acc == numeral_value(s.take(i - from), radix as nat),
            acc <= max,
        decreases to - i,
    {
        let d = read_digit(cs[i], radix);
        assert(cs@[i as int] == s[i - from]);
        match d {
            None => {
                return None;
            },
            Some(v) => {
                proof {
                    assert(s.take(i - from + 1).drop_last() =~= s.take(i - from));
                    assert(s.take(i - from + 1).last() == s[i - from]);
                    assert(acc * radix <= 0xFFFF_FFFF * 16) by (nonlinear_arith)
                        requires
                            acc <= 0xFFFF_FFFF,
                            radix <= 16,
                    ;
                }
                let next: u64 = acc * (radix as u64) + (v as u64);
                if next > max as u64 {
                    proof {
                        lemma_numeral_prefix(s, radix as nat, i - from + 1);
                    }
                    return None;
                }
                acc = next;
                i += 1;
            },
        }
    }
    proof {
        assert(s.take(to - from) =~= s);
    }
    Some(acc as u32)
}

/// The number that `s` denotes as an unsigned decimal integer of at most
/// `max`: decimal digits, with or without a `+` before them. Leading zeros
/// are allowed; a sign alone, a `-`, and anything but digits are not.
pub open spec fn unsigned(s: Seq<char>, max: nat) -> Option<nat> {
    if s.len() > 0 && s[0] == '+' {
        bounded_numeral(s.drop_first(), 10, max)
    } else {
        bounded_numeral(s, 10, max)
    }
}

/// The number that `s` denotes as an unsigned integer of 32 bits.
pub open spec fn unsigned_32(s: Seq<char>) -> Option<u32> {
    match unsigned(s, 0xFFFF_FFFF) {
        Some(v) => Some(v as u32),
        None => None,
    }
}

/// The number that `s` denotes as an unsigned integer of 16 bits.
pub open spec fn unsigned_16(s: Seq<char>) -> Option<u16> {
    match unsigned(s, 0xFFFF) {
        Some(v) => Some(v as u16),
        None => None,
    }
}

/// Reads `cs[from..to]` as an unsigned integer of 32 bits.
pub fn read_u32(cs: &Vec<char>, from: usize, to: usize) -> (r: Option<u32>)
    requires
        from <= to <= cs@.len(),
    ensures
        r == unsigned_32(cs@.subrange(from as int, to as int)),
{
    if from < to && cs[from] == '+' {
        proof {
            assert(cs@.subrange(from as int, to as int).drop_first() =~= cs@.subrange(
                from + 1,
                to as int,
            ));
        }
        read_numeral(cs, from + 1, to, 10, 0xFFFF_FFFF)
    } else {
        read_numeral(cs, from, to, 10, 0xFFFF_FFFF)
    }
}

/// Reads `cs[from..to]` as an unsigned integer of 16 bits.
pub fn read_u16(cs: &Vec<char>, from: usize, to: usize) -> (r: Option<u16>)
    requires
        from <= to <= cs@.len(),
    ensures
        r == unsigned_16(cs@.subrange(from as int, to as int)),
{
    let v = if from < to && cs[from] == '+' {
        proof {
            assert(cs@.subrange(from as int, to as int).drop_first() =~= cs@.subrange(
                from + 1,
                to as int,
            ));
        }
        read_numeral(cs, from + 1, to, 10, 0xFFFF)
    } else {
        read_numeral(cs, from, to, 10, 0xFFFF)
    };
    match v {
        Some(n) => Some(n as u16),
        None => None,
    }
}

// ---------------------------------------------------------------------------
// Writing numbers.
// ---------------------------------------------------------------------------

/// The digit that denotes `v`, for `v < 16`; letters in lower case.
pub open spec fn digit_char(v: nat) -> char {
    if v < 10 {
        ((0x30 + v) as u8) as char
    } else {
        ((0x61 + v - 10) as u8) as char
    }
}

/// The numeral that denotes `n` in base `radix`, without leading zeros
/// (`"0"` for zero).
pub open spec fn numeral(n: nat, radix: nat) -> Seq<char>
    decreases n,
    when is_radix(radix)
{
    if n < radix {
        seq![digit_char(n)]
    } else {
        numeral(n / radix, radix).push(digit_char(n % radix))
    }
}

/// What is written is a numeral, denotes the number it was written for, and
/// starts with `'0'` only for zero.
pub proof fn lemma_numeral(n: nat, radix: nat)
    requires
        is_radix(radix),
    ensures
        is_numeral(numeral(n, radix), radix),
        numeral_value(numeral(n, radix), radix) == n,
        numeral(n, radix)[0] == '0' ==> n == 0,
        n < radix ==> numeral(n, radix).len() == 1,
        radix <= n < radix * radix ==> numeral(n, radix).len() == 2,
        radix * radix <= n < radix * radix * radix ==> numeral(n, radix).len() == 3,
        radix * radix * radix <= n < radix * radix * radix * radix ==> numeral(n, radix).len()
            == 4,
    decreases n,
{
    let s = numeral(n, radix);
    if n < radix {
        assert(s == seq![digit_char(n)]);
        assert(s.len() == 1);
        assert(s.drop_last() =~= Seq::<char>::empty());
        assert(s.last() == digit_char(n));
        assert(digit_value(digit_char(n)) == n);
        assert(numeral_value(s.drop_last(), radix) == 0);
        assert(numeral_value(s, radix) == n);
    } else {
        let q = n / radix;
        let r = n % radix;
        lemma_numeral(q, radix);
        let t = numeral(q, radix);
        assert(s == t.push(digit_char(r)));
        assert(s.drop_last() =~= t);
        assert(s.last() == digit_char(r));
        assert(digit_value(digit_char(r)) == r);
        assert forall|i: int| 0 <= i < s.len() implies is_digit(#[trigger] s[i], radix) by {
            if i < t.len() {
                assert(s[i] == t[i]);
            }
        }
        assert(s[0] == t[0]);
        assert(q >= 1);
        if radix == 10 {
            assert(q * 10 + r == n);
        } else {
            assert(q * 16 + r == n);
        }
    }
}

/// The digit that denotes `v`, as text.
pub fn digit_text(v: u32) -> (r: &'static str)
    requires
        v < 16,
    ensures
        r@ == seq![digit_char(v as nat)],
{
    proof {
        reveal_strlit("0");
        reveal_strlit("1");
        reveal_strlit("2");
        reveal_strlit("3");
        reveal_strlit("4");
        reveal_strlit("5");
        reveal_strlit("6");
        reveal_strlit("7");
        reveal_strlit("8");
        reveal_strlit("9");
        reveal_strlit("a");
        reveal_strlit("b");
        reveal_strlit("c");
        reveal_strlit("d");
        reveal_strlit("e");
        reveal_strlit("f");
    }
    let r = match v {
        0 => "0",
        1 => "1",
        2 => "2",
        3 => "3",
        4 => "4",
        5 => "5",
        6 => "6",
        7 => "7",
        8 => "8",
        9 => "9",
        10 => "a",
        11 => "b",
        12 => "c",
        13 => "d",
        14 => "e",
        _ => "f",
    };
    assert(r@ =~= seq![digit_char(v as nat)]);
    r
}

/// Writes `n` in base `radix` at the end of `out`.
pub fn write_numeral(out: &mut String, n: u32, radix: u32)
    requires
        is_radix(radix as nat),
    ensures
        final(out)@ == old(out)@ + numeral(n as nat, radix as nat),
    decreases n,
{
    if n < radix {
        out.append(digit_text(n));
    } else {
        write_numeral(out, n / radix, radix);
        out.append(digit_text(n % radix));
        proof {
            assert(old(out)@ + numeral((n / radix) as nat, radix as nat) + seq![
                digit_char((n % radix) as nat),
            ] =~= old(out)@ + numeral(n as nat, radix as nat));
        }
    }
}

/// A numeral holds digits only: no dot, no colon, no sign and no whitespace.
pub proof fn lemma_numeral_is_plain(n: nat, radix: nat)
    requires
        is_radix(radix),
    ensures
        free_of(numeral(n, radix), '.'),
        free_of(numeral(n, radix), ':'),
        is_word(numeral(n, radix)),
        numeral(n, radix)[0] != '+',
{
    lemma_numeral(n, radix);
    let s = numeral(n, radix);
    assert forall|k: int| 0 <= k < s.len() implies #[trigger] s[k] != '.' && s[k] != ':' && s[k]
        != '+' && !is_space(s[k]) by {
        assert(is_digit(s[k], radix));
    }
}

} // verus!
