//! Internet addresses and the literals that denote them.
//!
//! An IPv4 literal is four decimal octets separated by dots. An IPv6 literal
//! is eight groups of up to four hexadecimal digits separated by colons,
//! where one `::` may stand for one or more groups of zero and the last two
//! groups may be written as an IPv4 literal.

use vstd::prelude::*;
use crate::numeral::{
    bounded_numeral, lemma_numeral, lemma_numeral_is_plain, numeral, read_numeral, write_numeral,
};
use crate::text::{
    chars_of, free_of, lemma_split_one, lemma_split_then, ranges_within, slices, split,
    split_ranges, then,
};
use vstd::string::StringExecFns;

verus! {

/// An internet address: the 32 bits of an IPv4 address or the 128 bits of an
/// IPv6 address, most significant bit first.
#[derive(Clone, Copy, Debug, PartialEq, Eq, Structural)]
pub enum IpAddress {
    V4(u32),
    V6(u128),
}

// ---------------------------------------------------------------------------
// IPv4 literals.
// ---------------------------------------------------------------------------

/// The octet that `s` denotes: one to three decimal digits, no leading zero
/// before another digit, at most 255.
pub open spec fn octet(s: Seq<char>) -> Option<u32> {
    if s.len() <= 3 && (s.len() == 1 || s[0] != '0') {
        match bounded_numeral(s, 10, 255) {
            Some(v) => Some(v as u32),
            None => None,
        }
    } else {
        None
    }
}

/// The address made of the four octets `a.b.c.d`.
pub open spec fn ipv4_from_octets(a: u32, b: u32, c: u32, d: u32) -> u32 {
    (((a * 256 + b) * 256 + c) * 256 + d) as u32
}

/// The address that the IPv4 literal `s` denotes, if `s` is one.
pub open spec fn ipv4_value(s: Seq<char>) -> Option<u32> {
    let f = split(s, '.');
    if f.len() == 4 && octet(f[0]) is Some && octet(f[1]) is Some && octet(f[2]) is Some && octet(
        f[3],
    ) is Some {
        Some(
            ipv4_from_octets(
                octet(f[0])->Some_0,
                octet(f[1])->Some_0,
                octet(f[2])->Some_0,
                octet(f[3])->Some_0,
            ),
        )
    } else {
        None
    }
}

/// Reads `cs[from..to]` as an octet.
fn read_octet(cs: &Vec<char>, from: usize, to: usize) -> (r: Option<u32>)
    requires
        from <= to <= cs@.len(),
    ensures
        r == octet(cs@.subrange(from as int, to as int)),
        r matches Some(v) ==> v <= 255,
{
    if to - from > 3 {
        return None;
    }
    if to - from > 1 && cs[from] == '0' {
        return None;
    }
    read_numeral(cs, from, to, 10, 255)
}

/// Reads `cs[from..to]` as an IPv4 literal.
pub fn read_ipv4(cs: &Vec<char>, from: usize, to: usize) -> (r: Option<u32>)
    requires
        from <= to <= cs@.len(),
    ensures
        r == ipv4_value(cs@.subrange(from as int, to as int)),
{
    let fields = split_ranges(cs, from, to, '.');
    if fields.len() != 4 {
        return None;
    }
    let ghost f = split(cs@.subrange(from as int, to as int), '.');
    proof {
        assert(f[0] == slices(cs@, fields@)[0]);
        assert(f[1] == slices(cs@, fields@)[1]);
        assert(f[2] == slices(cs@, fields@)[2]);
        assert(f[3] == slices(cs@, fields@)[3]);
    }
    let a = match read_octet(cs, fields[0].0, fields[0].1) {
        Some(v) => v,
        None => {
            return None;
        },
    };
    let b = match read_octet(cs, fields[1].0, fields[1].1) {
        Some(v) => v,
        None => {
            return None;
        },
    };
    let c = match read_octet(cs, fields[2].0, fields[2].1) {
        Some(v) => v,
        None => {
            return None;
        },
    };
    let d = match read_octet(cs, fields[3].0, fields[3].1) {
        Some(v) => v,
        None => {
            return None;
        },
    };
    Some(((a * 256 + b) * 256 + c) * 256 + d)
}

/// Reads `text` as an IPv4 literal.
pub fn parse_ipv4(text: &str) -> (r: Option<u32>)
    ensures
        r == ipv4_value(text@),
{
    let cs = chars_of(text);
    proof {
        assert(cs@.subrange(0, cs@.len() as int) =~= cs@);
    }
    read_ipv4(&cs, 0, cs.len())
}

// ---------------------------------------------------------------------------
// IPv6 literals.
// ---------------------------------------------------------------------------

/// The group that `s` denotes: one to four hexadecimal digits.
pub open spec fn hex_group(s: Seq<char>) -> Option<u32> {
    if s.len() <= 4 {
        match bounded_numeral(s, 16, 0xFFFF) {
            Some(v) => Some(v as u32),
            None => None,
        }
    } else {
        None
    }
}

/// Whether each of `f` is a group of hexadecimal digits.
pub open spec fn all_hex_groups(f: Seq<Seq<char>>) -> bool {
    forall|i: int| 0 <= i < f.len() ==> hex_group(#[trigger] f[i]) is Some
}

/// The groups that `f` denote, one for one.
pub open spec fn hex_groups(f: Seq<Seq<char>>) -> Seq<u32> {
    Seq::new(f.len(), |i: int| hex_group(f[i])->Some_0)
}

/// The two groups that hold the IPv4 address `v`.
pub open spec fn groups_of_ipv4(v: u32) -> Seq<u32> {
    seq![v / 65536, v % 65536]
}

/// The groups that the colon-separated pieces `f` denote: each piece is a
/// group of hexadecimal digits; where `dotted` allows it, the last piece may
/// instead be an IPv4 literal, which stands for two groups.
pub open spec fn groups_of(f: Seq<Seq<char>>, dotted: bool) -> Option<Seq<u32>> {
    if all_hex_groups(f) {
        Some(hex_groups(f))
    } else if dotted && f.len() >= 1 && all_hex_groups(f.drop_last()) && ipv4_value(f.last())
        is Some {
        Some(hex_groups(f.drop_last()) + groups_of_ipv4(ipv4_value(f.last())->Some_0))
    } else {
        None
    }
}

/// The colon-separated pieces of `s`; none where `s` is empty.
pub open spec fn pieces(s: Seq<char>) -> Seq<Seq<char>> {
    if s.len() == 0 {
        Seq::empty()
    } else {
        split(s, ':')
    }
}

/// Whether `::` stands at index `k` of `s`.
pub open spec fn double_colon_at(s: Seq<char>, k: int) -> bool {
    0 <= k && k + 1 < s.len() && s[k] == ':' && s[k + 1] == ':'
}

/// The index of the first `::` in `s` at or after `from`, or -1 if there is none.
pub open spec fn double_colon_from(s: Seq<char>, from: int) -> int
    decreases s.len() - from,
{
    if from < 0 || from + 1 >= s.len() {
        -1
    } else if double_colon_at(s, from) {
        from
    } else {
        double_colon_from(s, from + 1)
    }
}

/// `n` groups of zero.
pub open spec fn zero_groups(n: int) -> Seq<u32> {
    Seq::new(n as nat, |i: int| 0u32)
}

/// The eight groups that the IPv6 literal `s` denotes, if `s` is one.
///
/// Without `::` the literal holds all eight groups. With `::`, what stands
/// before it gives the first groups, what stands after it gives the last
/// ones, at most seven together, and the groups between them are zero.
pub open spec fn ipv6_groups(s: Seq<char>) -> Option<Seq<u32>> {
    let k = double_colon_from(s, 0);
    if k < 0 {
        match groups_of(split(s, ':'), true) {
            Some(g) => if g.len() == 8 {
                Some(g)
            } else {
                None
            },
            None => None,
        }
    } else {
        match (groups_of(pieces(s.take(k)), false), groups_of(pieces(s.skip(k + 2)), true)) {
            (Some(h), Some(t)) => if h.len() + t.len() <= 7 {
                Some(h + zero_groups(8 - h.len() - t.len()) + t)
            } else {
                None
            },
            _ => None,
        }
    }
}

/// The address made of eight groups, the first being the most significant.
pub open spec fn ipv6_from_groups(g: Seq<u32>) -> u128
    recommends
        g.len() == 8,
{
    (((((((g[0] * 65536 + g[1]) * 65536 + g[2]) * 65536 + g[3]) * 65536 + g[4]) * 65536 + g[5])
        * 65536 + g[6]) * 65536 + g[7]) as u128
}

/// The address that the IPv6 literal `s` denotes, if `s` is one.
pub open spec fn ipv6_value(s: Seq<char>) -> Option<u128> {
    match ipv6_groups(s) {
        Some(g) => Some(ipv6_from_groups(g)),
        None => None,
    }
}

/// Whether each of `g` fits in sixteen bits.
pub open spec fn groups_in_range(g: Seq<u32>) -> bool {
    forall|i: int| 0 <= i < g.len() ==> #[trigger] g[i] < 65536
}

/// Reads `cs[from..to]` as a group of hexadecimal digits.
fn read_hex_group(cs: &Vec<char>, from: usize, to: usize) -> (r: Option<u32>)
    requires
        from <= to <= cs@.len(),
    ensures
        r == hex_group(cs@.subrange(from as int, to as int)),
        r matches Some(v) ==> v < 65536,
{
    if to - from > 4 {
        return None;
    }
    read_numeral(cs, from, to, 16, 0xFFFF)
}

/// Reads the pieces of `cs` that `fields` cuts out as groups.
fn read_groups(cs: &Vec<char>, fields: &Vec<(usize, usize)>, dotted: bool) -> (r: Option<Vec<u32>>)
    requires
        ranges_within(fields@, 0, cs@.len() as int),
    ensures
        match groups_of(slices(cs@, fields@), dotted) {
            Some(g) => r is Some && r->Some_0@ == g && groups_in_range(g),
            None => r is None,
        },
{
    let ghost f = slices(cs@, fields@);
    let n: usize = fields.len();
    let mut out: Vec<u32> = Vec::new();
    let mut i: usize = 0;
    while i < n
        invariant
            i <= n,
            n == fields@.len(),
            f == slices(cs@, fields@),
            ranges_within(fields@, 0, cs@.len() as int),
            out@.len() == i,
            forall|j: int| 0 <= j < i ==> hex_group(#[trigger] f[j]) == Some(out@[j]),
            groups_in_range(out@),
        decreases n - i,
    {
        let a: usize = fields[i].0;
        let b: usize = fields[i].1;
        assert(f[i as int] == cs@.subrange(a as int, b as int));
        match read_hex_group(cs, a, b) {
            Some(v) => {
                out.push(v);
            },
            None => {
                assert(!all_hex_groups(f));
                if dotted && i + 1 == n {
                    proof {
                        assert(f.last() == f[i as int]);
                        assert forall|j: int| 0 <= j < f.drop_last().len() implies hex_group(
                            #[trigger] f.drop_last()[j],
                        ) is Some by {
                            assert(f.drop_last()[j] == f[j]);
                        }
                        assert(hex_groups(f.drop_last()) =~= out@);
                    }
                    match read_ipv4(cs, a, b) {
                        Some(v) => {
                            out.push(v / 65536);
                            out.push(v % 65536);
                            proof {
                                assert(out@ =~= hex_groups(f.drop_last()) + groups_of_ipv4(v));
                            }
                            return Some(out);
                        },
                        None => {
                            return None;
                        },
                    }
                } else {
                    proof {
                        if f.len() >= 1 && i + 1 < n {
                            assert(f.drop_last()[i as int] == f[i as int]);
                            assert(!all_hex_groups(f.drop_last()));
                        }
                    }
                    return None;
                }
            },
        }
        i += 1;
    }
    proof {
        assert(hex_groups(f) =~= out@);
    }
    Some(out)
}

/// Finds the first `::` in `cs`.
fn find_double_colon(cs: &Vec<char>) -> (r: Option<usize>)
    ensures
        match r {
            Some(k) => double_colon_from(cs@, 0) == k && k + 2 <= cs@.len(),
            None => double_colon_from(cs@, 0) == -1,
        },
{
    let n: usize = cs.len();
    if n < 2 {
        return None;
    }
    let mut i: usize = 0;
    while i < n - 1
        invariant
            n == cs@.len(),
            n >= 2,
            i <= n - 1,
            double_colon_from(cs@, 0) == double_colon_from(cs@, i as int),
        decreases n - i,
    {
        if cs[i] == ':' && cs[i + 1] == ':' {
            return Some(i);
        }
        i += 1;
    }
    None
}

/// Puts eight groups together.
fn address_of_groups(g: &Vec<u32>) -> (r: u128)
    requires
        g@.len() == 8,
        groups_in_range(g@),
    ensures
        r == ipv6_from_groups(g@),
{
    let g0: u128 = g[0] as u128;
    let g1: u128 = g[1] as u128;
    let g2: u128 = g[2] as u128;
    let g3: u128 = g[3] as u128;
    let g4: u128 = g[4] as u128;
    let g5: u128 = g[5] as u128;
    let g6: u128 = g[6] as u128;
    let g7: u128 = g[7] as u128;
    let a1: u128 = g0 * 65536 + g1;
    let a2: u128 = a1 * 65536 + g2;
    let a3: u128 = a2 * 65536 + g3;
    let a4: u128 = a3 * 65536 + g4;
    let a5: u128 = a4 * 65536 + g5;
    let a6: u128 = a5 * 65536 + g6;
    a6 * 65536 + g7
}

/// Reads `cs` as an IPv6 literal.
pub fn read_ipv6(cs: &Vec<char>) -> (r: Option<u128>)
    ensures
        r == ipv6_value(cs@),
{
    let n: usize = cs.len();
    match find_double_colon(cs) {
        None => {
            let fields = split_ranges(cs, 0, n, ':');
            proof {
                assert(cs@.subrange(0, n as int) =~= cs@);
            }
            match read_groups(cs, &fields, true) {
                Some(g) => {
                    if g.len() == 8 {
                        Some(address_of_groups(&g))
                    } else {
                        None
                    }
                },
                None => None,
            }
        },
        Some(k) => {
            proof {
                assert(cs@.take(k as int) =~= cs@.subrange(0, k as int));
                assert(cs@.skip(k + 2) =~= cs@.subrange(k + 2, n as int));
            }
            let head_fields = if k == 0 {
                Vec::new()
            } else {
                split_ranges(cs, 0, k, ':')
            };
            let tail_fields = if k + 2 == n {
                Vec::new()
            } else {
                split_ranges(cs, k + 2, n, ':')
            };
            proof {
                assert(slices(cs@, head_fields@) =~= pieces(cs@.take(k as int)));
                assert(slices(cs@, tail_fields@) =~= pieces(cs@.skip(k + 2)));
            }
            let head = match read_groups(cs, &head_fields, false) {
                Some(g) => g,
                None => {
                    return None;
                },
            };
            let tail = match read_groups(cs, &tail_fields, true) {
                Some(g) => g,
                None => {
                    return None;
                },
            };
            if head.len() > 7 || tail.len() > 7 - head.len() {
                return None;
            }
            let mut all: Vec<u32> = head;
            let ghost h = all@;
            let gap: usize = 8 - all.len() - tail.len();
            let mut i: usize = 0;
            while i < gap
                invariant
                    i <= gap,
                    all@ == h + zero_groups(i as int),
                    groups_in_range(all@),
                decreases gap - i,
            {
                all.push(0);
                proof {
                    assert(all@ =~= h + zero_groups(i + 1));
                }
                i += 1;
            }
            let mut j: usize = 0;
            while j < tail.len()
                invariant
                    j <= tail@.len(),
                    all@ == h + zero_groups(gap as int) + tail@.take(j as int),
                    groups_in_range(all@),
                    groups_in_range(tail@),
                decreases tail@.len() - j,
            {
                all.push(tail[j]);
                proof {
                    assert(all@ =~= h + zero_groups(gap as int) + tail@.take(j + 1));
                }
                j += 1;
            }
            proof {
                assert(tail@.take(tail@.len() as int) =~= tail@);
            }
            Some(address_of_groups(&all))
        },
    }
}

/// Reads `text` as an IPv6 literal.
pub fn parse_ipv6(text: &str) -> (r: Option<u128>)
    ensures
        r == ipv6_value(text@),
{
    let cs = chars_of(text);
    read_ipv6(&cs)
}

// ---------------------------------------------------------------------------
// Writing addresses.
// ---------------------------------------------------------------------------

/// The literal that an IPv4 address is written as: its four octets in
/// decimal, separated by dots.
pub open spec fn ipv4_text(a: u32) -> Seq<char> {
    then(
        numeral((a / 0x100_0000) as nat, 10),
        '.',
        then(
            numeral((a / 0x1_0000 % 256) as nat, 10),
            '.',
            then(numeral((a / 0x100 % 256) as nat, 10), '.', numeral((a % 256) as nat, 10)),
        ),
    )
}

/// An octet that is written is read as the same octet.
proof fn lemma_octet_round_trip(o: nat)
    requires
        o <= 255,
    ensures
        octet(numeral(o, 10)) == Some(o as u32),
        free_of(numeral(o, 10), '.'),
{
    lemma_numeral(o, 10);
    lemma_numeral_is_plain(o, 10);
}

/// An IPv4 address that is written is read as the same address.
pub proof fn lemma_ipv4_round_trip(a: u32)
    ensures
        ipv4_value(ipv4_text(a)) == Some(a),
{
    let o0 = (a / 0x100_0000) as nat;
    let o1 = (a / 0x1_0000 % 256) as nat;
    let o2 = (a / 0x100 % 256) as nat;
    let o3 = (a % 256) as nat;
    let n0 = numeral(o0, 10);
    let n1 = numeral(o1, 10);
    let n2 = numeral(o2, 10);
    let n3 = numeral(o3, 10);
    lemma_octet_round_trip(o0);
    lemma_octet_round_trip(o1);
    lemma_octet_round_trip(o2);
    lemma_octet_round_trip(o3);
    lemma_split_one(n3, '.');
    lemma_split_then(n2, '.', n3);
    lemma_split_then(n1, '.', then(n2, '.', n3));
    lemma_split_then(n0, '.', then(n1, '.', then(n2, '.', n3)));
    let f = split(ipv4_text(a), '.');
    assert(f =~= seq![n0, n1, n2, n3]);
    assert(f[0] == n0 && f[1] == n1 && f[2] == n2 && f[3] == n3);
    assert(ipv4_from_octets(o0 as u32, o1 as u32, o2 as u32, o3 as u32) == a);
}

/// Writes the IPv4 address `a` at the end of `out`.
pub fn write_ipv4(out: &mut String, a: u32)
    ensures
        final(out)@ == old(out)@ + ipv4_text(a),
{
    proof {
        reveal_strlit(".");
    }
    write_numeral(out, a / 0x100_0000, 10);
    out.append(".");
    write_numeral(out, a / 0x1_0000 % 256, 10);
    out.append(".");
    write_numeral(out, a / 0x100 % 256, 10);
    out.append(".");
    write_numeral(out, a % 256, 10);
    proof {
        assert("."@ =~= seq!['.']);
        assert(out@ =~= old(out)@ + ipv4_text(a));
    }
}

/// `a` without its `n` least significant groups of sixteen bits.
pub open spec fn drop_groups(a: nat, n: nat) -> nat
    decreases n,
{
    if n == 0 {
        a
    } else {
        drop_groups(a, (n - 1) as nat) / 0x1_0000
    }
}

/// The `i`-th of the eight groups of an IPv6 address, the first being the
/// most significant.
pub open spec fn ipv6_group(a: u128, i: int) -> u32 {
    (drop_groups(a as nat, (7 - i) as nat) % 0x1_0000) as u32
}

/// The eight groups of an IPv6 address.
pub open spec fn address_groups(a: u128) -> Seq<u32> {
    Seq::new(8, |i: int| ipv6_group(a, i))
}

/// The groups of an address fit in sixteen bits each, and make up the
/// address.
pub proof fn lemma_address_groups(a: u128)
    ensures
        groups_in_range(address_groups(a)),
        ipv6_from_groups(address_groups(a)) == a,
{
    reveal_with_fuel(drop_groups, 9);
    let g = address_groups(a);
    let d0 = a as nat;
    let d1 = d0 / 0x1_0000;
    let d2 = d1 / 0x1_0000;
    let d3 = d2 / 0x1_0000;
    let d4 = d3 / 0x1_0000;
    let d5 = d4 / 0x1_0000;
    let d6 = d5 / 0x1_0000;
    let d7 = d6 / 0x1_0000;
    assert(drop_groups(d0, 1) == d1);
    assert(drop_groups(d0, 2) == d2);
    assert(drop_groups(d0, 3) == d3);
    assert(drop_groups(d0, 4) == d4);
    assert(drop_groups(d0, 5) == d5);
    assert(drop_groups(d0, 6) == d6);
    assert(drop_groups(d0, 7) == d7);
    assert(d7 < 0x1_0000);
    assert(g[0] == d7);
    assert(g[1] == d6 % 0x1_0000);
    assert(g[2] == d5 % 0x1_0000);
    assert(g[3] == d4 % 0x1_0000);
    assert(g[4] == d3 % 0x1_0000);
    assert(g[5] == d2 % 0x1_0000);
    assert(g[6] == d1 % 0x1_0000);
    assert(g[7] == d0 % 0x1_0000);
    assert(d6 == g[0] * 65536 + g[1]);
    assert(d5 == d6 * 65536 + g[2]);
    assert(d4 == d5 * 65536 + g[3]);
    assert(d3 == d4 * 65536 + g[4]);
    assert(d2 == d3 * 65536 + g[5]);
    assert(d1 == d2 * 65536 + g[6]);
    assert(d0 == d1 * 65536 + g[7]);
}

/// The groups of `g` from the `i`-th on, in hexadecimal, separated by
/// colons.
pub open spec fn groups_text(g: Seq<u32>, i: int) -> Seq<char>
    decreases g.len() - i,
{
    if i + 1 >= g.len() {
        numeral(g[i] as nat, 16)
    } else {
        then(numeral(g[i] as nat, 16), ':', groups_text(g, i + 1))
    }
}

/// The literal that an IPv6 address is written as: its eight groups in
/// hexadecimal, separated by colons, none of them left out.
pub open spec fn ipv6_text(a: u128) -> Seq<char> {
    groups_text(address_groups(a), 0)
}

/// Whether no two colons stand side by side in `s`, and `s` neither is
/// empty nor starts with a colon.
pub open spec fn colons_apart(s: Seq<char>) -> bool {
    &&& s.len() > 0
    &&& s[0] != ':'
    &&& forall|k: int| !double_colon_at(s, k)
}

/// A group before a colon and text whose colons are apart gives text whose
/// colons are apart.
proof fn lemma_colons_apart_then(g: Seq<char>, rest: Seq<char>)
    requires
        g.len() > 0,
        free_of(g, ':'),
        colons_apart(rest),
    ensures
        colons_apart(then(g, ':', rest)),
{
    let s = then(g, ':', rest);
    assert(s[0] == g[0]);
    assert forall|k: int| !double_colon_at(s, k) by {
        if 0 <= k && k + 1 < s.len() {
            if k < g.len() {
                assert(s[k] == g[k]);
            } else if k == g.len() {
                assert(s[k + 1] == rest[0]);
            } else {
                assert(s[k] == rest[k - g.len() - 1]);
                assert(s[k + 1] == rest[k - g.len()]);
                assert(!double_colon_at(rest, k - g.len() - 1));
            }
        }
    }
}

/// Where no two colons stand side by side, no `::` is found.
proof fn lemma_no_double_colon(s: Seq<char>, from: int)
    requires
        forall|k: int| !double_colon_at(s, k),
        0 <= from,
    ensures
        double_colon_from(s, from) == -1,
    decreases s.len() - from,
{
    if from + 1 < s.len() {
        assert(!double_colon_at(s, from));
        lemma_no_double_colon(s, from + 1);
    }
}

/// A group that is written is read as the same group.
proof fn lemma_group_round_trip(g: nat)
    requires
        g < 0x1_0000,
    ensures
        hex_group(numeral(g, 16)) == Some(g as u32),
        free_of(numeral(g, 16), ':'),
        numeral(g, 16).len() > 0,
{
    lemma_numeral(g, 16);
    lemma_numeral_is_plain(g, 16);
}

/// The numerals of the groups of `g` from the `i`-th on.
pub open spec fn group_numerals(g: Seq<u32>, i: int) -> Seq<Seq<char>> {
    Seq::new((g.len() - i) as nat, |j: int| numeral(g[i + j] as nat, 16))
}

/// Groups that are written are separated by single colons, and the pieces
/// between the colons are the numerals of the groups.
proof fn lemma_groups_text(g: Seq<u32>, i: int)
    requires
        0 <= i < g.len(),
        groups_in_range(g),
    ensures
        split(groups_text(g, i), ':') == group_numerals(g, i),
        colons_apart(groups_text(g, i)),
    decreases g.len() - i,
{
    let n = numeral(g[i] as nat, 16);
    lemma_group_round_trip(g[i] as nat);
    if i + 1 >= g.len() {
        lemma_split_one(n, ':');
        assert(seq![n] =~= group_numerals(g, i));
    } else {
        lemma_groups_text(g, i + 1);
        let rest = groups_text(g, i + 1);
        lemma_split_then(n, ':', rest);
        lemma_colons_apart_then(n, rest);
        assert(seq![n] + group_numerals(g, i + 1) =~= group_numerals(g, i));
    }
}

/// An IPv6 address that is written is read as the same address.
pub proof fn lemma_ipv6_round_trip(a: u128)
    ensures
        ipv6_value(ipv6_text(a)) == Some(a),
{
    let g = address_groups(a);
    lemma_address_groups(a);
    lemma_groups_text(g, 0);
    let s = ipv6_text(a);
    lemma_no_double_colon(s, 0);
    let f = split(s, ':');
    assert(f == group_numerals(g, 0));
    assert forall|i: int| 0 <= i < f.len() implies hex_group(#[trigger] f[i]) == Some(g[i]) by {
        lemma_group_round_trip(g[i] as nat);
    }
    assert(all_hex_groups(f));
    assert(hex_groups(f) =~= g);
}

/// Writes the groups of `g` from the `i`-th on at the end of `out`.
fn write_groups(out: &mut String, g: &Vec<u32>, i: usize)
    requires
        i < g@.len(),
    ensures
        final(out)@ == old(out)@ + groups_text(g@, i as int),
    decreases g@.len() - i,
{
    write_numeral(out, g[i], 16);
    if i < g.len() - 1 {
        proof {
            reveal_strlit(":");
        }
        out.append(":");
        write_groups(out, g, i + 1);
        proof {
            assert(":"@ =~= seq![':']);
            assert(out@ =~= old(out)@ + groups_text(g@, i as int));
        }
    }
}

/// Takes an address apart into its eight groups.
fn groups_of_address(a: u128) -> (g: Vec<u32>)
    ensures
        g@ == address_groups(a),
{
    proof {
        reveal_with_fuel(drop_groups, 9);
    }
    let d1: u128 = a / 0x1_0000;
    let d2: u128 = d1 / 0x1_0000;
    let d3: u128 = d2 / 0x1_0000;
    let d4: u128 = d3 / 0x1_0000;
    let d5: u128 = d4 / 0x1_0000;
    let d6: u128 = d5 / 0x1_0000;
    let d7: u128 = d6 / 0x1_0000;
    let mut g: Vec<u32> = Vec::new();
    g.push((d7 % 0x1_0000) as u32);
    g.push((d6 % 0x1_0000) as u32);
    g.push((d5 % 0x1_0000) as u32);
    g.push((d4 % 0x1_0000) as u32);
    g.push((d3 % 0x1_0000) as u32);
    g.push((d2 % 0x1_0000) as u32);
    g.push((d1 % 0x1_0000) as u32);
    g.push((a % 0x1_0000) as u32);
    proof {
        assert(drop_groups(a as nat, 1) == d1);
        assert(drop_groups(a as nat, 2) == d2);
        assert(drop_groups(a as nat, 3) == d3);
        assert(drop_groups(a as nat, 4) == d4);
        assert(drop_groups(a as nat, 5) == d5);
        assert(drop_groups(a as nat, 6) == d6);
        assert(drop_groups(a as nat, 7) == d7);
        assert(g@ =~= address_groups(a));
    }
    g
}

/// Writes the IPv6 address `a` at the end of `out`.
pub fn write_ipv6(out: &mut String, a: u128)
    ensures
        final(out)@ == old(out)@ + ipv6_text(a),
{
    let g = groups_of_address(a);
    write_groups(out, &g, 0);
}

// ---------------------------------------------------------------------------
// Addresses of either family.
// ---------------------------------------------------------------------------

/// The address that the literal `s` denotes, if `s` is an IPv4 or an IPv6
/// literal.
pub open spec fn ip_value(s: Seq<char>) -> Option<IpAddress> {
    match ipv4_value(s) {
        Some(a) => Some(IpAddress::V4(a)),
        None => match ipv6_value(s) {
            Some(a) => Some(IpAddress::V6(a)),
            None => None,
        },
    }
}

impl IpAddress {
    /// Reads `text` as an IPv4 or an IPv6 literal.
    pub fn parse(text: &str) -> (r: Option<IpAddress>)
        ensures
            r == ip_value(text@),
    {
        let cs = chars_of(text);
        proof {
            assert(cs@.subrange(0, cs@.len() as int) =~= cs@);
        }
        match read_ipv4(&cs, 0, cs.len()) {
            Some(a) => Some(IpAddress::V4(a)),
            None => match read_ipv6(&cs) {
                Some(a) => Some(IpAddress::V6(a)),
                None => None,
            },
        }
    }
}

} // verus!
