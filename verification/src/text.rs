//! Characters, whitespace-separated words and separated fields.
//!
//! Everything here is stated over `Seq<char>`; the executable functions work
//! on a `Vec<char>` and hand out index ranges, so that no text is copied
//! while it is being taken apart.

use vstd::prelude::*;

verus! {

/// Whether `c` has the Unicode `White_Space` property.
pub open spec fn is_space(c: char) -> bool {
    let n = c as u32;
    ||| 0x09 <= n <= 0x0D
    ||| n == 0x20
    ||| n == 0x85
    ||| n == 0xA0
    ||| n == 0x1680
    ||| 0x2000 <= n <= 0x200A
    ||| n == 0x2028
    ||| n == 0x2029
    ||| n == 0x202F
    ||| n == 0x205F
    ||| n == 0x3000
}

/// Tells whether `c` is a whitespace character.
pub fn is_whitespace(c: char) -> (r: bool)
    ensures
        r == is_space(c),
{
    let n: u32 = c as u32;
    (0x09 <= n && n <= 0x0D) || n == 0x20 || n == 0x85 || n == 0xA0 || n == 0x1680 || (0x2000 <= n
        && n <= 0x200A) || n == 0x2028 || n == 0x2029 || n == 0x202F || n == 0x205F || n == 0x3000
}

/// The characters of `s`, in order.
pub fn chars_of(s: &str) -> (r: Vec<char>)
    ensures
        r@ == s@,
{
    let mut out: Vec<char> = Vec::new();
    for c in it: s.chars()
        invariant
            it.seq() == s@,
            out@ == it.seq().take(it.index() as int),
    {
        out.push(c);
    }
    out
}

/// A list of index ranges, each `(start, end)` with `from <= start <= end <= to`.
pub open spec fn ranges_within(r: Seq<(usize, usize)>, from: int, to: int) -> bool {
    forall|i: int| 0 <= i < r.len() ==> from <= (#[trigger] r[i]).0 <= r[i].1 <= to
}

/// The pieces of `s` that the ranges `r` cut out, in the order of `r`.
pub open spec fn slices(s: Seq<char>, r: Seq<(usize, usize)>) -> Seq<Seq<char>> {
    Seq::new(r.len(), |i: int| s.subrange(r[i].0 as int, r[i].1 as int))
}

proof fn lemma_slices_push(s: Seq<char>, r: Seq<(usize, usize)>, a: usize, b: usize)
    ensures
        slices(s, r.push((a, b))) == slices(s, r).push(s.subrange(a as int, b as int)),
{
    assert(slices(s, r.push((a, b))) =~= slices(s, r).push(s.subrange(a as int, b as int)));
}

/// The lower-case form of the ASCII letter `c`; `c` itself for any other
/// character.
pub open spec fn lower_char(c: char) -> char {
    if 0x41 <= c as u32 <= 0x5A {
        ((c as u32 + 0x20) as u8) as char
    } else {
        c
    }
}

/// `s` with its ASCII letters in lower case.
pub open spec fn ascii_lower(s: Seq<char>) -> Seq<char> {
    Seq::new(s.len(), |i: int| lower_char(s[i]))
}

/// Tells whether `k` is the lower-case form of `c`.
fn is_lower_of(k: char, c: char) -> (r: bool)
    ensures
        r == (lower_char(c) == k),
{
    let n: u32 = c as u32;
    let lower: u32 = if 0x41 <= n && n <= 0x5A {
        n + 0x20
    } else {
        n
    };
    lower == k as u32
}

/// Tells whether `cs[from..to]` is `keyword` but for the case of its ASCII
/// letters. The keyword is written in lower case.
pub fn is_keyword(cs: &Vec<char>, from: usize, to: usize, keyword: &str) -> (r: bool)
    requires
        from <= to <= cs@.len(),
    ensures
        r == (ascii_lower(cs@.subrange(from as int, to as int)) == keyword@),
{
    let ghost word = cs@.subrange(from as int, to as int);
    let kw = chars_of(keyword);
    if kw.len() != to - from {
        return false;
    }
    let mut i: usize = 0;
    while i < kw.len()
        invariant
            from <= to <= cs@.len(),
            kw@.len() == to - from,
            kw@ == keyword@,
            word == cs@.subrange(from as int, to as int),
            i <= kw@.len(),
            forall|j: int| 0 <= j < i ==> lower_char(#[trigger] word[j]) == kw@[j],
        decreases kw@.len() - i,
    {
        assert(word[i as int] == cs@[from + i]);
        if !is_lower_of(kw[i], cs[from + i]) {
            assert(ascii_lower(word)[i as int] != keyword@[i as int]);
            return false;
        }
        i += 1;
    }
    assert(ascii_lower(word) =~= keyword@);
    true
}

// ---------------------------------------------------------------------------
// Words: maximal runs of characters that are not whitespace.
// ---------------------------------------------------------------------------

/// The number of characters at the front of `s` before the first whitespace
/// character (all of them, if there is none).
pub open spec fn word_len(s: Seq<char>) -> nat
    decreases s.len(),
{
    if s.len() == 0 || is_space(s[0]) {
        0
    } else {
        1 + word_len(s.drop_first())
    }
}

/// `word_len(s)` stays inside `s`, covers no whitespace, and stops at
/// whitespace or at the end.
pub proof fn lemma_word_len(s: Seq<char>)
    ensures
        word_len(s) <= s.len(),
        forall|i: int| 0 <= i < word_len(s) ==> !is_space(#[trigger] s[i]),
        word_len(s) < s.len() ==> is_space(s[word_len(s) as int]),
    decreases s.len(),
{
    if s.len() == 0 || is_space(s[0]) {
    } else {
        let t = s.drop_first();
        lemma_word_len(t);
        assert forall|i: int| 0 <= i < word_len(s) implies !is_space(#[trigger] s[i]) by {
            if i > 0 {
                assert(s[i] == t[i - 1]);
            }
        }
        if word_len(s) < s.len() {
            assert(s[word_len(s) as int] == t[word_len(t) as int]);
        }
    }
}

/// The one `n` that stays inside `s`, covers no whitespace and stops at
/// whitespace or at the end is `word_len(s)`.
pub proof fn lemma_word_len_is(s: Seq<char>, n: nat)
    requires
        n <= s.len(),
        forall|i: int| 0 <= i < n ==> !is_space(#[trigger] s[i]),
        n < s.len() ==> is_space(s[n as int]),
    ensures
        word_len(s) == n,
    decreases s.len(),
{
    if n == 0 {
    } else {
        let t = s.drop_first();
        assert(!is_space(s[0]));
        assert forall|i: int| 0 <= i < n - 1 implies !is_space(#[trigger] t[i]) by {
            assert(t[i] == s[i + 1]);
        }
        if n - 1 < t.len() {
            assert(t[n - 1] == s[n as int]);
        }
        lemma_word_len_is(t, (n - 1) as nat);
    }
}

/// The words of `s`: its maximal runs of characters that are not whitespace,
/// from left to right. Whitespace before, between and after them is dropped,
/// so no word is empty.
pub open spec fn words(s: Seq<char>) -> Seq<Seq<char>>
    decreases s.len(),
    via words_decreases
{
    if s.len() == 0 {
        Seq::empty()
    } else if is_space(s[0]) {
        words(s.drop_first())
    } else {
        let n = word_len(s);
        seq![s.take(n as int)] + words(s.skip(n as int))
    }
}

#[via_fn]
proof fn words_decreases(s: Seq<char>) {
    lemma_word_len(s);
}

/// The index ranges of the words of `cs`.
pub fn word_ranges(cs: &Vec<char>) -> (r: Vec<(usize, usize)>)
    ensures
        ranges_within(r@, 0, cs@.len() as int),
        slices(cs@, r@) == words(cs@),
{
    let n: usize = cs.len();
    let mut out: Vec<(usize, usize)> = Vec::new();
    let mut i: usize = 0;
    proof {
        assert(cs@.skip(0) =~= cs@);
        assert(slices(cs@, out@) =~= Seq::<Seq<char>>::empty());
    }
    while i < n
        invariant
            i <= n,
            n == cs@.len(),
            ranges_within(out@, 0, n as int),
            slices(cs@, out@) + words(cs@.skip(i as int)) == words(cs@),
        decreases n - i,
    {
        if is_whitespace(cs[i]) {
            proof {
                assert(cs@.skip(i as int).drop_first() =~= cs@.skip(i + 1));
            }
            i += 1;
        } else {
            let start: usize = i;
            while i < n && !is_whitespace(cs[i])
                invariant
                    start <= i <= n,
                    n == cs@.len(),
                    forall|k: int| start <= k < i ==> !is_space(#[trigger] cs@[k]),
                decreases n - i,
            {
                i += 1;
            }
            proof {
                let rest = cs@.skip(start as int);
                lemma_word_len_is(rest, (i - start) as nat);
                assert(rest.take(i - start) =~= cs@.subrange(start as int, i as int));
                assert(rest.skip(i - start) =~= cs@.skip(i as int));
                lemma_slices_push(cs@, out@, start, i);
                assert(slices(cs@, out@).push(cs@.subrange(start as int, i as int)) + words(
                    cs@.skip(i as int),
                ) =~= slices(cs@, out@) + words(rest));
            }
            out.push((start, i));
        }
    }
    proof {
        assert(words(cs@.skip(n as int)) =~= Seq::<Seq<char>>::empty());
        assert(slices(cs@, out@) + Seq::<Seq<char>>::empty() =~= slices(cs@, out@));
    }
    out
}

// ---------------------------------------------------------------------------
// Fields: the pieces between occurrences of one separating character.
// ---------------------------------------------------------------------------

/// The number of characters at the front of `s` before the first `sep`
/// (all of them, if there is none).
pub open spec fn field_len(s: Seq<char>, sep: char) -> nat
    decreases s.len(),
{
    if s.len() == 0 || s[0] == sep {
        0
    } else {
        1 + field_len(s.drop_first(), sep)
    }
}

/// `field_len(s, sep)` stays inside `s`, covers no `sep`, and stops at a
/// `sep` or at the end.
pub proof fn lemma_field_len(s: Seq<char>, sep: char)
    ensures
        field_len(s, sep) <= s.len(),
        forall|i: int| 0 <= i < field_len(s, sep) ==> #[trigger] s[i] != sep,
        field_len(s, sep) < s.len() ==> s[field_len(s, sep) as int] == sep,
    decreases s.len(),
{
    if s.len() == 0 || s[0] == sep {
    } else {
        let t = s.drop_first();
        lemma_field_len(t, sep);
        assert forall|i: int| 0 <= i < field_len(s, sep) implies #[trigger] s[i] != sep by {
            if i > 0 {
                assert(s[i] == t[i - 1]);
            }
        }
        if field_len(s, sep) < s.len() {
            assert(s[field_len(s, sep) as int] == t[field_len(t, sep) as int]);
        }
    }
}

/// The one `n` that stays inside `s`, covers no `sep` and stops at a `sep`
/// or at the end is `field_len(s, sep)`.
pub proof fn lemma_field_len_is(s: Seq<char>, sep: char, n: nat)
    requires
        n <= s.len(),
        forall|i: int| 0 <= i < n ==> #[trigger] s[i] != sep,
        n < s.len() ==> s[n as int] == sep,
    ensures
        field_len(s, sep) == n,
    decreases s.len(),
{
    if n == 0 {
    } else {
        let t = s.drop_first();
        assert(s[0] != sep);
        assert forall|i: int| 0 <= i < n - 1 implies #[trigger] t[i] != sep by {
            assert(t[i] == s[i + 1]);
        }
        if n - 1 < t.len() {
            assert(t[n - 1] == s[n as int]);
        }
        lemma_field_len_is(t, sep, (n - 1) as nat);
    }
}

/// The fields of `s`: what stands before the first `sep`, between each two
/// neighbouring ones, and after the last. There is always at least one field,
/// and a field may be empty.
pub open spec fn split(s: Seq<char>, sep: char) -> Seq<Seq<char>>
    decreases s.len(),
    via split_decreases
{
    let n = field_len(s, sep);
    if n >= s.len() {
        seq![s]
    } else {
        seq![s.take(n as int)] + split(s.skip(n as int + 1), sep)
    }
}

#[via_fn]
proof fn split_decreases(s: Seq<char>, sep: char) {
    lemma_field_len(s, sep);
}

/// The index ranges of the fields of `cs[from..to]`.
pub fn split_ranges(cs: &Vec<char>, from: usize, to: usize, sep: char) -> (r: Vec<(usize, usize)>)
    requires
        from <= to <= cs@.len(),
    ensures
        ranges_within(r@, from as int, to as int),
        slices(cs@, r@) == split(cs@.subrange(from as int, to as int), sep),
        r@.len() >= 1,
{
    let mut out: Vec<(usize, usize)> = Vec::new();
    let mut start: usize = from;
    let mut i: usize = from;
    proof {
        assert(slices(cs@, out@) =~= Seq::<Seq<char>>::empty());
    }
    while i < to
        invariant
            from <= start <= i <= to <= cs@.len(),
            ranges_within(out@, from as int, to as int),
            forall|k: int| start <= k < i ==> #[trigger] cs@[k] != sep,
            slices(cs@, out@) + split(cs@.subrange(start as int, to as int), sep) == split(
                cs@.subrange(from as int, to as int),
                sep,
            ),
        decreases to - i,
    {
        if cs[i] == sep {
            proof {
                let rest = cs@.subrange(start as int, to as int);
                assert forall|k: int| 0 <= k < i - start implies #[trigger] rest[k] != sep by {
                    assert(rest[k] == cs@[start + k]);
                }
                lemma_field_len_is(rest, sep, (i - start) as nat);
                assert(rest.take(i - start) =~= cs@.subrange(start as int, i as int));
                assert(rest.skip(i - start + 1) =~= cs@.subrange(i + 1, to as int));
                lemma_slices_push(cs@, out@, start, i);
                assert(slices(cs@, out@).push(cs@.subrange(start as int, i as int)) + split(
                    cs@.subrange(i + 1, to as int),
                    sep,
                ) =~= slices(cs@, out@) + split(rest, sep));
            }
            out.push((start, i));
            start = i + 1;
        }
        i += 1;
    }
    proof {
        let rest = cs@.subrange(start as int, to as int);
        assert forall|k: int| 0 <= k < to - start implies #[trigger] rest[k] != sep by {
            assert(rest[k] == cs@[start + k]);
        }
        lemma_field_len_is(rest, sep, (to - start) as nat);
        lemma_slices_push(cs@, out@, start, to);
        assert(slices(cs@, out@).push(rest) =~= slices(cs@, out@) + seq![rest]);
    }
    out.push((start, to));
    out
}

// ---------------------------------------------------------------------------
// Putting words and fields together again.
// ---------------------------------------------------------------------------

/// `first`, then the character `sep`, then `rest`.
pub open spec fn then(first: Seq<char>, sep: char, rest: Seq<char>) -> Seq<char> {
    first + seq![sep] + rest
}

/// Whether `sep` does not occur in `s`.
pub open spec fn free_of(s: Seq<char>, sep: char) -> bool {
    forall|k: int| 0 <= k < s.len() ==> #[trigger] s[k] != sep
}

/// Whether `s` can be a word: it is not empty and holds no whitespace.
pub open spec fn is_word(s: Seq<char>) -> bool {
    &&& s.len() > 0
    &&& forall|k: int| 0 <= k < s.len() ==> !is_space(#[trigger] s[k])
}

/// Text without the separator is one field.
pub proof fn lemma_split_one(f: Seq<char>, sep: char)
    requires
        free_of(f, sep),
    ensures
        split(f, sep) == seq![f],
{
    lemma_field_len_is(f, sep, f.len());
}

/// A field that is followed by the separator and more text is the first
/// field, and the fields of the rest follow it.
pub proof fn lemma_split_then(f: Seq<char>, sep: char, rest: Seq<char>)
    requires
        free_of(f, sep),
    ensures
        split(then(f, sep, rest), sep) == seq![f] + split(rest, sep),
{
    let s = then(f, sep, rest);
    assert forall|k: int| 0 <= k < f.len() implies #[trigger] s[k] != sep by {
        assert(s[k] == f[k]);
    }
    assert(s[f.len() as int] == sep);
    lemma_field_len_is(s, sep, f.len());
    assert(s.take(f.len() as int) =~= f);
    assert(s.skip(f.len() as int + 1) =~= rest);
}

/// A word alone is the one word of its text.
pub proof fn lemma_words_one(w: Seq<char>)
    requires
        is_word(w),
    ensures
        words(w) == seq![w],
{
    lemma_word_len_is(w, w.len());
    assert(w.take(w.len() as int) =~= w);
    assert(w.skip(w.len() as int) =~= Seq::<char>::empty());
    assert(words(Seq::<char>::empty()) =~= Seq::<Seq<char>>::empty());
    assert(seq![w] + Seq::<Seq<char>>::empty() =~= seq![w]);
}

/// A word that is followed by a space and more text is the first word, and
/// the words of the rest follow it.
pub proof fn lemma_words_then(w: Seq<char>, rest: Seq<char>)
    requires
        is_word(w),
    ensures
        words(then(w, ' ', rest)) == seq![w] + words(rest),
{
    let s = then(w, ' ', rest);
    assert forall|k: int| 0 <= k < w.len() implies !is_space(#[trigger] s[k]) by {
        assert(s[k] == w[k]);
    }
    assert(s[0] == w[0]);
    assert(s[w.len() as int] == ' ');
    assert(is_space(' '));
    lemma_word_len_is(s, w.len());
    assert(s.take(w.len() as int) =~= w);
    let tail = s.skip(w.len() as int);
    assert(tail[0] == ' ');
    assert(tail.drop_first() =~= rest);
    assert(words(tail) == words(rest));
    assert(words(s) == seq![s.take(w.len() as int)] + words(tail));
}

/// Each of the words of a text can be a word.
pub proof fn lemma_words_are_words(s: Seq<char>)
    ensures
        forall|i: int| 0 <= i < words(s).len() ==> is_word(#[trigger] words(s)[i]),
    decreases s.len(),
{
    if s.len() == 0 {
        assert(words(s).len() == 0);
    } else if is_space(s[0]) {
        lemma_words_are_words(s.drop_first());
        assert(words(s) == words(s.drop_first()));
    } else {
        lemma_word_len(s);
        let n = word_len(s);
        let first = s.take(n as int);
        let rest = words(s.skip(n as int));
        lemma_words_are_words(s.skip(n as int));
        assert(n >= 1);
        assert(words(s) == seq![first] + rest);
        assert forall|k: int| 0 <= k < first.len() implies !is_space(#[trigger] first[k]) by {
            assert(first[k] == s[k]);
        }
        assert forall|i: int| 0 <= i < words(s).len() implies is_word(#[trigger] words(s)[i]) by {
            if i == 0 {
                assert(words(s)[0] == first);
            } else {
                assert(words(s)[i] == rest[i - 1]);
            }
        }
    }
}

} // verus!
