//! Byte-level text operations: where a word stands in a text, ASCII case
//! mapping, and dropping every copy of one byte.

use vstd::prelude::*;

verus! {

/// The ASCII space.
pub const SPACE: u8 = 32;

/// The ASCII apostrophe.
pub const APOSTROPHE: u8 = 39;

/// The ASCII exclamation mark, which conjugation uses as a marker.
pub const BANG: u8 = 33;

/// The ASCII asterisk that ends a reply to be completed with the user's words.
pub const STAR: u8 = 42;

/// `w` stands in `s` starting at position `p`.
pub open spec fn occurs_at(s: Seq<u8>, w: Seq<u8>, p: int) -> bool {
    0 <= p && p + w.len() <= s.len() && s.subrange(p, p + w.len()) == w
}

/// `w` stands somewhere in `s`.
pub open spec fn occurs_in(s: Seq<u8>, w: Seq<u8>) -> bool {
    exists|p: int| #[trigger] occurs_at(s, w, p)
}

/// ASCII upper case of one byte; every other byte is kept.
pub open spec fn upper_byte(b: u8) -> u8 {
    if 97 <= b <= 122 {
        (b - 32) as u8
    } else {
        b
    }
}

/// ASCII lower case of one byte; every other byte is kept.
pub open spec fn lower_byte(b: u8) -> u8 {
    if 65 <= b <= 90 {
        (b + 32) as u8
    } else {
        b
    }
}

/// The text with every ASCII letter in upper case.
pub open spec fn upper(s: Seq<u8>) -> Seq<u8> {
    s.map_values(|b: u8| upper_byte(b))
}

/// The text with every ASCII letter in lower case.
pub open spec fn lower(s: Seq<u8>) -> Seq<u8> {
    s.map_values(|b: u8| lower_byte(b))
}

/// The text with every copy of byte `x` taken out.
pub open spec fn without(s: Seq<u8>, x: u8) -> Seq<u8> {
    s.filter(other_than(x))
}

/// The test "this byte is not `x`".
pub open spec fn other_than(x: u8) -> spec_fn(u8) -> bool {
    |b: u8| b != x
}

/// Whether `w` stands in `s` at position `p`.
pub fn matches_at(s: &[u8], w: &[u8], p: usize) -> (r: bool)
    ensures
        r == occurs_at(s@, w@, p as int),
{
    if p > s.len() || w.len() > s.len() - p {
        return false;
    }
    let mut j: usize = 0;
    while j < w.len()
        invariant
            p + w@.len() <= s.len(),
            j <= w@.len(),
            forall|m: int| 0 <= m < j ==> s@[p + m] == w@[m],
        decreases w@.len() - j,
    {
        if s[p + j] != w[j] {
            assert(s@.subrange(p as int, p + w@.len())[j as int] != w@[j as int]);
            return false;
        }
        j += 1;
    }
    assert(s@.subrange(p as int, p + w@.len()) =~= w@);
    true
}

/// Appends all of `s` to `v`.
pub fn push_all(v: &mut Vec<u8>, s: &[u8])
    ensures
        final(v)@ == old(v)@ + s@,
{
    let mut j: usize = 0;
    while j < s.len()
        invariant
            j <= s@.len(),
            v@ == old(v)@ + s@.take(j as int),
        decreases s@.len() - j,
    {
        v.push(s[j]);
        j += 1;
        assert(s@.take(j as int) =~= s@.take(j - 1).push(s@[j - 1]));
    }
    assert(s@.take(j as int) =~= s@);
}

/// ASCII upper case of one byte.
pub fn to_upper_byte(b: u8) -> (r: u8)
    ensures
        r == upper_byte(b),
{
    if 97 <= b && b <= 122 {
        b - 32
    } else {
        b
    }
}

/// ASCII lower case of one byte.
pub fn to_lower_byte(b: u8) -> (r: u8)
    ensures
        r == lower_byte(b),
{
    if 65 <= b && b <= 90 {
        b + 32
    } else {
        b
    }
}

/// Taking out `x` from a text extended by one byte.
pub proof fn lemma_without_push(s: Seq<u8>, b: u8, x: u8)
    ensures
        without(s.push(b), x) == (if b == x {
            without(s, x)
        } else {
            without(s, x).push(b)
        }),
{
    reveal_with_fuel(Seq::filter, 1);
    assert(s.push(b).drop_last() =~= s);
}

/// Taking out `x` from a concatenation.
pub proof fn lemma_without_add(s: Seq<u8>, t: Seq<u8>, x: u8)
    ensures
        without(s + t, x) == without(s, x) + without(t, x),
{
    Seq::filter_distributes_over_add(s, t, other_than(x));
}

/// A text without any copy of `x` is left as it is.
pub proof fn lemma_without_absent(s: Seq<u8>, x: u8)
    requires
        forall|i: int| 0 <= i < s.len() ==> s[i] != x,
    ensures
        without(s, x) == s,
    decreases s.len(),
{
    if s.len() > 0 {
        lemma_without_absent(s.drop_last(), x);
        lemma_without_push(s.drop_last(), s.last(), x);
        assert(s.drop_last().push(s.last()) =~= s);
    } else {
        reveal_with_fuel(Seq::filter, 1);
    }
}

/// No copy of `x` is left.
pub proof fn lemma_without_removes(s: Seq<u8>, x: u8)
    ensures
        forall|i: int| 0 <= i < without(s, x).len() ==> without(s, x)[i] != x,
{
    broadcast use Seq::lemma_filter_pred;

    assert forall|i: int| 0 <= i < without(s, x).len() implies without(s, x)[i] != x by {
        s.lemma_filter_pred(other_than(x), i);
    }
}

} // verus!
