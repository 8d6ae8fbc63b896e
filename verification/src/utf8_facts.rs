//! Facts about well-formed UTF-8 that the engine's edits keep: dropping
//! or inserting ASCII bytes, swapping whole words, and ASCII case mapping
//! all leave a well-formed text well-formed.

use vstd::prelude::*;
use vstd::utf8::*;
use crate::text;

verus! {

/// A text that starts with an ASCII byte starts with a one-byte character.
pub proof fn lemma_ascii_first(s: Seq<u8>)
    requires
        s.len() > 0,
        s[0] < 0x80,
    ensures
        valid_first_scalar(s),
        length_of_first_scalar(s) == 1,
        pop_first_scalar(s) == s.drop_first(),
        take_first_scalar(s) == seq![s[0]],
{
    let b = s[0];
    assert((b & 0x7Fu8) as u32 <= 0x7f) by (bit_vector);
    assert(s.subrange(1, s.len() as int) =~= s.drop_first());
    assert(s.subrange(0, 1) =~= seq![s[0]]);
}

/// Bytes that are all ASCII are well-formed UTF-8.
pub proof fn lemma_ascii_valid(s: Seq<u8>)
    requires
        forall|i: int| 0 <= i < s.len() ==> s[i] < 0x80,
    ensures
        valid_utf8(s),
    decreases s.len(),
{
    if s.len() > 0 {
        lemma_ascii_first(s);
        lemma_ascii_valid(s.drop_first());
    }
}

/// The first character of a well-formed text, and what follows it, are
/// well-formed; a character that does not start with an ASCII byte has no
/// ASCII byte.
pub proof fn lemma_first_scalar(s: Seq<u8>)
    requires
        valid_utf8(s),
        s.len() > 0,
    ensures
        1 <= length_of_first_scalar(s) <= s.len(),
        length_of_first_scalar(s) <= 4,
        valid_utf8(s.take(length_of_first_scalar(s))),
        valid_utf8(s.skip(length_of_first_scalar(s))),
        s == s.take(length_of_first_scalar(s)) + s.skip(length_of_first_scalar(s)),
        s[0] < 0x80 ==> length_of_first_scalar(s) == 1,
        s[0] >= 0x80 ==> forall|j: int|
            0 <= j < length_of_first_scalar(s) ==> #[trigger] s[j] >= 0x80,
{
    let w = length_of_first_scalar(s);
    let t = s.take(w);
    assert(t.len() == w);
    assert forall|j: int| 0 <= j < w implies #[trigger] t[j] == s[j] by {}
    assert(valid_first_scalar(t));
    assert(pop_first_scalar(t) =~= Seq::<u8>::empty());
    assert(valid_utf8(pop_first_scalar(t)));
    assert(s.skip(w) =~= pop_first_scalar(s));
    assert(s =~= t + s.skip(w));
}

/// A well-formed text splits into two well-formed texts at a byte that is
/// not a continuation byte (or at its end).
pub proof fn lemma_split_at(s: Seq<u8>, j: int)
    requires
        valid_utf8(s),
        0 <= j <= s.len(),
        j == s.len() || !is_continuation_byte(s[j]),
    ensures
        valid_utf8(s.take(j)),
        valid_utf8(s.skip(j)),
{
    if j == s.len() {
        is_char_boundary_start_end_of_seq(s);
    } else {
        is_char_boundary_iff_not_is_continuation_byte(s, j);
    }
    valid_utf8_split(s, j);
    assert(s.subrange(0, j) =~= s.take(j));
    assert(s.subrange(j, s.len() as int) =~= s.skip(j));
}

/// What follows a well-formed prefix of a well-formed text is well-formed.
pub proof fn lemma_valid_rest(p: Seq<u8>, b: Seq<u8>)
    requires
        valid_utf8(p + b),
        valid_utf8(p),
    ensures
        valid_utf8(b),
    decreases p.len(),
{
    if p.len() == 0 {
        assert(p + b =~= b);
    } else {
        let s = p + b;
        let w = length_of_first_scalar(p);
        assert(valid_first_scalar(p));
        assert forall|j: int| 0 <= j < w implies #[trigger] s[j] == p[j] by {}
        assert(s[0] == p[0]);
        assert(length_of_first_scalar(s) == w);
        assert(valid_first_scalar(s));
        assert(pop_first_scalar(s) =~= pop_first_scalar(p) + b);
        lemma_valid_rest(pop_first_scalar(p), b);
    }
}

/// A well-formed non-empty text starts with a byte that is not a
/// continuation byte.
pub proof fn lemma_valid_head(a: Seq<u8>)
    requires
        valid_utf8(a),
        a.len() > 0,
    ensures
        !is_continuation_byte(a[0]),
{
    assert(valid_first_scalar(a));
}

/// Swapping a well-formed non-empty word for another well-formed word
/// keeps a well-formed text well-formed.
pub proof fn lemma_replace_word(x: Seq<u8>, a: Seq<u8>, y: Seq<u8>, b: Seq<u8>)
    requires
        valid_utf8(x + a + y),
        valid_utf8(a),
        a.len() > 0,
        valid_utf8(b),
    ensures
        valid_utf8(x + b + y),
{
    let s = x + a + y;
    lemma_valid_head(a);
    assert(s[x.len() as int] == a[0]);
    lemma_split_at(s, x.len() as int);
    assert(s.take(x.len() as int) =~= x);
    assert(s.skip(x.len() as int) =~= a + y);
    lemma_valid_rest(a, y);
    valid_utf8_concat(x, b);
    valid_utf8_concat(x + b, y);
}

/// A byte map that keeps ASCII bytes ASCII and every other byte as it is.
pub open spec fn ascii_only_map(f: spec_fn(u8) -> u8) -> bool {
    forall|b: u8| ((b < 0x80) == (#[trigger] f(b) < 0x80)) && (b >= 0x80 ==> f(b) == b)
}

/// Such a byte map neither makes nor breaks well-formed UTF-8.
pub proof fn lemma_map_valid(s: Seq<u8>, f: spec_fn(u8) -> u8)
    requires
        ascii_only_map(f),
    ensures
        valid_utf8(s.map_values(f)) == valid_utf8(s),
    decreases s.len(),
{
    let m = s.map_values(f);
    if s.len() == 0 {
    } else if s[0] < 0x80 {
        assert(f(s[0]) < 0x80);
        lemma_ascii_first(s);
        lemma_ascii_first(m);
        assert(m.drop_first() =~= s.drop_first().map_values(f));
        lemma_map_valid(s.drop_first(), f);
    } else {
        assert(m[0] == s[0]);
        assert forall|j: int| 0 <= j < s.len() implies is_continuation_byte(#[trigger] m[j])
            == is_continuation_byte(s[j]) && (s[j] >= 0x80 ==> m[j] == s[j]) by {
            assert(f(s[j]) == m[j]);
        }
        if s.len() >= 2 {
            assert(is_continuation_byte(m[1]) == is_continuation_byte(s[1]));
        }
        if s.len() >= 3 {
            assert(is_continuation_byte(m[2]) == is_continuation_byte(s[2]));
        }
        if s.len() >= 4 {
            assert(is_continuation_byte(m[3]) == is_continuation_byte(s[3]));
        }
        assert(valid_leading_and_continuation_bytes_first_codepoint(m)
            == valid_leading_and_continuation_bytes_first_codepoint(s));
        if valid_leading_and_continuation_bytes_first_codepoint(s) {
            let w = length_of_first_codepoint(s);
            assert(length_of_first_codepoint(m) == w);
            if w >= 2 {
                assert(m[1] == s[1]);
            }
            if w >= 3 {
                assert(m[2] == s[2]);
            }
            if w >= 4 {
                assert(m[3] == s[3]);
            }
            assert(decode_first_codepoint(m) == decode_first_codepoint(s));
            assert(valid_first_scalar(m) == valid_first_scalar(s));
            assert(pop_first_scalar(m) =~= pop_first_scalar(s).map_values(f));
            lemma_map_valid(pop_first_scalar(s), f);
        } else {
            assert(!valid_first_scalar(m));
            assert(!valid_first_scalar(s));
        }
    }
}

/// ASCII upper case is such a map.
pub proof fn lemma_upper_valid(s: Seq<u8>)
    ensures
        valid_utf8(text::upper(s)) == valid_utf8(s),
{
    let f = |b: u8| text::upper_byte(b);
    assert(ascii_only_map(f));
    lemma_map_valid(s, f);
}

/// ASCII lower case is such a map.
pub proof fn lemma_lower_valid(s: Seq<u8>)
    ensures
        valid_utf8(text::lower(s)) == valid_utf8(s),
{
    let f = |b: u8| text::lower_byte(b);
    assert(ascii_only_map(f));
    lemma_map_valid(s, f);
}

/// Taking out every copy of an ASCII byte keeps a text well-formed.
pub proof fn lemma_without_valid(s: Seq<u8>, x: u8)
    requires
        valid_utf8(s),
        x < 0x80,
    ensures
        valid_utf8(text::without(s, x)),
    decreases s.len(),
{
    if s.len() == 0 {
        text::lemma_without_absent(s, x);
    } else {
        lemma_first_scalar(s);
        let w = length_of_first_scalar(s);
        let t = s.take(w);
        let r = s.skip(w);
        text::lemma_without_add(t, r, x);
        if s[0] < 0x80 {
            assert(t =~= Seq::<u8>::empty().push(s[0]));
            text::lemma_without_absent(Seq::<u8>::empty(), x);
            text::lemma_without_push(Seq::<u8>::empty(), s[0], x);
            if s[0] != x {
                lemma_ascii_valid(text::without(t, x));
            } else {
                assert(text::without(t, x) =~= Seq::<u8>::empty());
                lemma_ascii_valid(text::without(t, x));
            }
        } else {
            assert forall|i: int| 0 <= i < t.len() implies t[i] != x by {
                assert(t[i] == s[i]);
            }
            text::lemma_without_absent(t, x);
        }
        lemma_without_valid(r, x);
        valid_utf8_concat(text::without(t, x), text::without(r, x));
    }
}

/// Putting ASCII bytes around a well-formed text keeps it well-formed.
pub proof fn lemma_wrap_ascii(a: Seq<u8>, y: Seq<u8>, b: Seq<u8>)
    requires
        valid_utf8(y),
        forall|i: int| 0 <= i < a.len() ==> a[i] < 0x80,
        forall|i: int| 0 <= i < b.len() ==> b[i] < 0x80,
    ensures
        valid_utf8(a + y + b),
{
    lemma_ascii_valid(a);
    lemma_ascii_valid(b);
    valid_utf8_concat(a, y);
    valid_utf8_concat(a + y, b);
}

/// After a character boundary that is not the end, the next boundary lies
/// one character further.
pub proof fn lemma_next_boundary(b: Seq<u8>, j: int)
    requires
        valid_utf8(b),
        0 <= j < b.len(),
        is_char_boundary(b, j),
    ensures
        valid_utf8(b.skip(j)),
        1 <= length_of_first_scalar(b.skip(j)),
        j + length_of_first_scalar(b.skip(j)) <= b.len(),
        is_char_boundary(b, j + length_of_first_scalar(b.skip(j))),
    decreases b.len(),
{
    let w0 = length_of_first_scalar(b);
    let p = pop_first_scalar(b);
    assert(valid_first_scalar(b));
    assert(valid_utf8(p));
    if j == 0 {
        assert(b.skip(0) =~= b);
        assert(is_char_boundary(p, 0));
    } else {
        assert(is_char_boundary(p, j - w0));
        lemma_next_boundary(p, j - w0);
        assert(b.skip(j) =~= p.skip(j - w0));
    }
}

/// A text that starts with a whole character keeps that character first
/// when more bytes follow it.
pub proof fn lemma_first_scalar_of_concat(a: Seq<u8>, b: Seq<u8>)
    requires
        a.len() > 0,
        valid_first_scalar(a),
    ensures
        valid_first_scalar(a + b),
        length_of_first_scalar(a + b) == length_of_first_scalar(a),
        decode_first_scalar(a + b) == decode_first_scalar(a),
        pop_first_scalar(a + b) == pop_first_scalar(a) + b,
{
    let s = a + b;
    let w = length_of_first_scalar(a);
    assert forall|j: int| 0 <= j < w implies #[trigger] s[j] == a[j] by {}
    assert(s[0] == a[0]);
    assert(pop_first_scalar(s) =~= pop_first_scalar(a) + b);
}

/// Decoding distributes over the concatenation of well-formed texts.
pub proof fn lemma_decode_concat(a: Seq<u8>, b: Seq<u8>)
    requires
        valid_utf8(a),
        valid_utf8(b),
    ensures
        valid_utf8(a + b),
        decode_utf8(a + b) == decode_utf8(a) + decode_utf8(b),
    decreases a.len(),
{
    valid_utf8_concat(a, b);
    if a.len() == 0 {
        assert(a + b =~= b);
        assert(decode_utf8(a) =~= Seq::<char>::empty());
        assert(decode_utf8(a + b) =~= decode_utf8(a) + decode_utf8(b));
    } else {
        assert(valid_first_scalar(a));
        lemma_first_scalar_of_concat(a, b);
        lemma_decode_concat(pop_first_scalar(a), b);
        assert(decode_utf8(a + b) =~= decode_utf8(a) + decode_utf8(b));
    }
}

/// Every character that `b` decodes to and that is not ASCII occurs in
/// `src`.
pub open spec fn non_ascii_from(b: Seq<u8>, src: Seq<char>) -> bool {
    forall|i: int|
        #![trigger decode_utf8(b)[i]]
        0 <= i < decode_utf8(b).len() && (decode_utf8(b)[i] as u32) >= 0x80 ==> src.contains(
            decode_utf8(b)[i],
        )
}

/// ASCII bytes decode to ASCII characters.
pub proof fn lemma_ascii_decode(s: Seq<u8>, src: Seq<char>)
    requires
        forall|i: int| 0 <= i < s.len() ==> s[i] < 0x80,
    ensures
        valid_utf8(s),
        forall|i: int| 0 <= i < decode_utf8(s).len() ==> (#[trigger] decode_utf8(s)[i] as u32) < 0x80,
        non_ascii_from(s, src),
    decreases s.len(),
{
    lemma_ascii_valid(s);
    if s.len() > 0 {
        lemma_ascii_first(s);
        lemma_ascii_decode(s.drop_first(), src);
        let b = s[0];
        assert((b & 0x7Fu8) as u32 <= 0x7f) by (bit_vector);
        let c = decode_first_scalar(s);
        assert(c < 0x80);
        assert((c as char) as u32 == c);
        assert(decode_utf8(s) =~= seq![c as char] + decode_utf8(s.drop_first()));
    } else {
        assert(decode_utf8(s) =~= Seq::<char>::empty());
    }
}

/// The non-ASCII characters of a concatenation are those of its parts.
pub proof fn lemma_non_ascii_concat(a: Seq<u8>, b: Seq<u8>, src: Seq<char>)
    requires
        valid_utf8(a),
        valid_utf8(b),
    ensures
        non_ascii_from(a + b, src) == (non_ascii_from(a, src) && non_ascii_from(b, src)),
{
    lemma_decode_concat(a, b);
    let da = decode_utf8(a);
    let db = decode_utf8(b);
    let d = decode_utf8(a + b);
    if non_ascii_from(a + b, src) {
        assert forall|i: int|
            #![trigger da[i]]
            0 <= i < da.len() && (da[i] as u32) >= 0x80 implies src.contains(da[i]) by {
            assert(d[i] == da[i]);
        }
        assert forall|i: int|
            #![trigger db[i]]
            0 <= i < db.len() && (db[i] as u32) >= 0x80 implies src.contains(db[i]) by {
            assert(d[da.len() + i] == db[i]);
        }
    }
    if non_ascii_from(a, src) && non_ascii_from(b, src) {
        assert forall|i: int|
            #![trigger d[i]]
            0 <= i < d.len() && (d[i] as u32) >= 0x80 implies src.contains(d[i]) by {
            if i < da.len() {
                assert(d[i] == da[i]);
            } else {
                assert(d[i] == db[i - da.len()]);
            }
        }
    }
}

/// Splitting at a byte that is not a continuation byte keeps the
/// non-ASCII characters of both parts among those of the whole.
pub proof fn lemma_non_ascii_split(s: Seq<u8>, j: int, src: Seq<char>)
    requires
        valid_utf8(s),
        0 <= j <= s.len(),
        j == s.len() || !is_continuation_byte(s[j]),
        non_ascii_from(s, src),
    ensures
        non_ascii_from(s.take(j), src),
        non_ascii_from(s.skip(j), src),
{
    lemma_split_at(s, j);
    assert(s =~= s.take(j) + s.skip(j));
    lemma_non_ascii_concat(s.take(j), s.skip(j), src);
}

/// Taking out an ASCII byte brings in no new character.
pub proof fn lemma_non_ascii_without(s: Seq<u8>, x: u8, src: Seq<char>)
    requires
        valid_utf8(s),
        x < 0x80,
        non_ascii_from(s, src),
    ensures
        non_ascii_from(text::without(s, x), src),
    decreases s.len(),
{
    if s.len() == 0 {
        text::lemma_without_absent(s, x);
    } else {
        lemma_first_scalar(s);
        let w = length_of_first_scalar(s);
        let t = s.take(w);
        let r = s.skip(w);
        lemma_non_ascii_concat(t, r, src);
        text::lemma_without_add(t, r, x);
        lemma_without_valid(t, x);
        lemma_without_valid(r, x);
        if s[0] < 0x80 {
            assert(t =~= Seq::<u8>::empty().push(s[0]));
            text::lemma_without_absent(Seq::<u8>::empty(), x);
            text::lemma_without_push(Seq::<u8>::empty(), s[0], x);
            if s[0] != x {
                lemma_ascii_decode(text::without(t, x), src);
            } else {
                assert(text::without(t, x) =~= Seq::<u8>::empty());
                lemma_ascii_decode(text::without(t, x), src);
            }
        } else {
            assert forall|i: int| 0 <= i < t.len() implies t[i] != x by {
                assert(t[i] == s[i]);
            }
            text::lemma_without_absent(t, x);
        }
        lemma_non_ascii_without(r, x, src);
        lemma_non_ascii_concat(text::without(t, x), text::without(r, x), src);
    }
}

/// An ASCII-only byte map brings in no new character.
pub proof fn lemma_non_ascii_map(s: Seq<u8>, f: spec_fn(u8) -> u8, src: Seq<char>)
    requires
        valid_utf8(s),
        ascii_only_map(f),
        non_ascii_from(s, src),
    ensures
        non_ascii_from(s.map_values(f), src),
    decreases s.len(),
{
    if s.len() > 0 {
        lemma_first_scalar(s);
        let w = length_of_first_scalar(s);
        let t = s.take(w);
        let r = s.skip(w);
        lemma_non_ascii_concat(t, r, src);
        assert(s.map_values(f) =~= t.map_values(f) + r.map_values(f));
        lemma_map_valid(t, f);
        lemma_map_valid(r, f);
        if s[0] < 0x80 {
            assert(f(s[0]) < 0x80);
            assert(t.map_values(f) =~= seq![f(s[0])]);
            lemma_ascii_decode(t.map_values(f), src);
        } else {
            assert forall|i: int| 0 <= i < t.len() implies #[trigger] t.map_values(f)[i] == t[i] by {
                assert(t[i] == s[i]);
                assert(f(t[i]) == t[i]);
            }
            assert(t.map_values(f) =~= t);
        }
        lemma_non_ascii_map(r, f, src);
        lemma_non_ascii_concat(t.map_values(f), r.map_values(f), src);
    }
}

/// Swapping a well-formed non-empty word for an ASCII word brings in no
/// new character.
pub proof fn lemma_non_ascii_replace(x: Seq<u8>, a: Seq<u8>, y: Seq<u8>, b: Seq<u8>, src: Seq<char>)
    requires
        valid_utf8(x + a + y),
        valid_utf8(a),
        a.len() > 0,
        forall|i: int| 0 <= i < b.len() ==> b[i] < 0x80,
        non_ascii_from(x + a + y, src),
    ensures
        non_ascii_from(x + b + y, src),
{
    let s = x + a + y;
    lemma_valid_head(a);
    assert(s[x.len() as int] == a[0]);
    lemma_split_at(s, x.len() as int);
    assert(s.take(x.len() as int) =~= x);
    assert(s.skip(x.len() as int) =~= a + y);
    lemma_valid_rest(a, y);
    lemma_ascii_decode(b, src);
    lemma_decode_concat(x, a);
    lemma_non_ascii_concat(x + a, y, src);
    lemma_non_ascii_concat(x, a, src);
    lemma_decode_concat(x, b);
    lemma_non_ascii_concat(x, b, src);
    lemma_non_ascii_concat(x + b, y, src);
}

/// The encoding of one character is not empty.
pub proof fn lemma_encode_char_nonempty(ch: char)
    ensures
        encode_utf8(seq![ch]).len() > 0,
{
    assert(encode_scalar(ch as u32).len() > 0);
}

/// Taking out the character that starts at a boundary keeps a text
/// well-formed.
pub proof fn lemma_remove_char(t: Seq<u8>, c: int)
    requires
        valid_utf8(t),
        0 <= c < t.len(),
        is_char_boundary(t, c),
    ensures
        c + length_of_first_scalar(t.skip(c)) <= t.len(),
        valid_utf8(t.take(c) + t.skip(c + length_of_first_scalar(t.skip(c)))),
{
    let w = length_of_first_scalar(t.skip(c));
    lemma_next_boundary(t, c);
    valid_utf8_split(t, c);
    assert(t.subrange(0, c) =~= t.take(c));
    let rest = t.skip(c);
    assert(valid_first_scalar(rest));
    assert(pop_first_scalar(rest) =~= t.skip(c + w));
    valid_utf8_concat(t.take(c), t.skip(c + w));
}

} // verus!
