//! The three steps that turn one line of input into the material of a reply:
//! cleaning the line, finding the keyword, and conjugating what follows it.

use vstd::prelude::*;
use crate::tables::{self, keyword, pair, KEYWORD_COUNT, PAIR_COUNT};
use crate::utf8_facts;
use crate::text::{self, push_all, matches_at, to_upper_byte, APOSTROPHE, BANG, SPACE};

verus! {

broadcast use vstd::string::group_string_axioms;

/// The line as the conversation sees it: one space before, two after.
pub open spec fn padded(input: Seq<u8>) -> Seq<u8> {
    seq![SPACE] + input + seq![SPACE, SPACE]
}

/// The upper-case word that ends the conversation.
pub open spec fn shut_upper() -> Seq<u8> {
    vstd::utf8::encode_utf8("SHUT"@)
}

/// The lower-case word that ends the conversation.
pub open spec fn shut_lower() -> Seq<u8> {
    vstd::utf8::encode_utf8("shut"@)
}

/// The line asks to end the conversation: it holds "SHUT" or "shut" (exactly
/// so: other mixtures of case do not count).
pub open spec fn asks_to_stop(input: Seq<u8>) -> bool {
    text::occurs_in(input, shut_upper()) || text::occurs_in(input, shut_lower())
}

/// The cleaned line: `None` when it asks to stop, else the padded line
/// with all apostrophes taken out.
#[verifier::opaque]
pub open spec fn cleaned(input: Seq<u8>) -> Option<Seq<u8>> {
    if asks_to_stop(input) {
        None
    } else {
        Some(text::without(padded(input), APOSTROPHE))
    }
}

/// The bytes of the two stop words.
pub proof fn lemma_stop_words()
    ensures
        shut_upper() == seq![83u8, 72u8, 85u8, 84u8],
        shut_lower() == seq![115u8, 104u8, 117u8, 116u8],
{
    reveal_strlit("SHUT");
    reveal_strlit("shut");
    assert(vstd::utf8::is_ascii_chars("SHUT"@));
    assert(vstd::utf8::is_ascii_chars("shut"@));
    vstd::utf8::is_ascii_chars_encode_utf8("SHUT"@);
    vstd::utf8::is_ascii_chars_encode_utf8("shut"@);
    assert(shut_upper() =~= seq![83u8, 72u8, 85u8, 84u8]);
    assert(shut_lower() =~= seq![115u8, 104u8, 117u8, 116u8]);
}

/// Occurrences of a word that starts and ends with a non-space byte are the
/// same in a line and in its padded form, shifted by one.
pub proof fn lemma_padded_occurs(input: Seq<u8>, w: Seq<u8>)
    requires
        w.len() > 0,
        w[0] != SPACE,
        w.last() != SPACE,
    ensures
        text::occurs_in(padded(input), w) == text::occurs_in(input, w),
        forall|p: int| #[trigger]
            text::occurs_at(padded(input), w, p) ==> text::occurs_at(input, w, p - 1),
{
    let pd = padded(input);
    assert forall|p: int| #[trigger] text::occurs_at(pd, w, p) implies text::occurs_at(
        input,
        w,
        p - 1,
    ) by {
        assert(pd.subrange(p, p + w.len())[0] == w[0]);
        assert(pd.subrange(p, p + w.len())[w.len() - 1] == w[w.len() - 1]);
        assert(1 <= p);
        assert(p + w.len() <= input.len() + 1);
        assert(input.subrange(p - 1, p - 1 + w.len()) =~= pd.subrange(p, p + w.len()));
    }
    assert forall|q: int| #[trigger] text::occurs_at(input, w, q) implies text::occurs_at(
        pd,
        w,
        q + 1,
    ) by {
        assert(input.subrange(q, q + w.len()) =~= pd.subrange(q + 1, q + 1 + w.len()));
    }
    if text::occurs_in(pd, w) {
        let p = choose|p: int| text::occurs_at(pd, w, p);
        assert(text::occurs_at(input, w, p - 1));
    }
    if text::occurs_in(input, w) {
        let q = choose|q: int| text::occurs_at(input, w, q);
        assert(text::occurs_at(pd, w, q + 1));
    }
}

/// Cleans one line: pads it with a space before and two after, takes out
/// every apostrophe, and answers `None` when the line holds "SHUT" or "shut".
///
/// The line is scanned left to right over a bound fixed at the start; at
/// each position the apostrophes standing there are dropped before the four
/// bytes from that position are compared with the stop words, so an
/// apostrophe inside a stop word ("s'hut") hides it.
pub fn preprocess(input: &[u8]) -> (r: Option<Vec<u8>>)
    ensures
        match r {
            None => cleaned(input@) is None,
            Some(i) => cleaned(input@) == Some(i@),
        },
{
    reveal(cleaned);
    let mut i: Vec<u8> = Vec::new();
    i.push(SPACE);
    push_all(&mut i, input);
    i.push(SPACE);
    i.push(SPACE);
    let ghost orig = i@;
    assert(orig =~= padded(input@));
    let upper_word = "SHUT".as_bytes();
    let lower_word = "shut".as_bytes();
    proof {
        lemma_stop_words();
        text::lemma_without_absent(orig.take(0), APOSTROPHE);
    }
    let limit = i.len();
    let ghost mut p: int = 0;
    let mut l: usize = 0;
    while l < limit
        invariant
            orig == padded(input@),
            limit == orig.len(),
            upper_word@ == shut_upper(),
            lower_word@ == shut_lower(),
            shut_upper() == seq![83u8, 72u8, 85u8, 84u8],
            shut_lower() == seq![115u8, 104u8, 117u8, 116u8],
            0 <= p <= orig.len(),
            i@ == text::without(orig.take(p), APOSTROPHE) + orig.skip(p),
            l >= text::without(orig.take(p), APOSTROPHE).len(),
            l > text::without(orig.take(p), APOSTROPHE).len() ==> p == orig.len(),
            forall|q: int|
                0 <= q < p ==> !text::occurs_at(orig, shut_upper(), q) && !text::occurs_at(
                    orig,
                    shut_lower(),
                    q,
                ),
        decreases limit - l,
    {
        while l < i.len() && i[l] == APOSTROPHE
            invariant
                orig == padded(input@),
                limit == orig.len(),
                shut_upper() == seq![83u8, 72u8, 85u8, 84u8],
                shut_lower() == seq![115u8, 104u8, 117u8, 116u8],
                0 <= p <= orig.len(),
                i@ == text::without(orig.take(p), APOSTROPHE) + orig.skip(p),
                l >= text::without(orig.take(p), APOSTROPHE).len(),
                l > text::without(orig.take(p), APOSTROPHE).len() ==> p == orig.len(),
                forall|q: int|
                    0 <= q < p ==> !text::occurs_at(orig, shut_upper(), q) && !text::occurs_at(
                        orig,
                        shut_lower(),
                        q,
                    ),
            decreases i@.len(),
        {
            let ghost w = text::without(orig.take(p), APOSTROPHE);
            assert(orig[p] == APOSTROPHE) by {
                assert(i@[l as int] == orig.skip(p)[0]);
            }
            i.remove(l);
            proof {
                assert(orig.take(p + 1) =~= orig.take(p).push(orig[p]));
                text::lemma_without_push(orig.take(p), orig[p], APOSTROPHE);
                assert(i@ =~= w + orig.skip(p + 1));
                if p + 4 <= orig.len() {
                    assert(orig.subrange(p, p + 4)[0] == APOSTROPHE);
                }
                p = p + 1;
            }
        }
        let ghost w = text::without(orig.take(p), APOSTROPHE);
        if l <= i.len() && i.len() - l >= 4 && (matches_at(&i, upper_word, l) || matches_at(
            &i,
            lower_word,
            l,
        )) {
            proof {
                reveal(cleaned);
                assert(l == w.len());
                assert(i@.subrange(l as int, l + 4) =~= orig.subrange(p, p + 4));
                if text::occurs_at(i@, shut_upper(), l as int) {
                    assert(text::occurs_at(orig, shut_upper(), p));
                    lemma_padded_occurs(input@, shut_upper());
                } else {
                    assert(text::occurs_at(orig, shut_lower(), p));
                    lemma_padded_occurs(input@, shut_lower());
                }
            }
            return None;
        }
        proof {
            if l == w.len() && p < orig.len() {
                assert(i@[l as int] == orig[p]);
                assert(orig.take(p + 1) =~= orig.take(p).push(orig[p]));
                text::lemma_without_push(orig.take(p), orig[p], APOSTROPHE);
                assert(i@ =~= w.push(orig[p]) + orig.skip(p + 1));
                if p + 4 <= orig.len() {
                    assert(i@.subrange(l as int, l + 4) =~= orig.subrange(p, p + 4));
                }
                p = p + 1;
            }
        }
        l += 1;
    }
    proof {
        orig.take(p).lemma_filter_len(text::other_than(APOSTROPHE));
        assert(p == orig.len());
        assert(orig.take(p) =~= orig);
        assert(orig.skip(p) =~= Seq::<u8>::empty());
        assert(i@ =~= text::without(orig, APOSTROPHE));
        assert(!text::occurs_in(orig, shut_upper()));
        assert(!text::occurs_in(orig, shut_lower()));
        lemma_padded_occurs(input@, shut_upper());
        lemma_padded_occurs(input@, shut_lower());
    }
    Some(i)
}

/// The byte-wise ASCII upper case of a line, against which keywords are
/// matched.
pub fn uppercase(i: &[u8]) -> (r: Vec<u8>)
    ensures
        r@ == text::upper(i@),
{
    let mut r: Vec<u8> = Vec::new();
    let mut j: usize = 0;
    while j < i.len()
        invariant
            j <= i@.len(),
            r@ == text::upper(i@.take(j as int)),
        decreases i@.len() - j,
    {
        r.push(to_upper_byte(i[j]));
        j += 1;
        assert(text::upper(i@.take(j as int)) =~= text::upper(i@.take(j - 1)).push(
            text::upper_byte(i@[j - 1]),
        ));
    }
    assert(i@.take(j as int) =~= i@);
    r
}

/// The bytes of keyword `k`.
pub open spec fn keyword_bytes(k: int) -> Seq<u8> {
    vstd::utf8::encode_utf8(tables::keyword_str(k)@)
}

/// The last position at which `w` stands in `s`.
#[verifier::opaque]
pub open spec fn last_occurrence(s: Seq<u8>, w: Seq<u8>) -> int {
    choose|p: int|
        #![trigger text::occurs_at(s, w, p)]
        text::occurs_at(s, w, p) && forall|q: int| text::occurs_at(s, w, q) ==> q <= p
}

/// Keyword `k` is the first keyword, in priority order, that stands in `s`.
pub open spec fn first_keyword_at(s: Seq<u8>, k: int) -> bool {
    &&& 0 <= k < KEYWORD_COUNT
    &&& text::occurs_in(s, keyword_bytes(k))
    &&& forall|j: int| 0 <= j < k ==> !text::occurs_in(s, #[trigger] keyword_bytes(j))
}

/// The keyword found in the upper-case line `s`: the first, in priority
/// order, that stands anywhere in it; `None` when none does.
#[verifier::opaque]
pub open spec fn found_keyword(s: Seq<u8>) -> Option<int> {
    if exists|k: int| 0 <= k < KEYWORD_COUNT && text::occurs_in(s, #[trigger] keyword_bytes(k)) {
        Some(choose|k: int| first_keyword_at(s, k))
    } else {
        None
    }
}

/// Finds the keyword of an upper-case line: the first keyword, in priority
/// order, that stands anywhere in it, with the position of its last
/// occurrence and its bytes.
pub fn find_keyword(iu: &[u8]) -> (r: Option<(usize, usize, &'static [u8])>)
    ensures
        match r {
            None => found_keyword(iu@) is None,
            Some((k, t, f)) => {
                &&& found_keyword(iu@) == Some(k as int)
                &&& k < KEYWORD_COUNT
                &&& f@ == keyword_bytes(k as int)
                &&& t == last_occurrence(iu@, f@)
                &&& text::occurs_at(iu@, f@, t as int)
                &&& forall|q: int| text::occurs_at(iu@, f@, q) ==> q <= t
            },
        },
{
    reveal(found_keyword);
    reveal(last_occurrence);
    let mut found: Option<(usize, usize, &'static [u8])> = None;
    let mut k: usize = 0;
    while k < KEYWORD_COUNT
        invariant
            k <= KEYWORD_COUNT,
            found is None ==> forall|j: int|
                0 <= j < k ==> !text::occurs_in(iu@, #[trigger] keyword_bytes(j)),
            found matches Some((kk, t, f)) ==> {
                &&& kk + 1 == k
                &&& first_keyword_at(iu@, kk as int)
                &&& f@ == keyword_bytes(kk as int)
                &&& text::occurs_at(iu@, f@, t as int)
                &&& forall|q: int| text::occurs_at(iu@, f@, q) ==> q <= t
            },
        ensures
            found is None ==> k == KEYWORD_COUNT && forall|j: int|
                0 <= j < KEYWORD_COUNT ==> !text::occurs_in(iu@, #[trigger] keyword_bytes(j)),
            found matches Some((kk, t, f)) ==> {
                &&& first_keyword_at(iu@, kk as int)
                &&& f@ == keyword_bytes(kk as int)
                &&& text::occurs_at(iu@, f@, t as int)
                &&& forall|q: int| text::occurs_at(iu@, f@, q) ==> q <= t
            },
        decreases KEYWORD_COUNT - k,
    {
        if found.is_some() {
            break;
        }
        let kw = keyword(k).as_bytes();
        let limit: usize = if iu.len() >= kw.len() {
            iu.len() - kw.len()
        } else {
            0
        };
        let mut l: usize = 0;
        let mut scanning = true;
        while scanning
            invariant
                l <= limit,
                !scanning ==> l == limit,
                limit <= iu@.len(),
                iu@.len() >= kw@.len() ==> limit == iu@.len() - kw@.len(),
                kw@ == keyword_bytes(k as int),
                k < KEYWORD_COUNT,
                forall|j: int| 0 <= j < k ==> !text::occurs_in(iu@, #[trigger] keyword_bytes(j)),
                found is None ==> forall|q: int|
                    0 <= q < l || (!scanning && q == l) ==> !text::occurs_at(iu@, kw@, q),
                found matches Some((kk, t, f)) ==> {
                    &&& kk == k
                    &&& f@ == kw@
                    &&& text::occurs_at(iu@, kw@, t as int)
                    &&& forall|q: int|
                        t < q && (q < l || (!scanning && q == l)) ==> !text::occurs_at(
                            iu@,
                            kw@,
                            q,
                        )
                },
            decreases limit - l + (if scanning {
                1int
            } else {
                0int
            }),
        {
            if matches_at(iu, kw, l) {
                found = Some((k, l, kw));
            }
            if l == limit {
                scanning = false;
            } else {
                l += 1;
            }
        }
        proof {
            assert forall|q: int| limit < q implies !text::occurs_at(iu@, kw@, q) by {}
            if let Some((kk, t, f)) = found {
                assert(text::occurs_at(iu@, kw@, t as int));
                assert(text::occurs_in(iu@, keyword_bytes(k as int)));
                assert forall|q: int| text::occurs_at(iu@, f@, q) implies q <= t by {
                    if q > t && q <= limit {
                        assert(!text::occurs_at(iu@, kw@, q));
                    }
                }
            } else {
                assert forall|q: int| !text::occurs_at(iu@, kw@, q) by {
                    if 0 <= q <= limit {
                        assert(!text::occurs_at(iu@, kw@, q));
                    }
                }
                assert(!text::occurs_in(iu@, keyword_bytes(k as int)));
            }
        }
        k += 1;
    }
    proof {
        if let Some((kk, t, f)) = found {
            let c = choose|c: int| first_keyword_at(iu@, c);
            assert(first_keyword_at(iu@, c));
            if c < kk {
                assert(!text::occurs_in(iu@, keyword_bytes(c)));
            }
            if kk < c {
                assert(!text::occurs_in(iu@, keyword_bytes(kk as int)));
            }
            assert(c == kk);
            let lo = last_occurrence(iu@, f@);
            assert(text::occurs_at(iu@, f@, lo) && forall|q: int|
                text::occurs_at(iu@, f@, q) ==> q <= lo);
        }
    }
    found
}

/// The bytes of the word that conjugation pair `j` looks for first.
pub open spec fn pair_from(j: int) -> Seq<u8> {
    vstd::utf8::encode_utf8(tables::pair_from_str(j)@)
}

/// The bytes of the word that conjugation pair `j` puts in its place.
pub open spec fn pair_to(j: int) -> Seq<u8> {
    vstd::utf8::encode_utf8(tables::pair_to_str(j)@)
}

/// One pass of the pair (`a`, `b`) over `src`, from position `p` on, when
/// `out` has been written so far and the pass stops once `limit` bytes are
/// written.
///
/// Where `a` stands it is written as `b`, and where `b` stands it is
/// written as `a` (`a` is tried first); the byte that follows a replaced
/// word is then copied without being looked at. Every other byte is copied.
/// Once the output reaches `limit` bytes the rest of `src` is copied as it
/// is.
pub open spec fn swap_scan(
    src: Seq<u8>,
    a: Seq<u8>,
    b: Seq<u8>,
    p: int,
    out: Seq<u8>,
    limit: int,
) -> Seq<u8>
    decreases src.len() - p,
{
    if p < 0 || p >= src.len() || out.len() >= limit {
        out + src.skip(p)
    } else if text::occurs_at(src, a, p) {
        let q = p + a.len();
        if q < src.len() {
            swap_scan(src, a, b, q + 1, out + b + seq![src[q]], limit)
        } else {
            out + b
        }
    } else if text::occurs_at(src, b, p) {
        let q = p + b.len();
        if q < src.len() {
            swap_scan(src, a, b, q + 1, out + a + seq![src[q]], limit)
        } else {
            out + a
        }
    } else {
        swap_scan(src, a, b, p + 1, out.push(src[p]), limit)
    }
}

/// One full pass of the pair (`a`, `b`) over `src`, bounded by the length
/// of `src` at the start of the pass.
pub open spec fn swap_pass(src: Seq<u8>, a: Seq<u8>, b: Seq<u8>) -> Seq<u8> {
    swap_scan(src, a, b, 0, seq![], src.len() as int)
}

/// The text after the passes of the first `n` conjugation pairs, in order.
pub open spec fn after_pairs(c: Seq<u8>, n: int) -> Seq<u8>
    decreases n,
{
    if n <= 0 {
        c
    } else {
        swap_pass(after_pairs(c, n - 1), pair_from(n - 1), pair_to(n - 1))
    }
}

/// What follows position `start` of the cleaned line, between two spaces.
pub open spec fn remainder(i: Seq<u8>, start: int) -> Seq<u8> {
    seq![SPACE] + i.skip(start) + seq![SPACE]
}

/// The text with its first byte dropped when its second byte is a space.
pub open spec fn one_leading_space(c: Seq<u8>) -> Seq<u8> {
    if c.len() > 1 && c[1] == SPACE {
        c.skip(1)
    } else {
        c
    }
}

/// The conjugated remainder of the cleaned line `i` after position `start`:
/// every conjugation pair applied in turn, the first byte dropped when the
/// second is a space, and the "!" markers taken out.
#[verifier::opaque]
pub open spec fn conjugated(i: Seq<u8>, start: int) -> Seq<u8> {
    text::without(one_leading_space(after_pairs(remainder(i, start), PAIR_COUNT as int)), BANG)
}

/// Appends `src[p..]` to `out`.
fn push_from(out: &mut Vec<u8>, src: &[u8], p: usize)
    requires
        p <= src@.len(),
    ensures
        final(out)@ == old(out)@ + src@.skip(p as int),
{
    let mut j: usize = p;
    while j < src.len()
        invariant
            p <= j <= src@.len(),
            out@ == old(out)@ + src@.subrange(p as int, j as int),
        decreases src@.len() - j,
    {
        out.push(src[j]);
        j += 1;
        assert(src@.subrange(p as int, j as int) =~= src@.subrange(p as int, j - 1).push(
            src@[j - 1],
        ));
    }
    assert(src@.subrange(p as int, j as int) =~= src@.skip(p as int));
}

/// One pass of a conjugation pair over `c`: `a` becomes `b` and `b`
/// becomes `a`, scanning forward over a bound fixed at the start.
pub fn swap_words(c: &[u8], a: &[u8], b: &[u8]) -> (r: Vec<u8>)
    ensures
        r@ == swap_pass(c@, a@, b@),
{
    let limit = c.len();
    let mut out: Vec<u8> = Vec::new();
    let mut p: usize = 0;
    while p < c.len() && out.len() < limit
        invariant
            limit == c@.len(),
            p <= c@.len(),
            swap_scan(c@, a@, b@, p as int, out@, limit as int) == swap_pass(c@, a@, b@),
        decreases c@.len() - p,
    {
        let ghost out0 = out@;
        if matches_at(c, a, p) {
            let q = p + a.len();
            push_all(&mut out, b);
            if q < c.len() {
                out.push(c[q]);
                assert(out@ =~= out0 + b@ + seq![c@[q as int]]);
                p = q + 1;
            } else {
                assert(out@ + c@.skip(c@.len() as int) =~= out0 + b@);
                p = c.len();
            }
        } else if matches_at(c, b, p) {
            let q = p + b.len();
            push_all(&mut out, a);
            if q < c.len() {
                out.push(c[q]);
                assert(out@ =~= out0 + a@ + seq![c@[q as int]]);
                p = q + 1;
            } else {
                assert(out@ + c@.skip(c@.len() as int) =~= out0 + a@);
                p = c.len();
            }
        } else {
            out.push(c[p]);
            p += 1;
        }
    }
    push_from(&mut out, c, p);
    out
}

/// Conjugates what follows the keyword `f` found at position `t` of the
/// cleaned line `i`: the text after the keyword between two spaces, each
/// conjugation pair applied in one forward pass, the first byte dropped when
/// the second is a space, and the "!" markers taken out.
pub fn conjugate(i: &[u8], t: usize, f: &[u8]) -> (r: Vec<u8>)
    requires
        t + f@.len() <= i.len(),
    ensures
        r@ == conjugated(i@, t + f@.len()),
        r@.len() > 0,
        r@[0] == SPACE,
        r@.last() == SPACE,
        forall|j: int| 0 <= j < r@.len() ==> r@[j] != BANG,
{
    proof {
        crate::laws::law_conjugated_framed(i@, t + f@.len());
        crate::laws::law_conjugated_has_no_marker(i@, t + f@.len());
    }
    reveal(conjugated);
    let mut c: Vec<u8> = Vec::new();
    c.push(SPACE);
    push_from(&mut c, i, t + f.len());
    c.push(SPACE);
    assert(c@ =~= remainder(i@, t + f@.len()));
    let mut j: usize = 0;
    while j < PAIR_COUNT
        invariant
            j <= PAIR_COUNT,
            c@ == after_pairs(remainder(i@, t + f@.len()), j as int),
        decreases PAIR_COUNT - j,
    {
        let (sp, rp) = pair(j);
        c = swap_words(&c, sp.as_bytes(), rp.as_bytes());
        j += 1;
    }
    if c.len() > 1 && c[1] == SPACE {
        c.remove(0);
        assert(c@ =~= one_leading_space(after_pairs(remainder(i@, t + f@.len()), PAIR_COUNT as int)));
    }
    let ghost kept = c@;
    let mut r: Vec<u8> = Vec::new();
    let mut l: usize = 0;
    proof {
        text::lemma_without_absent(kept.take(0), BANG);
    }
    while l < c.len()
        invariant
            kept == c@,
            l <= c@.len(),
            r@ == text::without(c@.take(l as int), BANG),
        decreases c@.len() - l,
    {
        proof {
            assert(c@.take(l + 1) =~= c@.take(l as int).push(c@[l as int]));
            text::lemma_without_push(c@.take(l as int), c@[l as int], BANG);
        }
        if c[l] != BANG {
            r.push(c[l]);
        }
        l += 1;
    }
    assert(c@.take(l as int) =~= c@);
    r
}

/// The UTF-8 encoding of a non-empty text is not empty.
pub proof fn lemma_encode_nonempty(c: Seq<char>)
    requires
        c.len() > 0,
    ensures
        vstd::utf8::encode_utf8(c).len() > 0,
{
    assert(vstd::utf8::encode_scalar(c[0] as u32).len() > 0);
}

/// A pass of a pair of well-formed, non-empty words keeps a well-formed
/// text well-formed.
pub proof fn lemma_swap_scan_valid(
    src: Seq<u8>,
    a: Seq<u8>,
    b: Seq<u8>,
    p: int,
    out: Seq<u8>,
    limit: int,
)
    requires
        0 <= p <= src.len(),
        vstd::utf8::valid_utf8(out + src.skip(p)),
        vstd::utf8::valid_utf8(a),
        vstd::utf8::valid_utf8(b),
        a.len() > 0,
        b.len() > 0,
    ensures
        vstd::utf8::valid_utf8(swap_scan(src, a, b, p, out, limit)),
    decreases src.len() - p,
{
    if p >= src.len() || out.len() >= limit {
    } else if text::occurs_at(src, a, p) {
        let q = p + a.len();
        assert(src.skip(p) =~= a + src.skip(q));
        assert(out + src.skip(p) =~= out + a + src.skip(q));
        utf8_facts::lemma_replace_word(out, a, src.skip(q), b);
        if q < src.len() {
            let out2 = out + b + seq![src[q]];
            assert(out2 + src.skip(q + 1) =~= out + b + src.skip(q));
            lemma_swap_scan_valid(src, a, b, q + 1, out2, limit);
        } else {
            assert(out + b + src.skip(q) =~= out + b);
        }
    } else if text::occurs_at(src, b, p) {
        let q = p + b.len();
        assert(src.skip(p) =~= b + src.skip(q));
        assert(out + src.skip(p) =~= out + b + src.skip(q));
        utf8_facts::lemma_replace_word(out, b, src.skip(q), a);
        if q < src.len() {
            let out2 = out + a + seq![src[q]];
            assert(out2 + src.skip(q + 1) =~= out + a + src.skip(q));
            lemma_swap_scan_valid(src, a, b, q + 1, out2, limit);
        } else {
            assert(out + a + src.skip(q) =~= out + a);
        }
    } else {
        assert(out.push(src[p]) + src.skip(p + 1) =~= out + src.skip(p));
        lemma_swap_scan_valid(src, a, b, p + 1, out.push(src[p]), limit);
    }
}

/// The conjugation passes keep a well-formed text well-formed.
pub proof fn lemma_after_pairs_valid(c: Seq<u8>, n: int)
    requires
        vstd::utf8::valid_utf8(c),
        0 <= n <= PAIR_COUNT,
    ensures
        vstd::utf8::valid_utf8(after_pairs(c, n)),
    decreases n,
{
    if n > 0 {
        lemma_after_pairs_valid(c, n - 1);
        let prev = after_pairs(c, n - 1);
        tables::lemma_pair_words_nonempty(n - 1);
        lemma_encode_nonempty(tables::pair_from_str(n - 1)@);
        lemma_encode_nonempty(tables::pair_to_str(n - 1)@);
        vstd::utf8::encode_utf8_valid_utf8(tables::pair_from_str(n - 1)@);
        vstd::utf8::encode_utf8_valid_utf8(tables::pair_to_str(n - 1)@);
        assert(Seq::<u8>::empty() + prev.skip(0) =~= prev);
        lemma_swap_scan_valid(prev, pair_from(n - 1), pair_to(n - 1), 0, Seq::empty(), prev.len() as int);
    }
}

/// The conjugated remainder of a well-formed line, taken after a position
/// from which the line is well-formed, is well-formed.
pub proof fn lemma_conjugated_valid(i: Seq<u8>, start: int)
    requires
        0 <= start <= i.len(),
        vstd::utf8::valid_utf8(i.skip(start)),
    ensures
        vstd::utf8::valid_utf8(conjugated(i, start)),
{
    reveal(conjugated);
    let r = remainder(i, start);
    utf8_facts::lemma_wrap_ascii(seq![SPACE], i.skip(start), seq![SPACE]);
    lemma_after_pairs_valid(r, PAIR_COUNT as int);
    let c = after_pairs(r, PAIR_COUNT as int);
    if c.len() > 1 && c[1] == SPACE {
        utf8_facts::lemma_split_at(c, 1);
    }
    utf8_facts::lemma_without_valid(one_leading_space(c), BANG);
}

/// The cleaned form of a well-formed line is well-formed.
pub proof fn lemma_cleaned_valid(input: Seq<u8>)
    requires
        vstd::utf8::valid_utf8(input),
    ensures
        cleaned(input) matches Some(i) ==> vstd::utf8::valid_utf8(i),
{
    reveal(cleaned);
    utf8_facts::lemma_wrap_ascii(seq![SPACE], input, seq![SPACE, SPACE]);
    utf8_facts::lemma_without_valid(padded(input), APOSTROPHE);
}

/// When `w` stands in `s`, its last occurrence is one, and no later
/// position holds it.
pub proof fn lemma_last_occurrence(s: Seq<u8>, w: Seq<u8>)
    requires
        text::occurs_in(s, w),
    ensures
        text::occurs_at(s, w, last_occurrence(s, w)),
        forall|q: int| text::occurs_at(s, w, q) ==> q <= last_occurrence(s, w),
{
    reveal(last_occurrence);
    let p = choose|p: int| text::occurs_at(s, w, p);
    lemma_greatest_occurrence(s, w, p, s.len() as int);
}

/// Some occurrence at or after `p`, and at or before `hi`, is the greatest.
proof fn lemma_greatest_occurrence(s: Seq<u8>, w: Seq<u8>, p: int, hi: int)
    requires
        text::occurs_at(s, w, p),
        p <= hi,
        forall|q: int| hi < q ==> !text::occurs_at(s, w, q),
    ensures
        exists|m: int|
            #![trigger text::occurs_at(s, w, m)]
            text::occurs_at(s, w, m) && forall|q: int| text::occurs_at(s, w, q) ==> q <= m,
    decreases hi - p,
{
    if text::occurs_at(s, w, hi) {
        assert(forall|q: int| text::occurs_at(s, w, q) ==> q <= hi);
    } else {
        lemma_greatest_occurrence(s, w, p, hi - 1);
    }
}

/// The keyword found in a line is the first keyword that stands in it.
pub proof fn lemma_found_keyword(s: Seq<u8>)
    ensures
        found_keyword(s) matches Some(k) ==> first_keyword_at(s, k),
        found_keyword(s) is None ==> forall|j: int|
            0 <= j < KEYWORD_COUNT ==> !text::occurs_in(s, #[trigger] keyword_bytes(j)),
{
    reveal(found_keyword);
    if exists|k: int| 0 <= k < KEYWORD_COUNT && text::occurs_in(s, #[trigger] keyword_bytes(k)) {
        let k = choose|k: int| 0 <= k < KEYWORD_COUNT && text::occurs_in(s, #[trigger] keyword_bytes(k));
        lemma_least_keyword(s, k);
    }
}

/// Below any keyword that stands in `s` lies a first one.
proof fn lemma_least_keyword(s: Seq<u8>, k: int)
    requires
        0 <= k < KEYWORD_COUNT,
        text::occurs_in(s, keyword_bytes(k)),
    ensures
        exists|c: int| first_keyword_at(s, c),
    decreases k,
{
    if forall|j: int| 0 <= j < k ==> !text::occurs_in(s, #[trigger] keyword_bytes(j)) {
        assert(first_keyword_at(s, k));
    } else {
        let j = choose|j: int| 0 <= j < k && text::occurs_in(s, #[trigger] keyword_bytes(j));
        lemma_least_keyword(s, j);
    }
}

/// The bytes of each conjugation word are ASCII.
pub proof fn lemma_pair_bytes_ascii(j: int)
    requires
        0 <= j < PAIR_COUNT,
    ensures
        forall|i: int| 0 <= i < pair_from(j).len() ==> pair_from(j)[i] < 0x80,
        forall|i: int| 0 <= i < pair_to(j).len() ==> pair_to(j)[i] < 0x80,
{
    tables::lemma_pair_words_ascii(j);
    vstd::utf8::is_ascii_chars_encode_utf8(tables::pair_from_str(j)@);
    vstd::utf8::is_ascii_chars_encode_utf8(tables::pair_to_str(j)@);
    assert forall|i: int| 0 <= i < pair_from(j).len() implies pair_from(j)[i] < 0x80 by {
        assert(tables::pair_from_str(j)@[i] as u8 == pair_from(j)[i]);
    }
    assert forall|i: int| 0 <= i < pair_to(j).len() implies pair_to(j)[i] < 0x80 by {
        assert(tables::pair_to_str(j)@[i] as u8 == pair_to(j)[i]);
    }
}

/// A pass of a pair of non-empty ASCII words brings in no new character.
pub proof fn lemma_swap_scan_chars(
    src: Seq<u8>,
    a: Seq<u8>,
    b: Seq<u8>,
    p: int,
    out: Seq<u8>,
    limit: int,
    chars: Seq<char>,
)
    requires
        0 <= p <= src.len(),
        vstd::utf8::valid_utf8(out + src.skip(p)),
        utf8_facts::non_ascii_from(out + src.skip(p), chars),
        forall|i: int| 0 <= i < a.len() ==> a[i] < 0x80,
        forall|i: int| 0 <= i < b.len() ==> b[i] < 0x80,
        a.len() > 0,
        b.len() > 0,
    ensures
        utf8_facts::non_ascii_from(swap_scan(src, a, b, p, out, limit), chars),
    decreases src.len() - p,
{
    utf8_facts::lemma_ascii_valid(a);
    utf8_facts::lemma_ascii_valid(b);
    if p >= src.len() || out.len() >= limit {
    } else if text::occurs_at(src, a, p) {
        let q = p + a.len();
        assert(src.skip(p) =~= a + src.skip(q));
        assert(out + src.skip(p) =~= out + a + src.skip(q));
        utf8_facts::lemma_replace_word(out, a, src.skip(q), b);
        utf8_facts::lemma_non_ascii_replace(out, a, src.skip(q), b, chars);
        if q < src.len() {
            let out2 = out + b + seq![src[q]];
            assert(out2 + src.skip(q + 1) =~= out + b + src.skip(q));
            lemma_swap_scan_chars(src, a, b, q + 1, out2, limit, chars);
        } else {
            assert(out + b + src.skip(q) =~= out + b);
        }
    } else if text::occurs_at(src, b, p) {
        let q = p + b.len();
        assert(src.skip(p) =~= b + src.skip(q));
        assert(out + src.skip(p) =~= out + b + src.skip(q));
        utf8_facts::lemma_replace_word(out, b, src.skip(q), a);
        utf8_facts::lemma_non_ascii_replace(out, b, src.skip(q), a, chars);
        if q < src.len() {
            let out2 = out + a + seq![src[q]];
            assert(out2 + src.skip(q + 1) =~= out + a + src.skip(q));
            lemma_swap_scan_chars(src, a, b, q + 1, out2, limit, chars);
        } else {
            assert(out + a + src.skip(q) =~= out + a);
        }
    } else {
        assert(out.push(src[p]) + src.skip(p + 1) =~= out + src.skip(p));
        lemma_swap_scan_chars(src, a, b, p + 1, out.push(src[p]), limit, chars);
    }
}

/// The conjugation passes bring in no new character.
pub proof fn lemma_after_pairs_chars(c: Seq<u8>, n: int, chars: Seq<char>)
    requires
        vstd::utf8::valid_utf8(c),
        utf8_facts::non_ascii_from(c, chars),
        0 <= n <= PAIR_COUNT,
    ensures
        utf8_facts::non_ascii_from(after_pairs(c, n), chars),
    decreases n,
{
    if n > 0 {
        lemma_after_pairs_chars(c, n - 1, chars);
        lemma_after_pairs_valid(c, n - 1);
        let prev = after_pairs(c, n - 1);
        tables::lemma_pair_words_nonempty(n - 1);
        lemma_encode_nonempty(tables::pair_from_str(n - 1)@);
        lemma_encode_nonempty(tables::pair_to_str(n - 1)@);
        lemma_pair_bytes_ascii(n - 1);
        assert(Seq::<u8>::empty() + prev.skip(0) =~= prev);
        lemma_swap_scan_chars(
            prev,
            pair_from(n - 1),
            pair_to(n - 1),
            0,
            Seq::empty(),
            prev.len() as int,
            chars,
        );
    }
}

/// The conjugated remainder brings in no character that the text after
/// `start` does not hold.
pub proof fn lemma_conjugated_chars(i: Seq<u8>, start: int, chars: Seq<char>)
    requires
        0 <= start <= i.len(),
        vstd::utf8::valid_utf8(i.skip(start)),
        utf8_facts::non_ascii_from(i.skip(start), chars),
    ensures
        utf8_facts::non_ascii_from(conjugated(i, start), chars),
{
    reveal(conjugated);
    let r = remainder(i, start);
    utf8_facts::lemma_wrap_ascii(seq![SPACE], i.skip(start), seq![SPACE]);
    utf8_facts::lemma_ascii_decode(seq![SPACE], chars);
    utf8_facts::lemma_non_ascii_concat(seq![SPACE], i.skip(start), chars);
    vstd::utf8::valid_utf8_concat(seq![SPACE], i.skip(start));
    utf8_facts::lemma_non_ascii_concat(seq![SPACE] + i.skip(start), seq![SPACE], chars);
    lemma_after_pairs_valid(r, PAIR_COUNT as int);
    lemma_after_pairs_chars(r, PAIR_COUNT as int, chars);
    let c = after_pairs(r, PAIR_COUNT as int);
    if c.len() > 1 && c[1] == SPACE {
        utf8_facts::lemma_non_ascii_split(c, 1, chars);
        utf8_facts::lemma_split_at(c, 1);
    }
    utf8_facts::lemma_non_ascii_without(one_leading_space(c), BANG, chars);
}

/// The cleaned line brings in no character that the line does not hold.
pub proof fn lemma_cleaned_chars(input: Seq<u8>)
    requires
        vstd::utf8::valid_utf8(input),
    ensures
        engine_chars_kept(input),
{
    reveal(cleaned);
    let chars = vstd::utf8::decode_utf8(input);
    let front = seq![SPACE];
    let back = seq![SPACE, SPACE];
    utf8_facts::lemma_ascii_decode(front, chars);
    utf8_facts::lemma_ascii_decode(back, chars);
    assert(utf8_facts::non_ascii_from(input, chars));
    utf8_facts::lemma_non_ascii_concat(front, input, chars);
    vstd::utf8::valid_utf8_concat(front, input);
    utf8_facts::lemma_non_ascii_concat(front + input, back, chars);
    vstd::utf8::valid_utf8_concat(front + input, back);
    utf8_facts::lemma_non_ascii_without(padded(input), APOSTROPHE, chars);
}

/// The cleaned line, if any, holds only non-ASCII characters of the line.
pub open spec fn engine_chars_kept(input: Seq<u8>) -> bool {
    cleaned(input) matches Some(i) ==> utf8_facts::non_ascii_from(
        i,
        vstd::utf8::decode_utf8(input),
    )
}

/// The bytes of each conjugation word: at least three, the last a space,
/// and a leading space in one word of a pair exactly when in the other.
pub proof fn lemma_pair_bytes_shapes(j: int)
    requires
        0 <= j < PAIR_COUNT,
    ensures
        pair_from(j).len() >= 3,
        pair_to(j).len() >= 3,
        pair_from(j).last() == SPACE,
        pair_to(j).last() == SPACE,
        (pair_from(j)[0] == SPACE) == (pair_to(j)[0] == SPACE),
{
    tables::lemma_pair_words_ascii(j);
    tables::lemma_pair_word_shapes(j);
    let f = tables::pair_from_str(j)@;
    let t = tables::pair_to_str(j)@;
    vstd::utf8::is_ascii_chars_encode_utf8(f);
    vstd::utf8::is_ascii_chars_encode_utf8(t);
    assert(f[0] as u8 == pair_from(j)[0]);
    assert(t[0] as u8 == pair_to(j)[0]);
    assert(f[f.len() - 1] as u8 == pair_from(j)[f.len() - 1]);
    assert(t[t.len() - 1] as u8 == pair_to(j)[t.len() - 1]);
}

/// Text that is at least two bytes long and starts and ends with a space.
pub open spec fn space_framed(c: Seq<u8>) -> bool {
    c.len() >= 2 && c[0] == SPACE && c.last() == SPACE
}

/// A pass of a pair of words that end with a space (and start with one
/// together) keeps a text framed by spaces.
pub proof fn lemma_swap_scan_framed(
    src: Seq<u8>,
    a: Seq<u8>,
    b: Seq<u8>,
    p: int,
    out: Seq<u8>,
    limit: int,
)
    requires
        space_framed(src),
        0 <= p <= src.len(),
        a.len() >= 3,
        b.len() >= 3,
        a.last() == SPACE,
        b.last() == SPACE,
        (a[0] == SPACE) == (b[0] == SPACE),
        out.len() == 0 ==> p == 0,
        out.len() > 0 ==> p >= 1 && out[0] == SPACE && out.last() == src[p - 1],
        out.len() + (src.len() - p) >= 2,
    ensures
        space_framed(swap_scan(src, a, b, p, out, limit)),
    decreases src.len() - p,
{
    if p >= src.len() || out.len() >= limit {
        let r = out + src.skip(p);
        if p < src.len() {
            assert(r.last() == src.last());
        }
        if out.len() == 0 {
            assert(r[0] == src[0]);
        } else {
            assert(r[0] == out[0]);
        }
    } else if text::occurs_at(src, a, p) {
        let q = p + a.len();
        if out.len() == 0 {
            assert(src.subrange(p, q)[0] == a[0]);
        }
        if q < src.len() {
            let out2 = out + b + seq![src[q]];
            if out.len() == 0 {
                assert(out2[0] == b[0]);
            } else {
                assert(out2[0] == out[0]);
            }
            lemma_swap_scan_framed(src, a, b, q + 1, out2, limit);
        } else {
            let r = out + b;
            if out.len() == 0 {
                assert(r[0] == b[0]);
            } else {
                assert(r[0] == out[0]);
            }
            assert(r.last() == b.last());
        }
    } else if text::occurs_at(src, b, p) {
        let q = p + b.len();
        if out.len() == 0 {
            assert(src.subrange(p, q)[0] == b[0]);
        }
        if q < src.len() {
            let out2 = out + a + seq![src[q]];
            if out.len() == 0 {
                assert(out2[0] == a[0]);
            } else {
                assert(out2[0] == out[0]);
            }
            lemma_swap_scan_framed(src, a, b, q + 1, out2, limit);
        } else {
            let r = out + a;
            if out.len() == 0 {
                assert(r[0] == a[0]);
            } else {
                assert(r[0] == out[0]);
            }
            assert(r.last() == a.last());
        }
    } else {
        let out2 = out.push(src[p]);
        lemma_swap_scan_framed(src, a, b, p + 1, out2, limit);
    }
}

/// The conjugation passes keep a text framed by spaces.
pub proof fn lemma_after_pairs_framed(c: Seq<u8>, n: int)
    requires
        space_framed(c),
        0 <= n <= PAIR_COUNT,
    ensures
        space_framed(after_pairs(c, n)),
    decreases n,
{
    if n > 0 {
        lemma_after_pairs_framed(c, n - 1);
        lemma_pair_bytes_shapes(n - 1);
        let prev = after_pairs(c, n - 1);
        lemma_swap_scan_framed(prev, pair_from(n - 1), pair_to(n - 1), 0, Seq::empty(), prev.len() as int);
    }
}

} // verus!
