//! The ELIZA conversation engine of Creative Computing: each line is
//! cleaned, matched against keywords in priority order, the text after the
//! keyword is conjugated, and each keyword answers with its own block of
//! replies in turn. All text work is done on the bytes of the line.

use vstd::prelude::*;

pub mod engine;
pub mod tables;
pub mod text;
pub mod utf8_facts;
pub mod laws;
pub mod wrap;
pub mod terminal;
pub mod table_laws;

use crate::engine::{conjugate, find_keyword, preprocess, uppercase};
use crate::tables::{reply, reply_block, KEYWORD_COUNT, NO_KEYWORD};
use crate::text::{to_lower_byte, STAR};

verus! {

broadcast use vstd::string::group_string_axioms;

/// What one turn of the conversation gives.
pub enum Outcome {
    /// Print this text, then go on with the conversation.
    Say(String),
    /// The line held "SHUT" or "shut": print "Shut up..." and end.
    ShutUp,
}

/// The state of the conversation, as a model: the previous cleaned line,
/// and for each keyword the number of the reply it gives next.
pub struct ElizaView {
    pub prev: Seq<u8>,
    pub next: Seq<int>,
}

/// The first reply number after `n` in the block of keyword `k`, coming
/// back to the start of the block after its last reply.
pub open spec fn rotated(k: int, n: int) -> int {
    if n + 1 > tables::reply_first(k) + tables::reply_count(k) - 1 {
        tables::reply_first(k)
    } else {
        n + 1
    }
}

/// Every keyword's next reply lies in its own block.
pub open spec fn valid_view(s: ElizaView) -> bool {
    &&& s.next.len() == KEYWORD_COUNT
    &&& forall|k: int|
        0 <= k < KEYWORD_COUNT ==> tables::reply_first(k) <= #[trigger] s.next[k]
            < tables::reply_first(k) + tables::reply_count(k)
}

/// The state of a new conversation: no previous line, and every keyword at
/// the first reply of its block.
pub open spec fn initial_view() -> ElizaView {
    ElizaView {
        prev: Seq::empty(),
        next: Seq::new(KEYWORD_COUNT as nat, |k: int| tables::reply_first(k)),
    }
}

/// The bytes of reply number `n`.
pub open spec fn reply_bytes(n: int) -> Seq<u8> {
    vstd::utf8::encode_utf8(tables::reply_str(n)@)
}

/// The text of reply number `n`, completed by the conjugated remainder `c`
/// in lower case when the reply ends with "*" (the "*" itself is dropped).
pub open spec fn answer(n: int, c: Seq<u8>) -> Seq<u8> {
    let f = reply_bytes(n);
    if f.len() > 0 && f.last() == STAR {
        f.drop_last() + text::lower(c)
    } else {
        f
    }
}

/// The answer to a line that repeats the previous one.
pub open spec fn repeat_notice() -> Seq<u8> {
    vstd::utf8::encode_utf8("Please don't repeat yourself!"@)
}

/// The keyword that answers the cleaned line `i`, with the conjugated text
/// after its last occurrence; `NO_KEYWORD` and nothing when no keyword
/// stands in the line.
#[verifier::opaque]
pub open spec fn keyword_and_remainder(i: Seq<u8>) -> (int, Seq<u8>) {
    let iu = text::upper(i);
    match engine::found_keyword(iu) {
        Some(k) => (
            k,
            engine::conjugated(
                i,
                engine::last_occurrence(iu, engine::keyword_bytes(k)) + engine::keyword_bytes(
                    k,
                ).len(),
            ),
        ),
        None => (NO_KEYWORD as int, Seq::empty()),
    }
}

/// One turn of the conversation on the bytes of a line: the next state and
/// the bytes of the answer, `None` when the line asks to stop.
///
/// A line that asks to stop, or that repeats the previous cleaned line,
/// leaves the state as it is. Any other line is answered by its keyword's
/// next reply; that keyword moves on to its following reply and the line
/// becomes the previous one.
#[verifier::opaque]
pub open spec fn turn(s: ElizaView, input: Seq<u8>) -> (ElizaView, Option<Seq<u8>>) {
    match engine::cleaned(input) {
        None => (s, None),
        Some(i) => if i == s.prev {
            (s, Some(repeat_notice()))
        } else {
            let (k, c) = keyword_and_remainder(i);
            (
                ElizaView { prev: i, next: s.next.update(k, rotated(k, s.next[k])) },
                Some(answer(s.next[k], c)),
            )
        },
    }
}

/// The answer built from a reply and a well-formed remainder is well-formed.
pub proof fn lemma_answer_valid(n: int, c: Seq<u8>)
    requires
        vstd::utf8::valid_utf8(c),
    ensures
        vstd::utf8::valid_utf8(answer(n, c)),
{
    let f = reply_bytes(n);
    vstd::utf8::encode_utf8_valid_utf8(tables::reply_str(n)@);
    if f.len() > 0 && f.last() == STAR {
        utf8_facts::lemma_split_at(f, f.len() - 1);
        assert(f.take(f.len() - 1) =~= f.drop_last());
        utf8_facts::lemma_lower_valid(c);
        vstd::utf8::valid_utf8_concat(f.drop_last(), text::lower(c));
    }
}

/// Every answer to a well-formed line is well-formed UTF-8, so turning it
/// into a `String` loses nothing.
pub proof fn lemma_answer_well_formed(s: ElizaView, input: Seq<u8>)
    requires
        vstd::utf8::valid_utf8(input),
    ensures
        turn(s, input).1 matches Some(b) ==> vstd::utf8::valid_utf8(b),
{
    reveal(turn);
    reveal(keyword_and_remainder);
    engine::lemma_cleaned_valid(input);
    if let Some(i) = engine::cleaned(input) {
        if i == s.prev {
            vstd::utf8::encode_utf8_valid_utf8("Please don't repeat yourself!"@);
        } else {
            let iu = text::upper(i);
            utf8_facts::lemma_upper_valid(i);
            engine::lemma_found_keyword(iu);
            if let Some(k) = engine::found_keyword(iu) {
                let kw = engine::keyword_bytes(k);
                engine::lemma_last_occurrence(iu, kw);
                let t = engine::last_occurrence(iu, kw);
                let start = t + kw.len();
                vstd::utf8::encode_utf8_valid_utf8(tables::keyword_str(k)@);
                if kw.len() > 0 {
                    utf8_facts::lemma_valid_head(kw);
                    assert(iu.subrange(t, start)[0] == kw[0]);
                    utf8_facts::lemma_split_at(iu, t);
                    assert(iu.skip(t) =~= kw + iu.skip(start));
                    utf8_facts::lemma_valid_rest(kw, iu.skip(start));
                    assert(iu.skip(start) =~= text::upper(i.skip(start)));
                    utf8_facts::lemma_upper_valid(i.skip(start));
                } else {
                    assert(text::occurs_at(iu, kw, iu.len() as int)) by {
                        assert(iu.subrange(iu.len() as int, iu.len() as int) =~= kw);
                    }
                    assert(i.skip(start) =~= Seq::<u8>::empty());
                    utf8_facts::lemma_ascii_valid(i.skip(start));
                }
                engine::lemma_conjugated_valid(i, start);
                lemma_answer_valid(s.next[k], keyword_and_remainder(i).1);
            } else {
                utf8_facts::lemma_ascii_valid(Seq::<u8>::empty());
                lemma_answer_valid(s.next[NO_KEYWORD as int], Seq::empty());
            }
        }
    }
}

/// The answer built from a reply and a well-formed remainder holds no
/// non-ASCII character that the remainder does not hold.
pub proof fn lemma_answer_chars(n: int, c: Seq<u8>, chars: Seq<char>)
    requires
        1 <= n <= tables::REPLY_COUNT,
        vstd::utf8::valid_utf8(c),
        utf8_facts::non_ascii_from(c, chars),
    ensures
        utf8_facts::non_ascii_from(answer(n, c), chars),
{
    let f = reply_bytes(n);
    tables::lemma_reply_shapes(n);
    vstd::utf8::is_ascii_chars_encode_utf8(tables::reply_str(n)@);
    assert forall|i: int| 0 <= i < f.len() implies f[i] < 0x80 by {
        assert(tables::reply_str(n)@[i] as u8 == f[i]);
    }
    if f.len() > 0 && f.last() == STAR {
        let stem = f.drop_last();
        utf8_facts::lemma_ascii_decode(stem, chars);
        let g = |b: u8| text::lower_byte(b);
        assert(utf8_facts::ascii_only_map(g));
        utf8_facts::lemma_non_ascii_map(c, g, chars);
        utf8_facts::lemma_lower_valid(c);
        utf8_facts::lemma_non_ascii_concat(stem, text::lower(c), chars);
    } else {
        utf8_facts::lemma_ascii_decode(f, chars);
    }
}

/// Every answer to a well-formed line holds no non-ASCII character that
/// the line does not hold; in particular no U+FFFD that it does not hold.
pub proof fn lemma_answer_keeps_chars(s: ElizaView, input: Seq<u8>)
    requires
        vstd::utf8::valid_utf8(input),
        valid_view(s),
    ensures
        turn(s, input).1 matches Some(b) ==> utf8_facts::non_ascii_from(
            b,
            vstd::utf8::decode_utf8(input),
        ),
{
    reveal(turn);
    reveal(keyword_and_remainder);
    let chars = vstd::utf8::decode_utf8(input);
    engine::lemma_cleaned_valid(input);
    engine::lemma_cleaned_chars(input);
    if let Some(i) = engine::cleaned(input) {
        if i == s.prev {
            let notice = "Please don't repeat yourself!"@;
            reveal_strlit("Please don't repeat yourself!");
            assert(vstd::utf8::is_ascii_chars(notice));
            vstd::utf8::is_ascii_chars_encode_utf8(notice);
            let r = repeat_notice();
            assert forall|j: int| 0 <= j < r.len() implies r[j] < 0x80 by {
                assert(notice[j] as u8 == r[j]);
            }
            utf8_facts::lemma_ascii_decode(r, chars);
        } else {
            let iu = text::upper(i);
            utf8_facts::lemma_upper_valid(i);
            engine::lemma_found_keyword(iu);
            crate::laws::law_keyword_in_range(i);
            let k = keyword_and_remainder(i).0;
            tables::lemma_reply_blocks(k);
            if let Some(kk) = engine::found_keyword(iu) {
                let kw = engine::keyword_bytes(kk);
                engine::lemma_last_occurrence(iu, kw);
                let t = engine::last_occurrence(iu, kw);
                let start = t + kw.len();
                vstd::utf8::encode_utf8_valid_utf8(tables::keyword_str(kk)@);
                if kw.len() > 0 {
                    utf8_facts::lemma_valid_head(kw);
                    assert(iu.subrange(t, start)[0] == kw[0]);
                    utf8_facts::lemma_split_at(iu, t);
                    assert(iu.skip(t) =~= kw + iu.skip(start));
                    utf8_facts::lemma_valid_rest(kw, iu.skip(start));
                    if start < i.len() {
                        utf8_facts::lemma_valid_head(iu.skip(start));
                        assert(iu.skip(start)[0] == iu[start]);
                        assert(iu[start] == text::upper_byte(i[start]));
                    }
                } else {
                    assert(text::occurs_at(iu, kw, iu.len() as int)) by {
                        assert(iu.subrange(iu.len() as int, iu.len() as int) =~= kw);
                    }
                }
                utf8_facts::lemma_non_ascii_split(i, start, chars);
                utf8_facts::lemma_split_at(i, start);
                engine::lemma_conjugated_chars(i, start, chars);
                engine::lemma_conjugated_valid(i, start);
                lemma_answer_chars(s.next[k], keyword_and_remainder(i).1, chars);
            } else {
                utf8_facts::lemma_ascii_decode(Seq::<u8>::empty(), chars);
                lemma_answer_chars(s.next[k], Seq::empty(), chars);
            }
        }
    }
}

/// The characters that `String::from_utf8_lossy` makes of a byte
/// sequence (invalid sequences become U+FFFD).
pub uninterp spec fn lossy_decode(bytes: Seq<u8>) -> Seq<char>;

/// Builds a `String` from bytes with `String::from_utf8_lossy`. The
/// contract claims that the result depends on the bytes alone (it is named
/// `lossy_decode`) and, as the documentation says, that well-formed UTF-8
/// is decoded as it is.
#[verifier::external_body]
pub(crate) fn string_from_utf8(bytes: &[u8]) -> (s: String)
    ensures
        s@ == lossy_decode(bytes@),
        vstd::utf8::valid_utf8(bytes@) ==> s@ == vstd::utf8::decode_utf8(bytes@),
{
    String::from_utf8_lossy(bytes).into_owned()
}

/// One keyword's reply block: its first and last reply numbers and the
/// number of the reply it gives next.
struct ReplyRange {
    first: usize,
    last: usize,
    next: usize,
}

/// An ELIZA conversation.
pub struct Eliza {
    /// The previous cleaned line.
    prev: Vec<u8>,
    /// Per keyword, its rotating block of replies.
    replies: Vec<ReplyRange>,
}

impl View for Eliza {
    type V = ElizaView;

    closed spec fn view(&self) -> ElizaView {
        ElizaView {
            prev: self.prev@,
            next: self.replies@.map_values(|r: ReplyRange| r.next as int),
        }
    }
}

impl Eliza {
    /// Each block matches the table and its next reply lies inside it.
    pub closed spec fn wf(&self) -> bool {
        &&& self.replies@.len() == KEYWORD_COUNT
        &&& forall|k: int|
            0 <= k < KEYWORD_COUNT ==> {
                &&& (#[trigger] self.replies@[k]).first == tables::reply_first(k)
                &&& self.replies@[k].last == tables::reply_first(k) + tables::reply_count(k) - 1
                &&& self.replies@[k].first <= self.replies@[k].next <= self.replies@[k].last
            }
    }

    /// A well-formed conversation has a valid model.
    pub proof fn lemma_wf_view(&self)
        requires
            self.wf(),
        ensures
            valid_view(self@),
    {
    }

    /// A new conversation.
    pub fn new() -> (e: Self)
        ensures
            e.wf(),
            e@ == initial_view(),
    {
        let mut replies: Vec<ReplyRange> = Vec::new();
        let mut k: usize = 0;
        while k < KEYWORD_COUNT
            invariant
                k <= KEYWORD_COUNT,
                replies@.len() == k,
                forall|j: int|
                    0 <= j < k ==> {
                        &&& (#[trigger] replies@[j]).first == tables::reply_first(j)
                        &&& replies@[j].last == tables::reply_first(j) + tables::reply_count(j)
                            - 1
                        &&& replies@[j].next == replies@[j].first
                        &&& replies@[j].next <= replies@[j].last
                    },
            decreases KEYWORD_COUNT - k,
        {
            let (first, count) = reply_block(k);
            proof {
                tables::lemma_reply_blocks(k as int);
            }
            replies.push(ReplyRange { first, last: first + count - 1, next: first });
            k += 1;
        }
        let e = Eliza { prev: Vec::new(), replies };
        assert(e@.next =~= initial_view().next);
        assert(e@.prev =~= initial_view().prev);
        e
    }

    /// One turn of the conversation.
    ///
    /// A line holding "SHUT" or "shut" ends the conversation. A line that,
    /// once cleaned, is the previous one is answered "Please don't repeat
    /// yourself!". Otherwise the first keyword in priority order found in
    /// the line answers with the next reply of its block; a reply ending
    /// with "*" is completed with the conjugated text after the keyword's
    /// last occurrence, in lower case.
    pub fn respond(&mut self, input: &str) -> (r: Outcome)
        requires
            old(self).wf(),
        ensures
            final(self).wf(),
            final(self)@ == turn(old(self)@, vstd::utf8::encode_utf8(input@)).0,
            match r {
                Outcome::ShutUp => turn(old(self)@, vstd::utf8::encode_utf8(input@)).1 is None,
                Outcome::Say(t) => {
                    &&& turn(old(self)@, vstd::utf8::encode_utf8(input@)).1 matches Some(b)
                        && vstd::utf8::valid_utf8(b) && t@ == vstd::utf8::decode_utf8(b)
                    &&& forall|i: int|
                        0 <= i < t@.len() && (#[trigger] t@[i] as u32) >= 0x80 ==> input@.contains(
                            t@[i],
                        )
                },
            },
    {
        reveal(turn);
        reveal(keyword_and_remainder);
        proof {
            vstd::utf8::encode_utf8_valid_utf8(input@);
            lemma_answer_well_formed(old(self)@, vstd::utf8::encode_utf8(input@));
            old(self).lemma_wf_view();
            crate::laws::law_no_new_characters(old(self)@, input@);
        }
        let bytes = input.as_bytes();
        let i = match preprocess(bytes) {
            Some(i) => i,
            None => return Outcome::ShutUp,
        };
        let iu = uppercase(i.as_slice());
        if vec_eq(&i, &self.prev) {
            let notice = "Please don't repeat yourself!".to_string();
            proof {
                vstd::utf8::encode_utf8_valid_utf8(notice@);
                vstd::utf8::encode_utf8_decode_utf8(notice@);
            }
            return Outcome::Say(notice);
        }
        let (k, c) = match find_keyword(iu.as_slice()) {
            Some((k, t, f)) => (k, conjugate(i.as_slice(), t, f)),
            None => (NO_KEYWORD, Vec::new()),
        };
        self.reply(k, i, c.as_slice())
    }

    /// One turn on a line given as bytes, decoded as `String::from_utf8_lossy`
    /// decodes them: the bytes of the answer ("Shut up..." for a line that
    /// asks to stop), cut to at most `out_cap` bytes.
    pub fn respond_bytes(&mut self, input: &[u8], out_cap: usize) -> (out: Vec<u8>)
        requires
            old(self).wf(),
        ensures
            final(self).wf(),
            final(self)@ == turn(old(self)@, vstd::utf8::encode_utf8(lossy_decode(input@))).0,
            ({
                let full = vstd::utf8::encode_utf8(
                    terminal::shown_answer(
                        turn(old(self)@, vstd::utf8::encode_utf8(lossy_decode(input@))).1,
                    ),
                );
                out@ == full.take(if full.len() <= out_cap {
                    full.len() as int
                } else {
                    out_cap as int
                })
            }),
    {
        let line = string_from_utf8(input);
        let text = match self.respond(line.as_str()) {
            Outcome::Say(t) => t,
            Outcome::ShutUp => "Shut up...".to_string(),
        };
        proof {
            vstd::utf8::decode_utf8_encode_utf8(
                turn(old(self)@, vstd::utf8::encode_utf8(line@)).1.unwrap_or(Seq::empty()),
            );
        }
        let bytes = text.as_str().as_bytes();
        let n: usize = if bytes.len() <= out_cap {
            bytes.len()
        } else {
            out_cap
        };
        let mut out: Vec<u8> = Vec::new();
        let mut j: usize = 0;
        while j < n
            invariant
                n <= bytes@.len(),
                j <= n,
                out@ == bytes@.take(j as int),
            decreases n - j,
        {
            out.push(bytes[j]);
            j += 1;
            assert(bytes@.take(j as int) =~= bytes@.take(j - 1).push(bytes@[j - 1]));
        }
        out
    }

    /// Gives keyword `k`'s next reply, moves `k` on to its following reply
    /// (back to the first after the last), and keeps `i` as the previous
    /// line; a reply ending with "*" is completed with `c` in lower case.
    fn reply(&mut self, k: usize, i: Vec<u8>, c: &[u8]) -> (r: Outcome)
        requires
            old(self).wf(),
            k < KEYWORD_COUNT,
        ensures
            final(self).wf(),
            final(self)@ == (ElizaView {
                prev: i@,
                next: old(self)@.next.update(k as int, rotated(k as int, old(self)@.next[k as int])),
            }),
            r matches Outcome::Say(t) && t@ == (if vstd::utf8::valid_utf8(
                answer(old(self)@.next[k as int], c@),
            ) {
                vstd::utf8::decode_utf8(answer(old(self)@.next[k as int], c@))
            } else {
                lossy_decode(answer(old(self)@.next[k as int], c@))
            }),
    {
        let ghost old_next = self@.next;
        let first = self.replies[k].first;
        let last = self.replies[k].last;
        let n = self.replies[k].next;
        proof {
            tables::lemma_reply_blocks(k as int);
        }
        let f = reply(n);
        let next = if n + 1 > last {
            first
        } else {
            n + 1
        };
        self.replies.set(k, ReplyRange { first, last, next });
        self.prev = i;
        assert(self@.next =~= old_next.update(k as int, rotated(k as int, old_next[k as int])));
        let fb = f.as_bytes();
        if fb.len() > 0 && fb[fb.len() - 1] == STAR {
            let mut out: Vec<u8> = Vec::new();
            let mut j: usize = 0;
            while j < fb.len() - 1
                invariant
                    fb@.len() > 0,
                    j <= fb@.len() - 1,
                    out@ == fb@.take(j as int),
                decreases fb@.len() - j,
            {
                out.push(fb[j]);
                j += 1;
                assert(fb@.take(j as int) =~= fb@.take(j - 1).push(fb@[j - 1]));
            }
            let mut m: usize = 0;
            while m < c.len()
                invariant
                    fb@.len() > 0,
                    m <= c@.len(),
                    out@ == fb@.drop_last() + text::lower(c@.take(m as int)),
                decreases c@.len() - m,
            {
                out.push(to_lower_byte(c[m]));
                m += 1;
                assert(text::lower(c@.take(m as int)) =~= text::lower(c@.take(m - 1)).push(
                    text::lower_byte(c@[m - 1]),
                ));
            }
            assert(c@.take(m as int) =~= c@);
            Outcome::Say(string_from_utf8(out.as_slice()))
        } else {
            let t = f.to_string();
            proof {
                vstd::utf8::encode_utf8_valid_utf8(f@);
                vstd::utf8::encode_utf8_decode_utf8(f@);
            }
            Outcome::Say(t)
        }
    }
}

/// Whether two byte vectors are equal.
fn vec_eq(a: &Vec<u8>, b: &Vec<u8>) -> (r: bool)
    ensures
        r == (a@ == b@),
{
    if a.len() != b.len() {
        return false;
    }
    let mut j: usize = 0;
    while j < a.len()
        invariant
            a@.len() == b@.len(),
            j <= a@.len(),
            forall|m: int| 0 <= m < j ==> a@[m] == b@[m],
        decreases a@.len() - j,
    {
        if a[j] != b[j] {
            return false;
        }
        j += 1;
    }
    assert(a@ =~= b@);
    true
}

impl Default for Eliza {
    fn default() -> (e: Self)
        ensures
            e.wf(),
            e@ == initial_view(),
    {
        Self::new()
    }
}

} // verus!
