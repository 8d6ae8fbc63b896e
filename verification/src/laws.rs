//! What holds of every conversation, over the model of one turn.

use vstd::prelude::*;
use crate::ElizaView;
use crate::engine;
use crate::tables::{self, KEYWORD_COUNT, NO_KEYWORD};
use crate::text::{self, APOSTROPHE, BANG, SPACE};

verus! {

/// A line is answered "Shut up" exactly when it holds "SHUT" or "shut"
/// (in exactly that case), and such a line leaves the conversation as it
/// was.
pub proof fn law_stop(s: ElizaView, input: Seq<u8>)
    ensures
        crate::turn(s, input).1 is None <==> engine::asks_to_stop(input),
        engine::asks_to_stop(input) ==> crate::turn(s, input).0 == s,
{
    reveal(crate::turn);
    reveal(engine::cleaned);
}

/// Saying the same line twice in a row (one that does not ask to stop)
/// gets "Please don't repeat yourself!" the second time, and that answer
/// leaves the conversation as it was, so every further repetition gets it
/// too.
pub proof fn law_repeat(s: ElizaView, input: Seq<u8>)
    requires
        !engine::asks_to_stop(input),
    ensures
        crate::turn(crate::turn(s, input).0, input) == (crate::turn(s, input).0, Some(crate::repeat_notice())),
{
    reveal(crate::turn);
    reveal(engine::cleaned);
}

/// The cleaned line keeps no apostrophe and is at least three bytes long
/// (the padding of one space before and two after).
pub proof fn law_cleaned_shape(input: Seq<u8>)
    ensures
        engine::cleaned(input) matches Some(i) ==> {
            &&& i.len() >= 3
            &&& forall|j: int| 0 <= j < i.len() ==> i[j] != APOSTROPHE
        },
{
    reveal(engine::cleaned);
    if !engine::asks_to_stop(input) {
        let p = engine::padded(input);
        text::lemma_without_removes(p, APOSTROPHE);
        let front = seq![SPACE];
        let back = seq![SPACE, SPACE];
        assert(p =~= front + input + back);
        text::lemma_without_add(front + input, back, APOSTROPHE);
        text::lemma_without_add(front, input, APOSTROPHE);
        text::lemma_without_absent(front, APOSTROPHE);
        text::lemma_without_absent(back, APOSTROPHE);
    }
}

/// The first line of a new conversation is never taken for a repetition:
/// unless it asks to stop, it is answered by a keyword and becomes the
/// previous line.
pub proof fn law_first_line_not_repeated(input: Seq<u8>)
    requires
        !engine::asks_to_stop(input),
    ensures
        crate::turn(crate::initial_view(), input).0.prev == engine::cleaned(input)->0,
        crate::turn(crate::initial_view(), input).1 == Some(
            crate::answer(
                crate::initial_view().next[crate::keyword_and_remainder(engine::cleaned(input)->0).0],
                crate::keyword_and_remainder(engine::cleaned(input)->0).1,
            ),
        ),
{
    law_cleaned_shape(input);
    reveal(crate::turn);
    reveal(engine::cleaned);
}

/// The keyword that answers a line is one of the keywords.
pub proof fn law_keyword_in_range(i: Seq<u8>)
    ensures
        0 <= crate::keyword_and_remainder(i).0 < KEYWORD_COUNT,
{
    reveal(crate::keyword_and_remainder);
    engine::lemma_found_keyword(text::upper(i));
}

/// Keywords are matched without regard to ASCII letter case: two lines
/// with the same upper case are answered by the same keyword.
pub proof fn law_keyword_ignores_case(i1: Seq<u8>, i2: Seq<u8>)
    requires
        text::upper(i1) == text::upper(i2),
    ensures
        crate::keyword_and_remainder(i1).0 == crate::keyword_and_remainder(i2).0,
{
    reveal(crate::keyword_and_remainder);
}

/// The conjugated text keeps none of the "!" markers that conjugation uses.
pub proof fn law_conjugated_has_no_marker(i: Seq<u8>, start: int)
    ensures
        forall|j: int|
            0 <= j < engine::conjugated(i, start).len() ==> engine::conjugated(i, start)[j]
                != BANG,
{
    reveal(engine::conjugated);
    text::lemma_without_removes(
        engine::one_leading_space(engine::after_pairs(engine::remainder(i, start), crate::tables::PAIR_COUNT as int)),
        BANG,
    );
}

/// An answer holds no non-ASCII character that the line does not hold, so
/// the text of an answer holds U+FFFD only where the line does: turning the
/// answer into text replaces nothing.
pub proof fn law_no_new_characters(s: ElizaView, line: Seq<char>)
    requires
        crate::valid_view(s),
    ensures
        crate::turn(s, vstd::utf8::encode_utf8(line)).1 matches Some(b) ==> {
            &&& forall|i: int|
                #![trigger vstd::utf8::decode_utf8(b)[i]]
                0 <= i < vstd::utf8::decode_utf8(b).len() && (vstd::utf8::decode_utf8(b)[i] as u32)
                    >= 0x80 ==> line.contains(vstd::utf8::decode_utf8(b)[i])
            &&& vstd::utf8::decode_utf8(b).contains('\u{FFFD}') ==> line.contains('\u{FFFD}')
        },
{
    vstd::utf8::encode_utf8_valid_utf8(line);
    vstd::utf8::encode_utf8_decode_utf8(line);
    crate::lemma_answer_keeps_chars(s, vstd::utf8::encode_utf8(line));
}

/// The conjugated text is never empty, and starts and ends with a space.
pub proof fn law_conjugated_framed(i: Seq<u8>, start: int)
    ensures
        engine::conjugated(i, start).len() > 0,
        engine::conjugated(i, start)[0] == SPACE,
        engine::conjugated(i, start).last() == SPACE,
{
    reveal(engine::conjugated);
    let r = engine::remainder(i, start);
    assert(r[0] == SPACE);
    assert(r.last() == SPACE);
    engine::lemma_after_pairs_framed(r, crate::tables::PAIR_COUNT as int);
    let c = engine::after_pairs(r, crate::tables::PAIR_COUNT as int);
    let x = engine::one_leading_space(c);
    assert(x.len() >= 1 && x[0] == SPACE && x.last() == SPACE);
    let first = seq![x[0]];
    text::lemma_without_absent(first, BANG);
    if x.len() == 1 {
        assert(x =~= first);
    } else {
        let mid = x.subrange(1, x.len() - 1);
        let last = seq![x.last()];
        assert(x =~= first + mid + last);
        text::lemma_without_absent(last, BANG);
        text::lemma_without_add(first + mid, last, BANG);
        text::lemma_without_add(first, mid, BANG);
        let w = text::without(x, BANG);
        assert(w == first + text::without(mid, BANG) + last);
        assert(w[0] == SPACE);
        assert(w.last() == SPACE);
    }
}

/// A new conversation is in a valid state.
pub proof fn law_initial_valid()
    ensures
        crate::valid_view(crate::initial_view()),
{
    assert forall|k: int| 0 <= k < KEYWORD_COUNT implies tables::reply_first(k)
        <= #[trigger] crate::initial_view().next[k] < tables::reply_first(k) + tables::reply_count(k) by {
        tables::lemma_reply_blocks(k);
    }
}

/// A turn keeps the state valid: every keyword's next reply stays in its
/// block.
pub proof fn law_turn_keeps_valid(s: ElizaView, input: Seq<u8>)
    requires
        crate::valid_view(s),
    ensures
        crate::valid_view(crate::turn(s, input).0),
{
    reveal(crate::turn);
    if let Some(i) = engine::cleaned(input) {
        if i != s.prev {
            law_keyword_in_range(i);
            let k = crate::keyword_and_remainder(i).0;
            tables::lemma_reply_blocks(k);
            let s2 = crate::turn(s, input).0;
            assert forall|j: int| 0 <= j < KEYWORD_COUNT implies tables::reply_first(j)
                <= #[trigger] s2.next[j] < tables::reply_first(j) + tables::reply_count(j) by {
                if j != k {
                    assert(s2.next[j] == s.next[j]);
                }
            }
        }
    }
}

/// A turn moves on at most one keyword, the one that answered; every
/// other keyword keeps its next reply.
pub proof fn law_only_answering_keyword_moves(s: ElizaView, input: Seq<u8>, j: int)
    requires
        crate::valid_view(s),
        0 <= j < KEYWORD_COUNT,
        crate::turn(s, input).0.next[j] != s.next[j],
    ensures
        engine::cleaned(input) is Some,
        j == crate::keyword_and_remainder(engine::cleaned(input)->0).0,
{
    reveal(crate::turn);
    if let Some(i) = engine::cleaned(input) {
        law_keyword_in_range(i);
    }
}

/// The answer is the answering keyword's next reply, and that keyword
/// then moves on to the reply after it in its block.
pub proof fn law_answer_from_block(s: ElizaView, input: Seq<u8>)
    requires
        crate::valid_view(s),
        engine::cleaned(input) is Some,
        engine::cleaned(input)->0 != s.prev,
    ensures
        ({
            let (k, c) = crate::keyword_and_remainder(engine::cleaned(input)->0);
            &&& tables::reply_first(k) <= s.next[k] < tables::reply_first(k) + tables::reply_count(k)
            &&& crate::turn(s, input).1 == Some(crate::answer(s.next[k], c))
            &&& crate::turn(s, input).0.next[k] == crate::rotated(k, s.next[k])
        }),
{
    reveal(crate::turn);
    law_keyword_in_range(engine::cleaned(input)->0);
}

/// Reply number `n` of keyword `k` after `m` moves.
pub open spec fn rotated_times(k: int, n: int, m: nat) -> int
    decreases m,
{
    if m == 0 {
        n
    } else {
        crate::rotated(k, rotated_times(k, n, (m - 1) as nat))
    }
}

/// Moves compose.
proof fn lemma_rotated_times_add(k: int, n: int, a: nat, b: nat)
    ensures
        rotated_times(k, n, a + b) == rotated_times(k, rotated_times(k, n, a), b),
    decreases b,
{
    if b > 0 {
        lemma_rotated_times_add(k, n, a, (b - 1) as nat);
        assert((a + b - 1) as nat == a + (b - 1) as nat);
    }
}

/// Inside a block, moves go up one reply at a time.
proof fn lemma_rotated_times_up(k: int, n: int, m: nat)
    requires
        tables::reply_first(k) <= n,
        n + m <= tables::reply_first(k) + tables::reply_count(k) - 1,
    ensures
        rotated_times(k, n, m) == n + m,
    decreases m,
{
    if m > 0 {
        lemma_rotated_times_up(k, n, (m - 1) as nat);
    }
}

/// No reply, completed or not, is the repetition notice.
pub proof fn lemma_answer_not_notice(n: int, c: Seq<u8>)
    requires
        1 <= n <= tables::REPLY_COUNT,
    ensures
        crate::answer(n, c) != crate::repeat_notice(),
{
    tables::lemma_reply_shapes(n);
    let chars = tables::reply_str(n)@;
    vstd::utf8::is_ascii_chars_encode_utf8(chars);
    let notice = "Please don't repeat yourself!"@;
    reveal_strlit("Please don't repeat yourself!");
    assert(vstd::utf8::is_ascii_chars(notice));
    vstd::utf8::is_ascii_chars_encode_utf8(notice);
    let f = crate::reply_bytes(n);
    let r = crate::repeat_notice();
    assert(r.len() == 29);
    assert(r[0] == 80u8);
    assert(r[1] == 108u8);
    assert(f[0] == chars[0] as u8);
    assert(f[1] == chars[1] as u8);
    if n == 55 {
        assert(f.last() == chars.last() as u8);
        assert(f.last() == 33u8);
        assert(crate::answer(n, c) == f);
    } else {
        assert(f[0] != 80u8 || f[1] != 108u8);
        assert(crate::answer(n, c)[0] == f[0]);
        assert(crate::answer(n, c)[1] == f[1]);
    }
}

/// A line that does not ask to stop is answered "Please don't repeat
/// yourself!" exactly when its cleaned form is the previous cleaned line.
pub proof fn law_repeat_notice_only_for_repeats(s: ElizaView, input: Seq<u8>)
    requires
        crate::valid_view(s),
        !engine::asks_to_stop(input),
    ensures
        (crate::turn(s, input).1 == Some(crate::repeat_notice())) <==> engine::cleaned(input)->0
            == s.prev,
{
    reveal(crate::turn);
    reveal(engine::cleaned);
    let i = engine::cleaned(input)->0;
    if i != s.prev {
        law_keyword_in_range(i);
        let k = crate::keyword_and_remainder(i).0;
        tables::lemma_reply_blocks(k);
        lemma_answer_not_notice(s.next[k], crate::keyword_and_remainder(i).1);
    }
}

/// Successive moves of keyword `k` walk its block in order and wrap
/// around: after `m` moves from reply `n`, the keyword is at the reply
/// `(n - first + m) mod count` places into its block.
pub proof fn law_rotation_order(k: int, n: int, m: nat)
    requires
        0 <= k < KEYWORD_COUNT,
        tables::reply_first(k) <= n < tables::reply_first(k) + tables::reply_count(k),
    ensures
        rotated_times(k, n, m) == tables::reply_first(k) + (n - tables::reply_first(k) + m)
            % tables::reply_count(k),
    decreases m,
{
    let first = tables::reply_first(k);
    let c = tables::reply_count(k);
    tables::lemma_reply_blocks(k);
    let d = n - first;
    if m == 0 {
        assert(d == 0 * c + d);
        vstd::arithmetic::div_mod::lemma_fundamental_div_mod_converse(d, c, 0, d);
    } else {
        law_rotation_order(k, n, (m - 1) as nat);
        let x = d + m - 1;
        let q = x / c;
        let r = x % c;
        vstd::arithmetic::div_mod::lemma_fundamental_div_mod(x, c);
        if r == c - 1 {
            assert(x + 1 == (q + 1) * c + 0) by (nonlinear_arith)
                requires
                    x == c * q + r,
                    r == c - 1,
            ;
            vstd::arithmetic::div_mod::lemma_fundamental_div_mod_converse(x + 1, c, q + 1, 0);
        } else {
            assert(x + 1 == q * c + (r + 1)) by (nonlinear_arith)
                requires
                    x == c * q + r,
            ;
            vstd::arithmetic::div_mod::lemma_fundamental_div_mod_converse(x + 1, c, q, r + 1);
        }
    }
}

/// Reply number `r` lies in the block of keyword `k`.
pub open spec fn in_block(k: int, r: int) -> bool {
    tables::reply_first(k) <= r < tables::reply_first(k) + tables::reply_count(k)
}

/// The first `count` replies of a keyword's rotation, from any reply of
/// its block, are all different and cover the whole block.
pub proof fn law_rotation_covers_block(k: int, n: int)
    requires
        0 <= k < KEYWORD_COUNT,
        tables::reply_first(k) <= n < tables::reply_first(k) + tables::reply_count(k),
    ensures
        forall|m1: nat, m2: nat|
            m1 < m2 < tables::reply_count(k) ==> rotated_times(k, n, m1) != rotated_times(
                k,
                n,
                m2,
            ),
        forall|r: int|
            #[trigger] in_block(k, r) ==> exists|m: nat|
                m < tables::reply_count(k) && rotated_times(k, n, m) == r,
{
    let first = tables::reply_first(k);
    let c = tables::reply_count(k);
    let d = n - first;
    tables::lemma_reply_blocks(k);
    assert forall|m1: nat, m2: nat| m1 < m2 < c implies rotated_times(k, n, m1)
        != rotated_times(k, n, m2) by {
        law_rotation_order(k, n, m1);
        law_rotation_order(k, n, m2);
        let x1 = d + m1;
        let x2 = d + m2;
        vstd::arithmetic::div_mod::lemma_fundamental_div_mod(x1, c);
        vstd::arithmetic::div_mod::lemma_fundamental_div_mod(x2, c);
        if x1 % c == x2 % c {
            let q1 = x1 / c;
            let q2 = x2 / c;
            assert((q2 - q1) * c == m2 - m1) by (nonlinear_arith)
                requires
                    x1 == c * q1 + x1 % c,
                    x2 == c * q2 + x2 % c,
                    x1 % c == x2 % c,
                    x2 - x1 == m2 - m1,
            ;
            assert(false) by (nonlinear_arith)
                requires
                    (q2 - q1) * c == m2 - m1,
                    0 < m2 - m1 < c,
            ;
        }
    }
    assert forall|r: int| #[trigger] in_block(k, r) implies exists|m: nat|
        m < c && rotated_times(k, n, m) == r by {
        let m: nat = if r - first >= d {
            (r - first - d) as nat
        } else {
            (r - first - d + c) as nat
        };
        law_rotation_order(k, n, m);
        if r - first >= d {
            assert(d + m == 0 * c + (r - first));
            vstd::arithmetic::div_mod::lemma_fundamental_div_mod_converse(d + m, c, 0, r - first);
        } else {
            assert(d + m == 1 * c + (r - first));
            vstd::arithmetic::div_mod::lemma_fundamental_div_mod_converse(d + m, c, 1, r - first);
        }
        assert(rotated_times(k, n, m) == r);
    }
}

/// The state after the turns on `inputs`, in order.
pub open spec fn after_turns(s: ElizaView, inputs: Seq<Seq<u8>>) -> ElizaView
    decreases inputs.len(),
{
    if inputs.len() == 0 {
        s
    } else {
        crate::turn(after_turns(s, inputs.drop_last()), inputs.last()).0
    }
}

/// In state `s`, `input` is a new line (one that does not ask to stop and
/// is not the previous line) that keyword `k` answers.
pub open spec fn answered_by(s: ElizaView, input: Seq<u8>, k: int) -> bool {
    &&& engine::cleaned(input) is Some
    &&& engine::cleaned(input)->0 != s.prev
    &&& crate::keyword_and_remainder(engine::cleaned(input)->0).0 == k
}

/// Successive lines that one keyword answers get that keyword's replies in
/// the order of its block: the `j`-th of them gets the reply `j` moves on
/// from where the keyword stood, and afterwards the keyword stands as many
/// moves on as there were lines.
pub proof fn law_successive_answers(s: ElizaView, inputs: Seq<Seq<u8>>, k: int)
    requires
        crate::valid_view(s),
        0 <= k < KEYWORD_COUNT,
        forall|j: int|
            0 <= j < inputs.len() ==> answered_by(
                #[trigger] after_turns(s, inputs.take(j)),
                inputs[j],
                k,
            ),
    ensures
        crate::valid_view(after_turns(s, inputs)),
        after_turns(s, inputs).next[k] == rotated_times(k, s.next[k], inputs.len()),
        forall|j: int|
            0 <= j < inputs.len() ==> #[trigger] crate::turn(after_turns(s, inputs.take(j)), inputs[j]).1
                == Some(
                crate::answer(
                    rotated_times(k, s.next[k], j as nat),
                    crate::keyword_and_remainder(engine::cleaned(inputs[j])->0).1,
                ),
            ),
    decreases inputs.len(),
{
    if inputs.len() == 0 {
    } else {
        let init = inputs.drop_last();
        let m = init.len() as int;
        assert forall|j: int| 0 <= j < init.len() implies answered_by(
            #[trigger] after_turns(s, init.take(j)),
            init[j],
            k,
        ) by {
            assert(init.take(j) =~= inputs.take(j));
            assert(answered_by(after_turns(s, inputs.take(j)), inputs[j], k));
        }
        law_successive_answers(s, init, k);
        assert(inputs.take(m) =~= init);
        let sm = after_turns(s, init);
        assert(answered_by(after_turns(s, inputs.take(m)), inputs[m], k));
        law_answer_from_block(sm, inputs[m]);
        law_turn_keeps_valid(sm, inputs[m]);
        assert(inputs.last() == inputs[m]);
        assert(after_turns(s, inputs) == crate::turn(sm, inputs[m]).0);
        assert forall|j: int| 0 <= j < inputs.len() implies #[trigger] crate::turn(
            after_turns(s, inputs.take(j)),
            inputs[j],
        ).1 == Some(
            crate::answer(
                rotated_times(k, s.next[k], j as nat),
                crate::keyword_and_remainder(engine::cleaned(inputs[j])->0).1,
            ),
        ) by {
            if j < m {
                assert(init.take(j) =~= inputs.take(j));
                assert(init[j] == inputs[j]);
                assert(crate::turn(after_turns(s, init.take(j)), init[j]).1 == Some(
                    crate::answer(
                        rotated_times(k, s.next[k], j as nat),
                        crate::keyword_and_remainder(engine::cleaned(init[j])->0).1,
                    ),
                ));
            }
        }
    }
}

/// A keyword's replies come round: after as many moves as its block has
/// replies, a keyword is back at the reply it started from.
pub proof fn law_rotation_period(k: int, n: int)
    requires
        0 <= k < KEYWORD_COUNT,
        tables::reply_first(k) <= n < tables::reply_first(k) + tables::reply_count(k),
    ensures
        rotated_times(k, n, tables::reply_count(k) as nat) == n,
{
    let first = tables::reply_first(k);
    let last = first + tables::reply_count(k) - 1;
    tables::lemma_reply_blocks(k);
    let up = (last - n) as nat;
    lemma_rotated_times_up(k, n, up);
    assert(rotated_times(k, n, up + 1) == first);
    let back = (n - first) as nat;
    lemma_rotated_times_up(k, first, back);
    lemma_rotated_times_add(k, n, up + 1, back);
    assert(up + 1 + back == tables::reply_count(k));
}

} // verus!
