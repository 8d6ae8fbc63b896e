//! Where the lines of a reply break on a screen of a given width.

use vstd::prelude::*;
use vstd::utf8::{encode_utf8, is_char_boundary, length_of_first_scalar};
use crate::utf8_facts;

verus! {

/// Every character of `bytes` takes at most `width` bytes.
pub open spec fn every_char_fits(bytes: Seq<u8>, width: int) -> bool {
    forall|j: int|
        0 <= j < bytes.len() && is_char_boundary(bytes, j) ==> length_of_first_scalar(
            #[trigger] bytes.skip(j),
        ) <= width
}

/// `end` is where a line that starts at `start` breaks: the last character
/// boundary after `start` that is at most `width` bytes further and not past
/// the end of the text.
pub open spec fn line_end(bytes: Seq<u8>, start: int, width: int, end: int) -> bool {
    &&& start < end <= bytes.len()
    &&& end <= start + width
    &&& is_char_boundary(bytes, end)
    &&& forall|e: int|
        end < e <= bytes.len() && e <= start + width ==> !is_char_boundary(bytes, e)
}

/// The positions at which `text` breaks into lines of at most `width`
/// bytes, each line as long as it can be without splitting a character;
/// the last position is the end of the text, and an empty text has none.
pub fn wrap_points(text: &str, width: usize) -> (cuts: Vec<usize>)
    requires
        every_char_fits(encode_utf8(text@), width as int),
    ensures
        cuts@.len() == 0 <==> encode_utf8(text@).len() == 0,
        cuts@.len() > 0 ==> cuts@.last() == encode_utf8(text@).len(),
        forall|k: int|
            0 <= k < cuts@.len() ==> line_end(
                encode_utf8(text@),
                if k == 0 {
                    0
                } else {
                    cuts@[k - 1] as int
                },
                width as int,
                #[trigger] cuts@[k] as int,
            ),
{
    let ghost bytes = encode_utf8(text@);
    proof {
        vstd::utf8::encode_utf8_valid_utf8(text@);
        vstd::utf8::is_char_boundary_start_end_of_seq(bytes);
    }
    let n = text.as_bytes().len();
    let mut cuts: Vec<usize> = Vec::new();
    let mut start: usize = 0;
    while start < n
        invariant
            bytes == encode_utf8(text@),
            vstd::utf8::valid_utf8(bytes),
            every_char_fits(bytes, width as int),
            n == bytes.len(),
            start <= n,
            is_char_boundary(bytes, start as int),
            cuts@.len() == 0 ==> start == 0,
            cuts@.len() > 0 ==> cuts@.last() == start,
            forall|k: int|
                0 <= k < cuts@.len() ==> line_end(
                    bytes,
                    if k == 0 {
                        0
                    } else {
                        cuts@[k - 1] as int
                    },
                    width as int,
                    #[trigger] cuts@[k] as int,
                ),
        decreases n - start,
    {
        proof {
            utf8_facts::lemma_next_boundary(bytes, start as int);
        }
        let ghost step = length_of_first_scalar(bytes.skip(start as int));
        let mut end: usize = if width <= n - start {
            start + width
        } else {
            n
        };
        while end > start && !text.is_char_boundary(end)
            invariant
                bytes == encode_utf8(text@),
                start < n,
                start <= end <= n,
                end <= start + width,
                start + step <= end || start + step > start + width,
                start + step <= n,
                1 <= step <= width,
                is_char_boundary(bytes, start + step),
                forall|e: int|
                    end < e <= n && e <= start + width ==> !is_char_boundary(bytes, e),
            decreases end,
        {
            end -= 1;
        }
        proof {
            assert(end > start);
        }
        cuts.push(end);
        start = end;
    }
    cuts
}

} // verus!
