//! The fixed data of the conversation, written out: the keywords in
//! priority order, the conjugation pairs, the replies and each keyword's
//! block of replies. The tables in `tables` are proved to hold exactly these.

use vstd::prelude::*;
use crate::tables;
use crate::text;

verus! {

/// The keywords, in priority order.
pub proof fn law_keywords()
    ensures
        tables::keyword_str(0)@ == "CAN YOU"@,
        tables::keyword_str(1)@ == "CAN I"@,
        tables::keyword_str(2)@ == "YOU ARE"@,
        tables::keyword_str(3)@ == "YOURE"@,
        tables::keyword_str(4)@ == "I DONT"@,
        tables::keyword_str(5)@ == "I FEEL"@,
        tables::keyword_str(6)@ == "WHY DONT YOU"@,
        tables::keyword_str(7)@ == "WHY CANT I"@,
        tables::keyword_str(8)@ == "ARE YOU"@,
        tables::keyword_str(9)@ == "I CANT"@,
        tables::keyword_str(10)@ == "I AM"@,
        tables::keyword_str(11)@ == "IM "@,
        tables::keyword_str(12)@ == "YOU "@,
        tables::keyword_str(13)@ == "I WANT"@,
        tables::keyword_str(14)@ == "WHAT"@,
        tables::keyword_str(15)@ == "HOW"@,
        tables::keyword_str(16)@ == "WHO"@,
        tables::keyword_str(17)@ == "WHERE"@,
        tables::keyword_str(18)@ == "WHEN"@,
        tables::keyword_str(19)@ == "WHY"@,
        tables::keyword_str(20)@ == "NAME"@,
        tables::keyword_str(21)@ == "CAUSE"@,
        tables::keyword_str(22)@ == "SORRY"@,
        tables::keyword_str(23)@ == "DREAM"@,
        tables::keyword_str(24)@ == "HELLO"@,
        tables::keyword_str(25)@ == "HI "@,
        tables::keyword_str(26)@ == "MAYBE"@,
        tables::keyword_str(27)@ == " NO"@,
        tables::keyword_str(28)@ == "YOUR"@,
        tables::keyword_str(29)@ == "ALWAYS"@,
        tables::keyword_str(30)@ == "THINK"@,
        tables::keyword_str(31)@ == "ALIKE"@,
        tables::keyword_str(32)@ == "YES"@,
        tables::keyword_str(33)@ == "FRIEND"@,
        tables::keyword_str(34)@ == "COMPUTER"@,
        tables::keyword_str(35)@ == "NOKEYFOUND"@,
{
    reveal(tables::keyword_str);
}

/// The conjugation pairs: each word of the user's and the word that
/// answers it, in the order in which the pairs are applied.
pub proof fn law_conjugation_pairs()
    ensures
        tables::pair_from_str(0)@ == " ARE "@,
        tables::pair_to_str(0)@ == " am "@,
        tables::pair_from_str(1)@ == " AM "@,
        tables::pair_to_str(1)@ == " are "@,
        tables::pair_from_str(2)@ == "WERE "@,
        tables::pair_to_str(2)@ == "was "@,
        tables::pair_from_str(3)@ == "WAS "@,
        tables::pair_to_str(3)@ == "were "@,
        tables::pair_from_str(4)@ == " YOU "@,
        tables::pair_to_str(4)@ == " I "@,
        tables::pair_from_str(5)@ == " I "@,
        tables::pair_to_str(5)@ == " you "@,
        tables::pair_from_str(6)@ == "YOUR "@,
        tables::pair_to_str(6)@ == "my "@,
        tables::pair_from_str(7)@ == "MY "@,
        tables::pair_to_str(7)@ == "your "@,
        tables::pair_from_str(8)@ == " IVE "@,
        tables::pair_to_str(8)@ == " you've "@,
        tables::pair_from_str(9)@ == " YOUVE "@,
        tables::pair_to_str(9)@ == " I've "@,
        tables::pair_from_str(10)@ == " IM "@,
        tables::pair_to_str(10)@ == " you're "@,
        tables::pair_from_str(11)@ == " YOURE "@,
        tables::pair_to_str(11)@ == " I'm "@,
        tables::pair_from_str(12)@ == " ME "@,
        tables::pair_to_str(12)@ == " !you "@,
        tables::pair_from_str(13)@ == " !YOU "@,
        tables::pair_to_str(13)@ == " me "@,
{
    reveal(tables::pair_from_str);
    reveal(tables::pair_to_str);
}

/// The replies, numbered from 1; a reply ending with "*" is completed with
/// the user's conjugated words.
pub proof fn law_replies()
    ensures
        tables::reply_str(1)@ == "Don't you believe that I can*"@,
        tables::reply_str(2)@ == "Perhaps you would like to be able to*"@,
        tables::reply_str(3)@ == "You want me to be able to*"@,
        tables::reply_str(4)@ == "Perhaps you don't want to*"@,
        tables::reply_str(5)@ == "Do you want to be able to*"@,
        tables::reply_str(6)@ == "What makes you think I am*"@,
        tables::reply_str(7)@ == "Does it please you to believe I am*"@,
        tables::reply_str(8)@ == "Perhaps you would like to be*"@,
        tables::reply_str(9)@ == "Do you sometimes wish you were*"@,
        tables::reply_str(10)@ == "Don't you really*"@,
        tables::reply_str(11)@ == "Why don't you*"@,
        tables::reply_str(12)@ == "Do you wish to be able to*"@,
        tables::reply_str(13)@ == "Does that trouble you?"@,
        tables::reply_str(14)@ == "Tell me more about such feelings."@,
        tables::reply_str(15)@ == "Do you often feel*"@,
        tables::reply_str(16)@ == "Do you enjoy feeling*"@,
        tables::reply_str(17)@ == "Do you really believe I don't*"@,
        tables::reply_str(18)@ == "Perhaps in good time I will*"@,
        tables::reply_str(19)@ == "Do you want me to*"@,
        tables::reply_str(20)@ == "Do you think you should be able to*"@,
        tables::reply_str(21)@ == "Why can't you*"@,
        tables::reply_str(22)@ == "Why are you interested in whether or not I am*"@,
        tables::reply_str(23)@ == "Would you prefer if I were not*"@,
        tables::reply_str(24)@ == "Perhaps in your fantasies I am*"@,
        tables::reply_str(25)@ == "How do you know you can't*"@,
        tables::reply_str(26)@ == "Have you tried?"@,
        tables::reply_str(27)@ == "Perhaps you can now*"@,
        tables::reply_str(28)@ == "Did you come to me because you are*"@,
        tables::reply_str(29)@ == "How long have you been*"@,
        tables::reply_str(30)@ == "Do you believe it is normal to be*"@,
        tables::reply_str(31)@ == "Do you enjoy being*"@,
        tables::reply_str(32)@ == "We were discussing you, not me."@,
        tables::reply_str(33)@ == "Oh, I*"@,
        tables::reply_str(34)@ == "You're not really talking about me, are you?"@,
        tables::reply_str(35)@ == "What would it mean to you if you got*"@,
        tables::reply_str(36)@ == "Why do you want*"@,
        tables::reply_str(37)@ == "Suppose you soon got*"@,
        tables::reply_str(38)@ == "What if you never got*"@,
        tables::reply_str(39)@ == "I sometimes also want*"@,
        tables::reply_str(40)@ == "Why do you ask?"@,
        tables::reply_str(41)@ == "Does that question interest you?"@,
        tables::reply_str(42)@ == "What answer would please you the most?"@,
        tables::reply_str(43)@ == "What do you think?"@,
        tables::reply_str(44)@ == "Are such questions on your mind often?"@,
        tables::reply_str(45)@ == "What is it that you really want to know?"@,
        tables::reply_str(46)@ == "Have you asked anyone else?"@,
        tables::reply_str(47)@ == "Have you asked such questions before?"@,
        tables::reply_str(48)@ == "What else comes to mind when you ask that?"@,
        tables::reply_str(49)@ == "Names don't interest me."@,
        tables::reply_str(50)@ == "I don't care about names -- please go on."@,
        tables::reply_str(51)@ == "Is that the real reason?"@,
        tables::reply_str(52)@ == "Don't any other reasons come to mind?"@,
        tables::reply_str(53)@ == "Does that reason explain anything else?"@,
        tables::reply_str(54)@ == "What other reasons might there be?"@,
        tables::reply_str(55)@ == "Please don't apologize!"@,
        tables::reply_str(56)@ == "Apologies are not necessary."@,
        tables::reply_str(57)@ == "What feelings do you have when you apologize?"@,
        tables::reply_str(58)@ == "Don't be so defensive!"@,
        tables::reply_str(59)@ == "What does that dream suggest to you?"@,
        tables::reply_str(60)@ == "Do you dream often?"@,
        tables::reply_str(61)@ == "What persons appear in your dreams?"@,
        tables::reply_str(62)@ == "Are you disturbed by your dreams?"@,
        tables::reply_str(63)@ == "How do you do... please state your problem."@,
        tables::reply_str(64)@ == "You don't seem quite certain."@,
        tables::reply_str(65)@ == "Why the uncertain tone?"@,
        tables::reply_str(66)@ == "Can't you be more positive?"@,
        tables::reply_str(67)@ == "You aren't sure?"@,
        tables::reply_str(68)@ == "Don't you know?"@,
        tables::reply_str(69)@ == "Are you saying no just to be negative?"@,
        tables::reply_str(70)@ == "You are being a bit negative."@,
        tables::reply_str(71)@ == "Why not?"@,
        tables::reply_str(72)@ == "Are you sure?"@,
        tables::reply_str(73)@ == "Why no?"@,
        tables::reply_str(74)@ == "Why are you concerned about my*"@,
        tables::reply_str(75)@ == "What about your own*"@,
        tables::reply_str(76)@ == "Can you think of a specific example?"@,
        tables::reply_str(77)@ == "When?"@,
        tables::reply_str(78)@ == "What are you thinking of?"@,
        tables::reply_str(79)@ == "Really, always?"@,
        tables::reply_str(80)@ == "Do you really think so?"@,
        tables::reply_str(81)@ == "But you are not sure you*"@,
        tables::reply_str(82)@ == "Do you doubt you*"@,
        tables::reply_str(83)@ == "In what way?"@,
        tables::reply_str(84)@ == "What resemblance do you see?"@,
        tables::reply_str(85)@ == "What does the similarity suggest to you?"@,
        tables::reply_str(86)@ == "What other connections do you see?"@,
        tables::reply_str(87)@ == "Could there really be some connection?"@,
        tables::reply_str(88)@ == "How?"@,
        tables::reply_str(89)@ == "You seem quite positive."@,
        tables::reply_str(90)@ == "Are you sure?"@,
        tables::reply_str(91)@ == "I see."@,
        tables::reply_str(92)@ == "I understand."@,
        tables::reply_str(93)@ == "Why do you bring up the topic of friends?"@,
        tables::reply_str(94)@ == "Do your friends worry you?"@,
        tables::reply_str(95)@ == "Do your friends pick on you?"@,
        tables::reply_str(96)@ == "Are you sure you have any friends?"@,
        tables::reply_str(97)@ == "Do you impose on your friends?"@,
        tables::reply_str(98)@ == "Perhaps your love for friends worries you."@,
        tables::reply_str(99)@ == "Do computers worry you?"@,
        tables::reply_str(100)@ == "Are you talking about me in particular?"@,
        tables::reply_str(101)@ == "Are you frightened by machines?"@,
        tables::reply_str(102)@ == "Why do you mention computers?"@,
        tables::reply_str(103)@ == "What do you think machines have to do with your problem?"@,
        tables::reply_str(104)@ == "Don't you think computers can help people?"@,
        tables::reply_str(105)@ == "What is it about machines that worries you?"@,
        tables::reply_str(106)@ == "Say, do you have any psychological problems?"@,
        tables::reply_str(107)@ == "What does that suggest to you?"@,
        tables::reply_str(108)@ == "I see."@,
        tables::reply_str(109)@ == "I'm not sure I understand you fully."@,
        tables::reply_str(110)@ == "Come, come, elucidate your thoughts."@,
        tables::reply_str(111)@ == "Can you elaborate on that?"@,
        tables::reply_str(112)@ == "That is quite interesting."@,
{
    reveal(tables::reply_str);
}

/// Each keyword's block of replies: its first reply number and its size.
pub proof fn law_reply_blocks()
    ensures
        tables::reply_first(0) == 1 && tables::reply_count(0) == 3,
        tables::reply_first(1) == 4 && tables::reply_count(1) == 2,
        tables::reply_first(2) == 6 && tables::reply_count(2) == 4,
        tables::reply_first(3) == 6 && tables::reply_count(3) == 4,
        tables::reply_first(4) == 10 && tables::reply_count(4) == 4,
        tables::reply_first(5) == 14 && tables::reply_count(5) == 3,
        tables::reply_first(6) == 17 && tables::reply_count(6) == 3,
        tables::reply_first(7) == 20 && tables::reply_count(7) == 2,
        tables::reply_first(8) == 22 && tables::reply_count(8) == 3,
        tables::reply_first(9) == 25 && tables::reply_count(9) == 3,
        tables::reply_first(10) == 28 && tables::reply_count(10) == 4,
        tables::reply_first(11) == 28 && tables::reply_count(11) == 4,
        tables::reply_first(12) == 32 && tables::reply_count(12) == 3,
        tables::reply_first(13) == 35 && tables::reply_count(13) == 5,
        tables::reply_first(14) == 40 && tables::reply_count(14) == 9,
        tables::reply_first(15) == 40 && tables::reply_count(15) == 9,
        tables::reply_first(16) == 40 && tables::reply_count(16) == 9,
        tables::reply_first(17) == 40 && tables::reply_count(17) == 9,
        tables::reply_first(18) == 40 && tables::reply_count(18) == 9,
        tables::reply_first(19) == 40 && tables::reply_count(19) == 9,
        tables::reply_first(20) == 49 && tables::reply_count(20) == 2,
        tables::reply_first(21) == 51 && tables::reply_count(21) == 4,
        tables::reply_first(22) == 55 && tables::reply_count(22) == 4,
        tables::reply_first(23) == 59 && tables::reply_count(23) == 4,
        tables::reply_first(24) == 63 && tables::reply_count(24) == 1,
        tables::reply_first(25) == 63 && tables::reply_count(25) == 1,
        tables::reply_first(26) == 64 && tables::reply_count(26) == 5,
        tables::reply_first(27) == 69 && tables::reply_count(27) == 5,
        tables::reply_first(28) == 74 && tables::reply_count(28) == 2,
        tables::reply_first(29) == 76 && tables::reply_count(29) == 4,
        tables::reply_first(30) == 80 && tables::reply_count(30) == 3,
        tables::reply_first(31) == 83 && tables::reply_count(31) == 7,
        tables::reply_first(32) == 90 && tables::reply_count(32) == 3,
        tables::reply_first(33) == 93 && tables::reply_count(33) == 6,
        tables::reply_first(34) == 99 && tables::reply_count(34) == 7,
        tables::reply_first(35) == 106 && tables::reply_count(35) == 6,
{
    reveal(tables::reply_first);
    reveal(tables::reply_count);
}

/// The blocks follow one another through the replies: each keyword's block
/// either is the previous keyword's block again (keywords that share their
/// replies) or starts right after it; the first starts at reply 1.
pub proof fn law_reply_blocks_follow_on(k: int)
    requires
        1 <= k < tables::KEYWORD_COUNT,
    ensures
        tables::reply_first(0) == 1,
        (tables::reply_first(k) == tables::reply_first(k - 1) && tables::reply_count(k)
            == tables::reply_count(k - 1)) || tables::reply_first(k) == tables::reply_first(k - 1)
            + tables::reply_count(k - 1),
{
    reveal(tables::reply_first);
    reveal(tables::reply_count);
}

/// ASCII lower case: each upper-case letter becomes its lower-case letter,
/// every other byte stays, and no upper-case letter is left.
pub proof fn law_lower_case(b: u8)
    ensures
        65 <= b <= 90 ==> text::lower_byte(b) == b + 32,
        !(65 <= b <= 90) ==> text::lower_byte(b) == b,
        !(65 <= text::lower_byte(b) <= 90),
{
}

/// ASCII upper case: each lower-case letter becomes its upper-case letter,
/// every other byte stays, and no lower-case letter is left.
pub proof fn law_upper_case(b: u8)
    ensures
        97 <= b <= 122 ==> text::upper_byte(b) == b - 32,
        !(97 <= b <= 122) ==> text::upper_byte(b) == b,
        !(97 <= text::upper_byte(b) <= 122),
{
}

/// A reply that ends with "*" is answered by its text without the "*",
/// then the user's conjugated words in lower case: byte for byte, each
/// upper-case letter lowered and no upper-case letter left.
pub proof fn law_star_answer(n: int, c: Seq<u8>)
    requires
        crate::reply_bytes(n).len() > 0,
        crate::reply_bytes(n).last() == text::STAR,
    ensures
        ({
            let f = crate::reply_bytes(n);
            let a = crate::answer(n, c);
            &&& a.len() == f.len() - 1 + c.len()
            &&& a.take(f.len() - 1) == f.drop_last()
            &&& forall|i: int|
                0 <= i < c.len() ==> {
                    &&& (65 <= c[i] <= 90 ==> a[f.len() - 1 + i] == c[i] + 32)
                    &&& (!(65 <= c[i] <= 90) ==> a[f.len() - 1 + i] == c[i])
                    &&& !(65 <= #[trigger] a[f.len() - 1 + i] <= 90)
                }
        }),
{
    let f = crate::reply_bytes(n);
    let a = crate::answer(n, c);
    assert(a.take(f.len() - 1) =~= f.drop_last());
    assert forall|i: int| 0 <= i < c.len() implies {
        &&& (65 <= c[i] <= 90 ==> a[f.len() - 1 + i] == c[i] + 32)
        &&& (!(65 <= c[i] <= 90) ==> a[f.len() - 1 + i] == c[i])
        &&& !(65 <= #[trigger] a[f.len() - 1 + i] <= 90)
    } by {
        assert(a[f.len() - 1 + i] == text::lower_byte(c[i]));
        law_lower_case(c[i]);
    }
}

} // verus!
