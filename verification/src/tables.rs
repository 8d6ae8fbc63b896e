//! The fixed data of the conversation: the keywords in priority order, the
//! conjugation pairs, the replies and, per keyword, the block of replies that
//! it rotates through.

use vstd::prelude::*;

verus! {

/// Number of keywords; the last one, `NOKEYFOUND`, also stands for "no keyword".
pub const KEYWORD_COUNT: usize = 36;

/// Number of conjugation pairs.
pub const PAIR_COUNT: usize = 14;

/// Number of replies; replies are numbered from 1.
pub const REPLY_COUNT: usize = 112;

/// Index of the keyword that answers an input in which no keyword was found.
pub const NO_KEYWORD: usize = 35;

/// The `k`-th keyword (from 0), in priority order.
#[verifier::opaque]
pub open spec fn keyword_str(k: int) -> &'static str {
    if k == 0 {
        "CAN YOU"
    } else if k == 1 {
        "CAN I"
    } else if k == 2 {
        "YOU ARE"
    } else if k == 3 {
        "YOURE"
    } else if k == 4 {
        "I DONT"
    } else if k == 5 {
        "I FEEL"
    } else if k == 6 {
        "WHY DONT YOU"
    } else if k == 7 {
        "WHY CANT I"
    } else if k == 8 {
        "ARE YOU"
    } else if k == 9 {
        "I CANT"
    } else if k == 10 {
        "I AM"
    } else if k == 11 {
        "IM "
    } else if k == 12 {
        "YOU "
    } else if k == 13 {
        "I WANT"
    } else if k == 14 {
        "WHAT"
    } else if k == 15 {
        "HOW"
    } else if k == 16 {
        "WHO"
    } else if k == 17 {
        "WHERE"
    } else if k == 18 {
        "WHEN"
    } else if k == 19 {
        "WHY"
    } else if k == 20 {
        "NAME"
    } else if k == 21 {
        "CAUSE"
    } else if k == 22 {
        "SORRY"
    } else if k == 23 {
        "DREAM"
    } else if k == 24 {
        "HELLO"
    } else if k == 25 {
        "HI "
    } else if k == 26 {
        "MAYBE"
    } else if k == 27 {
        " NO"
    } else if k == 28 {
        "YOUR"
    } else if k == 29 {
        "ALWAYS"
    } else if k == 30 {
        "THINK"
    } else if k == 31 {
        "ALIKE"
    } else if k == 32 {
        "YES"
    } else if k == 33 {
        "FRIEND"
    } else if k == 34 {
        "COMPUTER"
    } else {
        "NOKEYFOUND"
    }
}

/// The `k`-th keyword (from 0), in priority order.
pub fn keyword(k: usize) -> (r: &'static str)
    requires
        k < KEYWORD_COUNT,
    ensures
        r == keyword_str(k as int),
{
    reveal(keyword_str);
    match k {
        0 => "CAN YOU",
        1 => "CAN I",
        2 => "YOU ARE",
        3 => "YOURE",
        4 => "I DONT",
        5 => "I FEEL",
        6 => "WHY DONT YOU",
        7 => "WHY CANT I",
        8 => "ARE YOU",
        9 => "I CANT",
        10 => "I AM",
        11 => "IM ",
        12 => "YOU ",
        13 => "I WANT",
        14 => "WHAT",
        15 => "HOW",
        16 => "WHO",
        17 => "WHERE",
        18 => "WHEN",
        19 => "WHY",
        20 => "NAME",
        21 => "CAUSE",
        22 => "SORRY",
        23 => "DREAM",
        24 => "HELLO",
        25 => "HI ",
        26 => "MAYBE",
        27 => " NO",
        28 => "YOUR",
        29 => "ALWAYS",
        30 => "THINK",
        31 => "ALIKE",
        32 => "YES",
        33 => "FRIEND",
        34 => "COMPUTER",
        _ => "NOKEYFOUND",
    }
}

/// The word that the `j`-th conjugation pair looks for first.
#[verifier::opaque]
pub open spec fn pair_from_str(j: int) -> &'static str {
    if j == 0 {
        " ARE "
    } else if j == 1 {
        " AM "
    } else if j == 2 {
        "WERE "
    } else if j == 3 {
        "WAS "
    } else if j == 4 {
        " YOU "
    } else if j == 5 {
        " I "
    } else if j == 6 {
        "YOUR "
    } else if j == 7 {
        "MY "
    } else if j == 8 {
        " IVE "
    } else if j == 9 {
        " YOUVE "
    } else if j == 10 {
        " IM "
    } else if j == 11 {
        " YOURE "
    } else if j == 12 {
        " ME "
    } else {
        " !YOU "
    }
}

/// The word that the `j`-th conjugation pair puts in its place.
#[verifier::opaque]
pub open spec fn pair_to_str(j: int) -> &'static str {
    if j == 0 {
        " am "
    } else if j == 1 {
        " are "
    } else if j == 2 {
        "was "
    } else if j == 3 {
        "were "
    } else if j == 4 {
        " I "
    } else if j == 5 {
        " you "
    } else if j == 6 {
        "my "
    } else if j == 7 {
        "your "
    } else if j == 8 {
        " you've "
    } else if j == 9 {
        " I've "
    } else if j == 10 {
        " you're "
    } else if j == 11 {
        " I'm "
    } else if j == 12 {
        " !you "
    } else {
        " me "
    }
}

/// The `j`-th conjugation pair (from 0): the word looked for and its counterpart.
pub fn pair(j: usize) -> (r: (&'static str, &'static str))
    requires
        j < PAIR_COUNT,
    ensures
        r.0 == pair_from_str(j as int),
        r.1 == pair_to_str(j as int),
{
    reveal(pair_from_str);
    reveal(pair_to_str);
    match j {
        0 => (" ARE ", " am "),
        1 => (" AM ", " are "),
        2 => ("WERE ", "was "),
        3 => ("WAS ", "were "),
        4 => (" YOU ", " I "),
        5 => (" I ", " you "),
        6 => ("YOUR ", "my "),
        7 => ("MY ", "your "),
        8 => (" IVE ", " you've "),
        9 => (" YOUVE ", " I've "),
        10 => (" IM ", " you're "),
        11 => (" YOURE ", " I'm "),
        12 => (" ME ", " !you "),
        _ => (" !YOU ", " me "),
    }
}

/// Reply number `n` (from 1).
#[verifier::opaque]
pub open spec fn reply_str(n: int) -> &'static str {
    if n == 1 {
        "Don't you believe that I can*"
    } else if n == 2 {
        "Perhaps you would like to be able to*"
    } else if n == 3 {
        "You want me to be able to*"
    } else if n == 4 {
        "Perhaps you don't want to*"
    } else if n == 5 {
        "Do you want to be able to*"
    } else if n == 6 {
        "What makes you think I am*"
    } else if n == 7 {
        "Does it please you to believe I am*"
    } else if n == 8 {
        "Perhaps you would like to be*"
    } else if n == 9 {
        "Do you sometimes wish you were*"
    } else if n == 10 {
        "Don't you really*"
    } else if n == 11 {
        "Why don't you*"
    } else if n == 12 {
        "Do you wish to be able to*"
    } else if n == 13 {
        "Does that trouble you?"
    } else if n == 14 {
        "Tell me more about such feelings."
    } else if n == 15 {
        "Do you often feel*"
    } else if n == 16 {
        "Do you enjoy feeling*"
    } else if n == 17 {
        "Do you really believe I don't*"
    } else if n == 18 {
        "Perhaps in good time I will*"
    } else if n == 19 {
        "Do you want me to*"
    } else if n == 20 {
        "Do you think you should be able to*"
    } else if n == 21 {
        "Why can't you*"
    } else if n == 22 {
        "Why are you interested in whether or not I am*"
    } else if n == 23 {
        "Would you prefer if I were not*"
    } else if n == 24 {
        "Perhaps in your fantasies I am*"
    } else if n == 25 {
        "How do you know you can't*"
    } else if n == 26 {
        "Have you tried?"
    } else if n == 27 {
        "Perhaps you can now*"
    } else if n == 28 {
        "Did you come to me because you are*"
    } else if n == 29 {
        "How long have you been*"
    } else if n == 30 {
        "Do you believe it is normal to be*"
    } else if n == 31 {
        "Do you enjoy being*"
    } else if n == 32 {
        "We were discussing you, not me."
    } else if n == 33 {
        "Oh, I*"
    } else if n == 34 {
        "You're not really talking about me, are you?"
    } else if n == 35 {
        "What would it mean to you if you got*"
    } else if n == 36 {
        "Why do you want*"
    } else if n == 37 {
        "Suppose you soon got*"
    } else if n == 38 {
        "What if you never got*"
    } else if n == 39 {
        "I sometimes also want*"
    } else if n == 40 {
        "Why do you ask?"
    } else if n == 41 {
        "Does that question interest you?"
    } else if n == 42 {
        "What answer would please you the most?"
    } else if n == 43 {
        "What do you think?"
    } else if n == 44 {
        "Are such questions on your mind often?"
    } else if n == 45 {
        "What is it that you really want to know?"
    } else if n == 46 {
        "Have you asked anyone else?"
    } else if n == 47 {
        "Have you asked such questions before?"
    } else if n == 48 {
        "What else comes to mind when you ask that?"
    } else if n == 49 {
        "Names don't interest me."
    } else if n == 50 {
        "I don't care about names -- please go on."
    } else if n == 51 {
        "Is that the real reason?"
    } else if n == 52 {
        "Don't any other reasons come to mind?"
    } else if n == 53 {
        "Does that reason explain anything else?"
    } else if n == 54 {
        "What other reasons might there be?"
    } else if n == 55 {
        "Please don't apologize!"
    } else if n == 56 {
        "Apologies are not necessary."
    } else if n == 57 {
        "What feelings do you have when you apologize?"
    } else if n == 58 {
        "Don't be so defensive!"
    } else if n == 59 {
        "What does that dream suggest to you?"
    } else if n == 60 {
        "Do you dream often?"
    } else if n == 61 {
        "What persons appear in your dreams?"
    } else if n == 62 {
        "Are you disturbed by your dreams?"
    } else if n == 63 {
        "How do you do... please state your problem."
    } else if n == 64 {
        "You don't seem quite certain."
    } else if n == 65 {
        "Why the uncertain tone?"
    } else if n == 66 {
        "Can't you be more positive?"
    } else if n == 67 {
        "You aren't sure?"
    } else if n == 68 {
        "Don't you know?"
    } else if n == 69 {
        "Are you saying no just to be negative?"
    } else if n == 70 {
        "You are being a bit negative."
    } else if n == 71 {
        "Why not?"
    } else if n == 72 {
        "Are you sure?"
    } else if n == 73 {
        "Why no?"
    } else if n == 74 {
        "Why are you concerned about my*"
    } else if n == 75 {
        "What about your own*"
    } else if n == 76 {
        "Can you think of a specific example?"
    } else if n == 77 {
        "When?"
    } else if n == 78 {
        "What are you thinking of?"
    } else if n == 79 {
        "Really, always?"
    } else if n == 80 {
        "Do you really think so?"
    } else if n == 81 {
        "But you are not sure you*"
    } else if n == 82 {
        "Do you doubt you*"
    } else if n == 83 {
        "In what way?"
    } else if n == 84 {
        "What resemblance do you see?"
    } else if n == 85 {
        "What does the similarity suggest to you?"
    } else if n == 86 {
        "What other connections do you see?"
    } else if n == 87 {
        "Could there really be some connection?"
    } else if n == 88 {
        "How?"
    } else if n == 89 {
        "You seem quite positive."
    } else if n == 90 {
        "Are you sure?"
    } else if n == 91 {
        "I see."
    } else if n == 92 {
        "I understand."
    } else if n == 93 {
        "Why do you bring up the topic of friends?"
    } else if n == 94 {
        "Do your friends worry you?"
    } else if n == 95 {
        "Do your friends pick on you?"
    } else if n == 96 {
        "Are you sure you have any friends?"
    } else if n == 97 {
        "Do you impose on your friends?"
    } else if n == 98 {
        "Perhaps your love for friends worries you."
    } else if n == 99 {
        "Do computers worry you?"
    } else if n == 100 {
        "Are you talking about me in particular?"
    } else if n == 101 {
        "Are you frightened by machines?"
    } else if n == 102 {
        "Why do you mention computers?"
    } else if n == 103 {
        "What do you think machines have to do with your problem?"
    } else if n == 104 {
        "Don't you think computers can help people?"
    } else if n == 105 {
        "What is it about machines that worries you?"
    } else if n == 106 {
        "Say, do you have any psychological problems?"
    } else if n == 107 {
        "What does that suggest to you?"
    } else if n == 108 {
        "I see."
    } else if n == 109 {
        "I'm not sure I understand you fully."
    } else if n == 110 {
        "Come, come, elucidate your thoughts."
    } else if n == 111 {
        "Can you elaborate on that?"
    } else {
        "That is quite interesting."
    }
}

/// Reply number `n` (from 1).
pub fn reply(n: usize) -> (r: &'static str)
    requires
        1 <= n <= REPLY_COUNT,
    ensures
        r == reply_str(n as int),
{
    reveal(reply_str);
    match n {
        1 => "Don't you believe that I can*",
        2 => "Perhaps you would like to be able to*",
        3 => "You want me to be able to*",
        4 => "Perhaps you don't want to*",
        5 => "Do you want to be able to*",
        6 => "What makes you think I am*",
        7 => "Does it please you to believe I am*",
        8 => "Perhaps you would like to be*",
        9 => "Do you sometimes wish you were*",
        10 => "Don't you really*",
        11 => "Why don't you*",
        12 => "Do you wish to be able to*",
        13 => "Does that trouble you?",
        14 => "Tell me more about such feelings.",
        15 => "Do you often feel*",
        16 => "Do you enjoy feeling*",
        17 => "Do you really believe I don't*",
        18 => "Perhaps in good time I will*",
        19 => "Do you want me to*",
        20 => "Do you think you should be able to*",
        21 => "Why can't you*",
        22 => "Why are you interested in whether or not I am*",
        23 => "Would you prefer if I were not*",
        24 => "Perhaps in your fantasies I am*",
        25 => "How do you know you can't*",
        26 => "Have you tried?",
        27 => "Perhaps you can now*",
        28 => "Did you come to me because you are*",
        29 => "How long have you been*",
        30 => "Do you believe it is normal to be*",
        31 => "Do you enjoy being*",
        32 => "We were discussing you, not me.",
        33 => "Oh, I*",
        34 => "You're not really talking about me, are you?",
        35 => "What would it mean to you if you got*",
        36 => "Why do you want*",
        37 => "Suppose you soon got*",
        38 => "What if you never got*",
        39 => "I sometimes also want*",
        40 => "Why do you ask?",
        41 => "Does that question interest you?",
        42 => "What answer would please you the most?",
        43 => "What do you think?",
        44 => "Are such questions on your mind often?",
        45 => "What is it that you really want to know?",
        46 => "Have you asked anyone else?",
        47 => "Have you asked such questions before?",
        48 => "What else comes to mind when you ask that?",
        49 => "Names don't interest me.",
        50 => "I don't care about names -- please go on.",
        51 => "Is that the real reason?",
        52 => "Don't any other reasons come to mind?",
        53 => "Does that reason explain anything else?",
        54 => "What other reasons might there be?",
        55 => "Please don't apologize!",
        56 => "Apologies are not necessary.",
        57 => "What feelings do you have when you apologize?",
        58 => "Don't be so defensive!",
        59 => "What does that dream suggest to you?",
        60 => "Do you dream often?",
        61 => "What persons appear in your dreams?",
        62 => "Are you disturbed by your dreams?",
        63 => "How do you do... please state your problem.",
        64 => "You don't seem quite certain.",
        65 => "Why the uncertain tone?",
        66 => "Can't you be more positive?",
        67 => "You aren't sure?",
        68 => "Don't you know?",
        69 => "Are you saying no just to be negative?",
        70 => "You are being a bit negative.",
        71 => "Why not?",
        72 => "Are you sure?",
        73 => "Why no?",
        74 => "Why are you concerned about my*",
        75 => "What about your own*",
        76 => "Can you think of a specific example?",
        77 => "When?",
        78 => "What are you thinking of?",
        79 => "Really, always?",
        80 => "Do you really think so?",
        81 => "But you are not sure you*",
        82 => "Do you doubt you*",
        83 => "In what way?",
        84 => "What resemblance do you see?",
        85 => "What does the similarity suggest to you?",
        86 => "What other connections do you see?",
        87 => "Could there really be some connection?",
        88 => "How?",
        89 => "You seem quite positive.",
        90 => "Are you sure?",
        91 => "I see.",
        92 => "I understand.",
        93 => "Why do you bring up the topic of friends?",
        94 => "Do your friends worry you?",
        95 => "Do your friends pick on you?",
        96 => "Are you sure you have any friends?",
        97 => "Do you impose on your friends?",
        98 => "Perhaps your love for friends worries you.",
        99 => "Do computers worry you?",
        100 => "Are you talking about me in particular?",
        101 => "Are you frightened by machines?",
        102 => "Why do you mention computers?",
        103 => "What do you think machines have to do with your problem?",
        104 => "Don't you think computers can help people?",
        105 => "What is it about machines that worries you?",
        106 => "Say, do you have any psychological problems?",
        107 => "What does that suggest to you?",
        108 => "I see.",
        109 => "I'm not sure I understand you fully.",
        110 => "Come, come, elucidate your thoughts.",
        111 => "Can you elaborate on that?",
        _ => "That is quite interesting.",
    }
}

/// Number of the first reply that keyword `k` (from 0) can give.
#[verifier::opaque]
pub open spec fn reply_first(k: int) -> int {
    if k == 0 {
        1
    } else if k == 1 {
        4
    } else if k == 2 {
        6
    } else if k == 3 {
        6
    } else if k == 4 {
        10
    } else if k == 5 {
        14
    } else if k == 6 {
        17
    } else if k == 7 {
        20
    } else if k == 8 {
        22
    } else if k == 9 {
        25
    } else if k == 10 {
        28
    } else if k == 11 {
        28
    } else if k == 12 {
        32
    } else if k == 13 {
        35
    } else if k == 14 {
        40
    } else if k == 15 {
        40
    } else if k == 16 {
        40
    } else if k == 17 {
        40
    } else if k == 18 {
        40
    } else if k == 19 {
        40
    } else if k == 20 {
        49
    } else if k == 21 {
        51
    } else if k == 22 {
        55
    } else if k == 23 {
        59
    } else if k == 24 {
        63
    } else if k == 25 {
        63
    } else if k == 26 {
        64
    } else if k == 27 {
        69
    } else if k == 28 {
        74
    } else if k == 29 {
        76
    } else if k == 30 {
        80
    } else if k == 31 {
        83
    } else if k == 32 {
        90
    } else if k == 33 {
        93
    } else if k == 34 {
        99
    } else {
        106
    }
}

/// Number of replies that keyword `k` (from 0) rotates through.
#[verifier::opaque]
pub open spec fn reply_count(k: int) -> int {
    if k == 0 {
        3
    } else if k == 1 {
        2
    } else if k == 2 {
        4
    } else if k == 3 {
        4
    } else if k == 4 {
        4
    } else if k == 5 {
        3
    } else if k == 6 {
        3
    } else if k == 7 {
        2
    } else if k == 8 {
        3
    } else if k == 9 {
        3
    } else if k == 10 {
        4
    } else if k == 11 {
        4
    } else if k == 12 {
        3
    } else if k == 13 {
        5
    } else if k == 14 {
        9
    } else if k == 15 {
        9
    } else if k == 16 {
        9
    } else if k == 17 {
        9
    } else if k == 18 {
        9
    } else if k == 19 {
        9
    } else if k == 20 {
        2
    } else if k == 21 {
        4
    } else if k == 22 {
        4
    } else if k == 23 {
        4
    } else if k == 24 {
        1
    } else if k == 25 {
        1
    } else if k == 26 {
        5
    } else if k == 27 {
        5
    } else if k == 28 {
        2
    } else if k == 29 {
        4
    } else if k == 30 {
        3
    } else if k == 31 {
        7
    } else if k == 32 {
        3
    } else if k == 33 {
        6
    } else if k == 34 {
        7
    } else {
        6
    }
}

/// The block of replies of keyword `k` (from 0): its first reply number and its size.
pub fn reply_block(k: usize) -> (r: (usize, usize))
    requires
        k < KEYWORD_COUNT,
    ensures
        r.0 == reply_first(k as int),
        r.1 == reply_count(k as int),
{
    reveal(reply_first);
    reveal(reply_count);
    match k {
        0 => (1, 3),
        1 => (4, 2),
        2 => (6, 4),
        3 => (6, 4),
        4 => (10, 4),
        5 => (14, 3),
        6 => (17, 3),
        7 => (20, 2),
        8 => (22, 3),
        9 => (25, 3),
        10 => (28, 4),
        11 => (28, 4),
        12 => (32, 3),
        13 => (35, 5),
        14 => (40, 9),
        15 => (40, 9),
        16 => (40, 9),
        17 => (40, 9),
        18 => (40, 9),
        19 => (40, 9),
        20 => (49, 2),
        21 => (51, 4),
        22 => (55, 4),
        23 => (59, 4),
        24 => (63, 1),
        25 => (63, 1),
        26 => (64, 5),
        27 => (69, 5),
        28 => (74, 2),
        29 => (76, 4),
        30 => (80, 3),
        31 => (83, 7),
        32 => (90, 3),
        33 => (93, 6),
        34 => (99, 7),
        _ => (106, 6),
    }
}

/// Every keyword's block of replies is a non-empty range of reply numbers.
pub proof fn lemma_reply_blocks(k: int)
    requires
        0 <= k < KEYWORD_COUNT,
    ensures
        1 <= reply_first(k),
        1 <= reply_count(k),
        reply_first(k) + reply_count(k) - 1 <= REPLY_COUNT,
{
    reveal(reply_first);
    reveal(reply_count);
}

/// No conjugation word is empty.
pub proof fn lemma_pair_words_nonempty(j: int)
    requires
        0 <= j < PAIR_COUNT,
    ensures
        pair_from_str(j)@.len() > 0,
        pair_to_str(j)@.len() > 0,
{
    reveal(pair_from_str);
    reveal(pair_to_str);
    reveal_strlit(" !YOU ");
    reveal_strlit(" !you ");
    reveal_strlit(" AM ");
    reveal_strlit(" ARE ");
    reveal_strlit(" I ");
    reveal_strlit(" I'm ");
    reveal_strlit(" I've ");
    reveal_strlit(" IM ");
    reveal_strlit(" IVE ");
    reveal_strlit(" ME ");
    reveal_strlit(" YOU ");
    reveal_strlit(" YOURE ");
    reveal_strlit(" YOUVE ");
    reveal_strlit(" am ");
    reveal_strlit(" are ");
    reveal_strlit(" me ");
    reveal_strlit(" you ");
    reveal_strlit(" you're ");
    reveal_strlit(" you've ");
    reveal_strlit("MY ");
    reveal_strlit("WAS ");
    reveal_strlit("WERE ");
    reveal_strlit("YOUR ");
    reveal_strlit("my ");
    reveal_strlit("was ");
    reveal_strlit("were ");
    reveal_strlit("your ");
}

/// Every reply is ASCII and at least three characters long; only reply
/// 55 starts with "Pl", and it has 23 characters and does not end with "*".
pub proof fn lemma_reply_shapes(n: int)
    requires
        1 <= n <= REPLY_COUNT,
    ensures
        vstd::utf8::is_ascii_chars(reply_str(n)@),
        reply_str(n)@.len() >= 3,
        n != 55 ==> reply_str(n)@[0] != 'P' || reply_str(n)@[1] != 'l',
        n == 55 ==> reply_str(n)@.len() == 23 && reply_str(n)@.last() == '!',
{
    reveal(reply_str);
    reveal_strlit("Don't you believe that I can*");
    reveal_strlit("Perhaps you would like to be able to*");
    reveal_strlit("You want me to be able to*");
    reveal_strlit("Perhaps you don't want to*");
    reveal_strlit("Do you want to be able to*");
    reveal_strlit("What makes you think I am*");
    reveal_strlit("Does it please you to believe I am*");
    reveal_strlit("Perhaps you would like to be*");
    reveal_strlit("Do you sometimes wish you were*");
    reveal_strlit("Don't you really*");
    reveal_strlit("Why don't you*");
    reveal_strlit("Do you wish to be able to*");
    reveal_strlit("Does that trouble you?");
    reveal_strlit("Tell me more about such feelings.");
    reveal_strlit("Do you often feel*");
    reveal_strlit("Do you enjoy feeling*");
    reveal_strlit("Do you really believe I don't*");
    reveal_strlit("Perhaps in good time I will*");
    reveal_strlit("Do you want me to*");
    reveal_strlit("Do you think you should be able to*");
    reveal_strlit("Why can't you*");
    reveal_strlit("Why are you interested in whether or not I am*");
    reveal_strlit("Would you prefer if I were not*");
    reveal_strlit("Perhaps in your fantasies I am*");
    reveal_strlit("How do you know you can't*");
    reveal_strlit("Have you tried?");
    reveal_strlit("Perhaps you can now*");
    reveal_strlit("Did you come to me because you are*");
    reveal_strlit("How long have you been*");
    reveal_strlit("Do you believe it is normal to be*");
    reveal_strlit("Do you enjoy being*");
    reveal_strlit("We were discussing you, not me.");
    reveal_strlit("Oh, I*");
    reveal_strlit("You're not really talking about me, are you?");
    reveal_strlit("What would it mean to you if you got*");
    reveal_strlit("Why do you want*");
    reveal_strlit("Suppose you soon got*");
    reveal_strlit("What if you never got*");
    reveal_strlit("I sometimes also want*");
    reveal_strlit("Why do you ask?");
    reveal_strlit("Does that question interest you?");
    reveal_strlit("What answer would please you the most?");
    reveal_strlit("What do you think?");
    reveal_strlit("Are such questions on your mind often?");
    reveal_strlit("What is it that you really want to know?");
    reveal_strlit("Have you asked anyone else?");
    reveal_strlit("Have you asked such questions before?");
    reveal_strlit("What else comes to mind when you ask that?");
    reveal_strlit("Names don't interest me.");
    reveal_strlit("I don't care about names -- please go on.");
    reveal_strlit("Is that the real reason?");
    reveal_strlit("Don't any other reasons come to mind?");
    reveal_strlit("Does that reason explain anything else?");
    reveal_strlit("What other reasons might there be?");
    reveal_strlit("Please don't apologize!");
    reveal_strlit("Apologies are not necessary.");
    reveal_strlit("What feelings do you have when you apologize?");
    reveal_strlit("Don't be so defensive!");
    reveal_strlit("What does that dream suggest to you?");
    reveal_strlit("Do you dream often?");
    reveal_strlit("What persons appear in your dreams?");
    reveal_strlit("Are you disturbed by your dreams?");
    reveal_strlit("How do you do... please state your problem.");
    reveal_strlit("You don't seem quite certain.");
    reveal_strlit("Why the uncertain tone?");
    reveal_strlit("Can't you be more positive?");
    reveal_strlit("You aren't sure?");
    reveal_strlit("Don't you know?");
    reveal_strlit("Are you saying no just to be negative?");
    reveal_strlit("You are being a bit negative.");
    reveal_strlit("Why not?");
    reveal_strlit("Are you sure?");
    reveal_strlit("Why no?");
    reveal_strlit("Why are you concerned about my*");
    reveal_strlit("What about your own*");
    reveal_strlit("Can you think of a specific example?");
    reveal_strlit("When?");
    reveal_strlit("What are you thinking of?");
    reveal_strlit("Really, always?");
    reveal_strlit("Do you really think so?");
    reveal_strlit("But you are not sure you*");
    reveal_strlit("Do you doubt you*");
    reveal_strlit("In what way?");
    reveal_strlit("What resemblance do you see?");
    reveal_strlit("What does the similarity suggest to you?");
    reveal_strlit("What other connections do you see?");
    reveal_strlit("Could there really be some connection?");
    reveal_strlit("How?");
    reveal_strlit("You seem quite positive.");
    reveal_strlit("I see.");
    reveal_strlit("I understand.");
    reveal_strlit("Why do you bring up the topic of friends?");
    reveal_strlit("Do your friends worry you?");
    reveal_strlit("Do your friends pick on you?");
    reveal_strlit("Are you sure you have any friends?");
    reveal_strlit("Do you impose on your friends?");
    reveal_strlit("Perhaps your love for friends worries you.");
    reveal_strlit("Do computers worry you?");
    reveal_strlit("Are you talking about me in particular?");
    reveal_strlit("Are you frightened by machines?");
    reveal_strlit("Why do you mention computers?");
    reveal_strlit("What do you think machines have to do with your problem?");
    reveal_strlit("Don't you think computers can help people?");
    reveal_strlit("What is it about machines that worries you?");
    reveal_strlit("Say, do you have any psychological problems?");
    reveal_strlit("What does that suggest to you?");
    reveal_strlit("I'm not sure I understand you fully.");
    reveal_strlit("Come, come, elucidate your thoughts.");
    reveal_strlit("Can you elaborate on that?");
    reveal_strlit("That is quite interesting.");
}

/// Every conjugation word is ASCII.
pub proof fn lemma_pair_words_ascii(j: int)
    requires
        0 <= j < PAIR_COUNT,
    ensures
        vstd::utf8::is_ascii_chars(pair_from_str(j)@),
        vstd::utf8::is_ascii_chars(pair_to_str(j)@),
{
    reveal(pair_from_str);
    reveal(pair_to_str);
    reveal_strlit(" !YOU ");
    reveal_strlit(" !you ");
    reveal_strlit(" AM ");
    reveal_strlit(" ARE ");
    reveal_strlit(" I ");
    reveal_strlit(" I'm ");
    reveal_strlit(" I've ");
    reveal_strlit(" IM ");
    reveal_strlit(" IVE ");
    reveal_strlit(" ME ");
    reveal_strlit(" YOU ");
    reveal_strlit(" YOURE ");
    reveal_strlit(" YOUVE ");
    reveal_strlit(" am ");
    reveal_strlit(" are ");
    reveal_strlit(" me ");
    reveal_strlit(" you ");
    reveal_strlit(" you're ");
    reveal_strlit(" you've ");
    reveal_strlit("MY ");
    reveal_strlit("WAS ");
    reveal_strlit("WERE ");
    reveal_strlit("YOUR ");
    reveal_strlit("my ");
    reveal_strlit("was ");
    reveal_strlit("were ");
    reveal_strlit("your ");
}

/// Every conjugation word has at least three characters and ends with a
/// space, and the two words of a pair either both start with a space or
/// neither does.
pub proof fn lemma_pair_word_shapes(j: int)
    requires
        0 <= j < PAIR_COUNT,
    ensures
        pair_from_str(j)@.len() >= 3,
        pair_to_str(j)@.len() >= 3,
        pair_from_str(j)@.last() == ' ',
        pair_to_str(j)@.last() == ' ',
        (pair_from_str(j)@[0] == ' ') == (pair_to_str(j)@[0] == ' '),
{
    reveal(pair_from_str);
    reveal(pair_to_str);
    reveal_strlit(" !YOU ");
    reveal_strlit(" !you ");
    reveal_strlit(" AM ");
    reveal_strlit(" ARE ");
    reveal_strlit(" I ");
    reveal_strlit(" I'm ");
    reveal_strlit(" I've ");
    reveal_strlit(" IM ");
    reveal_strlit(" IVE ");
    reveal_strlit(" ME ");
    reveal_strlit(" YOU ");
    reveal_strlit(" YOURE ");
    reveal_strlit(" YOUVE ");
    reveal_strlit(" am ");
    reveal_strlit(" are ");
    reveal_strlit(" me ");
    reveal_strlit(" you ");
    reveal_strlit(" you're ");
    reveal_strlit(" you've ");
    reveal_strlit("MY ");
    reveal_strlit("WAS ");
    reveal_strlit("WERE ");
    reveal_strlit("YOUR ");
    reveal_strlit("my ");
    reveal_strlit("was ");
    reveal_strlit("were ");
    reveal_strlit("your ");
}

} // verus!
