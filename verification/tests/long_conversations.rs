use eliza::{Eliza, Outcome};

fn answer(e: &mut Eliza, line: &str) -> Option<String> {
    match e.respond(line) {
        Outcome::Say(s) => Some(s),
        Outcome::ShutUp => None,
    }
}

#[test]
fn long_conversation_0() {
    let mut e = Eliza::new();
    assert_eq!(answer(&mut e, "name Shut youre want don't"), Some("What makes you think I am want dont   ".to_string()));
    assert_eq!(answer(&mut e, "you're nokeyfound your i'm dont"), Some("Does it please you to believe I am nokeyfound my im dont   ".to_string()));
    assert_eq!(answer(&mut e, "'' can always dont café you're"), Some("Perhaps you would like to be   ".to_string()));
    assert_eq!(answer(&mut e, "my"), Some("Say, do you have any psychological problems?".to_string()));
    assert_eq!(answer(&mut e, ""), Some("What does that suggest to you?".to_string()));
    assert_eq!(answer(&mut e, "youre my im where was ''"), Some("Do you sometimes wish you were your im where were    ".to_string()));
    assert_eq!(answer(&mut e, "how i've"), Some("Why do you ask?".to_string()));
    assert_eq!(answer(&mut e, "why hi"), Some("Why do you ask?".to_string()));
    assert_eq!(answer(&mut e, "don't can you're no x"), Some("Don't you believe that I can re no x   ".to_string()));
    assert_eq!(answer(&mut e, "youve ARE YOU a ive think"), Some("Why are you interested in whether or not I am a ive think   ".to_string()));
    assert_eq!(answer(&mut e, "think feel"), Some("Do you really think so?".to_string()));
    assert_eq!(answer(&mut e, "   x sad I"), Some("I see.".to_string()));
    assert_eq!(answer(&mut e, "want how ! ''"), Some("Does that question interest you?".to_string()));
    assert_eq!(answer(&mut e, "sad name"), Some("Names don't interest me.".to_string()));
    assert_eq!(answer(&mut e, "'' im want youve sad happy x"), Some("Did you come to me because you are want youve sad happy x   ".to_string()));
    assert_eq!(answer(&mut e, "can dont friend AM can you're i've"), Some("Perhaps you would like to be able to re ive   ".to_string()));
    assert_eq!(answer(&mut e, "were shut happy you ARE the sorry"), None);
    e = Eliza::new();
    assert_eq!(answer(&mut e, "x"), Some("Say, do you have any psychological problems?".to_string()));
    assert_eq!(answer(&mut e, ""), Some("What does that suggest to you?".to_string()));
    assert_eq!(answer(&mut e, "were who think"), Some("Why do you ask?".to_string()));
    assert_eq!(answer(&mut e, "Shut x feel sorry I s'hut"), Some("Please don't apologize!".to_string()));
    assert_eq!(answer(&mut e, "where ÆØÅ computer ''"), Some("Why do you ask?".to_string()));
    assert_eq!(answer(&mut e, "SHUT me name feel dream"), None);
    e = Eliza::new();
    assert_eq!(answer(&mut e, "me me"), Some("Say, do you have any psychological problems?".to_string()));
    assert_eq!(answer(&mut e, ""), Some("What does that suggest to you?".to_string()));
    assert_eq!(answer(&mut e, "hello yes were i when '' dog"), Some("Why do you ask?".to_string()));
    assert_eq!(answer(&mut e, "who ! youre YOU Shut"), Some("What makes you think I am you shut   ".to_string()));
    assert_eq!(answer(&mut e, "s'hut Shut why My s'hut you're"), Some("Does it please you to believe I am   ".to_string()));
    assert_eq!(answer(&mut e, "can no 😀"), Some("Are you saying no just to be negative?".to_string()));
    assert_eq!(answer(&mut e, "what sad"), Some("Why do you ask?".to_string()));
    assert_eq!(answer(&mut e, ""), Some("I see.".to_string()));
    assert_eq!(answer(&mut e, "i"), Some("I'm not sure I understand you fully.".to_string()));
    assert_eq!(answer(&mut e, "don't a"), Some("Come, come, elucidate your thoughts.".to_string()));
    assert_eq!(answer(&mut e, ""), Some("Can you elaborate on that?".to_string()));
    assert_eq!(answer(&mut e, "no"), Some("You are being a bit negative.".to_string()));
    assert_eq!(answer(&mut e, "name alike happy a AM how"), Some("Why do you ask?".to_string()));
    assert_eq!(answer(&mut e, "Me"), Some("Say, do you have any psychological problems?".to_string()));
    assert_eq!(answer(&mut e, "My My i've feel when why sad"), Some("Does that question interest you?".to_string()));
    assert_eq!(answer(&mut e, "My cause ? you"), Some("We were discussing you, not me.".to_string()));
    assert_eq!(answer(&mut e, "   a when"), Some("What answer would please you the most?".to_string()));
}

#[test]
fn long_conversation_1() {
    let mut e = Eliza::new();
    assert_eq!(answer(&mut e, ""), Some("Say, do you have any psychological problems?".to_string()));
    assert_eq!(answer(&mut e, "dont yes ? a"), Some("Are you sure?".to_string()));
    assert_eq!(answer(&mut e, "the my"), Some("What does that suggest to you?".to_string()));
    assert_eq!(answer(&mut e, "my hi always s'hut me"), Some("How do you do... please state your problem.".to_string()));
    assert_eq!(answer(&mut e, "? x the"), Some("I see.".to_string()));
    assert_eq!(answer(&mut e, ""), Some("I'm not sure I understand you fully.".to_string()));
    assert_eq!(answer(&mut e, ""), Some("Please don't repeat yourself!".to_string()));
    assert_eq!(answer(&mut e, "AM yes hi happy"), Some("How do you do... please state your problem.".to_string()));
    assert_eq!(answer(&mut e, "happy a feel my why me AM"), Some("Why do you ask?".to_string()));
    assert_eq!(answer(&mut e, "sad no My"), Some("Are you saying no just to be negative?".to_string()));
    assert_eq!(answer(&mut e, ""), Some("Come, come, elucidate your thoughts.".to_string()));
    assert_eq!(answer(&mut e, "happy feel how shut maybe My dream"), None);
    e = Eliza::new();
    assert_eq!(answer(&mut e, "help dont Shut ARE s'hut feel"), Some("Say, do you have any psychological problems?".to_string()));
    assert_eq!(answer(&mut e, "sorry who"), Some("Why do you ask?".to_string()));
    assert_eq!(answer(&mut e, ""), Some("What does that suggest to you?".to_string()));
    assert_eq!(answer(&mut e, "ARE when"), Some("Why do you ask?".to_string()));
    assert_eq!(answer(&mut e, "happy name who you am why   "), Some("We were discussing you, not me.".to_string()));
    assert_eq!(answer(&mut e, "ÆØÅ hi"), Some("How do you do... please state your problem.".to_string()));
    assert_eq!(answer(&mut e, "are alike your"), Some("Why are you concerned about my   ".to_string()));
    assert_eq!(answer(&mut e, "nokeyfound always !you yes"), Some("Oh, I yes   ".to_string()));
    assert_eq!(answer(&mut e, "who you're the YOU ? ''"), Some("What makes you think I am the you ?    ".to_string()));
    assert_eq!(answer(&mut e, "name   "), Some("Names don't interest me.".to_string()));
    assert_eq!(answer(&mut e, ""), Some("I see.".to_string()));
    assert_eq!(answer(&mut e, "hello i name dream when AM how"), Some("Why do you ask?".to_string()));
    assert_eq!(answer(&mut e, ""), Some("I'm not sure I understand you fully.".to_string()));
    assert_eq!(answer(&mut e, "?    My why you're"), Some("Does it please you to believe I am   ".to_string()));
    assert_eq!(answer(&mut e, "hi computer im"), Some("Did you come to me because you are  ".to_string()));
    assert_eq!(answer(&mut e, "nokeyfound"), Some("Are you saying no just to be negative?".to_string()));
    assert_eq!(answer(&mut e, "are can 😀 !you nokeyfound ! maybe"), Some("You're not really talking about me, are you?".to_string()));
    assert_eq!(answer(&mut e, "I ! My nokeyfound"), Some("You are being a bit negative.".to_string()));
    assert_eq!(answer(&mut e, "? yes maybe"), Some("You don't seem quite certain.".to_string()));
    assert_eq!(answer(&mut e, "where '' how Shut 😀 youve want"), Some("Does that question interest you?".to_string()));
    assert_eq!(answer(&mut e, "café want your"), Some("What about your own   ".to_string()));
    assert_eq!(answer(&mut e, "how name a when"), Some("What answer would please you the most?".to_string()));
    assert_eq!(answer(&mut e, "where ARE my don't"), Some("Why do you ask?".to_string()));
    assert_eq!(answer(&mut e, "Me cause my cause ÆØÅ !"), Some("Is that the real reason?".to_string()));
    assert_eq!(answer(&mut e, "sad '' maybe the youve dont"), Some("Why the uncertain tone?".to_string()));
    assert_eq!(answer(&mut e, "you sad YOU 😀 you"), Some("We were discussing you, not me.".to_string()));
    assert_eq!(answer(&mut e, "help ? was ! can what"), Some("Why do you ask?".to_string()));
    assert_eq!(answer(&mut e, "why feel yes"), Some("Why do you ask?".to_string()));
}

#[test]
fn long_conversation_2() {
    let mut e = Eliza::new();
    assert_eq!(answer(&mut e, "im hello friend who"), Some("Did you come to me because you are hello friend who   ".to_string()));
    assert_eq!(answer(&mut e, "yes s'hut name ! x !you"), Some("We were discussing you, not me.".to_string()));
    assert_eq!(answer(&mut e, "computer"), Some("Do computers worry you?".to_string()));
    assert_eq!(answer(&mut e, ""), Some("Say, do you have any psychological problems?".to_string()));
    assert_eq!(answer(&mut e, "café want"), Some("What does that suggest to you?".to_string()));
    assert_eq!(answer(&mut e, "you dont yes feel"), Some("Oh, I dont yes feel   ".to_string()));
    assert_eq!(answer(&mut e, "can yes how"), Some("Why do you ask?".to_string()));
    assert_eq!(answer(&mut e, "am sad '' friend who im   "), Some("How long have you been     ".to_string()));
    assert_eq!(answer(&mut e, "what cause yes"), Some("Why do you ask?".to_string()));
    assert_eq!(answer(&mut e, ""), Some("I see.".to_string()));
    assert_eq!(answer(&mut e, "maybe i've"), Some("You don't seem quite certain.".to_string()));
    assert_eq!(answer(&mut e, "   no was I"), Some("Are you saying no just to be negative?".to_string()));
    assert_eq!(answer(&mut e, "friend happy"), Some("Why do you bring up the topic of friends?".to_string()));
    assert_eq!(answer(&mut e, ""), Some("I'm not sure I understand you fully.".to_string()));
    assert_eq!(answer(&mut e, "i'm am you nokeyfound"), Some("Do you believe it is normal to be are i nokeyfound   ".to_string()));
    assert_eq!(answer(&mut e, "! AM think"), Some("Do you really think so?".to_string()));
    assert_eq!(answer(&mut e, "why ÆØÅ x Shut nokeyfound i've your"), Some("Why do you ask?".to_string()));
    assert_eq!(answer(&mut e, "sad maybe where"), Some("Why do you ask?".to_string()));
    assert_eq!(answer(&mut e, "happy youre who am want alike"), Some("What makes you think I am who are want alike   ".to_string()));
    assert_eq!(answer(&mut e, "cause you're feel SHUT nokeyfound were"), None);
    e = Eliza::new();
    assert_eq!(answer(&mut e, "was im YOU"), Some("Did you come to me because you are you   ".to_string()));
    assert_eq!(answer(&mut e, "cause friend"), Some("Is that the real reason?".to_string()));
    assert_eq!(answer(&mut e, "i yes a help !you think i'm"), Some("How long have you been  ".to_string()));
    assert_eq!(answer(&mut e, "your the hello i"), Some("How do you do... please state your problem.".to_string()));
    assert_eq!(answer(&mut e, "SHUT feel AM computer nokeyfound"), None);
    e = Eliza::new();
    assert_eq!(answer(&mut e, "think nokeyfound i"), Some("Are you saying no just to be negative?".to_string()));
    assert_eq!(answer(&mut e, "yes"), Some("Are you sure?".to_string()));
    assert_eq!(answer(&mut e, "when"), Some("Why do you ask?".to_string()));
    assert_eq!(answer(&mut e, "im Shut you ive ive me"), Some("Did you come to me because you are shut i ive ive you   ".to_string()));
    assert_eq!(answer(&mut e, "  "), Some("Say, do you have any psychological problems?".to_string()));
    assert_eq!(answer(&mut e, "shut !you"), None);
    e = Eliza::new();
    assert_eq!(answer(&mut e, "name were when im ! café nokeyfound"), Some("Did you come to me because you are  café nokeyfound   ".to_string()));
    assert_eq!(answer(&mut e, "   nokeyfound"), Some("Are you saying no just to be negative?".to_string()));
    assert_eq!(answer(&mut e, ""), Some("Say, do you have any psychological problems?".to_string()));
    assert_eq!(answer(&mut e, "feel are im"), Some("How long have you been  ".to_string()));
    assert_eq!(answer(&mut e, "a why"), Some("Why do you ask?".to_string()));
    assert_eq!(answer(&mut e, "I youre you think Me yes"), Some("What makes you think I am i think me yes   ".to_string()));
    assert_eq!(answer(&mut e, ""), Some("What does that suggest to you?".to_string()));
    assert_eq!(answer(&mut e, "can nokeyfound dont    can AM alike"), Some("You are being a bit negative.".to_string()));
    assert_eq!(answer(&mut e, "yes"), Some("Are you sure?".to_string()));
}

#[test]
fn long_conversation_3() {
    let mut e = Eliza::new();
    assert_eq!(answer(&mut e, "no me YOU"), Some("We were discussing you, not me.".to_string()));
    assert_eq!(answer(&mut e, "SHUT want My were im maybe want"), None);
    e = Eliza::new();
    assert_eq!(answer(&mut e, "help alike"), Some("In what way?".to_string()));
    assert_eq!(answer(&mut e, "where am My you're"), Some("What makes you think I am   ".to_string()));
    assert_eq!(answer(&mut e, "friend don't your Me was ? were"), Some("Why are you concerned about my me were ? was   ".to_string()));
    assert_eq!(answer(&mut e, "ARE ARE how maybe i've feel AM"), Some("Why do you ask?".to_string()));
    assert_eq!(answer(&mut e, ""), Some("Say, do you have any psychological problems?".to_string()));
    assert_eq!(answer(&mut e, "YOU want nokeyfound I"), Some("We were discussing you, not me.".to_string()));
    assert_eq!(answer(&mut e, "shut no no want"), None);
    e = Eliza::new();
    assert_eq!(answer(&mut e, "when"), Some("Why do you ask?".to_string()));
    assert_eq!(answer(&mut e, "a who ! computer"), Some("Why do you ask?".to_string()));
    assert_eq!(answer(&mut e, "a"), Some("Say, do you have any psychological problems?".to_string()));
    assert_eq!(answer(&mut e, "x Me Shut"), Some("What does that suggest to you?".to_string()));
    assert_eq!(answer(&mut e, ""), Some("I see.".to_string()));
    assert_eq!(answer(&mut e, "i Me"), Some("I'm not sure I understand you fully.".to_string()));
    assert_eq!(answer(&mut e, "s'hut ive when '' happy SHUT youve"), None);
    e = Eliza::new();
    assert_eq!(answer(&mut e, "help"), Some("Say, do you have any psychological problems?".to_string()));
    assert_eq!(answer(&mut e, ""), Some("What does that suggest to you?".to_string()));
    assert_eq!(answer(&mut e, "sad Shut how maybe am"), Some("Why do you ask?".to_string()));
    assert_eq!(answer(&mut e, "alike dog can Shut"), Some("In what way?".to_string()));
    assert_eq!(answer(&mut e, "want a café computer youre computer"), Some("What makes you think I am computer   ".to_string()));
    assert_eq!(answer(&mut e, "youre"), Some("Does it please you to believe I am   ".to_string()));
    assert_eq!(answer(&mut e, "name think friend ÆØÅ"), Some("Names don't interest me.".to_string()));
    assert_eq!(answer(&mut e, "hi dog café are s'hut"), Some("How do you do... please state your problem.".to_string()));
    assert_eq!(answer(&mut e, "feel youre '"), Some("Perhaps you would like to be    ".to_string()));
    assert_eq!(answer(&mut e, "where were Me youre who sorry AM"), Some("Do you sometimes wish you were who sorry are   ".to_string()));
    assert_eq!(answer(&mut e, "sad were ive alike yes s'hut"), Some("What resemblance do you see?".to_string()));
    assert_eq!(answer(&mut e, "ive My Shut"), Some("I see.".to_string()));
    assert_eq!(answer(&mut e, "sorry"), Some("Please don't apologize!".to_string()));
    assert_eq!(answer(&mut e, "want no"), Some("Are you saying no just to be negative?".to_string()));
    assert_eq!(answer(&mut e, "my I help I café where hi"), Some("Why do you ask?".to_string()));
    assert_eq!(answer(&mut e, "dont dream sad"), Some("What does that dream suggest to you?".to_string()));
    assert_eq!(answer(&mut e, "youve"), Some("I'm not sure I understand you fully.".to_string()));
    assert_eq!(answer(&mut e, "dog yes maybe"), Some("You don't seem quite certain.".to_string()));
    assert_eq!(answer(&mut e, ""), Some("Come, come, elucidate your thoughts.".to_string()));
    assert_eq!(answer(&mut e, "shut '    no SHUT friend"), None);
    e = Eliza::new();
    assert_eq!(answer(&mut e, "you're x computer a who"), Some("What makes you think I am x computer a who   ".to_string()));
    assert_eq!(answer(&mut e, "dont friend think"), Some("Do you really think so?".to_string()));
    assert_eq!(answer(&mut e, "s'hut I ÆØÅ i've you who"), Some("We were discussing you, not me.".to_string()));
    assert_eq!(answer(&mut e, ""), Some("Say, do you have any psychological problems?".to_string()));
}

#[test]
fn long_conversation_4() {
    let mut e = Eliza::new();
    assert_eq!(answer(&mut e, "AM Me i want Shut   "), Some("What would it mean to you if you got shut      ".to_string()));
    assert_eq!(answer(&mut e, "I think why my name name ?"), Some("Why do you ask?".to_string()));
    assert_eq!(answer(&mut e, "YOU"), Some("We were discussing you, not me.".to_string()));
    assert_eq!(answer(&mut e, "im"), Some("Did you come to me because you are  ".to_string()));
    assert_eq!(answer(&mut e, ""), Some("Say, do you have any psychological problems?".to_string()));
    assert_eq!(answer(&mut e, "me i'm"), Some("How long have you been  ".to_string()));
    assert_eq!(answer(&mut e, "who alike    ÆØÅ"), Some("Why do you ask?".to_string()));
    assert_eq!(answer(&mut e, "don't"), Some("What does that suggest to you?".to_string()));
    assert_eq!(answer(&mut e, "ive"), Some("I see.".to_string()));
    assert_eq!(answer(&mut e, "shut yes my"), None);
    e = Eliza::new();
    assert_eq!(answer(&mut e, ""), Some("Say, do you have any psychological problems?".to_string()));
    assert_eq!(answer(&mut e, ""), Some("Please don't repeat yourself!".to_string()));
    assert_eq!(answer(&mut e, "YOU computer youve think"), Some("We were discussing you, not me.".to_string()));
    assert_eq!(answer(&mut e, "   always think are ' i've you're"), Some("What makes you think I am   ".to_string()));
    assert_eq!(answer(&mut e, ""), Some("What does that suggest to you?".to_string()));
    assert_eq!(answer(&mut e, "x '' feel"), Some("I see.".to_string()));
    assert_eq!(answer(&mut e, "me café dog me"), Some("I'm not sure I understand you fully.".to_string()));
    assert_eq!(answer(&mut e, "i'm sad '' a Shut maybe i"), Some("Did you come to me because you are sad  a shut maybe i   ".to_string()));
    assert_eq!(answer(&mut e, "nokeyfound can no x"), Some("Are you saying no just to be negative?".to_string()));
    assert_eq!(answer(&mut e, "i've hi me"), Some("How do you do... please state your problem.".to_string()));
    assert_eq!(answer(&mut e, "my yes was why x hello my"), Some("Why do you ask?".to_string()));
    assert_eq!(answer(&mut e, "'' you're when Shut youre your are"), Some("Does it please you to believe I am my am   ".to_string()));
    assert_eq!(answer(&mut e, "'' youre"), Some("Perhaps you would like to be   ".to_string()));
    assert_eq!(answer(&mut e, ""), Some("Come, come, elucidate your thoughts.".to_string()));
    assert_eq!(answer(&mut e, "Shut I"), Some("Can you elaborate on that?".to_string()));
    assert_eq!(answer(&mut e, "what feel sorry help hi"), Some("Why do you ask?".to_string()));
    assert_eq!(answer(&mut e, "   ARE"), Some("Say, do you have any psychological problems?".to_string()));
    assert_eq!(answer(&mut e, ""), Some("What does that suggest to you?".to_string()));
    assert_eq!(answer(&mut e, "SHUT dog help 😀"), None);
    e = Eliza::new();
    assert_eq!(answer(&mut e, "why i"), Some("Why do you ask?".to_string()));
    assert_eq!(answer(&mut e, "computer"), Some("Do computers worry you?".to_string()));
    assert_eq!(answer(&mut e, "happy"), Some("Say, do you have any psychological problems?".to_string()));
    assert_eq!(answer(&mut e, "how no SHUT the i've ÆØÅ"), None);
    e = Eliza::new();
    assert_eq!(answer(&mut e, "youre"), Some("What makes you think I am   ".to_string()));
    assert_eq!(answer(&mut e, "maybe dog I hi !you a AM"), Some("We were discussing you, not me.".to_string()));
    assert_eq!(answer(&mut e, ""), Some("Say, do you have any psychological problems?".to_string()));
    assert_eq!(answer(&mut e, "think s'hut im SHUT i'm ARE"), None);
    e = Eliza::new();
    assert_eq!(answer(&mut e, "you're"), Some("What makes you think I am   ".to_string()));
    assert_eq!(answer(&mut e, "hi can sad a"), Some("How do you do... please state your problem.".to_string()));
    assert_eq!(answer(&mut e, "help im yes youve"), Some("Did you come to me because you are yes youve   ".to_string()));
}

#[test]
fn long_conversation_5() {
    let mut e = Eliza::new();
    assert_eq!(answer(&mut e, "ive i can are"), Some("Say, do you have any psychological problems?".to_string()));
    assert_eq!(answer(&mut e, "why AM ARE"), Some("Why do you ask?".to_string()));
    assert_eq!(answer(&mut e, "alike ÆØÅ x who x hello"), Some("Why do you ask?".to_string()));
    assert_eq!(answer(&mut e, ""), Some("What does that suggest to you?".to_string()));
    assert_eq!(answer(&mut e, "name always !you youve"), Some("We were discussing you, not me.".to_string()));
    assert_eq!(answer(&mut e, "a feel ! maybe Shut cause think"), Some("Is that the real reason?".to_string()));
    assert_eq!(answer(&mut e, "can i'm My !you cause café"), Some("Perhaps you don't want to m my me cause café   ".to_string()));
    assert_eq!(answer(&mut e, "want"), Some("I see.".to_string()));
    assert_eq!(answer(&mut e, "feel no don't ''"), Some("Are you saying no just to be negative?".to_string()));
    assert_eq!(answer(&mut e, "I dream me where '' YOU always"), Some("Oh, I always   ".to_string()));
    assert_eq!(answer(&mut e, "was"), Some("I'm not sure I understand you fully.".to_string()));
    assert_eq!(answer(&mut e, "computer friend dog alike"), Some("In what way?".to_string()));
    assert_eq!(answer(&mut e, "maybe 😀 think hello"), Some("How do you do... please state your problem.".to_string()));
    assert_eq!(answer(&mut e, "always name were"), Some("Names don't interest me.".to_string()));
    assert_eq!(answer(&mut e, "!you can Shut"), Some("You're not really talking about me, are you?".to_string()));
    assert_eq!(answer(&mut e, "think nokeyfound    me"), Some("You are being a bit negative.".to_string()));
    assert_eq!(answer(&mut e, "ARE"), Some("Come, come, elucidate your thoughts.".to_string()));
    assert_eq!(answer(&mut e, ""), Some("Can you elaborate on that?".to_string()));
    assert_eq!(answer(&mut e, "i"), Some("Say, do you have any psychological problems?".to_string()));
    assert_eq!(answer(&mut e, "me I dog im was me how"), Some("Did you come to me because you are were you how   ".to_string()));
    assert_eq!(answer(&mut e, ""), Some("What does that suggest to you?".to_string()));
    assert_eq!(answer(&mut e, "hi want dog"), Some("What would it mean to you if you got dog   ".to_string()));
    assert_eq!(answer(&mut e, "I yes"), Some("Are you sure?".to_string()));
    assert_eq!(answer(&mut e, ""), Some("I see.".to_string()));
    assert_eq!(answer(&mut e, "happy"), Some("I'm not sure I understand you fully.".to_string()));
    assert_eq!(answer(&mut e, "i'm dog sad"), Some("How long have you been dog sad   ".to_string()));
    assert_eq!(answer(&mut e, "im no"), Some("Do you believe it is normal to be no   ".to_string()));
    assert_eq!(answer(&mut e, "i'm no am !you"), Some("Do you enjoy being no are me   ".to_string()));
    assert_eq!(answer(&mut e, "dog hello i've want no i'm"), Some("Did you come to me because you are  ".to_string()));
    assert_eq!(answer(&mut e, "My can ' don't Shut name dont"), Some("I don't care about names -- please go on.".to_string()));
    assert_eq!(answer(&mut e, "Shut friend"), Some("Why do you bring up the topic of friends?".to_string()));
    assert_eq!(answer(&mut e, "were i've '' youre i've the"), Some("What makes you think I am ive the   ".to_string()));
    assert_eq!(answer(&mut e, "'' you a maybe Shut s'hut"), Some("We were discussing you, not me.".to_string()));
    assert_eq!(answer(&mut e, "i ÆØÅ cause"), Some("Don't any other reasons come to mind?".to_string()));
    assert_eq!(answer(&mut e, "what dont s'hut a YOU cause"), Some("Oh, I cause   ".to_string()));
    assert_eq!(answer(&mut e, "am youre"), Some("Does it please you to believe I am   ".to_string()));
    assert_eq!(answer(&mut e, "Shut dont"), Some("Come, come, elucidate your thoughts.".to_string()));
    assert_eq!(answer(&mut e, "nokeyfound sorry when happy were"), Some("Why do you ask?".to_string()));
    assert_eq!(answer(&mut e, "? sorry"), Some("Please don't apologize!".to_string()));
    assert_eq!(answer(&mut e, "why"), Some("Does that question interest you?".to_string()));
}

#[test]
fn long_conversation_6() {
    let mut e = Eliza::new();
    assert_eq!(answer(&mut e, "Me maybe ive who im My"), Some("Did you come to me because you are my   ".to_string()));
    assert_eq!(answer(&mut e, "youre shut dont cause my"), None);
    e = Eliza::new();
    assert_eq!(answer(&mut e, "maybe AM hello your im s'hut"), Some("Did you come to me because you are shut   ".to_string()));
    assert_eq!(answer(&mut e, "shut the"), None);
    e = Eliza::new();
    assert_eq!(answer(&mut e, "name"), Some("Names don't interest me.".to_string()));
    assert_eq!(answer(&mut e, "hi im i'm"), Some("Did you come to me because you are  ".to_string()));
    assert_eq!(answer(&mut e, "how shut YOU i've ''"), None);
    e = Eliza::new();
    assert_eq!(answer(&mut e, "think café shut dog"), None);
    e = Eliza::new();
    assert_eq!(answer(&mut e, "nokeyfound 😀 dream you i Me ARE"), Some("We were discussing you, not me.".to_string()));
    assert_eq!(answer(&mut e, "I YOU dream"), Some("Oh, I dream   ".to_string()));
    assert_eq!(answer(&mut e, "s'hut why can who the ÆØÅ a"), Some("Why do you ask?".to_string()));
    assert_eq!(answer(&mut e, "😀"), Some("Say, do you have any psychological problems?".to_string()));
    assert_eq!(answer(&mut e, ""), Some("What does that suggest to you?".to_string()));
    assert_eq!(answer(&mut e, ""), Some("Please don't repeat yourself!".to_string()));
    assert_eq!(answer(&mut e, "feel youve"), Some("I see.".to_string()));
    assert_eq!(answer(&mut e, "youre"), Some("What makes you think I am   ".to_string()));
    assert_eq!(answer(&mut e, "where are can what hi who"), Some("Why do you ask?".to_string()));
    assert_eq!(answer(&mut e, "were sorry my can happy alike cause"), Some("Is that the real reason?".to_string()));
    assert_eq!(answer(&mut e, "computer YOU when alike nokeyfound"), Some("You're not really talking about me, are you?".to_string()));
    assert_eq!(answer(&mut e, "no yes nokeyfound always youve dog i'm"), Some("Did you come to me because you are  ".to_string()));
    assert_eq!(answer(&mut e, "hello s'hut cause"), Some("Don't any other reasons come to mind?".to_string()));
    assert_eq!(answer(&mut e, "!you SHUT sorry yes"), None);
    e = Eliza::new();
    assert_eq!(answer(&mut e, "  "), Some("Say, do you have any psychological problems?".to_string()));
    assert_eq!(answer(&mut e, ""), Some("What does that suggest to you?".to_string()));
    assert_eq!(answer(&mut e, "I ? why alike Shut"), Some("Why do you ask?".to_string()));
    assert_eq!(answer(&mut e, "yes SHUT dog when a"), None);
    e = Eliza::new();
    assert_eq!(answer(&mut e, "feel 😀 me dream youre"), Some("What makes you think I am   ".to_string()));
    assert_eq!(answer(&mut e, "? alike i've youve"), Some("In what way?".to_string()));
    assert_eq!(answer(&mut e, ""), Some("Say, do you have any psychological problems?".to_string()));
    assert_eq!(answer(&mut e, ""), Some("Please don't repeat yourself!".to_string()));
    assert_eq!(answer(&mut e, "name was ÆØÅ"), Some("Names don't interest me.".to_string()));
    assert_eq!(answer(&mut e, "! a youre who Me me"), Some("Does it please you to believe I am who me you   ".to_string()));
    assert_eq!(answer(&mut e, ""), Some("What does that suggest to you?".to_string()));
    assert_eq!(answer(&mut e, ""), Some("Please don't repeat yourself!".to_string()));
    assert_eq!(answer(&mut e, ""), Some("Please don't repeat yourself!".to_string()));
    assert_eq!(answer(&mut e, ""), Some("Please don't repeat yourself!".to_string()));
    assert_eq!(answer(&mut e, "ive why ? the my"), Some("Why do you ask?".to_string()));
    assert_eq!(answer(&mut e, "ive where no a AM cause"), Some("Why do you ask?".to_string()));
    assert_eq!(answer(&mut e, "am think"), Some("Do you really think so?".to_string()));
    assert_eq!(answer(&mut e, "I don't"), Some("Don't you really   ".to_string()));
}

#[test]
fn long_conversation_7() {
    let mut e = Eliza::new();
    assert_eq!(answer(&mut e, "when"), Some("Why do you ask?".to_string()));
    assert_eq!(answer(&mut e, "s'hut yes am you're"), Some("What makes you think I am   ".to_string()));
    assert_eq!(answer(&mut e, "😀 ? x think sorry"), Some("Please don't apologize!".to_string()));
    assert_eq!(answer(&mut e, ""), Some("Say, do you have any psychological problems?".to_string()));
    assert_eq!(answer(&mut e, ""), Some("Please don't repeat yourself!".to_string()));
    assert_eq!(answer(&mut e, ""), Some("Please don't repeat yourself!".to_string()));
    assert_eq!(answer(&mut e, ""), Some("Please don't repeat yourself!".to_string()));
    assert_eq!(answer(&mut e, "hello always cause you're why am"), Some("Does it please you to believe I am why are   ".to_string()));
    assert_eq!(answer(&mut e, "when ' maybe"), Some("Does that question interest you?".to_string()));
    assert_eq!(answer(&mut e, "dream ! i've can ive youre"), Some("Perhaps you don't want to ve youre   ".to_string()));
    assert_eq!(answer(&mut e, "i SHUT ÆØÅ ARE feel I dream"), None);
    e = Eliza::new();
    assert_eq!(answer(&mut e, "why yes me"), Some("Why do you ask?".to_string()));
    assert_eq!(answer(&mut e, ""), Some("Say, do you have any psychological problems?".to_string()));
    assert_eq!(answer(&mut e, "help"), Some("What does that suggest to you?".to_string()));
    assert_eq!(answer(&mut e, "youre friend ÆØÅ ?"), Some("What makes you think I am friend ÆØÅ ?   ".to_string()));
    assert_eq!(answer(&mut e, "was your feel nokeyfound"), Some("Are you saying no just to be negative?".to_string()));
    assert_eq!(answer(&mut e, ""), Some("I see.".to_string()));
    assert_eq!(answer(&mut e, "yes always"), Some("Can you think of a specific example?".to_string()));
    assert_eq!(answer(&mut e, "cause !you hi"), Some("We were discussing you, not me.".to_string()));
    assert_eq!(answer(&mut e, "help always SHUT AM AM   "), None);
    e = Eliza::new();
    assert_eq!(answer(&mut e, ""), Some("Say, do you have any psychological problems?".to_string()));
    assert_eq!(answer(&mut e, ""), Some("Please don't repeat yourself!".to_string()));
    assert_eq!(answer(&mut e, "me i've your Shut want sorry"), Some("Please don't apologize!".to_string()));
    assert_eq!(answer(&mut e, "i'm are"), Some("Did you come to me because you are am   ".to_string()));
    assert_eq!(answer(&mut e, "why"), Some("Why do you ask?".to_string()));
    assert_eq!(answer(&mut e, "happy when"), Some("Why do you ask?".to_string()));
    assert_eq!(answer(&mut e, ""), Some("What does that suggest to you?".to_string()));
    assert_eq!(answer(&mut e, ""), Some("Please don't repeat yourself!".to_string()));
    assert_eq!(answer(&mut e, ""), Some("Please don't repeat yourself!".to_string()));
    assert_eq!(answer(&mut e, "im can"), Some("How long have you been can   ".to_string()));
    assert_eq!(answer(&mut e, ""), Some("I see.".to_string()));
    assert_eq!(answer(&mut e, "a"), Some("I'm not sure I understand you fully.".to_string()));
    assert_eq!(answer(&mut e, "can shut why"), None);
    e = Eliza::new();
    assert_eq!(answer(&mut e, "no no what"), Some("Why do you ask?".to_string()));
    assert_eq!(answer(&mut e, ""), Some("Say, do you have any psychological problems?".to_string()));
    assert_eq!(answer(&mut e, ""), Some("Please don't repeat yourself!".to_string()));
    assert_eq!(answer(&mut e, "were"), Some("What does that suggest to you?".to_string()));
    assert_eq!(answer(&mut e, "don't who don't no was youve sad"), Some("Why do you ask?".to_string()));
    assert_eq!(answer(&mut e, "yes you happy alike were youre"), Some("What makes you think I am   ".to_string()));
    assert_eq!(answer(&mut e, "!you nokeyfound AM were are"), Some("We were discussing you, not me.".to_string()));
}

#[test]
fn long_conversation_8() {
    let mut e = Eliza::new();
    assert_eq!(answer(&mut e, "are ÆØÅ ? don't happy AM"), Some("Say, do you have any psychological problems?".to_string()));
    assert_eq!(answer(&mut e, ""), Some("What does that suggest to you?".to_string()));
    assert_eq!(answer(&mut e, "dont were sorry"), Some("Please don't apologize!".to_string()));
    assert_eq!(answer(&mut e, "i    maybe were youre i"), Some("What makes you think I am i   ".to_string()));
    assert_eq!(answer(&mut e, "Me don't Me hello x"), Some("How do you do... please state your problem.".to_string()));
    assert_eq!(answer(&mut e, "! yes cause were your"), Some("Is that the real reason?".to_string()));
    assert_eq!(answer(&mut e, "x sorry what"), Some("Why do you ask?".to_string()));
    assert_eq!(answer(&mut e, "Me"), Some("I see.".to_string()));
    assert_eq!(answer(&mut e, "!you"), Some("We were discussing you, not me.".to_string()));
    assert_eq!(answer(&mut e, "don't s'hut Shut dont café"), Some("I'm not sure I understand you fully.".to_string()));
    assert_eq!(answer(&mut e, ""), Some("Come, come, elucidate your thoughts.".to_string()));
    assert_eq!(answer(&mut e, "no ive yes café nokeyfound"), Some("Are you saying no just to be negative?".to_string()));
    assert_eq!(answer(&mut e, "SHUT me"), None);
    e = Eliza::new();
    assert_eq!(answer(&mut e, "who i'm happy !you ? name I"), Some("Did you come to me because you are happy me ? name you   ".to_string()));
    assert_eq!(answer(&mut e, "sorry ARE 😀 alike me"), Some("Please don't apologize!".to_string()));
    assert_eq!(answer(&mut e, "help ARE"), Some("Say, do you have any psychological problems?".to_string()));
    assert_eq!(answer(&mut e, "nokeyfound hi friend"), Some("How do you do... please state your problem.".to_string()));
    assert_eq!(answer(&mut e, "name name think !you"), Some("We were discussing you, not me.".to_string()));
    assert_eq!(answer(&mut e, "cause always !you hi yes"), Some("Oh, I hi yes   ".to_string()));
    assert_eq!(answer(&mut e, "sorry"), Some("Apologies are not necessary.".to_string()));
    assert_eq!(answer(&mut e, "maybe"), Some("You don't seem quite certain.".to_string()));
    assert_eq!(answer(&mut e, "name when ive ive ÆØÅ computer"), Some("Why do you ask?".to_string()));
    assert_eq!(answer(&mut e, "why why computer"), Some("Why do you ask?".to_string()));
    assert_eq!(answer(&mut e, "shut ARE i'm"), None);
    e = Eliza::new();
    assert_eq!(answer(&mut e, ""), Some("Say, do you have any psychological problems?".to_string()));
    assert_eq!(answer(&mut e, "ÆØÅ my nokeyfound was ARE you"), Some("Why are you interested in whether or not I am   ".to_string()));
    assert_eq!(answer(&mut e, "alike s'hut"), Some("In what way?".to_string()));
    assert_eq!(answer(&mut e, ""), Some("What does that suggest to you?".to_string()));
    assert_eq!(answer(&mut e, "ÆØÅ '' me"), Some("I see.".to_string()));
    assert_eq!(answer(&mut e, "hello how YOU"), Some("We were discussing you, not me.".to_string()));
    assert_eq!(answer(&mut e, "youve yes don't '' think s'hut"), Some("Do you really think so?".to_string()));
    assert_eq!(answer(&mut e, "alike café"), Some("What resemblance do you see?".to_string()));
    assert_eq!(answer(&mut e, "YOU you ' ? hello !you am"), Some("Oh, I are   ".to_string()));
    assert_eq!(answer(&mut e, "Me why i'm alike your cause"), Some("Did you come to me because you are alike my cause   ".to_string()));
    assert_eq!(answer(&mut e, "? happy don't"), Some("I'm not sure I understand you fully.".to_string()));
    assert_eq!(answer(&mut e, "no AM ! you dog ? sad"), Some("You're not really talking about me, are you?".to_string()));
    assert_eq!(answer(&mut e, "YOU no hello Shut ! how"), Some("We were discussing you, not me.".to_string()));
    assert_eq!(answer(&mut e, "you're alike computer SHUT s'hut"), None);
    e = Eliza::new();
    assert_eq!(answer(&mut e, ""), Some("Say, do you have any psychological problems?".to_string()));
    assert_eq!(answer(&mut e, ""), Some("Please don't repeat yourself!".to_string()));
}

#[test]
fn long_conversation_9() {
    let mut e = Eliza::new();
    assert_eq!(answer(&mut e, "''"), Some("Say, do you have any psychological problems?".to_string()));
    assert_eq!(answer(&mut e, "the yes why my ive s'hut"), Some("Why do you ask?".to_string()));
    assert_eq!(answer(&mut e, "Shut ARE your"), Some("Why are you interested in whether or not I am r   ".to_string()));
    assert_eq!(answer(&mut e, "who can"), Some("Why do you ask?".to_string()));
    assert_eq!(answer(&mut e, "AM my when"), Some("Why do you ask?".to_string()));
    assert_eq!(answer(&mut e, "' ARE was who AM"), Some("Does that question interest you?".to_string()));
    assert_eq!(answer(&mut e, "me friend SHUT alike café"), None);
    e = Eliza::new();
    assert_eq!(answer(&mut e, "My i"), Some("Say, do you have any psychological problems?".to_string()));
    assert_eq!(answer(&mut e, "the think ive !you"), Some("We were discussing you, not me.".to_string()));
    assert_eq!(answer(&mut e, "Me café feel a name ive shut"), None);
    e = Eliza::new();
    assert_eq!(answer(&mut e, ""), Some("Say, do you have any psychological problems?".to_string()));
    assert_eq!(answer(&mut e, "!you"), Some("We were discussing you, not me.".to_string()));
    assert_eq!(answer(&mut e, "   happy"), Some("What does that suggest to you?".to_string()));
    assert_eq!(answer(&mut e, ""), Some("I see.".to_string()));
    assert_eq!(answer(&mut e, ""), Some("Please don't repeat yourself!".to_string()));
    assert_eq!(answer(&mut e, "want was alike"), Some("In what way?".to_string()));
    assert_eq!(answer(&mut e, "when"), Some("Why do you ask?".to_string()));
    assert_eq!(answer(&mut e, "hello I happy"), Some("How do you do... please state your problem.".to_string()));
    assert_eq!(answer(&mut e, "no s'hut"), Some("Are you saying no just to be negative?".to_string()));
    assert_eq!(answer(&mut e, "dont ive"), Some("I'm not sure I understand you fully.".to_string()));
    assert_eq!(answer(&mut e, "x your   "), Some("Why are you concerned about my      ".to_string()));
    assert_eq!(answer(&mut e, "😀"), Some("Come, come, elucidate your thoughts.".to_string()));
    assert_eq!(answer(&mut e, "how"), Some("Why do you ask?".to_string()));
    assert_eq!(answer(&mut e, "'' me where AM"), Some("Why do you ask?".to_string()));
    assert_eq!(answer(&mut e, "you're My ARE when Me think x"), Some("What makes you think I am my am when me think x   ".to_string()));
    assert_eq!(answer(&mut e, "i cause"), Some("Is that the real reason?".to_string()));
    assert_eq!(answer(&mut e, "ARE x was ARE dog"), Some("Can you elaborate on that?".to_string()));
    assert_eq!(answer(&mut e, "'' want hello a are you"), Some("Why are you interested in whether or not I am   ".to_string()));
    assert_eq!(answer(&mut e, ""), Some("Say, do you have any psychological problems?".to_string()));
    assert_eq!(answer(&mut e, "don't ! My Me when"), Some("Does that question interest you?".to_string()));
    assert_eq!(answer(&mut e, ""), Some("What does that suggest to you?".to_string()));
    assert_eq!(answer(&mut e, "'' who sad"), Some("Why do you ask?".to_string()));
    assert_eq!(answer(&mut e, "a"), Some("I see.".to_string()));
    assert_eq!(answer(&mut e, "AM    no were ÆØÅ"), Some("You are being a bit negative.".to_string()));
    assert_eq!(answer(&mut e, "café alike youre was was"), Some("Does it please you to believe I am were was   ".to_string()));
    assert_eq!(answer(&mut e, "x s'hut help nokeyfound friend"), Some("Why not?".to_string()));
    assert_eq!(answer(&mut e, "no x how help hi"), Some("Does that question interest you?".to_string()));
    assert_eq!(answer(&mut e, "ive who dont im s'hut"), Some("Did you come to me because you are shut   ".to_string()));
    assert_eq!(answer(&mut e, "youre s'hut ive why i im"), Some("Perhaps you would like to be shut ive why i im   ".to_string()));
    assert_eq!(answer(&mut e, "AM you're nokeyfound"), Some("Do you sometimes wish you were nokeyfound   ".to_string()));
}

#[test]
fn long_conversation_10() {
    let mut e = Eliza::new();
    assert_eq!(answer(&mut e, "when feel your im YOU dream"), Some("Did you come to me because you are you dream   ".to_string()));
    assert_eq!(answer(&mut e, "hello"), Some("How do you do... please state your problem.".to_string()));
    assert_eq!(answer(&mut e, ""), Some("Say, do you have any psychological problems?".to_string()));
    assert_eq!(answer(&mut e, "don't am dog where i've yes"), Some("Why do you ask?".to_string()));
    assert_eq!(answer(&mut e, "hello '' i'm youve"), Some("How long have you been youve   ".to_string()));
    assert_eq!(answer(&mut e, ""), Some("What does that suggest to you?".to_string()));
    assert_eq!(answer(&mut e, "youre x ? im how ''"), Some("What makes you think I am x ? im how    ".to_string()));
    assert_eq!(answer(&mut e, "I can am shut name AM"), None);
    e = Eliza::new();
    assert_eq!(answer(&mut e, "why feel AM your name am"), Some("Why do you ask?".to_string()));
    assert_eq!(answer(&mut e, "i am how dont your how"), Some("Did you come to me because you are how dont my how   ".to_string()));
    assert_eq!(answer(&mut e, "AM you"), Some("We were discussing you, not me.".to_string()));
    assert_eq!(answer(&mut e, "think I hello youre"), Some("What makes you think I am   ".to_string()));
    assert_eq!(answer(&mut e, "when feel was x YOU"), Some("Oh, I  ".to_string()));
    assert_eq!(answer(&mut e, "youre i'm am you're"), Some("Does it please you to believe I am   ".to_string()));
    assert_eq!(answer(&mut e, ""), Some("Say, do you have any psychological problems?".to_string()));
    assert_eq!(answer(&mut e, "shut"), None);
    e = Eliza::new();
    assert_eq!(answer(&mut e, "i've sorry Me you're"), Some("What makes you think I am   ".to_string()));
    assert_eq!(answer(&mut e, "dog 😀 AM sorry when"), Some("Why do you ask?".to_string()));
    assert_eq!(answer(&mut e, "a"), Some("Say, do you have any psychological problems?".to_string()));
    assert_eq!(answer(&mut e, "'' My"), Some("What does that suggest to you?".to_string()));
    assert_eq!(answer(&mut e, "I friend help was computer you're"), Some("Does it please you to believe I am   ".to_string()));
    assert_eq!(answer(&mut e, "am name i've café think"), Some("Names don't interest me.".to_string()));
    assert_eq!(answer(&mut e, "shut SHUT me I were i"), None);
    e = Eliza::new();
    assert_eq!(answer(&mut e, "yes friend café cause im"), Some("Did you come to me because you are  ".to_string()));
    assert_eq!(answer(&mut e, "when when computer x"), Some("Why do you ask?".to_string()));
    assert_eq!(answer(&mut e, "feel Me SHUT maybe me"), None);
    e = Eliza::new();
    assert_eq!(answer(&mut e, "you're Shut ARE no"), Some("What makes you think I am shut am no   ".to_string()));
    assert_eq!(answer(&mut e, "am shut YOU dont"), None);
    e = Eliza::new();
    assert_eq!(answer(&mut e, "can me Shut ? yes"), Some("Are you sure?".to_string()));
    assert_eq!(answer(&mut e, "My nokeyfound maybe hi your"), Some("How do you do... please state your problem.".to_string()));
    assert_eq!(answer(&mut e, "dont hello was"), Some("How do you do... please state your problem.".to_string()));
    assert_eq!(answer(&mut e, "the s'hut ? name think"), Some("Names don't interest me.".to_string()));
    assert_eq!(answer(&mut e, ""), Some("Say, do you have any psychological problems?".to_string()));
    assert_eq!(answer(&mut e, "dog why dog ARE feel name youve"), Some("Why do you ask?".to_string()));
    assert_eq!(answer(&mut e, ""), Some("What does that suggest to you?".to_string()));
    assert_eq!(answer(&mut e, "computer ? you don't i'm"), Some("Did you come to me because you are  ".to_string()));
    assert_eq!(answer(&mut e, "Me your yes"), Some("Why are you concerned about my yes   ".to_string()));
    assert_eq!(answer(&mut e, "café don't I who"), Some("Why do you ask?".to_string()));
    assert_eq!(answer(&mut e, "i'm sad maybe hello"), Some("How long have you been sad maybe hello   ".to_string()));
    assert_eq!(answer(&mut e, "feel are youre i'm dog YOU"), Some("What makes you think I am im dog you   ".to_string()));
}

#[test]
fn long_conversation_11() {
    let mut e = Eliza::new();
    assert_eq!(answer(&mut e, "can Shut how dont alike youve me"), Some("Why do you ask?".to_string()));
    assert_eq!(answer(&mut e, "nokeyfound"), Some("Are you saying no just to be negative?".to_string()));
    assert_eq!(answer(&mut e, "hello I cause dog always my"), Some("Is that the real reason?".to_string()));
    assert_eq!(answer(&mut e, "i'm alike"), Some("Did you come to me because you are alike   ".to_string()));
    assert_eq!(answer(&mut e, "you're are youre yes !"), Some("What makes you think I am yes    ".to_string()));
    assert_eq!(answer(&mut e, "you're don't when youve i maybe ive"), Some("Does it please you to believe I am dont when youve i maybe ive   ".to_string()));
    assert_eq!(answer(&mut e, "why AM !you dog alike shut how"), None);
    e = Eliza::new();
    assert_eq!(answer(&mut e, "My SHUT sorry 😀 always"), None);
    e = Eliza::new();
    assert_eq!(answer(&mut e, "am ARE"), Some("Say, do you have any psychological problems?".to_string()));
    assert_eq!(answer(&mut e, "i'm cause my"), Some("Did you come to me because you are cause your   ".to_string()));
    assert_eq!(answer(&mut e, "dog"), Some("What does that suggest to you?".to_string()));
    assert_eq!(answer(&mut e, "I don't"), Some("Don't you really   ".to_string()));
    assert_eq!(answer(&mut e, "you want I sad !you me"), Some("We were discussing you, not me.".to_string()));
    assert_eq!(answer(&mut e, "what a when help my you're hello"), Some("What makes you think I am hello   ".to_string()));
    assert_eq!(answer(&mut e, "when 😀 name friend '' ' think"), Some("Why do you ask?".to_string()));
    assert_eq!(answer(&mut e, "are friend"), Some("Why do you bring up the topic of friends?".to_string()));
    assert_eq!(answer(&mut e, "help sorry yes Me"), Some("Please don't apologize!".to_string()));
    assert_eq!(answer(&mut e, "youve"), Some("I see.".to_string()));
    assert_eq!(answer(&mut e, "My what name ! you're your My"), Some("Does it please you to believe I am my my   ".to_string()));
    assert_eq!(answer(&mut e, "how alike maybe a"), Some("Why do you ask?".to_string()));
    assert_eq!(answer(&mut e, "yes always always don't shut was"), None);
    e = Eliza::new();
    assert_eq!(answer(&mut e, "cause you're was when you 😀"), Some("What makes you think I am were when i 😀   ".to_string()));
    assert_eq!(answer(&mut e, "! where 😀 i   "), Some("Why do you ask?".to_string()));
    assert_eq!(answer(&mut e, "hello a ÆØÅ im"), Some("Did you come to me because you are  ".to_string()));
    assert_eq!(answer(&mut e, "your computer hello where hello ?"), Some("Does that question interest you?".to_string()));
    assert_eq!(answer(&mut e, "dream maybe feel"), Some("What does that dream suggest to you?".to_string()));
    assert_eq!(answer(&mut e, "x"), Some("Say, do you have any psychological problems?".to_string()));
    assert_eq!(answer(&mut e, "dream no where hi"), Some("What answer would please you the most?".to_string()));
    assert_eq!(answer(&mut e, "maybe am can ?"), Some("You don't seem quite certain.".to_string()));
    assert_eq!(answer(&mut e, "you're ? happy help were x"), Some("Does it please you to believe I am ? happy help was x   ".to_string()));
    assert_eq!(answer(&mut e, "am"), Some("What does that suggest to you?".to_string()));
    assert_eq!(answer(&mut e, "My where friend think hello a"), Some("What do you think?".to_string()));
    assert_eq!(answer(&mut e, ""), Some("I see.".to_string()));
    assert_eq!(answer(&mut e, "dog i"), Some("I'm not sure I understand you fully.".to_string()));
    assert_eq!(answer(&mut e, "? I ? want how"), Some("Why do you ask?".to_string()));
    assert_eq!(answer(&mut e, "think !you SHUT you're was"), None);
    e = Eliza::new();
    assert_eq!(answer(&mut e, "x"), Some("Say, do you have any psychological problems?".to_string()));
    assert_eq!(answer(&mut e, "! are    where you think dont"), Some("We were discussing you, not me.".to_string()));
    assert_eq!(answer(&mut e, "hello sorry why"), Some("Why do you ask?".to_string()));
    assert_eq!(answer(&mut e, "alike are you don't"), Some("Why are you interested in whether or not I am dont   ".to_string()));
}
