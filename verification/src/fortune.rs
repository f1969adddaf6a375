//! The fortune that a node hands to whoever asks for one.

use rand::seq::IndexedRandom;
use vstd::prelude::*;

verus! {

/// The fortunes, in the order in which they are kept.
pub open spec fn fortunes() -> Seq<Seq<char>> {
    seq![
        "Today it's up to you to create the peacefulness you long for."@,
        "A friend asks only for your time not your money."@,
        "If you refuse to accept anything but the best, you very often get it."@,
        "A smile is your passport into the hearts of others."@,
        "A good way to keep healthy is to eat more Chinese food."@,
        "Your high-minded principles spell success."@,
        "Hard work pays off in the future, laziness pays off now."@,
        "Change can hurt, but it leads a path to something better."@,
        "Enjoy the good luck a companion brings you."@,
        "People are naturally attracted to you."@,
        "Hidden in a valley beside an open stream- This will be the type of place where you will find your dream."@,
        "A chance meeting opens new doors to success and friendship."@,
        "You learn from your mistakes... You will learn a lot today."@,
        "If you have something good in your life, don't let it go!"@,
        "What ever you're goal is in life, embrace it visualize it, and for it will be yours."@,
        "Your shoes will make you happy today."@,
        "You cannot love life until you live the life you love."@,
        "Be on the lookout for coming events; They cast their shadows beforehand."@,
        "Land is always on the mind of a flying bird."@,
        "The man or woman you desire feels the same about you."@,
        "Meeting adversity well is the source of your strength."@,
        "A dream you have will come true."@,
        "Our deeds determine us, as much as we determine our deeds."@,
        "Never give up. You're not a failure if you don't give up."@,
        "You will become great if you believe in yourself."@,
        "There is no greater pleasure than seeing your loved ones prosper."@,
        "You will marry your lover."@,
        "A very attractive person has a message for you."@,
        "You already know the answer to the questions lingering inside your head."@,
        "It is now, and in this world, that we must live."@,
        "You must try, or hate yourself for not trying."@,
        "You can make your own happiness."@,
    ]
}

/// Calls `IndexedRandom::choose` on the slice with the generator of
/// `rand::rng`. Trusted: whatever is drawn, an empty slice gives nothing and
/// any other slice gives one of its elements. The generator needs the
/// system's source of randomness and does not return without one.
#[verifier::external_body]
fn choose_one(options: &Vec<&'static str>) -> (picked: Option<&'static str>)
    ensures
        (picked is None) == (options@.len() == 0),
        picked is None || options@.contains(picked->0),
{
    options.as_slice().choose(&mut rand::rng()).copied()
}

/// The fortunes as they are kept at run time.
pub fn all_fortunes() -> (all: Vec<&'static str>)
    ensures
        all@.len() == fortunes().len(),
        forall|i: int| 0 <= i < all@.len() ==> (#[trigger] all@[i])@ == fortunes()[i],
{
    vec![
        "Today it's up to you to create the peacefulness you long for.",
        "A friend asks only for your time not your money.",
        "If you refuse to accept anything but the best, you very often get it.",
        "A smile is your passport into the hearts of others.",
        "A good way to keep healthy is to eat more Chinese food.",
        "Your high-minded principles spell success.",
        "Hard work pays off in the future, laziness pays off now.",
        "Change can hurt, but it leads a path to something better.",
        "Enjoy the good luck a companion brings you.",
        "People are naturally attracted to you.",
        "Hidden in a valley beside an open stream- This will be the type of place where you will find your dream.",
        "A chance meeting opens new doors to success and friendship.",
        "You learn from your mistakes... You will learn a lot today.",
        "If you have something good in your life, don't let it go!",
        "What ever you're goal is in life, embrace it visualize it, and for it will be yours.",
        "Your shoes will make you happy today.",
        "You cannot love life until you live the life you love.",
        "Be on the lookout for coming events; They cast their shadows beforehand.",
        "Land is always on the mind of a flying bird.",
        "The man or woman you desire feels the same about you.",
        "Meeting adversity well is the source of your strength.",
        "A dream you have will come true.",
        "Our deeds determine us, as much as we determine our deeds.",
        "Never give up. You're not a failure if you don't give up.",
        "You will become great if you believe in yourself.",
        "There is no greater pleasure than seeing your loved ones prosper.",
        "You will marry your lover.",
        "A very attractive person has a message for you.",
        "You already know the answer to the questions lingering inside your head.",
        "It is now, and in this world, that we must live.",
        "You must try, or hate yourself for not trying.",
        "You can make your own happiness.",
    ]
}

/// The fortune to hand out when `picked` came out of the draw: the one
/// drawn, or nothing where nothing was.
pub fn fortune_text(picked: Option<&'static str>) -> (fortune: Option<String>)
    ensures
        fortune.deep_view() == picked.deep_view(),
{
    match picked {
        Some(text) => Some(text.to_owned()),
        None => None,
    }
}

/// Draws a fortune. Which one comes out is left to chance; it is always one
/// of [`fortunes`], since the list is not empty.
pub fn get_fortune() -> (fortune: String)
    ensures
        fortunes().contains(fortune@),
{
    let all = all_fortunes();
    let picked = choose_one(&all);
    proof {
        let i = choose|i: int| 0 <= i < all@.len() && all@[i] == picked->0;
        assert(fortunes()[i] == (picked->0)@);
    }
    match fortune_text(picked) {
        Some(fortune) => fortune,
        None => unreached(),
    }
}

} // verus!
