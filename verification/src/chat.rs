use crate::text::{decimal, push_char, u64_to_string};
use rand::rngs::SmallRng;
use rand::seq::IndexedRandom;
use vstd::pervasive::unreached;
use vstd::prelude::*;
use vstd::string::StringExecFns;

verus! {

/// `SmallRng` of rand, handed on to the call that draws from it.
#[verifier::external_type_specification]
#[verifier::external_body]
pub struct ExSmallRng(SmallRng);

/// The greetings from which one is picked.
pub open spec fn spec_greetings() -> Seq<&'static str> {
    seq![
        "hello",
        "hi",
        "what's up",
        "good day",
        "how are you",
        "howdy",
        "greetings",
        "bonjour",
        "hola",
        "こんにちは",
    ]
}

/// The greetings from which one is picked.
pub fn greetings() -> (list: Vec<&'static str>)
    ensures
        list@ == spec_greetings(),
{
    vec![
        "hello",
        "hi",
        "what's up",
        "good day",
        "how are you",
        "howdy",
        "greetings",
        "bonjour",
        "hola",
        "こんにちは",
    ]
}

/// `IndexedRandom::choose` of rand on a slice: one of the items of the
/// slice, whichever the generator makes it, and none of an empty slice.
#[verifier::external_body]
fn pick(items: &[&'static str], rng: &mut SmallRng) -> (picked: Option<&'static str>)
    ensures
        picked.is_some() <==> items@.len() > 0,
        picked.is_some() ==> items@.contains(picked.unwrap()),
{
    items.choose(rng).copied()
}

/// A greeting addressed to someone: the greeting, a blank, the name.
pub open spec fn spec_greet(greeting: Seq<char>, author: Seq<char>) -> Seq<char> {
    greeting + " "@ + author
}

/// Addresses a greeting to someone.
pub fn greet(greeting: &str, author: &str) -> (reply: String)
    ensures
        reply@ == spec_greet(greeting@, author@),
{
    let mut reply = String::from_str(greeting);
    reply.append(" ");
    reply.append(author);
    reply
}

/// Greets someone with one of the greetings, picked at random.
pub fn hello(rng: &mut SmallRng, author: &str) -> (reply: String)
    ensures
        exists|i: int|
            0 <= i < spec_greetings().len() && reply@ == spec_greet(
                (#[trigger] spec_greetings()[i])@,
                author@,
            ),
{
    let list = greetings();
    assert(list@.len() == 10);
    match pick(list.as_slice(), rng) {
        Some(greeting) => {
            proof {
                let i = choose|i: int| 0 <= i < list@.len() && list@[i] == greeting;
                assert(spec_greetings()[i] == greeting);
            }
            greet(greeting, author)
        },
        None => unreached(),
    }
}

/// How a count tells of the seconds that have passed.
pub open spec fn spec_passed(seconds: u8, weeb: bool) -> Seq<char> {
    if weeb {
        decimal(seconds as nat) + "秒経過！"@
    } else {
        decimal(seconds as nat) + " second has passed"@
    }
}

/// What a count shows while it runs.
pub open spec fn spec_tick(seconds: u8, weeb: bool) -> Seq<char> {
    spec_passed(seconds, weeb) + "..."@
}

/// What a count shows when it is over.
pub open spec fn spec_last(seconds: u8, weeb: bool) -> Seq<char> {
    if weeb {
        "**"@ + spec_passed(seconds, weeb) + "！。** やった、終わったのだ"@
    } else {
        "**"@ + spec_passed(seconds, weeb) + "**"@
    }
}

/// Tells of the seconds that have passed.
pub fn passed(seconds: u8, weeb: bool) -> (text: String)
    ensures
        text@ == spec_passed(seconds, weeb),
{
    let mut text = u64_to_string(seconds as u64);
    if weeb {
        text.append("秒経過！");
    } else {
        text.append(" second has passed");
    }
    text
}

/// Writes what a count shows while it runs.
pub fn tick(seconds: u8, weeb: bool) -> (text: String)
    ensures
        text@ == spec_tick(seconds, weeb),
{
    let mut text = passed(seconds, weeb);
    text.append("...");
    text
}

/// Writes what a count shows when it is over.
pub fn last(seconds: u8, weeb: bool) -> (text: String)
    ensures
        text@ == spec_last(seconds, weeb),
{
    let mut text = String::from_str("**");
    text.append(passed(seconds, weeb).as_str());
    if weeb {
        text.append("！。** やった、終わったのだ");
    } else {
        text.append("**");
    }
    text
}

/// Everything that a count of so many seconds shows, in order: after each
/// second the seconds passed so far, and at the end the whole count once
/// more. A count is plain unless it is asked to be otherwise.
pub fn count(second: u8, weeb: Option<bool>) -> (texts: Vec<String>)
    ensures
        texts@.len() == second + 1,
        forall|i: int|
            0 <= i < second ==> (#[trigger] texts@[i])@ == spec_tick(
                (i + 1) as u8,
                weeb == Some(true),
            ),
        texts@[second as int]@ == spec_last(second, weeb == Some(true)),
{
    let weeb = match weeb {
        Some(chosen) => chosen,
        None => false,
    };
    let mut texts: Vec<String> = Vec::new();
    let mut i: u8 = 0;
    while i < second
        invariant
            i <= second,
            texts@.len() == i,
            forall|k: int|
                0 <= k < i ==> (#[trigger] texts@[k])@ == spec_tick((k + 1) as u8, weeb),
        decreases second - i,
    {
        i = i + 1;
        texts.push(tick(i, weeb));
    }
    texts.push(last(second, weeb));
    texts
}

/// The text that holds one character so many times over.
pub fn repeat(c: char, n: u32) -> (text: String)
    ensures
        text@.len() == n,
        forall|i: int| 0 <= i < n ==> text@[i] == c,
{
    let mut text = String::new();
    let mut i: u32 = 0;
    while i < n
        invariant
            i <= n,
            text@.len() == i,
            forall|k: int| 0 <= k < i ==> text@[k] == c,
        decreases n - i,
    {
        push_char(&mut text, c);
        i = i + 1;
    }
    text
}

} // verus!
