//! How wide a generated card's language may be, and what a card wider than
//! its app is approved for is told.
use vstd::prelude::*;
use crate::text::{chars_of, push_str, string_of};

verus! {

/// The language levels a card may be written at, narrowest first.
#[derive(Clone, Copy, Debug, PartialEq, Eq, Structural)]
pub enum Level {
    L0,
    L1,
    L2,
}

/// The place of a level in the order L0 < L1 < L2.
pub open spec fn rank(l: Level) -> nat {
    match l {
        Level::L0 => 0,
        Level::L1 => 1,
        Level::L2 => 2,
    }
}

/// How a level is written.
pub open spec fn level_name(l: Level) -> Seq<char> {
    match l {
        Level::L0 => "L0"@,
        Level::L1 => "L1"@,
        Level::L2 => "L2"@,
    }
}

fn level_str(l: Level) -> (r: &'static str)
    ensures
        r@ == level_name(l),
{
    match l {
        Level::L0 => "L0",
        Level::L1 => "L1",
        Level::L2 => "L2",
    }
}

fn rank_exec(l: Level) -> (r: u8)
    ensures
        r as nat == rank(l),
{
    match l {
        Level::L0 => 0,
        Level::L1 => 1,
        Level::L2 => 2,
    }
}

/// The repair reason for a card of `domain` that declares `declared` while
/// the app is approved for `approved`: present exactly when `declared` is the
/// wider of the two.
pub open spec fn refusal_spec(domain: Seq<char>, declared: Level, approved: Level) -> Option<Seq<char>> {
    if rank(declared) > rank(approved) {
        Some(
            "line 1: this card declares level "@ + level_name(declared) + " and `"@ + domain
                + "` is approved for              "@ + level_name(approved)
                + " \u{2014} remove the `# level:` header and the construct that needed              it (profile \u{a7}7: escalation is never silent)"@,
        )
    } else {
        None
    }
}

/// Is a card wider than its app is approved for? The refusal, if so, phrased
/// as a repair reason for the next attempt (escalation is never silent).
pub fn level_refusal(domain: &str, declared: Level, approved: Level) -> (r: Option<String>)
    ensures
        match r {
            Some(s) => refusal_spec(domain@, declared, approved) == Some(s@),
            None => refusal_spec(domain@, declared, approved) is None,
        },
{
    if rank_exec(declared) <= rank_exec(approved) {
        return None;
    }
    let mut out = chars_of("line 1: this card declares level ");
    push_str(&mut out, level_str(declared));
    push_str(&mut out, " and `");
    push_str(&mut out, domain);
    push_str(&mut out, "` is approved for              ");
    push_str(&mut out, level_str(approved));
    push_str(
        &mut out,
        " \u{2014} remove the `# level:` header and the construct that needed              it (profile \u{a7}7: escalation is never silent)",
    );
    Some(string_of(&out))
}

} // verus!
