//! The graded fingerprinting-hardening levels (the Ampel control).

use vstd::prelude::*;
use crate::text::str_eq;

verus! {

broadcast use vstd::string::group_string_axioms;

/// A hardening preset level: off, the three Ampel grades, or custom
/// per-vector flags.
#[derive(Debug, Clone, Copy, PartialEq, Eq, Structural)]
pub enum Level {
    Off,
    Green,
    Yellow,
    Red,
    Custom,
}

/// The level a stored or requested word names. The pre-graded names are
/// still understood: `standard` is Yellow and `strict` is Red.
pub open spec fn level_of_word(w: Seq<char>) -> Option<Level> {
    if w == "off"@ {
        Some(Level::Off)
    } else if w == "green"@ {
        Some(Level::Green)
    } else if w == "yellow"@ || w == "standard"@ {
        Some(Level::Yellow)
    } else if w == "red"@ || w == "strict"@ {
        Some(Level::Red)
    } else if w == "custom"@ {
        Some(Level::Custom)
    } else {
        None
    }
}

/// The canonical word of a level.
pub open spec fn word_of_level(l: Level) -> Seq<char> {
    match l {
        Level::Off => "off"@,
        Level::Green => "green"@,
        Level::Yellow => "yellow"@,
        Level::Red => "red"@,
        Level::Custom => "custom"@,
    }
}

impl Level {
    /// Parse a level word (see [`level_of_word`]).
    pub fn parse(s: &str) -> (l: Option<Level>)
        ensures
            l == level_of_word(s@),
    {
        if str_eq(s, "off") {
            Some(Level::Off)
        } else if str_eq(s, "green") {
            Some(Level::Green)
        } else if str_eq(s, "yellow") || str_eq(s, "standard") {
            Some(Level::Yellow)
        } else if str_eq(s, "red") || str_eq(s, "strict") {
            Some(Level::Red)
        } else if str_eq(s, "custom") {
            Some(Level::Custom)
        } else {
            None
        }
    }

    /// The level's canonical word.
    pub fn as_str(self) -> (s: &'static str)
        ensures
            s@ == word_of_level(self),
    {
        match self {
            Level::Off => "off",
            Level::Green => "green",
            Level::Yellow => "yellow",
            Level::Red => "red",
            Level::Custom => "custom",
        }
    }
}

/// Every level's canonical word parses back to that level.
pub proof fn law_level_word_round_trip(l: Level)
    ensures
        level_of_word(word_of_level(l)) == Some(l),
{
    reveal_strlit("off");
    reveal_strlit("green");
    reveal_strlit("yellow");
    reveal_strlit("standard");
    reveal_strlit("red");
    reveal_strlit("strict");
    reveal_strlit("custom");
    let w = word_of_level(l);
    assert(w.len() != "off"@.len() || w[0] != "off"@[0] || l == Level::Off);
    assert(w.len() != "green"@.len() || w[0] != "green"@[0] || l == Level::Green);
    assert(w.len() != "yellow"@.len() || w[0] != "yellow"@[0] || l == Level::Yellow);
    assert(w.len() != "standard"@.len());
    assert(w.len() != "red"@.len() || w[0] != "red"@[0] || l == Level::Red);
    assert(w.len() != "strict"@.len() || w[0] != "strict"@[0] || w[1] != "strict"@[1]);
}

/// How many of `levels` are Red.
pub open spec fn red_count(levels: Seq<Level>) -> nat
    decreases levels.len(),
{
    if levels.len() == 0 {
        0
    } else {
        red_count(levels.drop_last()) + if levels.last() == Level::Red { 1nat } else { 0nat }
    }
}

proof fn lemma_red_count_bound(levels: Seq<Level>)
    ensures
        red_count(levels) <= levels.len(),
    decreases levels.len(),
{
    if levels.len() > 0 {
        lemma_red_count_bound(levels.drop_last());
    }
}

/// The Red-engagement edge: given the windows' effective levels this pass
/// and how many were Red last pass, how many are Red now and whether the
/// bunker transition fires, which it does exactly when more windows are Red
/// than before.
pub fn red_edge(levels: &Vec<Level>, before: usize) -> (r: (usize, bool))
    ensures
        r.0 == red_count(levels@),
        r.1 == (red_count(levels@) > before),
{
    let mut n: usize = 0;
    let mut i: usize = 0;
    while i < levels.len()
        invariant
            i <= levels.len(),
            n == red_count(levels@.take(i as int)),
        decreases levels.len() - i,
    {
        proof {
            assert(levels@.take(i + 1).drop_last() =~= levels@.take(i as int));
            lemma_red_count_bound(levels@.take(i as int));
        }
        if levels[i] == Level::Red {
            n = n + 1;
        }
        i = i + 1;
    }
    assert(levels@.take(levels.len() as int) =~= levels@);
    (n, n > before)
}

} // verus!
