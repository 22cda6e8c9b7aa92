//! Scores and the ranking order.
//!
//! Every score is a fixed-point number: `SCORE_UNIT` stands for one whole
//! point, so arithmetic and comparison are exact integer operations.

use vstd::prelude::*;

verus! {

/// The integer that stands for a score of exactly one point.
pub const SCORE_UNIT: u64 = 1_000_000_000;

/// How many points a path selected just now adds to a line's score.
pub const FREQUENCY_WEIGHT: u64 = 10;

/// The number of ages for which [`decay`] is still positive.
pub const DECAY_HORIZON: usize = 22;

/// `e^(-age)` in units of `1 / SCORE_UNIT`, rounded to the nearest unit.
/// From `DECAY_HORIZON` on the rounded value is zero.
pub open spec fn decay_spec(age: nat) -> nat {
    if age == 0 {
        1_000_000_000
    } else if age == 1 {
        367_879_441
    } else if age == 2 {
        135_335_283
    } else if age == 3 {
        49_787_068
    } else if age == 4 {
        18_315_639
    } else if age == 5 {
        6_737_947
    } else if age == 6 {
        2_478_752
    } else if age == 7 {
        911_882
    } else if age == 8 {
        335_463
    } else if age == 9 {
        123_410
    } else if age == 10 {
        45_400
    } else if age == 11 {
        16_702
    } else if age == 12 {
        6_144
    } else if age == 13 {
        2_260
    } else if age == 14 {
        832
    } else if age == 15 {
        306
    } else if age == 16 {
        113
    } else if age == 17 {
        41
    } else if age == 18 {
        15
    } else if age == 19 {
        6
    } else if age == 20 {
        2
    } else if age == 21 {
        1
    } else {
        0
    }
}

/// The decay factor of a path that was last selected `age` selections ago.
pub fn decay(age: usize) -> (r: u64)
    ensures
        r == decay_spec(age as nat),
        r <= SCORE_UNIT,
{
    if age == 0 {
        1_000_000_000
    } else if age == 1 {
        367_879_441
    } else if age == 2 {
        135_335_283
    } else if age == 3 {
        49_787_068
    } else if age == 4 {
        18_315_639
    } else if age == 5 {
        6_737_947
    } else if age == 6 {
        2_478_752
    } else if age == 7 {
        911_882
    } else if age == 8 {
        335_463
    } else if age == 9 {
        123_410
    } else if age == 10 {
        45_400
    } else if age == 11 {
        16_702
    } else if age == 12 {
        6_144
    } else if age == 13 {
        2_260
    } else if age == 14 {
        832
    } else if age == 15 {
        306
    } else if age == 16 {
        113
    } else if age == 17 {
        41
    } else if age == 18 {
        15
    } else if age == 19 {
        6
    } else if age == 20 {
        2
    } else if age == 21 {
        1
    } else {
        0
    }
}

/// The decay factor never grows with age, and it shrinks strictly for as
/// long as it is positive.
pub proof fn lemma_decay_decreases(younger: nat, older: nat)
    requires
        younger < older,
    ensures
        decay_spec(older) <= decay_spec(younger),
        decay_spec(younger) > 0 ==> decay_spec(older) < decay_spec(younger),
        decay_spec(younger) <= SCORE_UNIT,
        decay_spec(younger) == SCORE_UNIT <==> younger == 0,
        decay_spec(younger) > 0 <==> younger < DECAY_HORIZON,
{
}

/// A scored candidate line.
///
/// `index` is the position of the line in the stream of lines that were fed
/// for the query. The four scores are fixed-point numbers in units of
/// `1 / SCORE_UNIT`.
#[derive(Debug, Clone, Copy, PartialEq, Eq, Structural)]
pub struct Match {
    pub index: usize,
    pub score: u64,
    pub context_score: u64,
    pub query_score: u64,
    pub frequency_score: u64,
}

impl Match {
    /// The ranking order: a higher score comes first, and of two equal
    /// scores the line that was fed earlier comes first.
    pub open spec fn outranks(self, other: Match) -> bool {
        self.score > other.score || (self.score == other.score && self.index < other.index)
    }

    /// The total is the sum of the three partial scores.
    pub open spec fn balanced(self) -> bool {
        self.score == self.context_score + self.query_score + self.frequency_score
    }

    /// Whether `self` comes before `other` in a result list.
    pub fn ranks_before(&self, other: &Match) -> (r: bool)
        ensures
            r == self.outranks(*other),
    {
        self.score > other.score || (self.score == other.score && self.index < other.index)
    }
}

/// The ranking order is total on the matches of one query: of two matches
/// with different indices exactly one outranks the other.
pub proof fn law_ranking_is_total(a: Match, b: Match)
    requires
        a.index != b.index,
    ensures
        a.outranks(b) != b.outranks(a),
{
}

/// The ranking order is a strict order: no match outranks itself, and the
/// order is transitive and asymmetric.
pub proof fn law_ranking_is_strict(a: Match, b: Match, c: Match)
    ensures
        !a.outranks(a),
        a.outranks(b) && b.outranks(c) ==> a.outranks(c),
        a.outranks(b) ==> !b.outranks(a),
{
}

} // verus!
