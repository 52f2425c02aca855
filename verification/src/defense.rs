//! The defense curve: a monotone map from the current visitor count to a
//! puzzle difficulty factor.

use vstd::prelude::*;

use crate::errors::CaptchaError;

verus! {

/// One step of the defense curve: from `visitor_threshold` visitors on,
/// puzzles are issued with `difficulty_factor`.
#[derive(Clone, Copy, PartialEq, Eq, Structural, Debug)]
pub struct Level {
    pub visitor_threshold: u32,
    pub difficulty_factor: u32,
}

/// A valid defense is non-empty, its thresholds are strictly ascending,
/// and the first threshold is zero.
pub open spec fn defense_wf(levels: Seq<Level>) -> bool {
    &&& levels.len() > 0
    &&& levels[0].visitor_threshold == 0
    &&& forall|i: int, j: int|
        0 <= i < j < levels.len() ==> levels[i].visitor_threshold
            < levels[j].visitor_threshold
}

/// The difficulty factor of the greatest level whose threshold is at most
/// `v`. Total over all of `u32` once the curve is valid, because the first
/// threshold is zero.
pub open spec fn spec_difficulty(levels: Seq<Level>, v: u32) -> u32
    decreases levels.len(),
{
    if levels.len() == 0 {
        0
    } else if levels.last().visitor_threshold <= v {
        levels.last().difficulty_factor
    } else {
        spec_difficulty(levels.drop_last(), v)
    }
}

/// An ordered, non-empty sequence of levels, sorted by ascending threshold.
#[derive(Debug)]
pub struct Defense {
    pub levels: Vec<Level>,
}

impl View for Defense {
    type V = Seq<Level>;

    open spec fn view(&self) -> Seq<Level> {
        self.levels@
    }
}

/// Strict ordering of every adjacent pair of thresholds carries over to
/// every pair of positions.
pub proof fn lemma_adjacent_sorted(levels: Seq<Level>, i: int, j: int)
    requires
        forall|k: int|
            0 < k < levels.len() ==> levels[k - 1].visitor_threshold
                < #[trigger] levels[k].visitor_threshold,
        0 <= i < j < levels.len(),
    ensures
        levels[i].visitor_threshold < levels[j].visitor_threshold,
    decreases j - i,
{
    if j > i + 1 {
        lemma_adjacent_sorted(levels, i, j - 1);
    }
}

impl Clone for Defense {
    fn clone(&self) -> (res: Self)
        ensures
            res@ == self@,
    {
        let mut levels: Vec<Level> = Vec::new();
        let mut i: usize = 0;
        while i < self.levels.len()
            invariant
                i <= self.levels@.len(),
                levels@ == self.levels@.subrange(0, i as int),
            decreases self.levels@.len() - i,
        {
            levels.push(self.levels[i]);
            proof {
                assert(levels@ =~= self.levels@.subrange(0, i + 1));
            }
            i += 1;
        }
        proof {
            assert(levels@ =~= self.levels@);
        }
        Defense { levels }
    }
}

impl Defense {
    pub open spec fn wf(&self) -> bool {
        defense_wf(self@)
    }

    /// Builds a defense from a list of levels, rejecting an empty list, an
    /// unsorted list or duplicate thresholds, and a first threshold other
    /// than zero. Exactly the valid curves are accepted.
    pub fn new(levels: Vec<Level>) -> (r: Result<Defense, CaptchaError>)
        ensures
            match r {
                Ok(d) => d@ == levels@ && defense_wf(levels@),
                Err(e) => e == CaptchaError::InvalidDefense && !defense_wf(levels@),
            },
    {
        if levels.len() == 0 {
            return Err(CaptchaError::InvalidDefense);
        }
        if levels[0].visitor_threshold != 0 {
            return Err(CaptchaError::InvalidDefense);
        }
        let mut i: usize = 1;
        while i < levels.len()
            invariant
                1 <= i <= levels@.len(),
                forall|k: int|
                    0 < k < i ==> levels@[k - 1].visitor_threshold
                        < #[trigger] levels@[k].visitor_threshold,
            decreases levels@.len() - i,
        {
            if levels[i - 1].visitor_threshold >= levels[i].visitor_threshold {
                return Err(CaptchaError::InvalidDefense);
            }
            i += 1;
        }
        proof {
            assert forall|a: int, b: int|
                0 <= a < b < levels@.len() implies levels@[a].visitor_threshold
                < levels@[b].visitor_threshold by {
                lemma_adjacent_sorted(levels@, a, b);
            }
        }
        Ok(Defense { levels })
    }

    /// The current difficulty: the factor of the greatest level whose
    /// threshold does not exceed `visitors`.
    pub fn difficulty(&self, visitors: u32) -> (r: u32)
        requires
            self.wf(),
        ensures
            r == spec_difficulty(self@, visitors),
    {
        let mut factor: u32 = self.levels[0].difficulty_factor;
        proof {
            assert(self@.subrange(0, 1).last() == self@[0]);
            assert(self@.subrange(0, 1).drop_last() =~= Seq::<Level>::empty());
        }
        let mut i: usize = 1;
        while i < self.levels.len()
            invariant
                self.wf(),
                1 <= i <= self@.len(),
                factor == spec_difficulty(self@.subrange(0, i as int), visitors),
            decreases self@.len() - i,
        {
            if self.levels[i].visitor_threshold <= visitors {
                factor = self.levels[i].difficulty_factor;
            }
            proof {
                assert(self@.subrange(0, i + 1).last() == self@[i as int]);
                assert(self@.subrange(0, i + 1).drop_last() =~= self@.subrange(0, i as int));
            }
            i += 1;
        }
        proof {
            assert(self@.subrange(0, self@.len() as int) =~= self@);
        }
        factor
    }
}

} // verus!
