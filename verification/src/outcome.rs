//! Reading a play result: where the first explosion in it lies.

use vstd::prelude::*;
use crate::minesweeper::{lemma_outcomes_upto, outcomes, Coordinate, Outcome, PlayResult};

verus! {

impl Outcome {
    /// The first explosion of the tree, reading it from the top and every
    /// cascade from left to right, each part to its end before the next.
    pub open spec fn first_explosion(self) -> Option<Coordinate>
        decreases self, 0nat,
    {
        match self {
            Outcome::Explosion(c) => Some(c),
            Outcome::Cascade(parts) => Outcome::first_explosion_from(parts, 0),
            _ => None,
        }
    }

    /// The first explosion in the parts from index `from` on.
    pub open spec fn first_explosion_from(parts: Seq<Outcome>, from: nat) -> Option<Coordinate>
        decreases parts, parts.len() - from,
    {
        if from >= parts.len() {
            None
        } else {
            match parts[from as int].first_explosion() {
                Some(c) => Some(c),
                None => Outcome::first_explosion_from(parts, from + 1),
            }
        }
    }

    /// Whether a mine went off anywhere in the tree.
    pub open spec fn explodes(self) -> bool {
        self.first_explosion() is Some
    }

    /// Parts of which none explodes hold no explosion.
    pub proof fn lemma_no_explosion(parts: Seq<Outcome>, from: nat)
        requires
            forall|i: int| from <= i < parts.len() ==> !(#[trigger] parts[i]).explodes(),
        ensures
            Outcome::first_explosion_from(parts, from) is None,
        decreases parts.len() - from,
    {
        if from < parts.len() {
            assert(!parts[from as int].explodes());
            Outcome::lemma_no_explosion(parts, from + 1);
        }
    }
}

/// The first explosion among the results `play_result[from..]`, each searched
/// to its end before the next.
pub fn first_losing_square_of_vec(play_result: &Vec<PlayResult>, from: usize) -> (r: Option<
    Coordinate,
>)
    ensures
        r == Outcome::first_explosion_from(outcomes(play_result@), from as nat),
    decreases play_result, play_result@.len() - from,
{
    if from >= play_result.len() {
        return None;
    }
    match first_losing_square(&play_result[from]) {
        Some(c) => Some(c),
        None => first_losing_square_of_vec(play_result, from + 1),
    }
}

/// The square of the first explosion in a play result, if a mine went off:
/// the result itself, or the first one found in its cascades, searched depth
/// first.
pub fn first_losing_square(play_result: &PlayResult) -> (r: Option<Coordinate>)
    ensures
        r == play_result@.first_explosion(),
    decreases play_result, 0nat,
{
    match play_result {
        PlayResult::Explosion(c) => Some(*c),
        PlayResult::CascadedReveal(v) => {
            proof {
                lemma_outcomes_upto(v@, v@.len());
                assert(play_result@->Cascade_0 =~= outcomes(v@));
            }
            first_losing_square_of_vec(v, 0)
        },
        _ => None,
    }
}

} // verus!
