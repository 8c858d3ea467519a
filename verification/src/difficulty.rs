//! How far the engine looks ahead at each level of difficulty.

use crate::search::UNBOUNDED;
use vstd::prelude::*;

verus! {

/// How strong an opponent the engine is asked to be.
#[derive(Clone, Copy, Debug, PartialEq, Eq, Structural)]
pub enum Difficulty {
    Easy,
    Medium,
    Hard,
}

/// `rand::rngs::ThreadRng`, the handle to the calling thread's generator.
/// Nothing is known of what is inside.
#[verifier::external_type_specification]
#[verifier::external_body]
pub struct ExThreadRng(rand::rngs::ThreadRng);

/// `rand::thread_rng` hands out the calling thread's generator, seeded by
/// the system on first use. Nothing is claimed of the generator.
pub assume_specification[ rand::thread_rng ]() -> (rng: rand::rngs::ThreadRng)
;

/// `rand::Rng::gen_range` on an inclusive range of `i32`: the number drawn
/// lies between the two ends, both included. Which one it is, is not said.
/// An empty range makes `gen_range` panic and is ruled out.
#[verifier::external_body]
fn gen_range_inclusive(rng: &mut rand::rngs::ThreadRng, low: i32, high: i32) -> (drawn: i32)
    requires
        low <= high,
    ensures
        low <= drawn <= high,
{
    rand::Rng::gen_range(rng, low..=high)
}

/// The difficulty behind a menu entry: 1, 2 and 3 stand for easy, medium and
/// hard, and no other number stands for anything.
pub fn difficulty_for_choice(choice: u8) -> (difficulty: Option<Difficulty>)
    ensures
        difficulty == match choice {
            1 => Some(Difficulty::Easy),
            2 => Some(Difficulty::Medium),
            3 => Some(Difficulty::Hard),
            _ => None,
        },
{
    match choice {
        1 => Some(Difficulty::Easy),
        2 => Some(Difficulty::Medium),
        3 => Some(Difficulty::Hard),
        _ => None,
    }
}

/// The search horizon for a level of difficulty: none at all for easy, six or
/// seven plies, drawn at random, for medium, and no bound for hard.
pub fn max_depth_for(difficulty: Difficulty) -> (max_depth: i32)
    ensures
        difficulty == Difficulty::Easy ==> max_depth == 0,
        difficulty == Difficulty::Medium ==> 6 <= max_depth <= 7,
        difficulty == Difficulty::Hard ==> max_depth == UNBOUNDED,
{
    match difficulty {
        Difficulty::Easy => 0,
        Difficulty::Medium => {
            let mut rng = rand::thread_rng();
            gen_range_inclusive(&mut rng, 6, 7)
        },
        Difficulty::Hard => UNBOUNDED,
    }
}

} // verus!
