//! Random choices, drawn from the thread-local generator of the `rand` crate.

use vstd::prelude::*;
use crate::geometry::{Heading, Turn};

verus! {

/// The thread-local generator of the `rand` crate. Nothing is known of its state.
#[verifier::external_type_specification]
#[verifier::external_body]
pub struct ExThreadRng(rand::rngs::ThreadRng);

/// Number of compass headings.
pub const HEADINGS: u32 = 8;

/// Number of turns.
pub const TURNS: u32 = 3;

/// Calls `rand::Rng::gen_range` on the half-open range from zero to `bound`.
/// The range must not be empty, or the call panics. The contract claims only
/// that the number drawn lies in the range; which number it is depends on
/// the generator.
#[verifier::external_body]
fn random_below(rng: &mut rand::rngs::ThreadRng, bound: u32) -> (n: u32)
    requires
        bound > 0,
    ensures
        n < bound,
{
    rand::Rng::gen_range(rng, 0..bound)
}

/// Draws a number below `bound`, or nothing if no such number exists.
pub fn draw_below(rng: &mut rand::rngs::ThreadRng, bound: u32) -> (drawn: Option<u32>)
    ensures
        drawn is None <==> bound == 0,
        drawn matches Some(n) ==> n < bound,
{
    if bound == 0 {
        None
    } else {
        Some(random_below(rng, bound))
    }
}

/// Draws one of the eight headings: a number below `HEADINGS` is drawn and
/// `Heading::from_index` names the heading at that compass position. Every
/// heading stands at such a position, so every heading can come back, and
/// which one does depends on the generator alone.
pub fn draw_heading(rng: &mut rand::rngs::ThreadRng) -> (heading: Heading) {
    Heading::from_index(random_below(rng, HEADINGS))
}

/// Draws one of the three turns: a number below `TURNS` is drawn and
/// `Turn::from_number` names the turn with that number. Every turn has
/// such a number, so every turn can come back, and which one does depends
/// on the generator alone.
pub fn draw_turn(rng: &mut rand::rngs::ThreadRng) -> (turn: Turn) {
    Turn::from_number(random_below(rng, TURNS))
}

/// Draws `count` turns, one perturbation for each agent of a frame.
pub fn draw_jitter(rng: &mut rand::rngs::ThreadRng, count: usize) -> (jitter: Vec<Turn>)
    ensures
        jitter.len() == count,
{
    let mut jitter: Vec<Turn> = Vec::with_capacity(count);
    let mut i: usize = 0;
    while i < count
        invariant
            i <= count,
            jitter.len() == i,
        decreases count - i,
    {
        jitter.push(draw_turn(rng));
        i = i + 1;
    }
    jitter
}

} // verus!
