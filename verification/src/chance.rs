//! Random draws.

use crate::event::EventChoice;
use rand::distr::weighted::Error as WeightError;
use rand::rngs::StdRng;
use rand::seq::IndexedRandom;
use vstd::prelude::*;

verus! {

/// The generator that every draw takes its randomness from.
#[verifier::external_type_specification]
#[verifier::external_body]
pub struct ExStdRng(StdRng);

/// Why a weighted draw was refused.
#[derive(Clone, Copy, Debug, PartialEq, Eq, Structural)]
pub enum DrawError {
    /// There is nothing to draw from.
    InvalidInput,
    /// A weight is negative.
    InvalidWeight,
    /// Every weight is zero.
    InsufficientNonZero,
    /// The sum of the weights is out of range.
    Overflow,
}

/// The sum of the weights of the first `n` outcomes.
pub open spec fn weight_sum(outcomes: Seq<EventChoice>, n: int) -> int
    decreases n,
{
    if n <= 0 {
        0
    } else {
        weight_sum(outcomes, n - 1) + outcomes[n - 1].prob
    }
}

/// Weights that a draw can be made by: none negative, not all zero, and a sum in range.
pub open spec fn weights_valid(outcomes: Seq<EventChoice>) -> bool {
    &&& forall|i: int| 0 <= i < outcomes.len() ==> (#[trigger] outcomes[i]).prob >= 0
    &&& 0 < weight_sum(outcomes, outcomes.len() as int) <= i32::MAX
}

/// What is wrong with the weights of the first `n` outcomes, by the first of them that is
/// negative or takes the sum out of range.
pub open spec fn bad_weight(outcomes: Seq<EventChoice>, n: int) -> Option<DrawError>
    decreases n,
{
    if n <= 0 {
        None
    } else if bad_weight(outcomes, n - 1) is Some {
        bad_weight(outcomes, n - 1)
    } else if outcomes[n - 1].prob < 0 {
        Some(DrawError::InvalidWeight)
    } else if weight_sum(outcomes, n) > i32::MAX {
        Some(DrawError::Overflow)
    } else {
        None
    }
}

/// Why a draw by these weights is refused, if it is.
pub open spec fn refusal(outcomes: Seq<EventChoice>) -> Option<DrawError> {
    let n = outcomes.len() as int;
    if n == 0 {
        Some(DrawError::InvalidInput)
    } else if bad_weight(outcomes, n) is Some {
        bad_weight(outcomes, n)
    } else if weight_sum(outcomes, n) == 0 {
        Some(DrawError::InsufficientNonZero)
    } else {
        None
    }
}

/// The outcome is in the list, with a weight above zero.
pub open spec fn drawn_from(outcomes: Seq<EventChoice>, outcome: EventChoice) -> bool {
    outcomes.contains(outcome) && outcome.prob > 0
}

/// Whether a choice with these outcomes comes to any: a single outcome always comes, and
/// one of several is drawn where their weights are valid.
pub open spec fn has_outcome(outcomes: Seq<EventChoice>) -> bool {
    outcomes.len() == 1 || (outcomes.len() >= 2 && weights_valid(outcomes))
}

/// Whether a choice with these outcomes can come to this one.
pub open spec fn can_come(outcomes: Seq<EventChoice>, outcome: EventChoice) -> bool {
    if outcomes.len() == 1 {
        outcome == outcomes[0]
    } else {
        has_outcome(outcomes) && drawn_from(outcomes, outcome)
    }
}

/// `rand::seq::IndexedRandom::choose` on a slice: `None` on an empty slice, and the generator
/// is then left alone; else one of its elements. Which one rests on the generator.
#[verifier::external_body]
pub(crate) fn draw(items: &[usize], rng: &mut StdRng) -> (item: Option<usize>)
    ensures
        item is None <==> items@.len() == 0,
        item matches Some(x) ==> items@.contains(x),
        item is None ==> *final(rng) == *old(rng),
{
    items.choose(rng).copied()
}

/// `rand::seq::IndexedRandom::choose_weighted` on a slice, by the field `prob`: refused
/// unless the weights are valid, before the generator is used, and with the error of the
/// first weight that is not; else an element whose weight is above zero. Which one rests on
/// the generator.
#[verifier::external_body]
pub(crate) fn draw_weighted(outcomes: &[EventChoice], rng: &mut StdRng) -> (outcome: Result<
    EventChoice,
    DrawError,
>)
    ensures
        outcome is Ok <==> weights_valid(outcomes@),
        outcome matches Ok(c) ==> drawn_from(outcomes@, c),
        outcome matches Err(e) ==> refusal(outcomes@) == Some(e),
        outcome is Err ==> *final(rng) == *old(rng),
{
    outcomes.choose_weighted(rng, |c| c.prob).copied().map_err(|error| match error {
        WeightError::InvalidWeight => DrawError::InvalidWeight,
        WeightError::InsufficientNonZero => DrawError::InsufficientNonZero,
        WeightError::Overflow => DrawError::Overflow,
        _ => DrawError::InvalidInput,
    })
}

/// Makes a draw. What comes back is what the call of `made_by` gave, on these items and with
/// the generator as it stood, and the generator is left as that call left it.
fn call_of<T, R, F: Fn(&[T], &mut StdRng) -> R>(made_by: F, items: &[T], rng: &mut StdRng) -> (result:
    R)
    requires
        forall|g: &mut StdRng| #[trigger] call_requires(made_by, (items, g)),
    ensures
        exists|g: &mut StdRng| #[trigger]
            call_ensures(made_by, (items, g), result) && *g == *old(rng)
                && *final(g) == *final(rng),
{
    made_by(items, rng)
}

/// Whether this is what a draw from these items, all equally likely, gives with the generator
/// that it is handed.
pub closed spec fn draw_gives(items: Seq<usize>, g: &mut StdRng, item: Option<usize>) -> bool {
    exists|list: &[usize]| list@ == items && #[trigger] call_ensures(draw, (list, g), item)
}

/// Whether this is what a draw by weight from these outcomes gives with the generator that it
/// is handed.
pub closed spec fn weighted_draw_gives(
    outcomes: Seq<EventChoice>,
    g: &mut StdRng,
    outcome: Result<EventChoice, DrawError>,
) -> bool {
    exists|list: &[EventChoice]|
        list@ == outcomes && #[trigger] call_ensures(draw_weighted, (list, g), outcome)
}

/// What a draw gives is an item of the list, or `None` where there is none; and it comes from
/// a call of the generator's draw on that very list.
pub(crate) proof fn law_draws_come_from_the_generator(
    items: Seq<usize>,
    g: &mut StdRng,
    item: Option<usize>,
)
    requires
        draw_gives(items, g, item),
    ensures
        exists|list: &[usize]| list@ == items && #[trigger] call_ensures(draw, (list, old(g)), item),
        item is None <==> items.len() == 0,
        item matches Some(x) ==> items.contains(x),
{
}

/// What a draw by weight gives is an outcome of the list with a weight above zero, or an
/// error; and it comes from a call of the generator's weighted draw on that very list.
pub(crate) proof fn law_weighted_draws_come_from_the_generator(
    outcomes: Seq<EventChoice>,
    g: &mut StdRng,
    outcome: Result<EventChoice, DrawError>,
)
    requires
        weighted_draw_gives(outcomes, g, outcome),
    ensures
        exists|list: &[EventChoice]|
            list@ == outcomes && #[trigger] call_ensures(draw_weighted, (list, old(g)), outcome),
        outcome matches Ok(c) ==> outcomes.contains(c) && c.prob > 0,
{
}

/// Draws an item, all equally likely.
pub(crate) fn pick(items: &[usize], rng: &mut StdRng) -> (item: Option<usize>)
    ensures
        item is None <==> items@.len() == 0,
        item matches Some(x) ==> items@.contains(x),
        item is None ==> *final(rng) == *old(rng),
        exists|g: &mut StdRng| #[trigger]
            draw_gives(items@, g, item) && *g == *old(rng) && *final(g) == *final(rng),
{
    let item: Option<usize> = call_of(draw, items, rng);
    assert(forall|g: &mut StdRng| #[trigger]
        call_ensures(draw, (items, g), item) ==> draw_gives(items@, g, item));
    item
}

/// Draws an outcome by weight.
pub(crate) fn pick_weighted(outcomes: &[EventChoice], rng: &mut StdRng) -> (outcome: Result<
    EventChoice,
    DrawError,
>)
    ensures
        outcome is Ok <==> weights_valid(outcomes@),
        outcome matches Ok(c) ==> drawn_from(outcomes@, c),
        outcome matches Err(e) ==> refusal(outcomes@) == Some(e),
        outcome is Err ==> *final(rng) == *old(rng),
        exists|g: &mut StdRng| #[trigger]
            weighted_draw_gives(outcomes@, g, outcome) && *g == *old(rng)
                && *final(g) == *final(rng),
{
    let outcome: Result<EventChoice, DrawError> = call_of(draw_weighted, outcomes, rng);
    assert(forall|g: &mut StdRng| #[trigger]
        call_ensures(draw_weighted, (outcomes, g), outcome) ==> weighted_draw_gives(
            outcomes@,
            g,
            outcome,
        ));
    outcome
}

} // verus!
