//! What holds across the rules of a career.

pub mod arguments;
pub mod career;
pub mod events;
pub mod program;
pub mod races;
pub mod words;

use crate::args::{
    all_understood, argument_tokens, ends_options, is_long, lexed, tokens_of, understood, Args,
    TokenView,
};
use crate::card::{InheritGain, InheritInfo, SupportCard, CARD_TYPES};
use crate::chance::{
    bad_weight, can_come, has_outcome, refusal, weight_sum, weights_valid,
};
use crate::counts::{no_counts, times_in, with_one_more};
use crate::data::GameData;
use crate::event::{EventChoice, EventView, Gain, TriggerType};
use crate::game::happening::{
    boosted, can_happen, raised, stage_open, stage_times, CARD_EVENT_ID, CARD_STAGES, CARD_STORIES,
};
use crate::game::rules::{
    free_races_met, race_check_due, train_level, FINALS_TURN, MAX_TRAIN_LEVEL,
};
use crate::game::setup::{bonus_sum, race_bonus_sum, type_count, DECK_SIZE};
use crate::game::BaseGame;
use crate::session::{
    launch_steps, prepared, response_steps, OccasionView, Scenario, StepView,
};
use vstd::prelude::*;

verus! {

/// Without bonuses, a friend event brings just what it says.
pub proof fn law_no_bonus_changes_nothing(gain: Gain)
    ensures
        boosted(gain, 0, 0) == gain,
{
    assert forall|x: int| #[trigger] raised(x, 0) == x by {
        assert(x * 100 / 100 == x);
    }
    assert(boosted(gain, 0, 0) =~= gain);
}

/// Whatever the bonuses, they touch attributes, skill points and restored energy alone:
/// energy that is spent stays as it is, and so do the maximum of energy, motivation, hints
/// and friendship.
pub proof fn law_bonus_touches_no_other_gain(gain: Gain, event_bonus: int, vital_bonus: int)
    ensures
        ({
            let after = boosted(gain, event_bonus, vital_bonus);
            &&& gain.vital <= 0 ==> after.vital == gain.vital
            &&& after.max_vital == gain.max_vital
            &&& after.motivation == gain.motivation
            &&& after.hint_level == gain.hint_level
            &&& after.friendship == gain.friendship
        }),
{
}

/// The event bonus has no say in energy, and the energy bonus none in attributes and skill
/// points.
pub proof fn law_bonuses_are_independent(
    gain: Gain,
    event_bonus: int,
    other_event_bonus: int,
    vital_bonus: int,
    other_vital_bonus: int,
)
    ensures
        boosted(gain, event_bonus, vital_bonus).vital == boosted(
            gain,
            other_event_bonus,
            vital_bonus,
        ).vital,
        boosted(gain, event_bonus, vital_bonus).status_pt == boosted(
            gain,
            event_bonus,
            other_vital_bonus,
        ).status_pt,
{
}

/// A bonus never lowers a gain, and an attribute that gains nothing still gains nothing.
pub proof fn law_bonus_never_lowers_a_gain(x: int, bonus: int)
    requires
        x >= 0,
        bonus >= 0,
    ensures
        raised(x, bonus) >= x,
        raised(0, bonus) == 0,
{
    assert(x * (100 + bonus) >= x * 100) by (nonlinear_arith)
        requires
            x >= 0,
            bonus >= 0,
    ;
    assert(0 * (100 + bonus) == 0) by (nonlinear_arith);
}

/// An event that is not one with the friend, or a friend without bonuses, leaves the gain of
/// an outcome as it stands.
pub proof fn law_plain_events_bring_what_they_say(game: BaseGame, event_id: u32, gain: Gain)
    requires
        !game.friend_event_ids@.contains(event_id) || (game.friend.event_bonus == 0
            && game.friend.vital_bonus == 0),
    ensures
        game.real_gain(event_id, gain) == gain,
{
    law_no_bonus_changes_nothing(gain);
}

/// Counting a trigger raises the count of that event by one and no other.
pub proof fn law_a_trigger_counts_once(counts: Map<u32, u32>, id: u32, other: u32)
    requires
        times_in(counts, id) < u32::MAX,
    ensures
        times_in(with_one_more(counts, id), id) == times_in(counts, id) + 1,
        other != id ==> times_in(with_one_more(counts, id), other) == times_in(counts, other),
{
}

/// A random event with a limit never happens more often than that: where it can happen, one
/// more time stays within the limit, and where the limit is reached, it cannot happen.
pub proof fn law_limited_events_stay_within_their_limit(counts: Map<u32, u32>, event: EventView)
    requires
        event.trigger matches TriggerType::Random { max_time } && max_time > 0,
    ensures
        event.trigger matches TriggerType::Random { max_time } && {
            &&& can_happen(counts, event) ==> times_in(with_one_more(counts, event.id), event.id)
                <= max_time
            &&& times_in(counts, event.id) >= max_time ==> !can_happen(counts, event)
        },
{
}

/// The stages of the support cards' stories are in step: the first has not happened more
/// often than it may, and no later stage more often than the one before.
pub open spec fn stories_in_step(counts: Map<u32, u32>) -> bool {
    &&& stage_times(counts, 0) <= CARD_STORIES
    &&& forall|stage: int|
        1 <= stage < CARD_STAGES ==> #[trigger] stage_times(counts, stage) <= stage_times(
            counts,
            stage - 1,
        )
}

/// The stories are in step at the start, and stay so through every event: one of their
/// stages that can happen next, or any other.
pub proof fn law_stories_stay_in_step(counts: Map<u32, u32>, id: u32)
    requires
        stories_in_step(counts),
        times_in(counts, id) < u32::MAX,
        CARD_EVENT_ID <= id < CARD_EVENT_ID + CARD_STAGES ==> stage_open(
            counts,
            id - CARD_EVENT_ID,
        ),
    ensures
        stories_in_step(no_counts()),
        stories_in_step(with_one_more(counts, id)),
{
    let after = with_one_more(counts, id);
    assert forall|stage: int| 1 <= stage < CARD_STAGES implies #[trigger] stage_times(after, stage)
        <= stage_times(after, stage - 1) by {
        assert(stage_times(counts, stage) <= stage_times(counts, stage - 1));
    }
}

/// While the stories are in step, none of their stages can happen just where all of them
/// have happened as often as the first may.
pub proof fn law_stories_end_together(counts: Map<u32, u32>)
    requires
        stories_in_step(counts),
    ensures
        (forall|stage: int| 0 <= stage < CARD_STAGES ==> !#[trigger] stage_open(counts, stage))
            <==> (forall|stage: int|
            0 <= stage < CARD_STAGES ==> #[trigger] stage_times(counts, stage) == CARD_STORIES),
{
    assert(stage_times(counts, 1) <= stage_times(counts, 0));
    assert(stage_times(counts, 2) <= stage_times(counts, 1));
    if forall|stage: int| 0 <= stage < CARD_STAGES ==> !#[trigger] stage_open(counts, stage) {
        assert(!stage_open(counts, 0));
        assert(!stage_open(counts, 1));
        assert(!stage_open(counts, 2));
    }
    if forall|stage: int|
        0 <= stage < CARD_STAGES ==> #[trigger] stage_times(counts, stage) == CARD_STORIES {
        assert(stage_times(counts, 0) == CARD_STORIES);
        assert(stage_times(counts, 1) == CARD_STORIES);
        assert(stage_times(counts, 2) == CARD_STORIES);
    }
}

/// How often any stage of the support cards' stories has happened.
pub open spec fn stages_told(counts: Map<u32, u32>) -> int {
    stage_times(counts, 0) + stage_times(counts, 1) + stage_times(counts, 2)
}

/// Every stage that happens brings the stories one step nearer to their end: they are told in
/// fifteen steps, and just then no stage can happen any more.
pub proof fn law_stories_end_after_fifteen_steps(counts: Map<u32, u32>, stage: int)
    requires
        stories_in_step(counts),
        0 <= stage < CARD_STAGES,
    ensures
        stages_told(no_counts()) == 0,
        stages_told(counts) <= CARD_STAGES * CARD_STORIES,
        stage_open(counts, stage) ==> stages_told(
            with_one_more(counts, (CARD_EVENT_ID + stage) as u32),
        ) == stages_told(counts) + 1,
        stages_told(counts) == CARD_STAGES * CARD_STORIES <==> (forall|other: int|
            0 <= other < CARD_STAGES ==> !#[trigger] stage_open(counts, other)),
{
    law_stories_end_together(counts);
    assert(stage_times(counts, 1) <= stage_times(counts, 0));
    assert(stage_times(counts, 2) <= stage_times(counts, 1));
    if stages_told(counts) == CARD_STAGES * CARD_STORIES {
        assert forall|other: int| 0 <= other < CARD_STAGES implies #[trigger] stage_times(
            counts,
            other,
        ) == CARD_STORIES by {
        }
    } else {
        assert(stage_times(counts, 0) < CARD_STORIES || stage_times(counts, 1) < CARD_STORIES
            || stage_times(counts, 2) < CARD_STORIES);
    }
}

proof fn lemma_positive_weight_exists(outcomes: Seq<EventChoice>, n: int) -> (i: int)
    requires
        0 <= n <= outcomes.len(),
        weight_sum(outcomes, n) > 0,
    ensures
        0 <= i < n,
        outcomes[i].prob > 0,
    decreases n,
{
    if outcomes[n - 1].prob > 0 {
        n - 1
    } else {
        lemma_positive_weight_exists(outcomes, n - 1)
    }
}

/// Valid weights have no bad one among them, and a list without a bad one has a sum in range.
proof fn lemma_bad_weights(outcomes: Seq<EventChoice>, n: int)
    requires
        0 <= n <= outcomes.len(),
    ensures
        bad_weight(outcomes, n) is None <==> 0 <= weight_sum(outcomes, n) <= i32::MAX && forall|
            i: int,
        |
            0 <= i < n ==> (#[trigger] outcomes[i]).prob >= 0,
        (forall|i: int| 0 <= i < n ==> (#[trigger] outcomes[i]).prob >= 0) ==> weight_sum(
            outcomes,
            n,
        ) >= 0,
    decreases n,
{
    if n > 0 {
        lemma_bad_weights(outcomes, n - 1);
    }
}

/// A draw by weight is refused, with an error, just where the weights are not valid.
pub proof fn law_invalid_weights_are_refused(outcomes: Seq<EventChoice>)
    ensures
        refusal(outcomes) is None <==> weights_valid(outcomes),
{
    lemma_bad_weights(outcomes, outcomes.len() as int);
}

/// A choice comes to an outcome just where there is one that it can come to.
pub proof fn law_outcomes_can_come(outcomes: Seq<EventChoice>)
    ensures
        has_outcome(outcomes) <==> exists|o: EventChoice| can_come(outcomes, o),
{
    if has_outcome(outcomes) {
        if outcomes.len() == 1 {
            assert(can_come(outcomes, outcomes[0]));
        } else {
            assert(weights_valid(outcomes));
            let i = lemma_positive_weight_exists(outcomes, outcomes.len() as int);
            assert(outcomes.contains(outcomes[i]));
            assert(can_come(outcomes, outcomes[i]));
        }
    }
}

/// In the finals there are neither races of the player's own choice nor outings.
pub proof fn law_nothing_is_optional_in_the_finals(game: BaseGame)
    requires
        game.turn >= FINALS_TURN,
    ensures
        !game.spec_can_self_race(),
        !game.spec_can_friend_outing(),
{
}

/// The summer camp falls into turns that are open for races.
pub proof fn law_camp_turns_are_open_for_races(game: BaseGame)
    requires
        game.spec_is_xiahesu(),
    ensures
        game.spec_can_self_race(),
{
}

/// A facility starts at level one, never passes level five, does not sink as its count
/// grows, and gains one level for every four counts until then.
pub proof fn law_train_levels(count: int, more: int)
    requires
        0 <= count <= more,
    ensures
        train_level(0) == 1,
        1 <= train_level(count) <= MAX_TRAIN_LEVEL,
        train_level(count) <= train_level(more),
        train_level(count) < MAX_TRAIN_LEVEL ==> train_level(count + 4) == train_level(count) + 1,
{
}

/// A career that is checked goes by its races alone.
pub proof fn law_a_checked_career_goes_by_its_races(game: BaseGame, data: GameData)
    requires
        !game.skip_free_race_check,
        data.umas@.contains_key(game.uma.uma_id),
    ensures
        game.free_race_passed(data) <==> free_races_met(
            game.turn,
            game.uma,
            data.umas@[game.uma.uma_id].free_races@,
        ),
{
}

/// Races are checked only in the turn after a stretch: in any other turn a career passes.
pub proof fn law_races_are_checked_only_after_a_stretch(game: BaseGame, data: GameData)
    requires
        data.umas@.contains_key(game.uma.uma_id) ==> forall|i: int|
            0 <= i < data.umas@[game.uma.uma_id].free_races@.len() ==> !race_check_due(
                game.turn,
                #[trigger] data.umas@[game.uma.uma_id].free_races@[i],
            ),
    ensures
        game.free_race_passed(data),
{
}

/// Of two careers with the same trainee in the same turn, whatever else they hold, both pass
/// the check or none where it is on for both or off for both; and switching it off can turn a
/// failure into a pass, never the reverse.
pub proof fn law_skipping_only_turns_failures_into_passes(
    game: BaseGame,
    other: BaseGame,
    data: GameData,
)
    requires
        game.uma == other.uma,
        game.turn == other.turn,
    ensures
        game.skip_free_race_check == other.skip_free_race_check ==> game.free_race_passed(data)
            == other.free_race_passed(data),
        other.skip_free_race_check && game.free_race_passed(data) ==> other.free_race_passed(data),
{
}

/// A new career is checked strictly, starts with its stories in step, and its deck is the one
/// that was asked for.
pub proof fn law_a_new_career(
    game: BaseGame,
    data: GameData,
    uma_id: u32,
    deck_ids: Seq<u32>,
    inherit: InheritInfo,
    gain: InheritGain,
    limit_base: Seq<i32>,
)
    requires
        deck_ids.len() == DECK_SIZE,
        game.is_set_up(data, uma_id, deck_ids, inherit, gain, limit_base),
    ensures
        !game.skip_free_race_check,
        stories_in_step(game.events@),
        game.deck@.len() == DECK_SIZE,
        forall|i: int| 0 <= i < DECK_SIZE ==> (#[trigger] game.deck@[i]).card_id == deck_ids[i],
{
}

/// The limits of a new career are those of the scenario plus what was inherited, with nothing
/// cut off: whatever is inherited shows in full.
pub proof fn law_inherited_limits_show_in_full(
    game: BaseGame,
    data: GameData,
    uma_id: u32,
    deck_ids: Seq<u32>,
    inherit: InheritInfo,
    gain: InheritGain,
    limit_base: Seq<i32>,
    k: int,
)
    requires
        0 <= k < 5,
        game.is_set_up(data, uma_id, deck_ids, inherit, gain, limit_base),
    ensures
        game.uma.five_status_limit@[k] - limit_base[k] == gain.limit@[k],
        gain.limit@[k] > 0 ==> game.uma.five_status_limit@[k] > limit_base[k],
{
}

/// Two new careers of one trainee with one deck are at the same turn of one career, whatever
/// was inherited; with another deck they are not.
pub proof fn law_new_careers_follow_by_their_decks(
    game: BaseGame,
    other: BaseGame,
    data: GameData,
    uma_id: u32,
    deck_ids: Seq<u32>,
    other_ids: Seq<u32>,
    inherit: InheritInfo,
    gain: InheritGain,
    other_inherit: InheritInfo,
    other_gain: InheritGain,
    limit_base: Seq<i32>,
)
    requires
        deck_ids.len() == DECK_SIZE,
        other_ids.len() == DECK_SIZE,
        game.is_set_up(data, uma_id, deck_ids, inherit, gain, limit_base),
        other.is_set_up(data, uma_id, other_ids, other_inherit, other_gain, limit_base),
    ensures
        game.follows(other) <==> deck_ids == other_ids,
{
    if game.follows(other) {
        assert forall|i: int| 0 <= i < DECK_SIZE implies deck_ids[i] == other_ids[i] by {
            assert(game.deck@[i].card_id == other.deck@[i].card_id);
        }
        assert(deck_ids =~= other_ids);
    }
}

/// Every turn of a career is next to itself, whatever else it holds.
pub proof fn law_a_turn_follows_itself(game: BaseGame)
    ensures
        game.follows(game),
{
}

/// Of two turns that follow each other both ways, neither is the later one.
pub proof fn law_turns_follow_one_way(game: BaseGame, last: BaseGame)
    requires
        game.follows(last),
        last.follows(game),
    ensures
        game.turn == last.turn,
{
}

/// Following turns belong to one trainee with one deck, and no turn is left out between them.
pub proof fn law_following_turns_are_of_one_career(game: BaseGame, last: BaseGame)
    requires
        game.follows(last),
    ensures
        game.uma.uma_id == last.uma.uma_id,
        last.turn <= game.turn <= last.turn + 1,
        forall|i: int|
            0 <= i < DECK_SIZE ==> (#[trigger] game.deck@[i]).card_id == last.deck@[i].card_id,
{
}

/// How many of the first `n` cards are of a type below `types`.
pub open spec fn counted_cards(cards: Seq<SupportCard>, n: int, types: int) -> int
    decreases types,
{
    if types <= 0 {
        0
    } else {
        counted_cards(cards, n, types - 1) + type_count(cards, n, types - 1)
    }
}

proof fn lemma_counted_cards(cards: Seq<SupportCard>, n: int, types: int)
    requires
        0 <= types,
        0 < n,
    ensures
        counted_cards(cards, n, types) == counted_cards(cards, n - 1, types) + if cards[n
            - 1].card_type < types {
            1int
        } else {
            0
        },
    decreases types,
{
    if types > 0 {
        lemma_counted_cards(cards, n, types - 1);
    }
}

proof fn lemma_no_counted_cards(cards: Seq<SupportCard>, types: int)
    ensures
        counted_cards(cards, 0, types) == 0,
    decreases types,
{
    if types > 0 {
        lemma_no_counted_cards(cards, types - 1);
    }
}

/// The counts by type add up to the whole deck where every card is of a counted type.
pub proof fn law_type_counts_add_up(cards: Seq<SupportCard>, n: int)
    requires
        0 <= n <= cards.len(),
        forall|i: int| 0 <= i < n ==> (#[trigger] cards[i]).card_type < CARD_TYPES,
    ensures
        counted_cards(cards, n, CARD_TYPES as int) == n,
    decreases n,
{
    if n > 0 {
        law_type_counts_add_up(cards, n - 1);
        lemma_counted_cards(cards, n, CARD_TYPES as int);
    } else {
        lemma_no_counted_cards(cards, CARD_TYPES as int);
    }
}

/// The sum of what the first `n` cards weigh.
pub open spec fn total(cards: Seq<SupportCard>, weight: spec_fn(SupportCard) -> int, n: int) -> int
    decreases n,
{
    if n <= 0 {
        0
    } else {
        total(cards, weight, n - 1) + weight(cards[n - 1])
    }
}

/// Cards past the first `n` have no say in the sum.
proof fn lemma_total_of_a_part(
    a: Seq<SupportCard>,
    b: Seq<SupportCard>,
    weight: spec_fn(SupportCard) -> int,
    n: int,
)
    requires
        forall|i: int| 0 <= i < n ==> a[i] == b[i],
    ensures
        total(a, weight, n) == total(b, weight, n),
    decreases n,
{
    if n > 0 {
        lemma_total_of_a_part(a, b, weight, n - 1);
    }
}

/// Taking out one card lowers the sum by what it weighs.
proof fn lemma_total_without(
    cards: Seq<SupportCard>,
    weight: spec_fn(SupportCard) -> int,
    i: int,
    n: int,
)
    requires
        0 <= i < n <= cards.len(),
    ensures
        total(cards, weight, n) == total(cards.remove(i), weight, n - 1) + weight(cards[i]),
    decreases n,
{
    if i == n - 1 {
        lemma_total_of_a_part(cards, cards.remove(i), weight, n - 1);
    } else {
        lemma_total_without(cards, weight, i, n - 1);
        assert(cards.remove(i)[n - 2] == cards[n - 1]);
    }
}

/// The sum does not go by the order of the cards.
proof fn lemma_total_ignores_order(
    a: Seq<SupportCard>,
    b: Seq<SupportCard>,
    weight: spec_fn(SupportCard) -> int,
)
    requires
        a.to_multiset() == b.to_multiset(),
    ensures
        total(a, weight, a.len() as int) == total(b, weight, b.len() as int),
    decreases a.len(),
{
    a.to_multiset_ensures();
    b.to_multiset_ensures();
    if a.len() > 0 {
        let card = a.last();
        assert(a.to_multiset().count(card) > 0) by {
            assert(a.contains(card));
        }
        assert(b.contains(card));
        let i = b.index_of(card);
        let shorter = a.remove(a.len() - 1);
        assert(shorter.to_multiset() =~= b.remove(i).to_multiset());
        lemma_total_ignores_order(shorter, b.remove(i), weight);
        lemma_total_without(a, weight, a.len() - 1, a.len() as int);
        lemma_total_without(b, weight, i, b.len() as int);
    }
}

proof fn lemma_sums_are_totals(cards: Seq<SupportCard>, n: int, k: int)
    ensures
        bonus_sum(cards, n, k) == total(cards, |c: SupportCard| c.initial_bonus@[k] as int, n),
        race_bonus_sum(cards, n) == total(cards, |c: SupportCard| c.effect.saihou as int, n),
        type_count(cards, n, k) == total(
            cards,
            |c: SupportCard|
                if c.card_type == k {
                    1int
                } else {
                    0
                },
            n,
        ),
    decreases n,
{
    if n > 0 {
        lemma_sums_are_totals(cards, n - 1, k);
    }
}

/// The order of the deck has no say in what the cards add to attributes, skill points and
/// races, nor in how many there are of each type.
pub proof fn law_the_order_of_the_deck_does_not_matter(
    a: Seq<SupportCard>,
    b: Seq<SupportCard>,
    k: int,
)
    requires
        a.to_multiset() == b.to_multiset(),
    ensures
        bonus_sum(a, a.len() as int, k) == bonus_sum(b, b.len() as int, k),
        race_bonus_sum(a, a.len() as int) == race_bonus_sum(b, b.len() as int),
        type_count(a, a.len() as int, k) == type_count(b, b.len() as int, k),
{
    lemma_sums_are_totals(a, a.len() as int, k);
    lemma_sums_are_totals(b, b.len() as int, k);
    lemma_total_ignores_order(a, b, |c: SupportCard| c.initial_bonus@[k] as int);
    lemma_total_ignores_order(a, b, |c: SupportCard| c.effect.saihou as int);
    lemma_total_ignores_order(
        a,
        b,
        |c: SupportCard|
            if c.card_type == k {
                1int
            } else {
                0
            },
    );
}

/// Whether the step writes words for the player on standard output. An error that ends the
/// program is told in words.
pub open spec fn is_words(step: StepView) -> bool {
    step is PrintHelp || step is PrintAlert || step is PrintLine || step is Fail
}

/// Whether the step writes JSON on standard output.
pub open spec fn is_json(step: StepView) -> bool {
    step is EmitInfo || step is EmitError
}

/// The error that ends the program on this occasion, if it does.
pub open spec fn fatal_error(occasion: OccasionView) -> Option<Seq<char>> {
    match occasion {
        OccasionView::SetupFailed(reason) => Some(reason),
        OccasionView::TurnUnread(reason) => Some(reason),
        OccasionView::DecisionFailed(reason) => Some(reason),
        _ => None,
    }
}

/// As long as no error ends the program, standard output holds JSON and nothing else where
/// that was asked for, and no JSON where it was not.
pub proof fn law_standard_output_is_not_mixed(json: bool, occasion: OccasionView)
    requires
        fatal_error(occasion) is None,
    ensures
        forall|i: int|
            0 <= i < response_steps(json, occasion).len() ==> {
                let step = #[trigger] response_steps(json, occasion)[i];
                if json {
                    !is_words(step)
                } else {
                    !is_json(step)
                }
            },
{
}

/// The program ends without an error just where the watcher cannot be opened, and with an
/// error, at once, just where setting up, reading a turn or picking an action failed. A turn
/// that is not understood does not end it.
pub proof fn law_how_the_program_ends(json: bool, occasion: OccasionView)
    ensures
        response_steps(json, occasion).contains(StepView::Stop) <==> occasion is WatcherFailed,
        match fatal_error(occasion) {
            Some(reason) => response_steps(json, occasion) == seq![StepView::Fail(reason)],
            None => forall|i: int|
                0 <= i < response_steps(json, occasion).len() ==> !(
                (#[trigger] response_steps(json, occasion)[i]) is Fail),
        },
{
    let steps = response_steps(json, occasion);
    if occasion is WatcherFailed {
        assert(steps[steps.len() - 1] == StepView::Stop);
    }
}

/// The steps on one occasion after the other.
pub open spec fn all_responses(json: bool, occasions: Seq<OccasionView>) -> Seq<StepView>
    decreases occasions.len(),
{
    if occasions.len() == 0 {
        Seq::empty()
    } else {
        response_steps(json, occasions[0]) + all_responses(json, occasions.skip(1))
    }
}

/// The occasions of turns that are read but not understood, each for its own reason, until
/// one cannot be read.
pub open spec fn rejected_turns(reasons: Seq<Seq<char>>, error: Seq<char>) -> Seq<OccasionView>
    decreases reasons.len(),
{
    if reasons.len() == 0 {
        seq![OccasionView::TurnUnread(error)]
    } else {
        seq![OccasionView::TurnRead, OccasionView::TurnRejected(reasons[0])] + rejected_turns(
            reasons.skip(1),
            error,
        )
    }
}

/// For each turn that is not understood: the line that it is worked on, the line with the
/// reason, and on to the next; at last the error of the turn that cannot be read.
pub open spec fn rejection_steps(reasons: Seq<Seq<char>>, error: Seq<char>) -> Seq<StepView>
    decreases reasons.len(),
{
    if reasons.len() == 0 {
        seq![StepView::Fail(error)]
    } else {
        seq![
            StepView::EmitInfo("compute_start"@),
            StepView::ParseTurn,
            StepView::EmitError("解析回合信息出错: "@ + reasons[0]),
            StepView::ReadTurn,
        ] + rejection_steps(reasons.skip(1), error)
    }
}

proof fn lemma_rejected_turns(reasons: Seq<Seq<char>>, error: Seq<char>)
    ensures
        all_responses(true, rejected_turns(reasons, error)) == rejection_steps(reasons, error),
    decreases reasons.len(),
{
    reveal_with_fuel(all_responses, 3);
    let occasions = rejected_turns(reasons, error);
    if reasons.len() == 0 {
        assert(occasions.skip(1) =~= Seq::empty());
    } else {
        let rest = rejected_turns(reasons.skip(1), error);
        lemma_rejected_turns(reasons.skip(1), error);
        assert(occasions.skip(1).skip(1) =~= rest);
        assert(occasions.skip(1)[0] == OccasionView::TurnRejected(reasons[0]));
    }
    assert(all_responses(true, occasions) =~= rejection_steps(reasons, error));
}

/// Once the file is watched, and however many turns are not understood, each is reported and
/// the program goes on; it ends with the error of the first turn that cannot be read.
pub proof fn law_rejected_turns_are_reported_until_one_cannot_be_read(
    reasons: Seq<Seq<char>>,
    error: Seq<char>,
)
    ensures
        all_responses(true, seq![OccasionView::WatcherReady] + rejected_turns(reasons, error))
            == seq![StepView::EmitInfo("connected"@), StepView::ReadTurn] + rejection_steps(
            reasons,
            error,
        ),
{
    lemma_rejected_turns(reasons, error);
    let occasions = seq![OccasionView::WatcherReady] + rejected_turns(reasons, error);
    assert(occasions.skip(1) =~= rejected_turns(reasons, error));
}

/// The program goes on to the next turn after every turn, whether it was understood or not.
pub proof fn law_every_turn_leads_to_the_next(json: bool, scenario: Scenario, reason: Seq<char>)
    ensures
        response_steps(json, OccasionView::TurnParsed(scenario)).last() == StepView::ReadTurn,
        response_steps(json, OccasionView::TurnRejected(reason)).last() == StepView::ReadTurn,
{
}

/// Asking for the usage ends the program before anything else is done.
pub proof fn law_help_comes_first(args: Args)
    ensures
        launch_steps(args).contains(StepView::Stop) <==> args.help,
        args.help ==> launch_steps(args) == seq![StepView::PrintHelp, StepView::Stop],
{
    let steps = launch_steps(args);
    if args.help {
        assert(steps[1] == StepView::Stop);
    }
}

/// What is refused in a command line stays refused whatever options stand before it.
proof fn lemma_refused_stays_refused(before: Seq<TokenView>, tokens: Seq<TokenView>)
    requires
        !all_understood(tokens),
    ensures
        !all_understood(before + tokens),
{
    let i = choose|i: int| 0 <= i < tokens.len() && !understood(#[trigger] tokens[i]);
    assert((before + tokens)[before.len() + i] == tokens[i]);
}

proof fn lemma_bad_argument(args: Seq<Seq<char>>, i: int)
    requires
        0 <= i < args.len(),
        forall|j: int| 0 <= j < i ==> !ends_options(#[trigger] args[j]),
        !ends_options(args[i]),
        !all_understood(argument_tokens(args[i])),
    ensures
        !all_understood(lexed(args)),
    decreases args.len(),
{
    if i == 0 {
        let tokens = argument_tokens(args[0]);
        let k = choose|k: int| 0 <= k < tokens.len() && !understood(#[trigger] tokens[k]);
        assert(lexed(args)[k] == tokens[k]);
    } else {
        assert forall|j: int| 0 <= j < i - 1 implies !ends_options(#[trigger] args.skip(1)[j]) by {
            assert(args.skip(1)[j] == args[j + 1]);
        }
        lemma_bad_argument(args.skip(1), i - 1);
        lemma_refused_stays_refused(argument_tokens(args[0]), lexed(args.skip(1)));
    }
}

/// A long option with a value is rejected, `--json=1` like any other, unless it stands after
/// `--`; and so is an argument that is no option.
pub proof fn law_values_are_rejected(args: Seq<Seq<char>>, i: int)
    requires
        1 <= i < args.len(),
        forall|j: int| 1 <= j < i ==> !ends_options(#[trigger] args[j]),
        (is_long(args[i]) && args[i].contains('=')) || args[i].len() < 2 || args[i][0] != '-',
    ensures
        !all_understood(tokens_of(args)),
{
    let rest = args.skip(1);
    assert forall|j: int| 0 <= j < i - 1 implies !ends_options(#[trigger] rest[j]) by {
        assert(rest[j] == args[j + 1]);
    }
    let tokens = argument_tokens(rest[i - 1]);
    assert(!understood(tokens[tokens.len() - 1]));
    lemma_bad_argument(rest, i - 1);
}

/// Whatever stands after `--` is no option, and is rejected.
pub proof fn law_nothing_may_follow_the_end_of_options(args: Seq<Seq<char>>, i: int)
    requires
        1 <= i < args.len() - 1,
        ends_options(args[i]),
    ensures
        !all_understood(tokens_of(args)),
{
    lemma_nothing_may_follow(args.skip(1), i - 1);
}

proof fn lemma_nothing_may_follow(args: Seq<Seq<char>>, i: int)
    requires
        0 <= i < args.len() - 1,
        ends_options(args[i]),
    ensures
        !all_understood(lexed(args)),
    decreases args.len(),
{
    if ends_options(args[0]) {
        assert(lexed(args)[0] == TokenView::Value(args[1]));
        assert(!understood(lexed(args)[0]));
    } else {
        lemma_nothing_may_follow(args.skip(1), i - 1);
        lemma_refused_stays_refused(argument_tokens(args[0]), lexed(args.skip(1)));
    }
}

/// With the setting off, a career that is checked is decided on just as it was read; and in
/// the onsen scenario every career is, whatever the setting.
pub proof fn law_the_setting_is_for_ramen_alone(game: BaseGame, setting: bool)
    ensures
        !game.skip_free_race_check ==> prepared(game, Scenario::Ramen, false) == game,
        prepared(game, Scenario::Onsen, setting) == game,
{
}

/// With the setting on, a ramen career passes the check whatever races it has, and all other
/// rules find it as it was read.
pub proof fn law_the_setting_lets_races_pass(game: BaseGame, data: GameData, id: u32, gain: Gain)
    ensures
        ({
            let lenient = prepared(game, Scenario::Ramen, true);
            &&& lenient.free_race_passed(data)
            &&& lenient.spec_can_self_race() == game.spec_can_self_race()
            &&& lenient.spec_can_friend_outing() == game.spec_can_friend_outing()
            &&& lenient.spec_is_xiahesu() == game.spec_is_xiahesu()
            &&& lenient.real_gain(id, gain) == game.real_gain(id, gain)
            &&& lenient.events == game.events
            &&& lenient.uma == game.uma
        }),
{
}

} // verus!
