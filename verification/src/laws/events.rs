//! What events bring, and how often they come.

use crate::card::FriendState;
use crate::chance::{
    bad_weight, can_come, draw_gives, weight_sum, weighted_draw_gives, weights_valid, DrawError,
};
use crate::counts::EventCounts;
use crate::event::{outcome_lists, ActionValue, EventChoice, EventData, TriggerType};
use crate::game::happening::{
    can_boost, can_happen, card_event, card_event_of, positions, stage_open,
};
use crate::game::BaseGame;
use crate::uma::{in_range, Uma, UmaFlags};
use rand::rngs::StdRng;
use vstd::prelude::*;

verus! {

/// Whether `after` is `before` raised by so many percent and rounded down: the greatest whole
/// number that is not above the exact value.
pub open spec fn is_raised(before: int, percent: int, after: int) -> bool {
    100 * after <= before * (100 + percent) < 100 * after + 100
}

/// Whether the gain is that of the outcome with the bonuses of the friend: every one of the
/// five attributes and the skill points are raised by the event bonus, energy that is
/// restored is raised by the energy bonus, and all else stays.
pub open spec fn has_bonuses(told: ActionValue, friend: FriendState, brought: ActionValue) -> bool {
    &&& forall|i: int|
        0 <= i < 6 ==> is_raised(
            told.status_pt@[i] as int,
            friend.event_bonus as int,
            #[trigger] brought.status_pt@[i] as int,
        )
    &&& told.vital > 0 ==> is_raised(
        told.vital as int,
        friend.vital_bonus as int,
        brought.vital as int,
    )
    &&& told.vital <= 0 ==> brought.vital == told.vital
    &&& brought.max_vital == told.max_vital
    &&& brought.motivation == told.motivation
    &&& brought.hint_level == told.hint_level
    &&& brought.friendship == told.friendship
}

/// Whether both gains are the same in every component.
pub open spec fn is_same_gain(told: ActionValue, brought: ActionValue) -> bool {
    &&& forall|i: int| 0 <= i < 6 ==> #[trigger] brought.status_pt@[i] == told.status_pt@[i]
    &&& brought.vital == told.vital
    &&& brought.max_vital == told.max_vital
    &&& brought.motivation == told.motivation
    &&& brought.hint_level == told.hint_level
    &&& brought.friendship == told.friendship
}

/// Whether the trainee has gained just that: each of the five attributes, skill points,
/// energy, its maximum and motivation differ by their component, and nothing else differs.
pub open spec fn has_gained(before: Uma, gain: ActionValue, after: Uma) -> bool {
    &&& forall|k: int|
        0 <= k < 5 ==> (#[trigger] after.five_status@[k]) - before.five_status@[k]
            == gain.status_pt@[k]
    &&& after.skill_pt - before.skill_pt == gain.status_pt@[5]
    &&& after.vital - before.vital == gain.vital
    &&& after.max_vital - before.max_vital == gain.max_vital
    &&& after.motivation - before.motivation == gain.motivation
    &&& after.uma_id == before.uma_id
    &&& after.five_status_limit == before.five_status_limit
    &&& after.race_bonus == before.race_bonus
    &&& after.flags == before.flags
    &&& after.races == before.races
}

/// Whether the careers differ in nothing but the trainee and the counts of events.
pub open spec fn is_else_untouched(before: BaseGame, after: BaseGame) -> bool {
    &&& after.turn == before.turn
    &&& after.stage == before.stage
    &&& after.deck == before.deck
    &&& after.inherit == before.inherit
    &&& after.friend == before.friend
    &&& after.train_level_count == before.train_level_count
    &&& after.distribution == before.distribution
    &&& after.absent_rate_drop == before.absent_rate_drop
    &&& after.unresolved_events == before.unresolved_events
    &&& after.card_type_count == before.card_type_count
    &&& after.friend_event_ids == before.friend_event_ids
    &&& after.skip_free_race_check == before.skip_free_race_check
}

/// Whether the event was counted once and no other event was: its count is one higher, or one
/// where there was none.
pub open spec fn is_counted_once(before: Map<u32, u32>, id: u32, after: Map<u32, u32>) -> bool {
    &&& after.contains_key(id)
    &&& after[id] == if before.contains_key(id) {
        before[id] + 1
    } else {
        1
    }
    &&& forall|other: u32|
        other != id ==> after.contains_key(other) == #[trigger] before.contains_key(other)
            && (before.contains_key(other) ==> after[other] == before[other])
}

proof fn lemma_raised(before: int, percent: int, after: int)
    requires
        after == before * (100 + percent) / 100,
    ensures
        is_raised(before, percent, after),
{
    let exact = before * (100 + percent);
    assert(100 * (exact / 100) <= exact < 100 * (exact / 100) + 100);
}

/// The bonuses of the friend's card raise a gain and round it down, component by component.
pub proof fn law_bonuses_raise_by_percent(value: &mut ActionValue, friend: &FriendState)
    requires
        call_ensures(BaseGame::apply_friend_bonus, (value, friend), ()),
    ensures
        has_bonuses(*old(value), *friend, *final(value)),
{
    let told = *value;
    let brought = *final(value);
    assert forall|i: int| 0 <= i < 6 implies is_raised(
        told.status_pt@[i] as int,
        friend.event_bonus as int,
        #[trigger] brought.status_pt@[i] as int,
    ) by {
        assert(brought@.status_pt[i] == brought.status_pt@[i]);
        assert(told@.status_pt[i] == told.status_pt@[i]);
        lemma_raised(
            told.status_pt@[i] as int,
            friend.event_bonus as int,
            brought.status_pt@[i] as int,
        );
    }
    assert(brought@.vital == brought.vital);
    if told.vital > 0 {
        lemma_raised(told.vital as int, friend.vital_bonus as int, brought.vital as int);
    }
}

proof fn lemma_real_gain(game: BaseGame, event_id: u32, told: EventChoice, settled: EventChoice)
    requires
        game.settles(event_id, told, settled),
    ensures
        game.friend_event_ids@.contains(event_id) ==> has_bonuses(
            told.value,
            game.friend,
            settled.value,
        ),
        !game.friend_event_ids@.contains(event_id) ==> is_same_gain(told.value, settled.value),
        settled.prob == told.prob,
        settled.result == told.result,
{
    let before = told.value;
    let after = settled.value;
    assert forall|i: int| 0 <= i < 6 implies {
        if game.friend_event_ids@.contains(event_id) {
            is_raised(
                before.status_pt@[i] as int,
                game.friend.event_bonus as int,
                #[trigger] after.status_pt@[i] as int,
            )
        } else {
            after.status_pt@[i] == before.status_pt@[i]
        }
    } by {
        assert(after@.status_pt[i] == after.status_pt@[i]);
        assert(before@.status_pt[i] == before.status_pt@[i]);
        if game.friend_event_ids@.contains(event_id) {
            lemma_raised(
                before.status_pt@[i] as int,
                game.friend.event_bonus as int,
                after.status_pt@[i] as int,
            );
        }
    }
    assert(after@.vital == after.vital);
    if game.friend_event_ids@.contains(event_id) && before.vital > 0 {
        lemma_raised(before.vital as int, game.friend.vital_bonus as int, after.vital as int);
    }
}

proof fn lemma_gained(before: Uma, gain: ActionValue, after: Uma)
    requires
        before.plus(gain@, after),
    ensures
        has_gained(before, gain, after),
{
    assert forall|k: int| 0 <= k < 5 implies (#[trigger] after.five_status@[k])
        - before.five_status@[k] == gain.status_pt@[k] by {
        assert(gain@.status_pt[k] == gain.status_pt@[k]);
    }
    assert(gain@.status_pt[5] == gain.status_pt@[5]);
}

/// An event with the friend brings its outcome with the bonuses of the friend's card, in
/// every turn and however far the outings have come; any other event brings its outcome as
/// it stands. The trainee gains just what is handed back, the event is counted once, and
/// nothing else of the career changes.
pub proof fn law_a_settled_event_brings_its_gain(
    game: &mut BaseGame,
    event_id: u32,
    outcome: Option<EventChoice>,
    settled: Option<EventChoice>,
)
    requires
        call_ensures(BaseGame::settle_event, (game, event_id, outcome), settled),
        old(game).events@.contains_key(event_id) ==> old(game).events@[event_id] < u32::MAX,
    ensures
        match (outcome, settled) {
            (Some(told), Some(brought)) => {
                &&& brought.prob == told.prob
                &&& brought.result == told.result
                &&& old(game).friend_event_ids@.contains(event_id) ==> has_bonuses(
                    told.value,
                    old(game).friend,
                    brought.value,
                )
                &&& !old(game).friend_event_ids@.contains(event_id) ==> is_same_gain(
                    told.value,
                    brought.value,
                )
                &&& has_gained(old(game).uma, brought.value, final(game).uma)
            },
            (None, None) => final(game).uma == old(game).uma,
            _ => false,
        },
        is_counted_once(old(game).events@, event_id, final(game).events@),
        is_else_untouched(*old(game), *final(game)),
{
    if let (Some(told), Some(brought)) = (outcome, settled) {
        lemma_real_gain(*game, event_id, told, brought);
        lemma_gained(game.uma, brought.value, final(game).uma);
    }
}

/// Whether a draw by weight can be made: no weight is negative, and their sum is above zero
/// and in range.
pub open spec fn can_draw(outcomes: Seq<EventChoice>) -> bool {
    let sum = outcomes.fold_left(0int, |sum: int, o: EventChoice| sum + o.prob);
    &&& forall|i: int| 0 <= i < outcomes.len() ==> (#[trigger] outcomes[i]).prob >= 0
    &&& 0 < sum <= i32::MAX
}

proof fn lemma_weight_sum_is_a_fold(outcomes: Seq<EventChoice>, n: int)
    requires
        0 <= n <= outcomes.len(),
    ensures
        weight_sum(outcomes, n) == outcomes.take(n).fold_left(
            0int,
            |sum: int, o: EventChoice| sum + o.prob,
        ),
    decreases n,
{
    if n > 0 {
        lemma_weight_sum_is_a_fold(outcomes, n - 1);
        assert(outcomes.take(n).drop_last() =~= outcomes.take(n - 1));
    }
}

proof fn lemma_can_draw(outcomes: Seq<EventChoice>)
    ensures
        weights_valid(outcomes) <==> can_draw(outcomes),
{
    lemma_weight_sum_is_a_fold(outcomes, outcomes.len() as int);
    assert(outcomes.take(outcomes.len() as int) =~= outcomes);
}

/// What comes of a choice: nothing where there is no outcome; the only one, whatever its
/// weight, where there is one; and of several, just the one that the draw by weight makes with
/// the generator as it stands, unless the weights are refused. The generator is left as the
/// draw leaves it, or untouched where none was made.
pub proof fn law_what_comes_is_what_was_drawn(
    game: &BaseGame,
    choices: &[EventChoice],
    rng: &mut StdRng,
    outcome: Option<EventChoice>,
)
    requires
        call_ensures(BaseGame::random_select_choice_result, (game, choices, rng), outcome),
    ensures
        choices@.len() == 0 ==> outcome is None,
        choices@.len() == 1 ==> outcome == Some(choices@[0]),
        choices@.len() >= 2 ==> (outcome is Some <==> can_draw(choices@)),
        choices@.len() >= 2 && outcome is Some ==> exists|g: &mut StdRng| #[trigger]
            weighted_draw_gives(choices@, g, Ok(outcome->0)) && *g == *old(rng)
                && *final(g) == *final(rng),
        choices@.len() >= 2 && outcome is Some ==> choices@.contains(outcome->0)
            && (outcome->0).prob > 0,
        choices@.len() < 2 || outcome is None ==> *final(rng) == *old(rng),
{
    lemma_can_draw(choices@);
}

/// A choice that is drawn with its error kept comes to the same: where there is an outcome it
/// is what the draw by weight makes, and where there is an error it is the one of that draw.
pub proof fn law_a_refusal_is_that_of_the_draw(
    game: &BaseGame,
    choices: &[EventChoice],
    rng: &mut StdRng,
    outcome: Result<Option<EventChoice>, DrawError>,
)
    requires
        call_ensures(BaseGame::draw_choice_result, (game, choices, rng), outcome),
    ensures
        choices@.len() == 0 ==> outcome == Ok::<Option<EventChoice>, DrawError>(None),
        choices@.len() == 1 ==> outcome == Ok::<Option<EventChoice>, DrawError>(Some(choices@[0])),
        choices@.len() >= 2 ==> (outcome is Ok <==> can_draw(choices@)),
        choices@.len() >= 2 && outcome is Ok ==> outcome->Ok_0 is Some && exists|g: &mut StdRng|
            #[trigger]
            weighted_draw_gives(choices@, g, Ok(outcome->Ok_0->0)) && *g == *old(rng)
                && *final(g) == *final(rng),
        outcome is Err ==> exists|g: &mut StdRng| #[trigger]
            weighted_draw_gives(choices@, g, Err(outcome->Err_0)) && *g == *old(rng)
                && *final(g) == *final(rng),
        choices@.len() < 2 || outcome is Err ==> *final(rng) == *old(rng),
{
    lemma_can_draw(choices@);
}

/// The error of a refused draw goes by the first weight that is negative or takes the sum out
/// of range; where there is no such weight, all of them are zero.
pub proof fn law_the_first_bad_weight_is_named(
    game: &BaseGame,
    choices: &[EventChoice],
    rng: &mut StdRng,
    error: DrawError,
    first: int,
)
    requires
        call_ensures(
            BaseGame::draw_choice_result,
            (game, choices, rng),
            Err::<Option<EventChoice>, DrawError>(error),
        ),
        0 <= first <= choices@.len(),
        forall|i: int| 0 <= i < first ==> (#[trigger] choices@[i]).prob >= 0,
        forall|n: int| 0 <= n <= first ==> #[trigger] weight_sum(choices@, n) <= i32::MAX,
    ensures
        first < choices@.len() && choices@[first].prob < 0 ==> error == DrawError::InvalidWeight,
        first < choices@.len() && choices@[first].prob >= 0 && weight_sum(choices@, first)
            + choices@[first].prob > i32::MAX ==> error == DrawError::Overflow,
        first == choices@.len() ==> error == DrawError::InsufficientNonZero && forall|i: int|
            0 <= i < choices@.len() ==> (#[trigger] choices@[i]).prob == 0,
{
    lemma_no_bad_weight(choices@, first);
    if first < choices@.len() {
        lemma_bad_weight_stays(choices@, first + 1, choices@.len() as int);
    } else {
        lemma_can_draw(choices@);
        lemma_sum_of_no_negatives(choices@, first);
        lemma_weight_sum_is_a_fold(choices@, first);
        assert(choices@.take(first) =~= choices@);
    }
}

proof fn lemma_no_bad_weight(outcomes: Seq<EventChoice>, n: int)
    requires
        0 <= n <= outcomes.len(),
        forall|i: int| 0 <= i < n ==> (#[trigger] outcomes[i]).prob >= 0,
        forall|m: int| 0 <= m <= n ==> #[trigger] weight_sum(outcomes, m) <= i32::MAX,
    ensures
        bad_weight(outcomes, n) is None,
    decreases n,
{
    if n > 0 {
        lemma_no_bad_weight(outcomes, n - 1);
        assert(weight_sum(outcomes, n) <= i32::MAX);
    }
}

proof fn lemma_bad_weight_stays(outcomes: Seq<EventChoice>, n: int, more: int)
    requires
        0 <= n <= more <= outcomes.len(),
    ensures
        bad_weight(outcomes, n) is Some ==> bad_weight(outcomes, more) == bad_weight(outcomes, n),
    decreases more - n,
{
    if n < more {
        lemma_bad_weight_stays(outcomes, n, more - 1);
    }
}

proof fn lemma_sum_of_no_negatives(outcomes: Seq<EventChoice>, n: int)
    requires
        0 <= n <= outcomes.len(),
        forall|i: int| 0 <= i < n ==> (#[trigger] outcomes[i]).prob >= 0,
    ensures
        weight_sum(outcomes, n) >= 0,
        weight_sum(outcomes, n) == 0 ==> forall|i: int|
            0 <= i < n ==> (#[trigger] outcomes[i]).prob == 0,
    decreases n,
{
    if n > 0 {
        lemma_sum_of_no_negatives(outcomes, n - 1);
    }
}

/// An event that happens draws its outcome from the outcomes of the choice that was made, and
/// settles just the one that the draw makes: with the bonuses where the event is one with the
/// friend, as it stands where it is not. The event is counted once, whatever comes of it, and
/// where nothing comes of it the trainee stays as it was.
pub proof fn law_an_event_settles_what_was_drawn(
    game: &mut BaseGame,
    event: &EventData,
    choice: usize,
    rng: &mut StdRng,
    settled: Option<EventChoice>,
)
    requires
        call_ensures(BaseGame::apply_event, (game, event, choice, rng), settled),
        old(game).events@.contains_key(event.id) ==> old(game).events@[event.id] < u32::MAX,
        event.choices@.len() > 0 ==> choice < event.choices@.len(),
    ensures
        event.choices@.len() == 0 ==> settled is None,
        event.choices@.len() > 0 ==> {
            let outcomes = event.choices@[choice as int]@;
            settled is Some <==> outcomes.len() == 1 || outcomes.len() >= 2 && can_draw(outcomes)
        },
        settled is Some && event.choices@[choice as int]@.len() == 1 ==> is_brought_by(
            *old(game),
            event.id,
            event.choices@[choice as int]@[0],
            settled->0,
        ),
        settled is Some && event.choices@[choice as int]@.len() >= 2 ==> exists|
            g: &mut StdRng,
            told: EventChoice,
        | #[trigger]
            weighted_draw_gives(event.choices@[choice as int]@, g, Ok(told)) && *g == *old(rng)
                && *final(g) == *final(rng) && is_brought_by(
                *old(game),
                event.id,
                told,
                settled->0,
            ),
        settled is Some ==> has_gained(old(game).uma, (settled->0).value, final(game).uma),
        settled is None ==> final(game).uma == old(game).uma,
        is_counted_once(old(game).events@, event.id, final(game).events@),
        is_else_untouched(*old(game), *final(game)),
{
    if event.choices@.len() > 0 {
        let outcomes = event.choices@[choice as int]@;
        lemma_can_draw(outcomes);
        if settled is Some {
            let brought = settled->0;
            lemma_gained(game.uma, brought.value, final(game).uma);
            assert forall|told: EventChoice| #[trigger]
                game.settles(event.id, told, brought) implies is_brought_by(
                *game,
                event.id,
                told,
                brought,
            ) by {
                lemma_real_gain(*game, event.id, told, brought);
            }
        }
    }
}

/// Whether this is what the outcome brings in this career, as one of the event.
pub open spec fn is_brought_by(
    game: BaseGame,
    event_id: u32,
    told: EventChoice,
    brought: EventChoice,
) -> bool {
    &&& brought.prob == told.prob
    &&& brought.result == told.result
    &&& game.friend_event_ids@.contains(event_id) ==> has_bonuses(
        told.value,
        game.friend,
        brought.value,
    )
    &&& !game.friend_event_ids@.contains(event_id) ==> is_same_gain(told.value, brought.value)
}

/// An outcome that was given is settled as it stands, without any bonus; no event is counted,
/// the trainee has the given conditions, and nothing else changes.
pub proof fn law_a_given_outcome_is_settled_as_it_stands(
    game: &mut BaseGame,
    given: &EventChoice,
    flags: UmaFlags,
)
    requires
        call_ensures(BaseGame::apply_event_choice, (game, given, flags), ()),
    ensures
        has_gained(
            old(game).uma,
            given.value,
            (Uma { flags: old(game).uma.flags, ..final(game).uma }),
        ),
        final(game).uma.flags == flags,
        final(game).events@ == old(game).events@,
        is_else_untouched(*old(game), *final(game)),
{
    lemma_gained(
        game.uma,
        given.value,
        (Uma { flags: game.uma.flags, ..final(game).uma }),
    );
}

/// Whether the counts have the event below this number; one without an entry was never
/// triggered.
pub open spec fn is_below(counts: Map<u32, u32>, id: u32, limit: int) -> bool {
    if counts.contains_key(id) {
        counts[id] < limit
    } else {
        0 < limit
    }
}

/// Whether the event may come: a random one with a limit only while it has come less often
/// than that, any other at any time.
pub open spec fn may_come(game: BaseGame, event: EventData) -> bool {
    match event.trigger {
        TriggerType::Random { max_time } => max_time > 0 ==> is_below(
            game.events@,
            event.id,
            max_time as int,
        ),
        TriggerType::Other => true,
    }
}

/// An event can happen just where it may come.
pub proof fn law_limits_alone_hold_events_back(game: &BaseGame, event: &EventData, possible: bool)
    requires
        call_ensures(BaseGame::event_can_happen, (game, event), possible),
    ensures
        possible == may_come(*game, *event),
{
}

/// The events to draw from are all that may come and no others, each once and in their order.
pub proof fn law_every_possible_event_is_available(
    game: &BaseGame,
    events: &[EventData],
    available: Vec<usize>,
)
    requires
        call_ensures(BaseGame::available_events, (game, events), available),
        events@.len() <= usize::MAX,
    ensures
        forall|i: usize|
            available@.contains(i) <==> i < events@.len() && may_come(
                *game,
                #[trigger] events@[i as int],
            ),
        forall|a: int, b: int|
            0 <= a < b < available@.len() ==> #[trigger] available@[a] < #[trigger] available@[b],
{
    let possible = |i: int| can_happen(game.events@, events@[i]@);
    lemma_listed(possible, events@.len() as int);
    assert forall|i: usize|
        available@.contains(i) <==> i < events@.len() && may_come(
            *game,
            #[trigger] events@[i as int],
        ) by {
        assert(positions(possible, events@.len() as int).contains(i) <==> i < events@.len()
            && possible(i as int));
    }
}

proof fn lemma_listed(holds: spec_fn(int) -> bool, n: int)
    requires
        0 <= n <= usize::MAX,
    ensures
        forall|i: usize| #[trigger] positions(holds, n).contains(i) <==> i < n && holds(i as int),
        forall|a: int, b: int|
            0 <= a < b < positions(holds, n).len() ==> #[trigger] positions(holds, n)[a]
                < #[trigger] positions(holds, n)[b],
        forall|a: int| 0 <= a < positions(holds, n).len() ==> #[trigger] positions(holds, n)[a] < n,
    decreases n,
{
    if n > 0 {
        lemma_listed(holds, n - 1);
        let last = (n - 1) as usize;
        let before = positions(holds, n - 1);
        let after = positions(holds, n);
        assert forall|i: usize| #[trigger] after.contains(i) <==> i < n && holds(i as int) by {
            assert(before.contains(i) <==> i < last && holds(i as int));
            if holds(n - 1) {
                assert(after[after.len() - 1] == last);
                if before.contains(i) {
                    assert(after[before.index_of(i)] == i);
                }
                if after.contains(i) && i != last {
                    assert(before[after.index_of(i)] == i);
                }
            }
        }
    }
}

/// An event comes just where one may come, and it is the one at the position that the draw
/// makes, with the generator as it stands, from all positions of events that may come.
pub proof fn law_the_event_is_the_one_drawn(
    game: &BaseGame,
    events: &[EventData],
    rng: &mut StdRng,
    event: Option<EventData>,
    available: Vec<usize>,
)
    requires
        call_ensures(BaseGame::random_select_event, (game, events, rng), event),
        call_ensures(BaseGame::available_events, (game, events), available),
    ensures
        event is Some <==> exists|i: int|
            0 <= i < events@.len() && may_come(*game, #[trigger] events@[i]),
        event matches Some(e) ==> exists|g: &mut StdRng, i: usize| #[trigger]
            draw_gives(available@, g, Some(i)) && *g == *old(rng) && *final(g) == *final(rng)
                && i < events@.len() && events@[i as int].id == e.id
                && events@[i as int].trigger == e.trigger
                && events@[i as int].person_index == e.person_index
                && is_same_choices(events@[i as int], e),
        event is None ==> *final(rng) == *old(rng),
{
    assert forall|i: int| 0 <= i < events@.len() implies may_come(*game, #[trigger] events@[i])
        == can_happen(game.events@, events@[i]@) by {
    }
    if event is Some {
        let e = event->0;
        assert forall|i: int|
            0 <= i < events@.len() && (#[trigger] events@[i])@ == e@ implies is_same_choices(
            events@[i],
            e,
        ) by {
            lemma_same_choices(events@[i], e);
        }
    }
}

/// Whether both events offer the same choices with the same outcomes.
pub open spec fn is_same_choices(a: EventData, b: EventData) -> bool {
    &&& a.choices@.len() == b.choices@.len()
    &&& forall|c: int| 0 <= c < b.choices@.len() ==> (#[trigger] b.choices@[c])@ == a.choices@[c]@
}

proof fn lemma_same_choices(a: EventData, b: EventData)
    requires
        a@.choices == b@.choices,
    ensures
        is_same_choices(a, b),
{
    assert(a@.choices.len() == a.choices@.len());
    assert(b@.choices.len() == b.choices@.len());
    assert forall|c: int| 0 <= c < b.choices@.len() implies (#[trigger] b.choices@[c])@
        == a.choices@[c]@ by {
        assert(outcome_lists(a.choices@)[c] == a.choices@[c]@);
        assert(outcome_lists(b.choices@)[c] == b.choices@[c]@);
    }
}

/// Whether this stage of the support cards' stories may come: the first less than five times,
/// a later one less often than the one before it.
pub open spec fn stage_may_come(game: BaseGame, stage: int) -> bool {
    let times = |id: u32|
        if game.events@.contains_key(id) {
            game.events@[id] as int
        } else {
            0
        };
    if stage == 0 {
        times(8001) < 5
    } else if stage == 1 {
        times(8002) < times(8001)
    } else {
        stage == 2 && times(8003) < times(8002)
    }
}

/// The stages to draw from are all that may come and no others, each once and in their order.
pub proof fn law_every_possible_stage_is_available(game: &BaseGame, stages: Vec<usize>)
    requires
        call_ensures(BaseGame::available_card_events, (game,), stages),
    ensures
        forall|stage: usize| #[trigger]
            stages@.contains(stage) <==> stage < 3 && stage_may_come(*game, stage as int),
        forall|a: int, b: int|
            0 <= a < b < stages@.len() ==> #[trigger] stages@[a] < #[trigger] stages@[b],
{
    let open = |stage: int| stage_open(game.events@, stage);
    lemma_listed(open, 3);
    assert forall|stage: usize| #[trigger]
        stages@.contains(stage) <==> stage < 3 && stage_may_come(*game, stage as int) by {
        assert(positions(open, 3).contains(stage) <==> stage < 3 && open(stage as int));
    }
}

/// A story goes on just where one of its three stages may come, and it is the stage that the
/// draw makes, with the generator as it stands, from all that may come; the event is that of
/// the tables, but for the person, who is the one that was asked for.
pub proof fn law_the_stage_is_the_one_drawn(
    game: &BaseGame,
    card_events: &[EventData],
    person_index: i32,
    rng: &mut StdRng,
    event: Option<EventData>,
    stages: Vec<usize>,
)
    requires
        call_ensures(
            BaseGame::generate_card_event,
            (game, card_events, person_index, rng),
            event,
        ),
        call_ensures(BaseGame::available_card_events, (game,), stages),
    ensures
        event is Some <==> stage_may_come(*game, 0) || stage_may_come(*game, 1) || stage_may_come(
            *game,
            2,
        ),
        event matches Some(e) ==> exists|g: &mut StdRng, stage: usize| #[trigger]
            draw_gives(stages@, g, Some(stage)) && *g == *old(rng) && *final(g) == *final(rng)
                && stage < 3 && is_event_for(card_events@[stage as int], person_index, e),
        event is None ==> *final(rng) == *old(rng),
{
    let open = |stage: int| stage_open(game.events@, stage);
    assert forall|stage: int| 0 <= stage < 3 implies #[trigger]
        stage_open(game.events@, stage) == stage_may_come(
            *game,
            stage,
        ) by {
    }
    assert(stage_open(game.events@, 0) == stage_may_come(*game, 0));
    assert(stage_open(game.events@, 1) == stage_may_come(*game, 1));
    assert(stage_open(game.events@, 2) == stage_may_come(*game, 2));
    if event is Some {
        let e = event->0;
        assert forall|stage: usize|
            stage < 3 && e@ == card_event_of(
                #[trigger] card_events@[stage as int]@,
                person_index,
            ) implies is_event_for(card_events@[stage as int], person_index, e) by {
            lemma_same_choices(card_events@[stage as int], e);
        }
    }
}

/// Whether this is the event with the person put in, and nothing else changed.
pub open spec fn is_event_for(told: EventData, person_index: i32, event: EventData) -> bool {
    &&& event.id == told.id
    &&& event.trigger == told.trigger
    &&& event.person_index == Some(person_index)
    &&& is_same_choices(told, event)
}

/// The event of a stage is that of the tables with the person put in.
pub proof fn law_a_stage_belongs_to_its_person(
    card_events: &[EventData],
    stage: usize,
    person_index: i32,
    event: EventData,
)
    requires
        call_ensures(card_event, (card_events, stage, person_index), event),
    ensures
        is_event_for(card_events@[stage as int], person_index, event),
{
    lemma_same_choices(card_events@[stage as int], event);
}

/// Counts start without any trigger, each trigger is counted once for its own event, and a
/// count that is asked for is the number of triggers so far; a copy has the same counts.
pub proof fn law_counts_are_kept(
    fresh: EventCounts,
    counts: &mut EventCounts,
    id: u32,
    asked: &EventCounts,
    times: u32,
    copy: EventCounts,
)
    requires
        call_ensures(EventCounts::new, (), fresh),
        call_ensures(EventCounts::record, (counts, id), ()),
        old(counts)@.contains_key(id) ==> old(counts)@[id] < u32::MAX,
        call_ensures(EventCounts::times, (asked, id), times),
        call_ensures(EventCounts::clone, (asked,), copy),
    ensures
        fresh@.dom() =~= Set::empty(),
        is_counted_once(old(counts)@, id, final(counts)@),
        times == if asked@.contains_key(id) {
            asked@[id]
        } else {
            0
        },
        copy@ == asked@,
{
}

/// A trainee gains what it is given, component by component.
pub proof fn law_a_trainee_gains_what_it_is_given(uma: &mut Uma, value: &ActionValue)
    requires
        call_ensures(Uma::add_value, (uma, value), ()),
    ensures
        has_gained(*old(uma), *value, *final(uma)),
{
    lemma_gained(*uma, *value, *final(uma));
}

/// A trainee with ordinary numbers.
pub open spec fn is_ordinary_trainee(uma: Uma) -> bool {
    &&& forall|k: int|
        0 <= k < 5 ==> -1_000_000_000 <= #[trigger] uma.five_status@[k] <= 1_000_000_000
    &&& -1_000_000_000 <= uma.skill_pt <= 1_000_000_000
    &&& -1_000_000_000 <= uma.vital <= 1_000_000_000
    &&& -1_000_000_000 <= uma.max_vital <= 1_000_000_000
    &&& -1_000_000_000 <= uma.motivation <= 1_000_000_000
}

/// A friend with ordinary bonuses.
pub open spec fn is_ordinary_friend(friend: FriendState) -> bool {
    -100 <= friend.event_bonus <= 900 && -100 <= friend.vital_bonus <= 900
}

/// A gain with ordinary numbers.
pub open spec fn is_ordinary_gain(gain: ActionValue) -> bool {
    &&& forall|i: int| 0 <= i < 6 ==> -1_000_000 <= #[trigger] gain.status_pt@[i] <= 1_000_000
    &&& -1_000_000 <= gain.vital <= 1_000_000
    &&& -1_000_000 <= gain.max_vital <= 1_000_000
    &&& -1_000_000 <= gain.motivation <= 1_000_000
}

/// Whatever the event, an outcome with ordinary numbers can be settled in any career with
/// ordinary numbers.
pub proof fn law_ordinary_outcomes_are_accepted(
    game: &mut BaseGame,
    event_id: u32,
    outcome: Option<EventChoice>,
)
    requires
        old(game).events@.contains_key(event_id) ==> old(game).events@[event_id] < u32::MAX,
        is_ordinary_friend(old(game).friend),
        is_ordinary_trainee(old(game).uma),
        outcome matches Some(told) ==> is_ordinary_gain(told.value),
    ensures
        call_requires(BaseGame::settle_event, (old(game), event_id, outcome)),
{
    if let Some(told) = outcome {
        lemma_ordinary_outcome(*game, event_id, told);
    }
}

proof fn lemma_ordinary_outcome(game: BaseGame, event_id: u32, told: EventChoice)
    requires
        is_ordinary_friend(game.friend),
        is_ordinary_trainee(game.uma),
        is_ordinary_gain(told.value),
    ensures
        game.can_settle(event_id, told),
{
    let gain = told.value@;
    let event_bonus = game.friend.event_bonus as int;
    let vital_bonus = game.friend.vital_bonus as int;
    assert forall|i: int| 0 <= i < 6 implies in_range(
        #[trigger] gain.status_pt[i] * (100 + event_bonus),
    ) && -10_000_000 <= gain.status_pt[i] * (100 + event_bonus) / 100 <= 10_000_000 && -1_000_000
        <= gain.status_pt[i] <= 1_000_000 by {
        assert(gain.status_pt[i] == told.value.status_pt@[i]);
        lemma_ordinary_product(gain.status_pt[i], event_bonus);
    }
    lemma_ordinary_product(gain.vital, vital_bonus);
    assert(can_boost(gain, event_bonus, vital_bonus));
    let brought = game.real_gain(event_id, gain);
    assert forall|i: int| 0 <= i < 6 implies -10_000_000 <= #[trigger] brought.status_pt[i]
        <= 10_000_000 by {
        assert(in_range(gain.status_pt[i] * (100 + event_bonus)));
    }
}

/// Any event with ordinary numbers can happen in any career with ordinary numbers, whatever
/// the choice that is made of those that it offers.
pub proof fn law_ordinary_events_are_accepted(
    game: &mut BaseGame,
    event: &EventData,
    choice: usize,
    rng: &mut StdRng,
)
    requires
        old(game).events@.contains_key(event.id) ==> old(game).events@[event.id] < u32::MAX,
        is_ordinary_friend(old(game).friend),
        is_ordinary_trainee(old(game).uma),
        event.choices@.len() > 0 ==> choice < event.choices@.len(),
        forall|i: int|
            event.choices@.len() > 0 && 0 <= i < event.choices@[choice as int]@.len()
                ==> is_ordinary_gain((#[trigger] event.choices@[choice as int]@[i]).value),
    ensures
        call_requires(BaseGame::apply_event, (old(game), event, choice, old(rng))),
{
    let outcomes = event.choices@[choice as int]@;
    assert forall|o: EventChoice|
        event.choices@.len() > 0 && #[trigger] can_come(outcomes, o) implies game.can_settle(
        event.id,
        o,
    ) by {
        let i = outcomes.index_of(o);
        if outcomes.len() == 1 {
            assert(is_ordinary_gain(outcomes[0].value));
        } else {
            assert(outcomes[i] == o);
            assert(is_ordinary_gain(outcomes[i].value));
        }
        lemma_ordinary_outcome(*game, event.id, o);
    }
}

/// Whatever the career, the events and the generator, a draw can be made and the possibilities
/// can be asked for; a story of three stages can always go on.
pub proof fn law_draws_can_always_be_made(
    game: &BaseGame,
    event: &EventData,
    events: &[EventData],
    choices: &[EventChoice],
    person_index: i32,
    rng: &mut StdRng,
)
    ensures
        call_requires(BaseGame::event_can_happen, (game, event)),
        call_requires(BaseGame::available_events, (game, events)),
        call_requires(BaseGame::random_select_event, (game, events, old(rng))),
        call_requires(BaseGame::draw_choice_result, (game, choices, old(rng))),
        call_requires(BaseGame::random_select_choice_result, (game, choices, old(rng))),
        call_requires(BaseGame::available_card_events, (game,)),
        events@.len() >= 3 ==> call_requires(
            BaseGame::generate_card_event,
            (game, events, person_index, old(rng)),
        ),
        forall|stage: usize|
            stage < events@.len() ==> #[trigger] call_requires(
                card_event,
                (events, stage, person_index),
            ),
{
}

proof fn lemma_ordinary_product(x: int, bonus: int)
    requires
        -1_000_000 <= x <= 1_000_000,
        -100 <= bonus <= 900,
    ensures
        -1_000_000_000 <= x * (100 + bonus) <= 1_000_000_000,
        -10_000_000 <= x * (100 + bonus) / 100 <= 10_000_000,
{
    assert(-1_000_000_000 <= x * (100 + bonus) <= 1_000_000_000) by (nonlinear_arith)
        requires
            -1_000_000 <= x <= 1_000_000,
            0 <= 100 + bonus <= 1_000,
    ;
}

} // verus!
