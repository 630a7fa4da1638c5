//! Events that happen to the trainee.

use crate::card::FriendState;
use crate::chance::{
    can_come, draw_gives, has_outcome, pick, pick_weighted, refusal, weighted_draw_gives,
    weights_valid, DrawError,
};
use crate::counts::{times_in, with_one_more};
use crate::event::{ActionValue, EventChoice, EventData, EventView, Gain, TriggerType};
use crate::game::BaseGame;
use crate::uma::{in_range, Uma, UmaFlags};
use rand::rngs::StdRng;
use vstd::prelude::*;

verus! {

/// A value raised by a bonus in percent, rounded down.
pub open spec fn raised(x: int, bonus: int) -> int {
    x * (100 + bonus) / 100
}

/// A gain with the bonuses of the friend's card: the event bonus raises attributes and
/// skill points, the energy bonus raises energy that is restored, and nothing else changes.
pub open spec fn boosted(gain: Gain, event_bonus: int, vital_bonus: int) -> Gain {
    Gain {
        status_pt: Seq::new(gain.status_pt.len(), |i: int| raised(gain.status_pt[i], event_bonus)),
        vital: if gain.vital > 0 {
            raised(gain.vital, vital_bonus)
        } else {
            gain.vital
        },
        ..gain
    }
}

/// Whether the bonuses can be computed on this gain without leaving the range of `i32`.
pub open spec fn can_boost(gain: Gain, event_bonus: int, vital_bonus: int) -> bool {
    &&& event_bonus != 0 ==> {
        &&& in_range(100 + event_bonus)
        &&& forall|i: int|
            0 <= i < 6 ==> in_range(#[trigger] gain.status_pt[i] * (100 + event_bonus))
    }
    &&& vital_bonus != 0 && gain.vital > 0 ==> {
        &&& in_range(100 + vital_bonus)
        &&& in_range(gain.vital * (100 + vital_bonus))
    }
}

/// Raises a value by the multiplier in percent, rounding down.
fn scale(x: i32, multiplier: i32) -> (scaled: i32)
    requires
        in_range(x * multiplier),
    ensures
        scaled == (x * multiplier) / 100,
{
    let product: i64 = x as i64 * multiplier as i64;
    let quotient: i64 = if product >= 0 {
        product / 100
    } else {
        -((99 - product) / 100)
    };
    quotient as i32
}

/// The id of the first stage of a support card's story; the later stages follow it.
pub const CARD_EVENT_ID: u32 = 8001;

/// How often the first stage of a support card's story can happen.
pub const CARD_STORIES: u32 = 5;

/// Number of stages of a support card's story.
pub const CARD_STAGES: usize = 3;

/// How often this stage of a support card's story has happened.
pub open spec fn stage_times(counts: Map<u32, u32>, stage: int) -> int {
    times_in(counts, (CARD_EVENT_ID + stage) as u32) as int
}

/// Whether this stage of a support card's story can happen next: the first one a limited
/// number of times, a later one only while it has happened less often than the one before.
pub open spec fn stage_open(counts: Map<u32, u32>, stage: int) -> bool {
    if stage == 0 {
        stage_times(counts, 0) < CARD_STORIES
    } else {
        stage_times(counts, stage) < stage_times(counts, stage - 1)
    }
}

/// The positions below `n` where the condition holds, in order.
pub open spec fn positions(holds: spec_fn(int) -> bool, n: int) -> Seq<usize>
    decreases n,
{
    if n <= 0 {
        Seq::empty()
    } else if holds(n - 1) {
        positions(holds, n - 1).push((n - 1) as usize)
    } else {
        positions(holds, n - 1)
    }
}

/// A position is listed just where it is below `n` and the condition holds there.
proof fn lemma_positions(holds: spec_fn(int) -> bool, n: int)
    requires
        0 <= n <= usize::MAX,
    ensures
        forall|i: usize| #[trigger] positions(holds, n).contains(i) <==> i < n && holds(i as int),
    decreases n,
{
    if n > 0 {
        lemma_positions(holds, n - 1);
        let last = (n - 1) as usize;
        let before = positions(holds, n - 1);
        let after = positions(holds, n);
        assert forall|i: usize| #[trigger] after.contains(i) <==> i < n && holds(i as int) by {
            assert(before.contains(i) <==> i < last && holds(i as int));
            if holds(n - 1) {
                assert(after[after.len() - 1] == last);
                if before.contains(i) {
                    assert(after[before.index_of(i)] == i);
                }
                if after.contains(i) && i != last {
                    assert(before[after.index_of(i)] == i);
                }
            }
        }
    }
}

/// The stages of a support card's story that can happen next, in order.
pub open spec fn open_stages(counts: Map<u32, u32>) -> Seq<usize> {
    positions(|stage: int| stage_open(counts, stage), CARD_STAGES as int)
}

/// Whether the event can happen, by the counts so far: one with a limit only while it has
/// happened less often than that.
pub open spec fn can_happen(counts: Map<u32, u32>, event: EventView) -> bool {
    match event.trigger {
        TriggerType::Random { max_time } => max_time == 0 || times_in(counts, event.id) < max_time,
        TriggerType::Other => true,
    }
}

/// The positions of the events that can happen, in order.
pub open spec fn possible_events(counts: Map<u32, u32>, events: Seq<EventData>) -> Seq<usize> {
    positions(|i: int| can_happen(counts, events[i]@), events.len() as int)
}

/// The event of a support card's story at this stage, as one of the given person.
pub open spec fn card_event_of(stage_event: EventView, person_index: i32) -> EventView {
    EventView { person_index: Some(person_index), ..stage_event }
}

/// The event of a support card's story at this stage, as one of the given person.
pub fn card_event(card_events: &[EventData], stage: usize, person_index: i32) -> (event: EventData)
    requires
        stage < card_events@.len(),
    ensures
        event@ == card_event_of(card_events@[stage as int]@, person_index),
{
    let mut event: EventData = card_events[stage].clone();
    event.person_index = Some(person_index);
    event
}

impl BaseGame {
    /// The gain that an outcome of this event really brings: that of a friend event has the
    /// bonuses of the friend's card.
    pub open spec fn real_gain(self, event_id: u32, gain: Gain) -> Gain {
        if self.friend_event_ids@.contains(event_id) {
            boosted(gain, self.friend.event_bonus as int, self.friend.vital_bonus as int)
        } else {
            gain
        }
    }

    /// Whether the outcome can be settled without leaving the range of `i32`.
    pub open spec fn can_settle(self, event_id: u32, outcome: EventChoice) -> bool {
        &&& self.friend_event_ids@.contains(event_id) ==> can_boost(
            outcome.value@,
            self.friend.event_bonus as int,
            self.friend.vital_bonus as int,
        )
        &&& self.uma.can_add(self.real_gain(event_id, outcome.value@))
    }

    /// Whether `settled` is the outcome with the gain that it really brings.
    pub open spec fn settles(
        self,
        event_id: u32,
        outcome: EventChoice,
        settled: EventChoice,
    ) -> bool {
        &&& settled.prob == outcome.prob
        &&& settled.result == outcome.result
        &&& settled.value@ == self.real_gain(event_id, outcome.value@)
    }

    /// Raises a gain by the bonuses of the friend's card.
    pub fn apply_friend_bonus(value: &mut ActionValue, friend: &FriendState)
        requires
            can_boost(old(value)@, friend.event_bonus as int, friend.vital_bonus as int),
        ensures
            final(value)@ == boosted(
                old(value)@,
                friend.event_bonus as int,
                friend.vital_bonus as int,
            ),
    {
        let ghost before = value@;
        let ghost bonus = friend.event_bonus as int;
        if friend.event_bonus != 0 {
            let multiplier: i32 = 100 + friend.event_bonus;
            for i in 0..6usize
                invariant
                    before == old(value)@,
                    bonus == friend.event_bonus,
                    multiplier == 100 + bonus,
                    forall|j: int|
                        0 <= j < 6 ==> in_range(#[trigger] before.status_pt[j] * (100 + bonus)),
                    forall|j: int|
                        0 <= j < i ==> #[trigger] value.status_pt@[j] == raised(
                            before.status_pt[j],
                            bonus,
                        ),
                    forall|j: int|
                        i <= j < 6 ==> #[trigger] value.status_pt@[j] == before.status_pt[j],
                    value.vital == before.vital,
                    value.max_vital == before.max_vital,
                    value.motivation == before.motivation,
                    value.hint_level == before.hint_level,
                    value.friendship == before.friendship,
            {
                assert(value.status_pt@[i as int] == before.status_pt[i as int]);
                assert(in_range(before.status_pt[i as int] * (100 + bonus)));
                assert(0 * (100 + bonus) == 0) by (nonlinear_arith);
                if value.status_pt[i] != 0 {
                    value.status_pt[i] = scale(value.status_pt[i], multiplier);
                }
            }
        }
        if friend.vital_bonus != 0 && value.vital > 0 {
            let multiplier: i32 = 100 + friend.vital_bonus;
            value.vital = scale(value.vital, multiplier);
        }
        assert(value@ =~= boosted(before, bonus, friend.vital_bonus as int));
    }

    /// Whether the event can happen, by how often it has happened so far.
    pub fn event_can_happen(&self, event: &EventData) -> (possible: bool)
        ensures
            possible == can_happen(self.events@, event@),
    {
        match event.trigger {
            TriggerType::Random { max_time } => max_time == 0 || self.events.times(event.id)
                < max_time,
            TriggerType::Other => true,
        }
    }

    /// The positions of the events that can happen, in order.
    pub fn available_events(&self, events: &[EventData]) -> (available: Vec<usize>)
        ensures
            available@ == possible_events(self.events@, events@),
    {
        let ghost possible = |i: int| can_happen(self.events@, events@[i]@);
        let mut available: Vec<usize> = Vec::new();
        for i in 0..events.len()
            invariant
                possible == (|i: int| can_happen(self.events@, events@[i]@)),
                available@ == positions(possible, i as int),
        {
            if self.event_can_happen(&events[i]) {
                available.push(i);
            }
        }
        available
    }

    /// Draws one of the events that can happen.
    pub fn random_select_event(&self, events: &[EventData], rng: &mut StdRng) -> (event: Option<
        EventData,
    >)
        ensures
            event is None <==> forall|i: int|
                0 <= i < events@.len() ==> !can_happen(self.events@, (#[trigger] events@[i])@),
            event matches Some(e) ==> exists|i: int|
                0 <= i < events@.len() && can_happen(self.events@, e@) && (
                #[trigger] events@[i])@ == e@,
            event matches Some(e) ==> exists|g: &mut StdRng, i: usize| #[trigger]
                draw_gives(possible_events(self.events@, events@), g, Some(i)) && *g == *old(rng)
                    && *final(g) == *final(rng) && i < events@.len() && events@[i as int]@ == e@,
            event is None ==> *final(rng) == *old(rng),
    {
        let available: Vec<usize> = self.available_events(events);
        let count: usize = events.len();
        proof {
            lemma_positions(|i: int| can_happen(self.events@, events@[i]@), count as int);
        }
        match pick(available.as_slice(), rng) {
            Some(i) => {
                assert(available@.contains(i));
                Some(events[i].clone())
            },
            None => {
                assert forall|i: int| 0 <= i < events@.len() implies !can_happen(
                    self.events@,
                    (#[trigger] events@[i])@,
                ) by {
                    assert(!available@.contains(i as usize));
                }
                None
            },
        }
    }

    /// Draws the outcome of a choice: a single outcome always comes, one of several by weight,
    /// unless their weights are refused. The generator is used only where there are several
    /// and one of them comes.
    pub fn draw_choice_result(&self, choices: &[EventChoice], rng: &mut StdRng) -> (outcome: Result<
        Option<EventChoice>,
        DrawError,
    >)
        ensures
            outcome is Err <==> choices@.len() >= 2 && !weights_valid(choices@),
            outcome matches Err(e) ==> refusal(choices@) == Some(e),
            outcome matches Ok(None) <==> choices@.len() == 0,
            outcome matches Ok(Some(c)) ==> can_come(choices@, c),
            match outcome {
                Ok(Some(c)) => choices@.len() >= 2 ==> exists|g: &mut StdRng| #[trigger]
                    weighted_draw_gives(choices@, g, Ok(c)) && *g == *old(rng)
                        && *final(g) == *final(rng),
                Ok(None) => true,
                Err(e) => exists|g: &mut StdRng| #[trigger]
                    weighted_draw_gives(choices@, g, Err(e)) && *g == *old(rng)
                        && *final(g) == *final(rng),
            },
            choices@.len() <= 1 || outcome is Err ==> *final(rng) == *old(rng),
    {
        if choices.len() == 0 {
            Ok(None)
        } else if choices.len() == 1 {
            Ok(Some(choices[0]))
        } else {
            let drawn: Result<EventChoice, DrawError> = pick_weighted(choices, rng);
            assert(drawn matches Ok(c) ==> Ok::<Option<EventChoice>, DrawError>(Some(c))->Ok_0->0
                == c);
            match drawn {
                Ok(outcome) => Ok(Some(outcome)),
                Err(e) => Err(e),
            }
        }
    }

    /// Draws the outcome of a choice; `None` where there is none, or their weights are
    /// refused.
    pub fn random_select_choice_result(&self, choices: &[EventChoice], rng: &mut StdRng) -> (outcome:
        Option<EventChoice>)
        ensures
            outcome is Some <==> has_outcome(choices@),
            outcome matches Some(c) ==> can_come(choices@, c),
            outcome matches Some(c) ==> (choices@.len() >= 2 ==> exists|g: &mut StdRng| #[trigger]
                weighted_draw_gives(choices@, g, Ok(c)) && *g == *old(rng)
                    && *final(g) == *final(rng)),
            choices@.len() <= 1 || outcome is None ==> *final(rng) == *old(rng),
    {
        match self.draw_choice_result(choices, rng) {
            Ok(outcome) => outcome,
            Err(_) => None,
        }
    }

    /// Counts one trigger of the event and lets the drawn outcome take effect, if any came.
    /// Gives back the outcome with the gain that it really brought.
    pub fn settle_event(&mut self, event_id: u32, outcome: Option<EventChoice>) -> (settled: Option<
        EventChoice,
    >)
        requires
            times_in(old(self).events@, event_id) < u32::MAX,
            outcome matches Some(o) ==> old(self).can_settle(event_id, o),
        ensures
            final(self).events@ == with_one_more(old(self).events@, event_id),
            final(self).same_but_uma_and_events(*old(self)),
            settled is Some <==> outcome is Some,
            outcome is None ==> final(self).uma == old(self).uma,
            outcome matches Some(o) ==> settled matches Some(s) && old(self).settles(
                event_id,
                o,
                s,
            ) && old(self).uma.plus(s.value@, final(self).uma),
    {
        broadcast use vstd::std_specs::hash::group_hash_axioms;

        self.events.record(event_id);
        match outcome {
            Some(o) => {
                let mut settled: EventChoice = o;
                if self.friend_event_ids.contains(&event_id) {
                    Self::apply_friend_bonus(&mut settled.value, &self.friend);
                }
                self.uma.add_value(&settled.value);
                Some(settled)
            },
            None => None,
        }
    }

    /// Lets the event happen with the given choice, and draws its outcome. Gives back the
    /// outcome with the gain that it really brought.
    pub fn apply_event(&mut self, event: &EventData, choice: usize, rng: &mut StdRng) -> (settled:
        Option<EventChoice>)
        requires
            times_in(old(self).events@, event.id) < u32::MAX,
            event.choices@.len() > 0 ==> choice < event.choices@.len(),
            forall|o: EventChoice|
                event.choices@.len() > 0 && #[trigger] can_come(
                    event.choices@[choice as int]@,
                    o,
                ) ==> old(self).can_settle(event.id, o),
        ensures
            final(self).events@ == with_one_more(old(self).events@, event.id),
            final(self).same_but_uma_and_events(*old(self)),
            settled is Some <==> event.choices@.len() > 0 && has_outcome(
                event.choices@[choice as int]@,
            ),
            settled is None ==> final(self).uma == old(self).uma,
            settled matches Some(s) ==> old(self).uma.plus(s.value@, final(self).uma) && exists|
                o: EventChoice,
            | #[trigger]
                can_come(event.choices@[choice as int]@, o) && old(self).settles(event.id, o, s),
            settled matches Some(s) ==> (event.choices@[choice as int]@.len() >= 2 ==> exists|
                g: &mut StdRng,
                o: EventChoice,
            | #[trigger]
                weighted_draw_gives(event.choices@[choice as int]@, g, Ok(o)) && *g == *old(rng)
                    && *final(g) == *final(rng) && old(self).settles(event.id, o, s)),
            settled is None || event.choices@[choice as int]@.len() == 1 ==> *final(rng) == *old(
                rng,
            ),
    {
        let outcome: Option<EventChoice> = if event.choices.len() > 0 {
            self.random_select_choice_result(event.choices[choice].as_slice(), rng)
        } else {
            None
        };
        self.settle_event(event.id, outcome)
    }

    /// Settles an outcome that was given rather than drawn: its gain is added as it stands,
    /// and the trainee has the given conditions afterwards.
    pub fn apply_event_choice(&mut self, choice: &EventChoice, flags: UmaFlags)
        requires
            old(self).uma.can_add(choice.value@),
        ensures
            old(self).uma.plus(
                choice.value@,
                (Uma { flags: old(self).uma.flags, ..final(self).uma }),
            ),
            final(self).uma.flags == flags,
            final(self).events == old(self).events,
            final(self).same_but_uma_and_events(*old(self)),
    {
        self.uma.add_value(&choice.value);
        self.uma.flags = flags;
    }

    /// The stages of a support card's story that can happen next, in order.
    pub fn available_card_events(&self) -> (stages: Vec<usize>)
        ensures
            stages@ == open_stages(self.events@),
    {
        let first: u32 = self.events.times(CARD_EVENT_ID);
        let second: u32 = self.events.times(CARD_EVENT_ID + 1);
        let third: u32 = self.events.times(CARD_EVENT_ID + 2);
        let mut stages: Vec<usize> = Vec::new();
        proof {
            reveal_with_fuel(positions, 4);
        }
        if first < CARD_STORIES {
            stages.push(0);
        }
        if second < first {
            stages.push(1);
        }
        if third < second {
            stages.push(2);
        }
        stages
    }

    /// Draws the next event of a support card's story for the given person.
    pub fn generate_card_event(
        &self,
        card_events: &[EventData],
        person_index: i32,
        rng: &mut StdRng,
    ) -> (event: Option<EventData>)
        requires
            forall|stage: int|
                0 <= stage < CARD_STAGES && #[trigger] stage_open(self.events@, stage) ==> stage
                    < card_events@.len(),
        ensures
            event is None <==> forall|stage: int|
                0 <= stage < CARD_STAGES ==> !#[trigger] stage_open(self.events@, stage),
            event matches Some(e) ==> exists|stage: int|
                0 <= stage < CARD_STAGES && #[trigger] stage_open(self.events@, stage) && e@
                    == card_event_of(card_events@[stage]@, person_index),
            event matches Some(e) ==> exists|g: &mut StdRng, stage: usize| #[trigger]
                draw_gives(open_stages(self.events@), g, Some(stage)) && *g == *old(rng)
                    && *final(g) == *final(rng) && stage < CARD_STAGES && e@ == card_event_of(
                    card_events@[stage as int]@,
                    person_index,
                ),
            event is None ==> *final(rng) == *old(rng),
    {
        let stages: Vec<usize> = self.available_card_events();
        proof {
            lemma_positions(|stage: int| stage_open(self.events@, stage), CARD_STAGES as int);
        }
        match pick(stages.as_slice(), rng) {
            Some(stage) => {
                assert(stages@.contains(stage));
                assert(stage_open(self.events@, stage as int));
                Some(card_event(card_events, stage, person_index))
            },
            None => {
                assert forall|stage: int| 0 <= stage < CARD_STAGES implies !#[trigger] stage_open(
                    self.events@,
                    stage,
                ) by {
                    assert(!stages@.contains(stage as usize));
                }
                None
            },
        }
    }
}

} // verus!
