//! Events: what triggers them, the choices they offer and the gains of each outcome.

use vstd::prelude::*;

verus! {

/// Gains of one outcome, added to the trainee component by component.
#[derive(Clone, Copy, Debug, PartialEq, Eq)]
pub struct ActionValue {
    /// The five attributes, then skill points.
    pub status_pt: [i32; 6],
    /// Energy; negative where the outcome costs energy.
    pub vital: i32,
    pub max_vital: i32,
    pub motivation: i32,
    pub hint_level: i32,
    pub friendship: i32,
}

/// What an `ActionValue` holds.
#[verifier::ext_equal]
pub struct Gain {
    pub status_pt: Seq<int>,
    pub vital: int,
    pub max_vital: int,
    pub motivation: int,
    pub hint_level: int,
    pub friendship: int,
}

impl View for ActionValue {
    type V = Gain;

    open spec fn view(&self) -> Gain {
        Gain {
            status_pt: Seq::new(6, |i: int| self.status_pt@[i] as int),
            vital: self.vital as int,
            max_vital: self.max_vital as int,
            motivation: self.motivation as int,
            hint_level: self.hint_level as int,
            friendship: self.friendship as int,
        }
    }
}

impl Default for ActionValue {
    /// No gain at all.
    fn default() -> (value: Self)
        ensures
            forall|i: int| 0 <= i < 6 ==> #[trigger] value.status_pt@[i] == 0,
            value.vital == 0,
            value.max_vital == 0,
            value.motivation == 0,
            value.hint_level == 0,
            value.friendship == 0,
    {
        ActionValue {
            status_pt: [0; 6],
            vital: 0,
            max_vital: 0,
            motivation: 0,
            hint_level: 0,
            friendship: 0,
        }
    }
}

/// One possible outcome of a choice.
#[derive(Clone, Copy, Debug, PartialEq, Eq)]
pub struct EventChoice {
    /// Relative weight of this outcome among the outcomes of the same choice.
    pub prob: i32,
    /// Code of the outcome; zero where it has no special result.
    pub result: i32,
    pub value: ActionValue,
}

/// When an event may happen.
#[derive(Clone, Copy, Debug, PartialEq, Eq)]
pub enum TriggerType {
    /// At random, at most `max_time` times; zero means any number of times.
    Random { max_time: u32 },
    /// By a rule of the scenario, with no limit of its own.
    Other,
}

/// An event of the career.
#[derive(Debug, PartialEq)]
pub struct EventData {
    pub id: u32,
    pub trigger: TriggerType,
    /// For each choice that the event offers, its possible outcomes.
    pub choices: Vec<Vec<EventChoice>>,
    /// The person that the event belongs to.
    pub person_index: Option<i32>,
}

/// What an `EventData` holds.
pub struct EventView {
    pub id: u32,
    pub trigger: TriggerType,
    pub choices: Seq<Seq<EventChoice>>,
    pub person_index: Option<i32>,
}

/// The outcomes of each choice.
pub open spec fn outcome_lists(choices: Seq<Vec<EventChoice>>) -> Seq<Seq<EventChoice>> {
    Seq::new(choices.len(), |i: int| choices[i]@)
}

impl View for EventData {
    type V = EventView;

    open spec fn view(&self) -> EventView {
        EventView {
            id: self.id,
            trigger: self.trigger,
            choices: outcome_lists(self.choices@),
            person_index: self.person_index,
        }
    }
}

/// What each event of a list holds.
pub open spec fn event_views(events: Seq<EventData>) -> Seq<EventView> {
    Seq::new(events.len(), |i: int| events[i]@)
}

impl Clone for EventData {
    fn clone(&self) -> (copy: Self)
        ensures
            copy@ == self@,
    {
        let mut choices: Vec<Vec<EventChoice>> = Vec::new();
        for i in 0..self.choices.len()
            invariant
                choices.len() == i,
                forall|j: int| 0 <= j < i ==> (#[trigger] choices@[j])@ == self.choices@[j]@,
        {
            let outcomes: Vec<EventChoice> = self.choices[i].clone();
            assert(outcomes@ =~= self.choices@[i as int]@);
            choices.push(outcomes);
        }
        assert(outcome_lists(choices@) =~= outcome_lists(self.choices@));
        EventData {
            id: self.id,
            trigger: self.trigger,
            choices,
            person_index: self.person_index,
        }
    }
}

/// A copy of a list of events.
pub fn clone_events(events: &Vec<EventData>) -> (copy: Vec<EventData>)
    ensures
        event_views(copy@) == event_views(events@),
{
    let mut copy: Vec<EventData> = Vec::new();
    for i in 0..events.len()
        invariant
            copy.len() == i,
            forall|j: int| 0 <= j < i ==> (#[trigger] copy@[j])@ == events@[j]@,
    {
        copy.push(events[i].clone());
    }
    assert(event_views(copy@) =~= event_views(events@));
    copy
}

} // verus!
