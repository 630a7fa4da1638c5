//! The state of a career that every scenario shares.

pub mod happening;
pub mod report;
pub mod rules;
pub mod setup;

use crate::card::{FriendState, InheritInfo, SupportCard};
use crate::counts::{no_counts, EventCounts};
use crate::event::{clone_events, event_views, EventData};
use crate::uma::Uma;
use std::collections::HashSet;
use vstd::prelude::*;

verus! {

/// A stage of a turn.
#[derive(Debug, PartialEq)]
pub enum TurnStage {
    /// Nothing has happened in the turn yet.
    Begin,
    /// A later stage, by the name that the scenario gives it.
    Named(String),
}

impl TurnStage {
    /// The name of the stage.
    pub open spec fn spec_name(self) -> Seq<char> {
        match self {
            TurnStage::Begin => "Begin"@,
            TurnStage::Named(name) => name@,
        }
    }

    /// The name of the stage.
    pub fn name(&self) -> (name: &str)
        ensures
            name@ == self.spec_name(),
    {
        match self {
            TurnStage::Begin => "Begin",
            TurnStage::Named(name) => name.as_str(),
        }
    }
}

impl Clone for TurnStage {
    fn clone(&self) -> (copy: Self)
        ensures
            copy == *self,
    {
        match self {
            TurnStage::Begin => TurnStage::Begin,
            TurnStage::Named(name) => TurnStage::Named(name.clone()),
        }
    }
}

/// The state of a career, apart from the persons, which differ between scenarios.
#[derive(Debug, PartialEq)]
pub struct BaseGame {
    /// The turn, from 0 to 77.
    pub turn: i32,
    pub stage: TurnStage,
    pub uma: Uma,
    pub deck: Vec<SupportCard>,
    /// Inherited factors; they do not change in the course of a career.
    pub inherit: InheritInfo,
    pub friend: FriendState,
    /// For each training, four times its facility level, counted from zero.
    pub train_level_count: [i32; 5],
    /// For each training, the persons at it, by index; -1 for nobody.
    pub distribution: Vec<Vec<i32>>,
    /// By how much absence has become rarer.
    pub absent_rate_drop: i32,
    /// How often each event has been triggered.
    pub events: EventCounts,
    /// Events of this turn that are still to be resolved.
    pub unresolved_events: Vec<EventData>,
    /// How many cards of each type the deck has.
    pub card_type_count: [i32; 7],
    /// The ids of the events with the friend.
    pub friend_event_ids: HashSet<u32>,
    /// Whether missing races of the player's own choice are let pass.
    ///
    /// The real game goes by the number of fans, while this model only knows races. Where
    /// the fans are already there, the game does not fail, and the check would force races
    /// that are not needed. Off unless the player asks for it.
    pub skip_free_race_check: bool,
}

/// What a list of lists holds.
pub open spec fn rows<T>(lists: Seq<Vec<T>>) -> Seq<Seq<T>> {
    Seq::new(lists.len(), |i: int| lists[i]@)
}

impl BaseGame {
    /// Whether both hold the same, field by field.
    pub open spec fn same(self, other: Self) -> bool {
        &&& self.turn == other.turn
        &&& self.stage == other.stage
        &&& self.uma == other.uma
        &&& self.deck@ == other.deck@
        &&& self.inherit == other.inherit
        &&& self.friend.same(other.friend)
        &&& self.train_level_count == other.train_level_count
        &&& rows(self.distribution@) == rows(other.distribution@)
        &&& self.absent_rate_drop == other.absent_rate_drop
        &&& self.events@ == other.events@
        &&& event_views(self.unresolved_events@) == event_views(other.unresolved_events@)
        &&& self.card_type_count == other.card_type_count
        &&& self.friend_event_ids@ == other.friend_event_ids@
        &&& self.skip_free_race_check == other.skip_free_race_check
    }

    /// Whether both agree on all but the trainee and the event counts.
    pub open spec fn same_but_uma_and_events(self, other: Self) -> bool {
        &&& self.turn == other.turn
        &&& self.stage == other.stage
        &&& self.deck == other.deck
        &&& self.inherit == other.inherit
        &&& self.friend == other.friend
        &&& self.train_level_count == other.train_level_count
        &&& self.distribution == other.distribution
        &&& self.absent_rate_drop == other.absent_rate_drop
        &&& self.unresolved_events == other.unresolved_events
        &&& self.card_type_count == other.card_type_count
        &&& self.friend_event_ids == other.friend_event_ids
        &&& self.skip_free_race_check == other.skip_free_race_check
    }
}

/// `Clone` of `std::collections::HashSet`: the copy holds the same ids.
#[verifier::external_body]
fn copy_ids(ids: &HashSet<u32>) -> (copy: HashSet<u32>)
    ensures
        copy@ == ids@,
{
    ids.clone()
}

impl Clone for BaseGame {
    /// A copy that holds the same; changing one leaves the other as it is.
    fn clone(&self) -> (copy: Self)
        ensures
            copy.same(*self),
    {
        let deck: Vec<SupportCard> = self.deck.clone();
        assert(deck@ =~= self.deck@);
        let mut distribution: Vec<Vec<i32>> = Vec::new();
        for i in 0..self.distribution.len()
            invariant
                distribution.len() == i,
                forall|j: int|
                    0 <= j < i ==> (#[trigger] distribution@[j])@ == self.distribution@[j]@,
        {
            let row: Vec<i32> = self.distribution[i].clone();
            assert(row@ =~= self.distribution@[i as int]@);
            distribution.push(row);
        }
        assert(rows(distribution@) =~= rows(self.distribution@));
        BaseGame {
            turn: self.turn,
            stage: self.stage.clone(),
            uma: self.uma,
            deck,
            inherit: self.inherit,
            friend: self.friend.clone(),
            train_level_count: self.train_level_count,
            distribution,
            absent_rate_drop: self.absent_rate_drop,
            events: self.events.clone(),
            unresolved_events: clone_events(&self.unresolved_events),
            card_type_count: self.card_type_count,
            friend_event_ids: copy_ids(&self.friend_event_ids),
            skip_free_race_check: self.skip_free_race_check,
        }
    }
}

impl Default for BaseGame {
    /// A career of nobody, before the first turn.
    fn default() -> (game: Self)
        ensures
            game.turn == 0,
            game.stage == TurnStage::Begin,
            game.uma.is_blank(),
            game.deck@.len() == 0,
            game.inherit.is_blank(),
            game.friend.is_blank(),
            forall|i: int| 0 <= i < 5 ==> #[trigger] game.train_level_count@[i] == 0,
            game.distribution@.len() == 0,
            game.absent_rate_drop == 0,
            game.events@ == no_counts(),
            game.unresolved_events@.len() == 0,
            forall|i: int| 0 <= i < 7 ==> #[trigger] game.card_type_count@[i] == 0,
            game.friend_event_ids@ == Set::<u32>::empty(),
            !game.skip_free_race_check,
    {
        BaseGame {
            turn: 0,
            stage: TurnStage::Begin,
            uma: Uma::default(),
            deck: Vec::new(),
            inherit: InheritInfo::default(),
            friend: FriendState::default(),
            train_level_count: [0; 5],
            distribution: Vec::new(),
            absent_rate_drop: 0,
            events: EventCounts::new(),
            unresolved_events: Vec::new(),
            card_type_count: [0; 7],
            friend_event_ids: HashSet::new(),
            skip_free_race_check: false,
        }
    }
}

} // verus!
