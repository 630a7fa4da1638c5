//! Support cards, the friend among them, and the factors inherited from parents.

use crate::data::{GameData, GameError};
use vstd::prelude::*;

verus! {

/// Card types at or above this one are friends rather than training partners.
pub const FRIEND_TYPE: u32 = 5;

/// Number of card types that are counted.
pub const CARD_TYPES: usize = 7;

/// Lasting effects of a support card, in percent.
#[derive(Clone, Copy, Debug, PartialEq, Eq)]
pub struct CardEffect {
    /// Added to the gains of a race.
    pub saihou: i32,
    /// Added to the gains of friend events.
    pub event_bonus: i32,
    /// Added to the energy that friend events restore.
    pub vital_bonus: i32,
}

/// What is known of a support card before the career.
#[derive(Clone, Copy, Debug, PartialEq, Eq)]
pub struct CardData {
    /// Zero to four: trains one attribute; from five on: a friend.
    pub card_type: u32,
    /// What the card adds at the start: the five attributes, then skill points.
    pub initial_bonus: [i32; 6],
    pub effect: CardEffect,
}

/// A support card of the deck.
#[derive(Clone, Copy, Debug, PartialEq, Eq)]
pub struct SupportCard {
    pub card_id: u32,
    /// Zero to four: trains one attribute; from five on: a friend.
    pub card_type: u32,
    /// What the card adds at the start: the five attributes, then skill points.
    pub initial_bonus: [i32; 6],
    pub effect: CardEffect,
}

/// The card of this id, as the tables describe it.
pub open spec fn described_card(card_id: u32, known: CardData) -> SupportCard {
    SupportCard {
        card_id,
        card_type: known.card_type,
        initial_bonus: known.initial_bonus,
        effect: known.effect,
    }
}

impl SupportCard {
    /// The card of this id.
    pub fn new(data: &GameData, card_id: u32) -> (card: Result<Self, GameError>)
        ensures
            card == (if data.cards@.contains_key(card_id) {
                Ok::<SupportCard, GameError>(described_card(card_id, data.cards@[card_id]))
            } else {
                Err(GameError::UnknownCard { card_id })
            }),
    {
        broadcast use vstd::std_specs::hash::group_hash_axioms;

        match data.cards.get(&card_id) {
            Some(known) => Ok(
                SupportCard {
                    card_id,
                    card_type: known.card_type,
                    initial_bonus: known.initial_bonus,
                    effect: known.effect,
                },
            ),
            None => Err(GameError::UnknownCard { card_id }),
        }
    }
}

/// How far the outings with the friend have come.
#[derive(Clone, Copy, Debug, PartialEq, Eq, Structural)]
pub enum FriendOutState {
    UnClicked,
    AfterUnlock,
}

/// Number of outings that a friend offers.
pub const OUTINGS: usize = 5;

/// The friend of the deck.
#[derive(Debug, PartialEq)]
pub struct FriendState {
    /// The friend's card, where the deck has one.
    pub card_id: Option<u32>,
    /// The place of that card in the deck.
    pub person_index: usize,
    pub out_state: FriendOutState,
    /// For each outing, whether it has been used.
    pub out_used: Vec<bool>,
    pub event_bonus: i32,
    pub vital_bonus: i32,
}

impl FriendState {
    /// Whether this is nobody, without outings.
    pub open spec fn is_blank(self) -> bool {
        &&& self.card_id is None
        &&& self.person_index == 0
        &&& self.out_state == FriendOutState::UnClicked
        &&& self.out_used@.len() == 0
        &&& self.event_bonus == 0
        &&& self.vital_bonus == 0
    }

    /// Whether both hold the same.
    pub open spec fn same(self, other: Self) -> bool {
        &&& self.card_id == other.card_id
        &&& self.person_index == other.person_index
        &&& self.out_state == other.out_state
        &&& self.out_used@ == other.out_used@
        &&& self.event_bonus == other.event_bonus
        &&& self.vital_bonus == other.vital_bonus
    }

    /// The friend at the start: no outing unlocked or used, bonuses from the card.
    pub fn new(card: Option<SupportCard>, person_index: usize) -> (friend: Self)
        ensures
            friend.card_id == (match card {
                Some(c) => Some(c.card_id),
                None => None::<u32>,
            }),
            friend.person_index == person_index,
            friend.out_state == FriendOutState::UnClicked,
            friend.out_used@ == Seq::new(OUTINGS as nat, |i: int| false),
            friend.event_bonus == (match card {
                Some(c) => c.effect.event_bonus,
                None => 0,
            }),
            friend.vital_bonus == (match card {
                Some(c) => c.effect.vital_bonus,
                None => 0,
            }),
    {
        let mut out_used: Vec<bool> = Vec::new();
        for i in 0..OUTINGS
            invariant
                out_used@ == Seq::new(i as nat, |j: int| false),
        {
            out_used.push(false);
            assert(out_used@ =~= Seq::new((i + 1) as nat, |j: int| false));
        }
        match card {
            Some(c) => FriendState {
                card_id: Some(c.card_id),
                person_index,
                out_state: FriendOutState::UnClicked,
                out_used,
                event_bonus: c.effect.event_bonus,
                vital_bonus: c.effect.vital_bonus,
            },
            None => FriendState {
                card_id: None,
                person_index,
                out_state: FriendOutState::UnClicked,
                out_used,
                event_bonus: 0,
                vital_bonus: 0,
            },
        }
    }
}

impl Default for FriendState {
    /// No friend, and no outings.
    fn default() -> (friend: Self)
        ensures
            friend.is_blank(),
    {
        FriendState {
            card_id: None,
            person_index: 0,
            out_state: FriendOutState::UnClicked,
            out_used: Vec::new(),
            event_bonus: 0,
            vital_bonus: 0,
        }
    }
}

impl Clone for FriendState {
    fn clone(&self) -> (copy: Self)
        ensures
            copy.same(*self),
    {
        let out_used: Vec<bool> = self.out_used.clone();
        assert(out_used@ =~= self.out_used@);
        FriendState {
            card_id: self.card_id,
            person_index: self.person_index,
            out_state: self.out_state,
            out_used,
            event_bonus: self.event_bonus,
            vital_bonus: self.vital_bonus,
        }
    }
}

/// Factors inherited from the parents.
#[derive(Clone, Copy, Debug, PartialEq, Eq)]
pub struct InheritInfo {
    pub blue_count: [i32; 5],
    pub extra_count: [i32; 6],
}

impl InheritInfo {
    /// Whether nothing is inherited.
    pub open spec fn is_blank(self) -> bool {
        &&& forall|i: int| 0 <= i < 5 ==> #[trigger] self.blue_count@[i] == 0
        &&& forall|i: int| 0 <= i < 6 ==> #[trigger] self.extra_count@[i] == 0
    }
}

impl Default for InheritInfo {
    fn default() -> (inherit: Self)
        ensures
            inherit.is_blank(),
    {
        InheritInfo { blue_count: [0; 5], extra_count: [0; 6] }
    }
}

/// What the inherited factors add at the start of a career.
#[derive(Clone, Copy, Debug, PartialEq, Eq)]
pub struct InheritGain {
    /// Added to the five attributes.
    pub status: [i32; 5],
    /// Added to the limits of the five attributes.
    pub limit: [i32; 5],
}

} // verus!
