//! The tables that a career is set up from.

use crate::card::CardData;
use crate::event::EventData;
use std::collections::HashMap;
use vstd::prelude::*;

verus! {

/// Why a career could not be set up.
#[derive(Clone, Copy, Debug, PartialEq, Eq)]
pub enum GameError {
    /// No trainee of this id is known.
    UnknownUma { uma_id: u32 },
    /// No support card of this id is known.
    UnknownCard { card_id: u32 },
}

/// A stretch of turns in which a number of races of the player's own choice is due.
#[derive(Clone, Copy, Debug, PartialEq, Eq)]
pub struct FreeRaceData {
    pub start_turn: u32,
    /// The last turn of the stretch.
    pub end_turn: u32,
    /// How many races are due in the stretch.
    pub count: u32,
}

/// What is known of a trainee before the career.
#[derive(Debug)]
pub struct UmaData {
    pub five_status: [i32; 5],
    pub skill_pt: i32,
    pub vital: i32,
    pub max_vital: i32,
    pub motivation: i32,
    pub free_races: Vec<FreeRaceData>,
}

/// All tables.
#[derive(Debug)]
pub struct GameData {
    /// Trainees by id.
    pub umas: HashMap<u32, UmaData>,
    /// Support cards by id.
    pub cards: HashMap<u32, CardData>,
    /// Events with the friend of the deck.
    pub friend_events: Vec<EventData>,
    /// The stages of a support card's story, in order.
    pub card_events: Vec<EventData>,
}

} // verus!
