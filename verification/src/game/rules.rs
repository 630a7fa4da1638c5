//! Rules of a turn that every scenario shares.

use crate::card::{FriendOutState, SupportCard};
use crate::data::{FreeRaceData, GameData};
use crate::game::setup::DECK_SIZE;
use crate::game::BaseGame;
use crate::uma::{races_between, Uma};
use vstd::prelude::*;

verus! {

/// The first turn in which races of the player's own choice are open.
pub const FIRST_RACE_TURN: i32 = 13;

/// The first turn of the finals.
pub const FINALS_TURN: i32 = 72;

/// Highest level of a training facility.
pub const MAX_TRAIN_LEVEL: i32 = 5;

/// The turn as an unsigned number of 32 bits: a negative one wraps around.
pub open spec fn unsigned_turn(turn: i32) -> int {
    if turn >= 0 {
        turn as int
    } else {
        turn + 0x1_0000_0000
    }
}

/// Whether the races of this stretch are checked in this turn: the one after its last.
pub open spec fn race_check_due(turn: i32, free_race: FreeRaceData) -> bool {
    unsigned_turn(turn) == free_race.end_turn + 1
}

/// Whether the trainee raced as often as the stretch asks for.
pub open spec fn enough_races(uma: Uma, free_race: FreeRaceData) -> bool {
    races_between(uma.races@, free_race.start_turn as int, free_race.end_turn + 1)
        >= free_race.count
}

/// Whether every stretch that is checked in this turn has its races.
pub open spec fn free_races_met(turn: i32, uma: Uma, free_races: Seq<FreeRaceData>) -> bool {
    forall|i: int|
        0 <= i < free_races.len() && race_check_due(turn, #[trigger] free_races[i])
            ==> enough_races(uma, free_races[i])
}

/// Whether the turn after each stretch is in range, as far as the stretches are looked at: up
/// to the first one that is due and lacks races.
pub open spec fn stretches_fit(turn: i32, uma: Uma, free_races: Seq<FreeRaceData>) -> bool {
    forall|i: int|
        0 <= i < free_races.len() && free_races_met(turn, uma, free_races.take(i)) ==> (
        #[trigger] free_races[i]).end_turn < u32::MAX
}

/// The quotient by four, rounded toward zero.
pub open spec fn quarter(count: int) -> int {
    if count >= 0 {
        count / 4
    } else {
        -((-count) / 4)
    }
}

/// The facility level that a level count stands for.
pub open spec fn train_level(count: int) -> int {
    let level = quarter(count) + 1;
    if level < 0 {
        0
    } else if level > MAX_TRAIN_LEVEL {
        MAX_TRAIN_LEVEL as int
    } else {
        level
    }
}

/// Whether the two decks agree in their first `n` cards.
pub open spec fn same_cards(a: Seq<SupportCard>, b: Seq<SupportCard>, n: int) -> bool {
    forall|i: int| 0 <= i < n ==> (#[trigger] a[i]).card_id == b[i].card_id
}

/// Whether the decks can be held against each other: both are complete, or they differ
/// before the shorter one ends.
pub open spec fn decks_comparable(a: Seq<SupportCard>, b: Seq<SupportCard>) -> bool {
    ||| a.len() >= DECK_SIZE && b.len() >= DECK_SIZE
    ||| exists|i: int|
        0 <= i < DECK_SIZE && i < a.len() && i < b.len() && (#[trigger] a[i]).card_id
            != b[i].card_id
}

impl BaseGame {
    /// Whether this turn is open for races of the player's own choice.
    pub open spec fn spec_can_self_race(self) -> bool {
        FIRST_RACE_TURN <= self.turn < FINALS_TURN
    }

    /// Whether an outing with the friend is still to be had.
    pub open spec fn outing_left(self) -> bool {
        exists|i: int| 0 <= i < self.friend.out_used@.len() && !#[trigger] self.friend.out_used@[i]
    }

    /// Whether an outing with the friend is open in this turn.
    pub open spec fn spec_can_friend_outing(self) -> bool {
        &&& self.friend.out_state == FriendOutState::AfterUnlock
        &&& self.turn < FINALS_TURN
        &&& self.outing_left()
    }

    /// Whether this is a turn of the summer camp.
    pub open spec fn spec_is_xiahesu(self) -> bool {
        36 <= self.turn < 40 || 60 <= self.turn < 64
    }

    /// Whether the career goes on as far as races of the player's own choice are concerned.
    pub open spec fn free_race_passed(self, data: GameData) -> bool {
        self.skip_free_race_check || !data.umas@.contains_key(self.uma.uma_id) || free_races_met(
            self.turn,
            self.uma,
            data.umas@[self.uma.uma_id].free_races@,
        )
    }

    /// Whether this turn is that of `last`, or the one after it, of the same trainee.
    pub open spec fn turn_follows(self, last: Self) -> bool {
        self.uma.uma_id == last.uma.uma_id && (self.turn == last.turn || self.turn == last.turn
            + 1)
    }

    /// Whether this is the same turn of the same career as `last`, or the one after it.
    pub open spec fn follows(self, last: Self) -> bool {
        self.turn_follows(last) && same_cards(self.deck@, last.deck@, DECK_SIZE as int)
    }

    /// Whether the turn is open for races of the player's own choice: from turn 13 on, and
    /// before the finals.
    pub fn can_self_race(&self) -> (open: bool)
        ensures
            open == self.spec_can_self_race(),
    {
        self.turn >= FIRST_RACE_TURN && self.turn < FINALS_TURN
    }

    /// Whether an outing with the friend is open: it is unlocked, the finals have not begun
    /// and not every outing is used.
    pub fn can_friend_outing(&self) -> (open: bool)
        ensures
            open == self.spec_can_friend_outing(),
    {
        let mut left: bool = false;
        for i in 0..self.friend.out_used.len()
            invariant
                left == exists|j: int| 0 <= j < i && !#[trigger] self.friend.out_used@[j],
        {
            if !self.friend.out_used[i] {
                left = true;
            }
        }
        self.friend.out_state == FriendOutState::AfterUnlock && self.turn < FINALS_TURN && left
    }

    /// The facility level of a training, at most five.
    pub fn base_train_level(&self, train: usize) -> (level: usize)
        requires
            train < 5,
        ensures
            level == train_level(self.train_level_count@[train as int] as int),
    {
        let count: i32 = self.train_level_count[train];
        let quotient: i32 = if count >= 0 {
            count / 4
        } else {
            -((-(count as i64)) / 4) as i32
        };
        let level: i32 = quotient + 1;
        if level < 0 {
            0
        } else if level > MAX_TRAIN_LEVEL {
            MAX_TRAIN_LEVEL as usize
        } else {
            level as usize
        }
    }

    /// Whether this is a turn of the summer camp.
    pub fn is_xiahesu(&self) -> (camp: bool)
        ensures
            camp == self.spec_is_xiahesu(),
    {
        (self.turn >= 36 && self.turn < 40) || (self.turn >= 60 && self.turn < 64)
    }

    /// Whether the races of the player's own choice have been run.
    ///
    /// Each stretch is checked only in the turn after its last. Where the check is switched
    /// off, or nothing is known of the trainee, the answer is yes.
    pub fn check_free_race(&self, data: &GameData) -> (passed: bool)
        requires
            !self.skip_free_race_check && data.umas@.contains_key(self.uma.uma_id) ==> stretches_fit(
                self.turn,
                self.uma,
                data.umas@[self.uma.uma_id].free_races@,
            ),
        ensures
            passed == self.free_race_passed(*data),
    {
        if self.skip_free_race_check {
            return true;
        }
        match self.uma.get_data(data) {
            Ok(known) => {
                let turn: u32 = self.turn as u32;
                let t: i32 = self.turn;
                assert(t >= 0 ==> (t as u32) == t) by (bit_vector);
                assert(t < 0 ==> (t as u32) == t + 0x1_0000_0000) by (bit_vector);
                for i in 0..known.free_races.len()
                    invariant
                        *known == data.umas@[self.uma.uma_id],
                        data.umas@.contains_key(self.uma.uma_id),
                        !self.skip_free_race_check,
                        turn == unsigned_turn(self.turn),
                        stretches_fit(self.turn, self.uma, known.free_races@),
                        forall|j: int|
                            0 <= j < i && race_check_due(self.turn, #[trigger] known.free_races@[j])
                                ==> enough_races(self.uma, known.free_races@[j]),
                {
                    assert(free_races_met(
                        self.turn,
                        self.uma,
                        known.free_races@.take(i as int),
                    ));
                    let free_race: FreeRaceData = known.free_races[i];
                    if turn == free_race.end_turn + 1 {
                        let count: u32 = self.uma.count_free_race(&free_race);
                        if count < free_race.count {
                            assert(race_check_due(self.turn, known.free_races@[i as int]));
                            return false;
                        }
                    }
                }
                true
            },
            Err(_) => true,
        }
    }

    /// Whether this is the same turn of the same career as `last`, or the one after it.
    pub fn is_next_of(&self, last: &BaseGame) -> (next: bool)
        requires
            self.uma.uma_id == last.uma.uma_id && self.turn != last.turn ==> last.turn < i32::MAX,
            self.turn_follows(*last) ==> decks_comparable(self.deck@, last.deck@),
        ensures
            next == self.follows(*last),
    {
        if self.uma.uma_id == last.uma.uma_id && (self.turn == last.turn || self.turn == last.turn
            + 1) {
            for i in 0..DECK_SIZE
                invariant
                    decks_comparable(self.deck@, last.deck@),
                    same_cards(self.deck@, last.deck@, i as int),
            {
                if self.deck[i].card_id != last.deck[i].card_id {
                    assert(self.deck@[i as int].card_id != last.deck@[i as int].card_id);
                    return false;
                }
            }
            return true;
        }
        false
    }
}

} // verus!
