//! The trainee.

use crate::data::{FreeRaceData, GameData, GameError, UmaData};
use crate::event::{ActionValue, Gain};
use vstd::prelude::*;

verus! {

/// Number of turns of a career.
pub const TURNS: usize = 78;

/// Conditions that the trainee has picked up.
#[derive(Clone, Copy, Debug, PartialEq, Eq)]
pub struct UmaFlags {
    /// The trainee has the knack.
    pub qiezhe: bool,
}

/// The trainee.
#[derive(Clone, Copy, Debug, PartialEq, Eq)]
pub struct Uma {
    pub uma_id: u32,
    pub five_status: [i32; 5],
    /// The limits of the five attributes.
    pub five_status_limit: [i32; 5],
    pub skill_pt: i32,
    pub vital: i32,
    pub max_vital: i32,
    pub motivation: i32,
    /// What is added to the gains of a race, in percent.
    pub race_bonus: i32,
    pub flags: UmaFlags,
    /// For each turn, whether the trainee raced in it.
    pub races: [bool; TURNS],
}

/// Whether the value can be held in an `i32`.
pub open spec fn in_range(x: int) -> bool {
    i32::MIN <= x <= i32::MAX
}

/// Whether the trainee raced in this turn.
pub open spec fn raced(races: Seq<bool>, turn: int) -> bool {
    0 <= turn < races.len() && races[turn]
}

/// In how many turns from `start` up to, but not including, `stop` the trainee raced.
pub open spec fn races_between(races: Seq<bool>, start: int, stop: int) -> int
    decreases stop - start,
{
    if stop <= start {
        0
    } else {
        races_between(races, start, stop - 1) + if raced(races, stop - 1) {
            1int
        } else {
            0
        }
    }
}

/// Turns after the last one of a career hold no race.
proof fn lemma_no_races_past_the_end(races: Seq<bool>, start: int, end: int, stop: int)
    requires
        start <= end <= stop,
        races.len() <= end,
    ensures
        races_between(races, start, stop) == races_between(races, start, end),
    decreases stop - end,
{
    if end < stop {
        lemma_no_races_past_the_end(races, start, end, stop - 1);
    }
}

impl Uma {
    /// Whether this is nobody: every number is zero and nothing has happened.
    pub open spec fn is_blank(self) -> bool {
        &&& self.uma_id == 0
        &&& forall|i: int| 0 <= i < 5 ==> #[trigger] self.five_status@[i] == 0
        &&& forall|i: int| 0 <= i < 5 ==> #[trigger] self.five_status_limit@[i] == 0
        &&& self.skill_pt == 0
        &&& self.vital == 0
        &&& self.max_vital == 0
        &&& self.motivation == 0
        &&& self.race_bonus == 0
        &&& !self.flags.qiezhe
        &&& forall|t: int| 0 <= t < TURNS ==> !(#[trigger] self.races@[t])
    }

    /// Whether every component stays in range when the gain is added.
    pub open spec fn can_add(self, gain: Gain) -> bool {
        &&& forall|i: int|
            0 <= i < 5 ==> in_range(#[trigger] self.five_status@[i] + gain.status_pt[i])
        &&& in_range(self.skill_pt + gain.status_pt[5])
        &&& in_range(self.vital + gain.vital)
        &&& in_range(self.max_vital + gain.max_vital)
        &&& in_range(self.motivation + gain.motivation)
    }

    /// Whether `after` is this trainee with the gain added: attributes, skill points,
    /// energy, its maximum and motivation each grow by their component; all else stays.
    pub open spec fn plus(self, gain: Gain, after: Uma) -> bool {
        &&& forall|i: int|
            0 <= i < 5 ==> #[trigger] after.five_status@[i] == self.five_status@[i]
                + gain.status_pt[i]
        &&& after.skill_pt == self.skill_pt + gain.status_pt[5]
        &&& after.vital == self.vital + gain.vital
        &&& after.max_vital == self.max_vital + gain.max_vital
        &&& after.motivation == self.motivation + gain.motivation
        &&& after.same_but_gains(self)
    }

    /// Whether both agree on all that gains never touch.
    pub open spec fn same_but_gains(self, other: Uma) -> bool {
        &&& self.uma_id == other.uma_id
        &&& self.five_status_limit == other.five_status_limit
        &&& self.race_bonus == other.race_bonus
        &&& self.flags == other.flags
        &&& self.races == other.races
    }

    /// The trainee at the start of a career, with the limits that the scenario sets.
    pub fn new(data: &GameData, uma_id: u32, limit_base: [i32; 5]) -> (uma: Result<Self, GameError>)
        ensures
            uma is Ok <==> data.umas@.contains_key(uma_id),
            uma matches Err(e) ==> e == (GameError::UnknownUma { uma_id }),
            uma matches Ok(u) ==> u.starts_as(uma_id, data.umas@[uma_id], limit_base),
    {
        broadcast use vstd::std_specs::hash::group_hash_axioms;

        match data.umas.get(&uma_id) {
            Some(known) => Ok(
                Uma {
                    uma_id,
                    five_status: known.five_status,
                    five_status_limit: limit_base,
                    skill_pt: known.skill_pt,
                    vital: known.vital,
                    max_vital: known.max_vital,
                    motivation: known.motivation,
                    race_bonus: 0,
                    flags: UmaFlags { qiezhe: false },
                    races: [false; TURNS],
                },
            ),
            None => Err(GameError::UnknownUma { uma_id }),
        }
    }

    /// Whether this is the trainee as the tables describe it, before cards and inheritance.
    pub open spec fn starts_as(self, uma_id: u32, known: UmaData, limit_base: [i32; 5]) -> bool {
        &&& self.uma_id == uma_id
        &&& self.five_status == known.five_status
        &&& self.five_status_limit == limit_base
        &&& self.skill_pt == known.skill_pt
        &&& self.vital == known.vital
        &&& self.max_vital == known.max_vital
        &&& self.motivation == known.motivation
        &&& self.race_bonus == 0
        &&& !self.flags.qiezhe
        &&& forall|t: int| 0 <= t < TURNS ==> !(#[trigger] self.races@[t])
    }

    /// What the tables hold of this trainee.
    pub fn get_data<'a>(&self, data: &'a GameData) -> (known: Result<&'a UmaData, GameError>)
        ensures
            known is Ok <==> data.umas@.contains_key(self.uma_id),
            known matches Ok(k) ==> *k == data.umas@[self.uma_id],
            known matches Err(e) ==> e == (GameError::UnknownUma { uma_id: self.uma_id }),
    {
        broadcast use vstd::std_specs::hash::group_hash_axioms;

        match data.umas.get(&self.uma_id) {
            Some(known) => Ok(known),
            None => Err(GameError::UnknownUma { uma_id: self.uma_id }),
        }
    }

    /// Adds the gains of an outcome. No limit is applied: an attribute may pass its limit.
    pub fn add_value(&mut self, value: &ActionValue)
        requires
            old(self).can_add(value@),
        ensures
            old(self).plus(value@, *final(self)),
    {
        for i in 0..5usize
            invariant
                old(self).can_add(value@),
                forall|j: int|
                    0 <= j < i ==> #[trigger] self.five_status@[j] == old(self).five_status@[j]
                        + value.status_pt@[j],
                forall|j: int|
                    i <= j < 5 ==> #[trigger] self.five_status@[j] == old(self).five_status@[j],
                self.skill_pt == old(self).skill_pt,
                self.vital == old(self).vital,
                self.max_vital == old(self).max_vital,
                self.motivation == old(self).motivation,
                self.same_but_gains(*old(self)),
        {
            assert(in_range(old(self).five_status@[i as int] + value@.status_pt[i as int]));
            self.five_status[i] = self.five_status[i] + value.status_pt[i];
        }
        self.skill_pt = self.skill_pt + value.status_pt[5];
        self.vital = self.vital + value.vital;
        self.max_vital = self.max_vital + value.max_vital;
        self.motivation = self.motivation + value.motivation;
    }

    /// In how many turns of the stretch the trainee raced, its last turn included.
    pub fn count_free_race(&self, free_race: &FreeRaceData) -> (count: u32)
        ensures
            count == races_between(
                self.races@,
                free_race.start_turn as int,
                free_race.end_turn + 1,
            ),
    {
        let mut count: u32 = 0;
        let mut turn: u32 = free_race.start_turn;
        while turn <= free_race.end_turn && turn < TURNS as u32
            invariant
                free_race.start_turn <= turn,
                turn <= free_race.end_turn + 1 || turn == free_race.start_turn,
                turn <= TURNS || turn == free_race.start_turn,
                count <= turn - free_race.start_turn,
                count == races_between(self.races@, free_race.start_turn as int, turn as int),
            decreases TURNS - turn,
        {
            if self.races[turn as usize] {
                count = count + 1;
            }
            turn = turn + 1;
        }
        proof {
            let start = free_race.start_turn as int;
            let stop = free_race.end_turn + 1;
            if turn < stop {
                lemma_no_races_past_the_end(self.races@, start, turn as int, stop);
            }
        }
        count
    }
}

impl Default for Uma {
    fn default() -> (uma: Self)
        ensures
            uma.is_blank(),
    {
        Uma {
            uma_id: 0,
            five_status: [0; 5],
            five_status_limit: [0; 5],
            skill_pt: 0,
            vital: 0,
            max_vital: 0,
            motivation: 0,
            race_bonus: 0,
            flags: UmaFlags { qiezhe: false },
            races: [false; TURNS],
        }
    }
}

} // verus!
