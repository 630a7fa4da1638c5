//! What the rules of a turn come to.

use crate::data::{FreeRaceData, GameData};
use crate::game::rules::{enough_races, race_check_due};
use crate::game::BaseGame;
use crate::uma::{raced, races_between, Uma};
use vstd::prelude::*;

verus! {

/// The turns from `start` to `end`, both included, in which the trainee raced.
pub open spec fn raced_turns(uma: Uma, start: int, end: int) -> Set<int> {
    Set::new(|turn: int| start <= turn <= end && 0 <= turn < 78 && uma.races@[turn])
}

proof fn lemma_raced_turns(uma: Uma, start: int, end: int)
    requires
        start <= end + 1,
    ensures
        raced_turns(uma, start, end).finite(),
        raced_turns(uma, start, end).len() == races_between(uma.races@, start, end + 1),
    decreases end + 1 - start,
{
    if start == end + 1 {
        assert(raced_turns(uma, start, end) =~= Set::empty());
    } else {
        lemma_raced_turns(uma, start, end - 1);
        let before = raced_turns(uma, start, end - 1);
        assert(!before.contains(end));
        if raced(uma.races@, end) {
            assert(raced_turns(uma, start, end) =~= before.insert(end));
        } else {
            assert(raced_turns(uma, start, end) =~= before);
        }
    }
}

proof fn lemma_no_raced_turns(uma: Uma, start: int, end: int)
    requires
        end < start,
    ensures
        raced_turns(uma, start, end) == Set::<int>::empty(),
        races_between(uma.races@, start, end + 1) == 0,
{
    assert(raced_turns(uma, start, end) =~= Set::empty());
}

/// Whether the stretch ended in the turn before and has fewer turns with a race than it asks
/// for. A negative turn stands for the unsigned number of 32 bits with the same bits.
pub open spec fn lacks_races(game: BaseGame, stretch: FreeRaceData) -> bool {
    &&& stretch.end_turn + 1 == if game.turn >= 0 {
        game.turn as int
    } else {
        game.turn + 4_294_967_296
    }
    &&& raced_turns(game.uma, stretch.start_turn as int, stretch.end_turn as int).len()
        < stretch.count
}

/// The races of a stretch are counted by the turns in which the trainee raced, from its first
/// turn to its last.
pub proof fn law_races_are_counted_by_turns(uma: &Uma, stretch: &FreeRaceData, count: u32)
    requires
        call_ensures(Uma::count_free_race, (uma, stretch), count),
    ensures
        count == raced_turns(*uma, stretch.start_turn as int, stretch.end_turn as int).len(),
{
    if stretch.start_turn <= stretch.end_turn {
        lemma_raced_turns(*uma, stretch.start_turn as int, stretch.end_turn as int);
    } else {
        lemma_no_raced_turns(*uma, stretch.start_turn as int, stretch.end_turn as int);
    }
}

/// With the check on and the trainee known, a career fails just where some stretch that ended
/// in the turn before has fewer turns with a race than it asks for, however many that is; and
/// it passes where each of them has as many or more. With the check off, or the trainee
/// unknown, it passes.
pub proof fn law_a_career_fails_for_want_of_races(game: &BaseGame, data: &GameData, passed: bool)
    requires
        call_ensures(BaseGame::check_free_race, (game, data), passed),
    ensures
        game.skip_free_race_check ==> passed,
        !data.umas@.contains_key(game.uma.uma_id) ==> passed,
        !game.skip_free_race_check && data.umas@.contains_key(game.uma.uma_id) ==> (!passed
            <==> exists|i: int|
            0 <= i < data.umas@[game.uma.uma_id].free_races@.len() && lacks_races(
                *game,
                #[trigger] data.umas@[game.uma.uma_id].free_races@[i],
            )),
{
    let stretches = data.umas@[game.uma.uma_id].free_races@;
    assert forall|i: int| 0 <= i < stretches.len() implies races_between(
        game.uma.races@,
        (#[trigger] stretches[i]).start_turn as int,
        stretches[i].end_turn + 1,
    ) == raced_turns(
        game.uma,
        stretches[i].start_turn as int,
        stretches[i].end_turn as int,
    ).len() by {
        if stretches[i].start_turn <= stretches[i].end_turn {
            lemma_raced_turns(
                game.uma,
                stretches[i].start_turn as int,
                stretches[i].end_turn as int,
            );
        } else {
            lemma_no_raced_turns(
                game.uma,
                stretches[i].start_turn as int,
                stretches[i].end_turn as int,
            );
        }
    }
    if !game.skip_free_race_check && data.umas@.contains_key(game.uma.uma_id) {
        if !passed {
            let i = choose|i: int|
                0 <= i < stretches.len() && race_check_due(game.turn, #[trigger] stretches[i])
                    && !enough_races(game.uma, stretches[i]);
            assert(lacks_races(*game, stretches[i]));
        }
    }
}

/// More races never make a career fail that passes without them.
pub proof fn law_more_races_never_hurt(
    game: &BaseGame,
    keener: &BaseGame,
    data: &GameData,
    passed: bool,
    keener_passed: bool,
)
    requires
        call_ensures(BaseGame::check_free_race, (game, data), passed),
        call_ensures(BaseGame::check_free_race, (keener, data), keener_passed),
        keener.turn == game.turn,
        keener.uma.uma_id == game.uma.uma_id,
        keener.skip_free_race_check == game.skip_free_race_check,
        forall|t: int| 0 <= t < 78 && #[trigger] game.uma.races@[t] ==> keener.uma.races@[t],
    ensures
        passed ==> keener_passed,
{
    law_a_career_fails_for_want_of_races(game, data, passed);
    law_a_career_fails_for_want_of_races(keener, data, keener_passed);
    if !keener_passed {
        let stretches = data.umas@[game.uma.uma_id].free_races@;
        let i = choose|i: int|
            0 <= i < stretches.len() && lacks_races(*keener, #[trigger] stretches[i]);
        let start = stretches[i].start_turn as int;
        let end = stretches[i].end_turn as int;
        let few = raced_turns(game.uma, start, end);
        let more = raced_turns(keener.uma, start, end);
        if start <= end {
            lemma_raced_turns(game.uma, start, end);
            lemma_raced_turns(keener.uma, start, end);
            assert(few.subset_of(more));
            vstd::set_lib::lemma_len_subset(few, more);
        } else {
            lemma_no_raced_turns(game.uma, start, end);
            lemma_no_raced_turns(keener.uma, start, end);
        }
        assert(lacks_races(*game, stretches[i]));
    }
}

/// A career can be checked whatever its turn and its races, as long as no stretch ends in the
/// last turn that can be written.
pub proof fn law_careers_can_be_checked(game: &BaseGame, data: &GameData)
    requires
        !game.skip_free_race_check && data.umas@.contains_key(game.uma.uma_id) ==> forall|i: int|
            0 <= i < data.umas@[game.uma.uma_id].free_races@.len() ==> (
            #[trigger] data.umas@[game.uma.uma_id].free_races@[i]).end_turn < u32::MAX,
    ensures
        call_requires(BaseGame::check_free_race, (game, data)),
{
}

/// Races of the player's own choice are open from turn 13 to turn 71, and in no other turn.
pub proof fn law_when_races_are_open(game: &BaseGame, open: bool)
    requires
        call_ensures(BaseGame::can_self_race, (game,), open),
    ensures
        open <==> 13 <= game.turn <= 71,
{
}

/// An outing with the friend is open just where the outings are unlocked, the turn is before
/// 72 and one of them is not used yet.
pub proof fn law_when_outings_are_open(game: &BaseGame, open: bool)
    requires
        call_ensures(BaseGame::can_friend_outing, (game,), open),
    ensures
        open <==> game.friend.out_state is AfterUnlock && game.turn <= 71
            && game.friend.out_used@.contains(false),
{
    let used = game.friend.out_used@;
    if used.contains(false) {
        assert(!used[used.index_of(false)]);
    }
    if open {
        let i = choose|i: int| 0 <= i < used.len() && !#[trigger] used[i];
        assert(used[i] == false);
    }
}

/// The summer camp takes the turns 36 to 39 and 60 to 63.
pub proof fn law_when_the_camp_is(game: &BaseGame, camp: bool)
    requires
        call_ensures(BaseGame::is_xiahesu, (game,), camp),
    ensures
        camp <==> 36 <= game.turn <= 39 || 60 <= game.turn <= 63,
{
}

/// A facility is at level five from a count of sixteen on, at level zero from minus four down,
/// and else at the level of which four counts each make up one, from level one on.
pub proof fn law_four_counts_make_a_level(game: &BaseGame, train: usize, level: usize)
    requires
        call_ensures(BaseGame::base_train_level, (game, train), level),
        train < 5,
    ensures
        ({
            let count = game.train_level_count@[train as int];
            &&& level == 0 <==> count <= -4
            &&& level == 1 <==> -4 < count < 4
            &&& level == 2 <==> 4 <= count < 8
            &&& level == 3 <==> 8 <= count < 12
            &&& level == 4 <==> 12 <= count < 16
            &&& level == 5 <==> 16 <= count
            &&& level <= 5
        }),
{
}

/// A turn is next to another just where both are of one trainee with the same six cards in the
/// same places, and it is that turn or the one after it.
pub proof fn law_what_follows_a_turn(game: &BaseGame, last: &BaseGame, next: bool)
    requires
        call_ensures(BaseGame::is_next_of, (game, last), next),
    ensures
        next <==> game.uma.uma_id == last.uma.uma_id && (game.turn - last.turn == 0 || game.turn
            - last.turn == 1) && forall|i: int|
            0 <= i < 6 ==> (#[trigger] game.deck@[i]).card_id == last.deck@[i].card_id,
{
}

/// Any two turns with complete decks can be held against each other, short of the last turn
/// that can be written.
pub proof fn law_turns_can_be_compared(game: &BaseGame, last: &BaseGame)
    requires
        last.turn < i32::MAX,
        game.deck@.len() >= 6,
        last.deck@.len() >= 6,
    ensures
        call_requires(BaseGame::is_next_of, (game, last)),
{
}

/// Whatever the career, it can be asked for races, outings, camp and levels.
pub proof fn law_rules_can_always_be_asked_for(game: &BaseGame, stretch: &FreeRaceData)
    ensures
        call_requires(BaseGame::can_self_race, (game,)),
        call_requires(BaseGame::can_friend_outing, (game,)),
        call_requires(BaseGame::is_xiahesu, (game,)),
        call_requires(Uma::count_free_race, (&game.uma, stretch)),
        forall|train: usize|
            train < 5 ==> #[trigger] call_requires(BaseGame::base_train_level, (game, train)),
{
}

} // verus!
