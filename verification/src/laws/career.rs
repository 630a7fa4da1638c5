//! What a new career is made of.

use crate::card::{FriendOutState, FriendState, InheritGain, InheritInfo, SupportCard};
use crate::data::{GameData, GameError, UmaData};
use crate::event::{event_views, EventData};
use crate::game::setup::{
    bonus_sum, card_sums_fit, cards_known, cards_of, friend_slot, inherited_sums_fit,
    race_bonus_sum, type_count,
};
use crate::game::{rows, BaseGame, TurnStage};
use crate::uma::{in_range, Uma};
use vstd::prelude::*;

verus! {

/// The attributes of a new career are what the tables know of the trainee, plus what each of
/// the six cards brings, plus what was inherited, for every one of the five; nothing is
/// inherited for skill points. The gains of a race are those of the six cards.
pub proof fn law_a_new_trainee_is_the_sum_of_its_parts(
    data: &GameData,
    uma_id: u32,
    deck_ids: &[u32; 6],
    inherit: InheritInfo,
    gain: InheritGain,
    limit_base: [i32; 5],
    made: Result<BaseGame, GameError>,
)
    requires
        call_ensures(BaseGame::new, (data, uma_id, deck_ids, inherit, gain, limit_base), made),
    ensures
        made matches Ok(game) ==> {
            let known = data.umas@[uma_id];
            let brings = |i: int, k: int| data.cards@[deck_ids@[i]].initial_bonus@[k] as int;
            let saihou = |i: int| data.cards@[deck_ids@[i]].effect.saihou as int;
            &&& forall|k: int|
                0 <= k < 5 ==> (#[trigger] game.uma.five_status@[k]) - (known.five_status@[k]
                    + brings(0, k) + brings(1, k) + brings(2, k) + brings(3, k) + brings(4, k)
                    + brings(5, k)) == gain.status@[k]
            &&& game.uma.skill_pt == known.skill_pt + brings(0, 5) + brings(1, 5) + brings(2, 5)
                + brings(3, 5) + brings(4, 5) + brings(5, 5)
            &&& game.uma.race_bonus == saihou(0) + saihou(1) + saihou(2) + saihou(3) + saihou(4)
                + saihou(5)
        },
{
    reveal_with_fuel(bonus_sum, 7);
    reveal_with_fuel(race_bonus_sum, 7);
}

/// Two careers that differ in nothing but what was inherited differ in each attribute by just
/// the difference of what was inherited for it, in each limit likewise, and in skill points
/// and race gains not at all.
pub proof fn law_inheritance_shows_in_full(
    data: &GameData,
    uma_id: u32,
    deck_ids: &[u32; 6],
    inherit: InheritInfo,
    gain: InheritGain,
    other_inherit: InheritInfo,
    other_gain: InheritGain,
    limit_base: [i32; 5],
    game: BaseGame,
    other: BaseGame,
)
    requires
        call_ensures(
            BaseGame::new,
            (data, uma_id, deck_ids, inherit, gain, limit_base),
            Ok::<BaseGame, GameError>(game),
        ),
        call_ensures(
            BaseGame::new,
            (data, uma_id, deck_ids, other_inherit, other_gain, limit_base),
            Ok::<BaseGame, GameError>(other),
        ),
    ensures
        forall|k: int|
            0 <= k < 5 ==> (#[trigger] game.uma.five_status@[k]) - other.uma.five_status@[k]
                == gain.status@[k] - other_gain.status@[k],
        forall|k: int|
            0 <= k < 5 ==> (#[trigger] game.uma.five_status_limit@[k])
                - other.uma.five_status_limit@[k] == gain.limit@[k] - other_gain.limit@[k],
        game.uma.skill_pt == other.uma.skill_pt,
        game.uma.race_bonus == other.uma.race_bonus,
        game.uma.vital == other.uma.vital,
        game.inherit == inherit,
        other.inherit == other_inherit,
{
}

/// Each limit of a new career is the base that the scenario sets plus what was inherited for
/// it, whatever their size. What no card and no parent touches is as the tables have it, and
/// nothing has happened yet: no race, no condition, no event, no count.
pub proof fn law_a_new_career_starts_from_the_tables(
    data: &GameData,
    uma_id: u32,
    deck_ids: &[u32; 6],
    inherit: InheritInfo,
    gain: InheritGain,
    limit_base: [i32; 5],
    made: Result<BaseGame, GameError>,
)
    requires
        call_ensures(BaseGame::new, (data, uma_id, deck_ids, inherit, gain, limit_base), made),
    ensures
        made matches Ok(game) ==> {
            &&& game.uma.uma_id == uma_id
            &&& forall|k: int|
                0 <= k < 5 ==> (#[trigger] game.uma.five_status_limit@[k]) - gain.limit@[k]
                    == limit_base@[k]
            &&& game.uma.vital == data.umas@[uma_id].vital
            &&& game.uma.max_vital == data.umas@[uma_id].max_vital
            &&& game.uma.motivation == data.umas@[uma_id].motivation
            &&& !game.uma.flags.qiezhe
            &&& forall|t: int| 0 <= t < 78 ==> !(#[trigger] game.uma.races@[t])
            &&& game.turn == 0
            &&& game.stage == TurnStage::Begin
            &&& game.inherit == inherit
            &&& forall|i: int| 0 <= i < 5 ==> #[trigger] game.train_level_count@[i] == 0
            &&& game.distribution@.len() == 0
            &&& game.absent_rate_drop == 0
            &&& forall|id: u32| !(#[trigger] game.events@.contains_key(id))
            &&& game.unresolved_events@.len() == 0
            &&& !game.skip_free_race_check
        },
{
}

/// The deck of a new career holds the cards that were asked for, in that order, each as the
/// tables have it, and every type from zero to six is counted as often as it is in the deck.
pub proof fn law_a_new_deck_is_the_one_asked_for(
    data: &GameData,
    uma_id: u32,
    deck_ids: &[u32; 6],
    inherit: InheritInfo,
    gain: InheritGain,
    limit_base: [i32; 5],
    made: Result<BaseGame, GameError>,
)
    requires
        call_ensures(BaseGame::new, (data, uma_id, deck_ids, inherit, gain, limit_base), made),
    ensures
        made matches Ok(game) ==> {
            &&& game.deck@.len() == 6
            &&& forall|i: int|
                0 <= i < 6 ==> {
                    let card = #[trigger] game.deck@[i];
                    let known = data.cards@[deck_ids@[i]];
                    &&& card.card_id == deck_ids@[i]
                    &&& card.card_type == known.card_type
                    &&& card.initial_bonus == known.initial_bonus
                    &&& card.effect == known.effect
                }
            &&& forall|t: int|
                0 <= t < 7 ==> {
                    let one = |i: int|
                        if game.deck@[i].card_type == t {
                            1int
                        } else {
                            0
                        };
                    (#[trigger] game.card_type_count@[t]) == one(0) + one(1) + one(2) + one(3)
                        + one(4) + one(5)
                }
        },
{
    reveal_with_fuel(type_count, 7);
}

/// The friend of a new career is the last friend card of the deck, wherever that stands, with
/// the bonuses of that very card; a deck without one has no friend and no bonus. Five outings
/// are ahead, none of them unlocked or used.
pub proof fn law_the_last_friend_of_the_deck_comes_along(
    data: &GameData,
    uma_id: u32,
    deck_ids: &[u32; 6],
    inherit: InheritInfo,
    gain: InheritGain,
    limit_base: [i32; 5],
    made: Result<BaseGame, GameError>,
)
    requires
        call_ensures(BaseGame::new, (data, uma_id, deck_ids, inherit, gain, limit_base), made),
    ensures
        made matches Ok(game) ==> {
            &&& forall|slot: int|
                0 <= slot < 6 && data.cards@[#[trigger] deck_ids@[slot]].card_type >= 5 && (forall|
                    later: int,
                |
                    slot < later < 6 ==> data.cards@[#[trigger] deck_ids@[later]].card_type < 5)
                    ==> {
                    &&& game.friend.card_id == Some(deck_ids@[slot])
                    &&& game.friend.person_index == slot
                    &&& game.friend.event_bonus == data.cards@[deck_ids@[slot]].effect.event_bonus
                    &&& game.friend.vital_bonus == data.cards@[deck_ids@[slot]].effect.vital_bonus
                }
            &&& (forall|i: int| 0 <= i < 6 ==> data.cards@[#[trigger] deck_ids@[i]].card_type < 5)
                ==> {
                &&& game.friend.card_id is None
                &&& game.friend.person_index == 0
                &&& game.friend.event_bonus == 0
                &&& game.friend.vital_bonus == 0
            }
            &&& game.friend.out_state == FriendOutState::UnClicked
            &&& game.friend.out_used@.len() == 5
            &&& forall|i: int| 0 <= i < 5 ==> !(#[trigger] game.friend.out_used@[i])
        },
{
    reveal_with_fuel(friend_slot, 7);
    if made is Ok {
        let cards = cards_of(*data, deck_ids@);
        assert forall|i: int| 0 <= i < 6 implies (#[trigger] cards[i]).card_type
            == data.cards@[deck_ids@[i]].card_type by {
        }
    }
}

/// An event counts as one with the friend just where the tables list one of its id among the
/// events with the friend.
pub proof fn law_friend_events_are_those_of_the_tables(
    data: &GameData,
    uma_id: u32,
    deck_ids: &[u32; 6],
    inherit: InheritInfo,
    gain: InheritGain,
    limit_base: [i32; 5],
    made: Result<BaseGame, GameError>,
    id: u32,
)
    requires
        call_ensures(BaseGame::new, (data, uma_id, deck_ids, inherit, gain, limit_base), made),
    ensures
        made matches Ok(game) ==> (game.friend_event_ids@.contains(id) <==> exists|i: int|
            0 <= i < data.friend_events@.len() && (#[trigger] data.friend_events@[i]).id == id),
{
    if let Ok(game) = made {
        let all = data.friend_events@.map_values(|e: EventData| e.id);
        assert(game.friend_event_ids@ == all.to_set());
        if all.contains(id) {
            let i = all.index_of(id);
            assert(data.friend_events@[i].id == id);
        }
        if exists|i: int|
            0 <= i < data.friend_events@.len() && (#[trigger] data.friend_events@[i]).id == id {
            let i = choose|i: int|
                0 <= i < data.friend_events@.len() && (#[trigger] data.friend_events@[i]).id == id;
            assert(all[i] == id);
        }
    }
}

/// A career is set up just where the tables know the trainee and all six cards. Else an
/// unknown trainee is named first, and then the first unknown card of the deck.
pub proof fn law_only_what_is_unknown_is_refused(
    data: &GameData,
    uma_id: u32,
    deck_ids: &[u32; 6],
    inherit: InheritInfo,
    gain: InheritGain,
    limit_base: [i32; 5],
    made: Result<BaseGame, GameError>,
)
    requires
        call_ensures(BaseGame::new, (data, uma_id, deck_ids, inherit, gain, limit_base), made),
    ensures
        made is Ok <==> data.umas@.contains_key(uma_id) && forall|i: int|
            0 <= i < 6 ==> data.cards@.contains_key(#[trigger] deck_ids@[i]),
        !data.umas@.contains_key(uma_id) ==> made == Err::<BaseGame, GameError>(
            GameError::UnknownUma { uma_id },
        ),
        forall|i: int|
            data.umas@.contains_key(uma_id) && 0 <= i < 6 && !data.cards@.contains_key(
                #[trigger] deck_ids@[i],
            ) && (forall|j: int| 0 <= j < i ==> data.cards@.contains_key(#[trigger] deck_ids@[j]))
                ==> made == Err::<BaseGame, GameError>(
                GameError::UnknownCard { card_id: deck_ids@[i] },
            ),
{
    if made is Err && data.umas@.contains_key(uma_id) {
        let error = made->Err_0;
        let first = choose|i: int|
            0 <= i < 6 && cards_known(*data, deck_ids@, i) && !data.cards@.contains_key(
                #[trigger] deck_ids@[i],
            ) && error == (GameError::UnknownCard { card_id: deck_ids@[i] });
        assert(!data.cards@.contains_key(deck_ids@[first]));
        assert forall|i: int|
            0 <= i < 6 && !data.cards@.contains_key(#[trigger] deck_ids@[i]) && (forall|j: int|
                0 <= j < i ==> data.cards@.contains_key(#[trigger] deck_ids@[j])) implies made
            == Err::<BaseGame, GameError>(GameError::UnknownCard { card_id: deck_ids@[i] }) by {
            if first < i {
                assert(data.cards@.contains_key(deck_ids@[first]));
            }
            if i < first {
                assert(data.cards@.contains_key(deck_ids@[i]));
            }
        }
    }
}

/// Whether the number is at most a hundred million, either way.
pub open spec fn is_ordinary(x: int) -> bool {
    -100_000_000 <= x <= 100_000_000
}

proof fn lemma_sums_of_ordinary_cards(cards: Seq<SupportCard>, n: int, k: int)
    requires
        0 <= n <= cards.len(),
        0 <= k < 6,
        forall|i: int, j: int|
            0 <= i < n && 0 <= j < 6 ==> is_ordinary(#[trigger] cards[i].initial_bonus@[j] as int),
        forall|i: int| 0 <= i < n ==> is_ordinary((#[trigger] cards[i]).effect.saihou as int),
    ensures
        -100_000_000 * n <= bonus_sum(cards, n, k) <= 100_000_000 * n,
        -100_000_000 * n <= race_bonus_sum(cards, n) <= 100_000_000 * n,
    decreases n,
{
    if n > 0 {
        lemma_sums_of_ordinary_cards(cards, n - 1, k);
        assert(is_ordinary(cards[n - 1].initial_bonus@[k] as int));
        assert(is_ordinary(cards[n - 1].effect.saihou as int));
    }
}

/// A career can be set up from any tables with ordinary numbers, whatever the trainee, the
/// deck and the parents.
pub proof fn law_ordinary_numbers_are_accepted(
    data: &GameData,
    uma_id: u32,
    deck_ids: &[u32; 6],
    inherit: InheritInfo,
    gain: InheritGain,
    limit_base: [i32; 5],
)
    requires
        forall|k: int|
            0 <= k < 5 ==> is_ordinary(#[trigger] data.umas@[uma_id].five_status@[k] as int),
        is_ordinary(data.umas@[uma_id].skill_pt as int),
        forall|i: int, j: int|
            0 <= i < 6 && 0 <= j < 6 ==> is_ordinary(
                #[trigger] data.cards@[deck_ids@[i]].initial_bonus@[j] as int,
            ),
        forall|i: int|
            0 <= i < 6 ==> is_ordinary(data.cards@[#[trigger] deck_ids@[i]].effect.saihou as int),
        forall|k: int| 0 <= k < 5 ==> is_ordinary(#[trigger] gain.status@[k] as int),
        forall|k: int| 0 <= k < 5 ==> is_ordinary(#[trigger] gain.limit@[k] as int),
        forall|k: int| 0 <= k < 5 ==> is_ordinary(#[trigger] limit_base@[k] as int),
    ensures
        call_requires(BaseGame::new, (data, uma_id, deck_ids, inherit, gain, limit_base)),
{
    let known = data.umas@[uma_id];
    let cards = cards_of(*data, deck_ids@);
    assert forall|i: int, j: int| 0 <= i < 6 && 0 <= j < 6 implies is_ordinary(
        #[trigger] cards[i].initial_bonus@[j] as int,
    ) by {
        assert(is_ordinary(data.cards@[deck_ids@[i]].initial_bonus@[j] as int));
    }
    assert forall|i: int| 0 <= i < 6 implies is_ordinary(
        (#[trigger] cards[i]).effect.saihou as int,
    ) by {
        assert(is_ordinary(data.cards@[deck_ids@[i]].effect.saihou as int));
    }
    assert forall|n: int| 0 <= n <= 6 implies #[trigger] card_sums_fit(known, cards, n) by {
        assert forall|k: int| 0 <= k < 5 implies in_range(
            #[trigger] known.five_status@[k] + bonus_sum(cards, n, k),
        ) by {
            lemma_sums_of_ordinary_cards(cards, n, k);
            assert(is_ordinary(known.five_status@[k] as int));
        }
        lemma_sums_of_ordinary_cards(cards, n, 5);
    }
    assert(inherited_sums_fit(known, cards, gain, limit_base@)) by {
        assert forall|k: int| 0 <= k < 5 implies in_range(
            #[trigger] known.five_status@[k] + bonus_sum(cards, 6, k) + gain.status@[k],
        ) by {
            lemma_sums_of_ordinary_cards(cards, 6, k);
            assert(is_ordinary(known.five_status@[k] as int));
            assert(is_ordinary(gain.status@[k] as int));
        }
        assert forall|k: int| 0 <= k < 5 implies in_range(
            #[trigger] limit_base@[k] + gain.limit@[k],
        ) by {
            assert(is_ordinary(limit_base@[k] as int));
            assert(is_ordinary(gain.limit@[k] as int));
        }
    }
}

/// A copy of a career holds what the career holds, in every field.
pub proof fn law_a_copy_holds_the_same(game: &BaseGame, copy: BaseGame)
    requires
        call_ensures(BaseGame::clone, (game,), copy),
    ensures
        copy.turn == game.turn,
        copy.stage == game.stage,
        copy.uma == game.uma,
        copy.deck@ == game.deck@,
        copy.inherit == game.inherit,
        copy.friend.card_id == game.friend.card_id,
        copy.friend.person_index == game.friend.person_index,
        copy.friend.out_state == game.friend.out_state,
        copy.friend.out_used@ == game.friend.out_used@,
        copy.friend.event_bonus == game.friend.event_bonus,
        copy.friend.vital_bonus == game.friend.vital_bonus,
        copy.train_level_count == game.train_level_count,
        copy.distribution@.len() == game.distribution@.len(),
        forall|i: int|
            0 <= i < game.distribution@.len() ==> (#[trigger] copy.distribution@[i])@
                == game.distribution@[i]@,
        copy.absent_rate_drop == game.absent_rate_drop,
        copy.events@ == game.events@,
        copy.unresolved_events@.len() == game.unresolved_events@.len(),
        forall|i: int|
            0 <= i < game.unresolved_events@.len() ==> {
                let mine = #[trigger] copy.unresolved_events@[i];
                let theirs = game.unresolved_events@[i];
                &&& mine.id == theirs.id
                &&& mine.trigger == theirs.trigger
                &&& mine.person_index == theirs.person_index
                &&& mine.choices@.len() == theirs.choices@.len()
                &&& forall|c: int|
                    0 <= c < theirs.choices@.len() ==> (#[trigger] mine.choices@[c])@
                        == theirs.choices@[c]@
            },
        copy.card_type_count == game.card_type_count,
        copy.friend_event_ids@ == game.friend_event_ids@,
        copy.skip_free_race_check == game.skip_free_race_check,
{
    let rows_there = rows(game.distribution@);
    let rows_here = rows(copy.distribution@);
    assert(rows_here.len() == rows_there.len());
    assert forall|i: int| 0 <= i < game.distribution@.len() implies (
    #[trigger] copy.distribution@[i])@ == game.distribution@[i]@ by {
        assert(rows_here[i] == rows_there[i]);
    }
    let events_there = event_views(game.unresolved_events@);
    let events_here = event_views(copy.unresolved_events@);
    assert(events_here.len() == events_there.len());
    assert forall|i: int| 0 <= i < game.unresolved_events@.len() implies {
        let mine = #[trigger] copy.unresolved_events@[i];
        let theirs = game.unresolved_events@[i];
        &&& mine.id == theirs.id
        &&& mine.trigger == theirs.trigger
        &&& mine.person_index == theirs.person_index
        &&& mine.choices@.len() == theirs.choices@.len()
        &&& forall|c: int|
            0 <= c < theirs.choices@.len() ==> (#[trigger] mine.choices@[c])@
                == theirs.choices@[c]@
    } by {
        let mine = copy.unresolved_events@[i];
        let theirs = game.unresolved_events@[i];
        assert(events_here[i] == events_there[i]);
        assert(mine@ == theirs@);
        assert(mine@.choices.len() == theirs@.choices.len());
        assert forall|c: int| 0 <= c < theirs.choices@.len() implies (
        #[trigger] mine.choices@[c])@ == theirs.choices@[c]@ by {
            assert(mine@.choices[c] == theirs@.choices[c]);
        }
    }
}

/// A career of nobody is blank: every number is zero, and nothing has happened.
pub proof fn law_a_career_of_nobody_is_blank(game: BaseGame)
    requires
        call_ensures(BaseGame::default, (), game),
    ensures
        game.turn == 0,
        game.stage == TurnStage::Begin,
        game.uma.uma_id == 0,
        forall|k: int| 0 <= k < 5 ==> #[trigger] game.uma.five_status@[k] == 0,
        forall|k: int| 0 <= k < 5 ==> #[trigger] game.uma.five_status_limit@[k] == 0,
        game.uma.skill_pt == 0,
        game.uma.vital == 0,
        game.uma.max_vital == 0,
        game.uma.motivation == 0,
        game.uma.race_bonus == 0,
        !game.uma.flags.qiezhe,
        forall|t: int| 0 <= t < 78 ==> !(#[trigger] game.uma.races@[t]),
        game.deck@.len() == 0,
        forall|i: int| 0 <= i < 5 ==> #[trigger] game.inherit.blue_count@[i] == 0,
        forall|i: int| 0 <= i < 6 ==> #[trigger] game.inherit.extra_count@[i] == 0,
        game.friend.card_id is None,
        game.friend.person_index == 0,
        game.friend.out_state == FriendOutState::UnClicked,
        game.friend.out_used@.len() == 0,
        game.friend.event_bonus == 0,
        game.friend.vital_bonus == 0,
        forall|id: u32| !(#[trigger] game.events@.contains_key(id)),
        forall|id: u32| !(#[trigger] game.friend_event_ids@.contains(id)),
        !game.skip_free_race_check,
{
}

/// The tables are read as they are: a trainee starts with its numbers there and the limits of
/// the scenario, a card has what is listed under its id, and an id that is not listed is
/// refused by name.
pub proof fn law_the_tables_are_read_as_they_are(
    data: &GameData,
    uma_id: u32,
    limit_base: [i32; 5],
    uma: Result<Uma, GameError>,
    card_id: u32,
    card: Result<SupportCard, GameError>,
)
    requires
        call_ensures(Uma::new, (data, uma_id, limit_base), uma),
        call_ensures(SupportCard::new, (data, card_id), card),
    ensures
        data.umas@.contains_key(uma_id) ==> (uma matches Ok(u) && {
            let known = data.umas@[uma_id];
            &&& u.uma_id == uma_id
            &&& u.five_status == known.five_status
            &&& u.five_status_limit == limit_base
            &&& u.skill_pt == known.skill_pt
            &&& u.vital == known.vital
            &&& u.max_vital == known.max_vital
            &&& u.motivation == known.motivation
            &&& u.race_bonus == 0
            &&& !u.flags.qiezhe
            &&& forall|t: int| 0 <= t < 78 ==> !(#[trigger] u.races@[t])
        }),
        !data.umas@.contains_key(uma_id) ==> uma == Err::<Uma, GameError>(
            GameError::UnknownUma { uma_id },
        ),
        data.cards@.contains_key(card_id) ==> (card matches Ok(c) && {
            let known = data.cards@[card_id];
            &&& c.card_id == card_id
            &&& c.card_type == known.card_type
            &&& c.initial_bonus == known.initial_bonus
            &&& c.effect == known.effect
        }),
        !data.cards@.contains_key(card_id) ==> card == Err::<SupportCard, GameError>(
            GameError::UnknownCard { card_id },
        ),
        call_requires(Uma::new, (data, uma_id, limit_base)),
        call_requires(SupportCard::new, (data, card_id)),
{
}

/// What the tables hold of a trainee is looked up by its id.
pub proof fn law_a_trainee_is_looked_up_by_its_id(
    uma: &Uma,
    data: &GameData,
    found: Result<&UmaData, GameError>,
)
    requires
        call_ensures(Uma::get_data, (uma, data), found),
    ensures
        data.umas@.contains_key(uma.uma_id) ==> (found matches Ok(known) && *known
            == data.umas@[uma.uma_id]),
        !data.umas@.contains_key(uma.uma_id) ==> found == Err::<&UmaData, GameError>(
            GameError::UnknownUma { uma_id: uma.uma_id },
        ),
{
}

/// A friend comes with the id and the bonuses of their card, at the place of that card, and
/// with five outings ahead.
pub proof fn law_a_friend_comes_with_their_card(
    card: Option<SupportCard>,
    person_index: usize,
    friend: FriendState,
)
    requires
        call_ensures(FriendState::new, (card, person_index), friend),
    ensures
        match card {
            Some(c) => friend.card_id == Some(c.card_id) && friend.event_bonus
                == c.effect.event_bonus && friend.vital_bonus == c.effect.vital_bonus,
            None => friend.card_id is None && friend.event_bonus == 0 && friend.vital_bonus == 0,
        },
        friend.person_index == person_index,
        friend.out_state == FriendOutState::UnClicked,
        friend.out_used@.len() == 5,
        !friend.out_used@.contains(true),
{
}

} // verus!
