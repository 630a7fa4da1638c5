//! Setting up a career.

use crate::card::{
    described_card, FriendOutState, FriendState, InheritGain, InheritInfo, SupportCard, CARD_TYPES,
    FRIEND_TYPE, OUTINGS,
};
use crate::counts::{no_counts, EventCounts};
use crate::data::{GameData, GameError, UmaData};
use crate::event::EventData;
use crate::game::{BaseGame, TurnStage};
use crate::uma::{in_range, Uma, TURNS};
use std::collections::HashSet;
use vstd::prelude::*;

verus! {

/// Number of cards in a deck.
pub const DECK_SIZE: usize = 6;

/// Whether the first `n` cards of the deck are known.
pub open spec fn cards_known(data: GameData, deck_ids: Seq<u32>, n: int) -> bool {
    forall|i: int| 0 <= i < n ==> data.cards@.contains_key(#[trigger] deck_ids[i])
}

/// The cards of the deck.
pub open spec fn cards_of(data: GameData, deck_ids: Seq<u32>) -> Seq<SupportCard> {
    Seq::new(deck_ids.len(), |i: int| described_card(deck_ids[i], data.cards@[deck_ids[i]]))
}

/// What the first `n` cards add to one attribute, or to skill points where `k` is five.
pub open spec fn bonus_sum(cards: Seq<SupportCard>, n: int, k: int) -> int
    decreases n,
{
    if n <= 0 {
        0
    } else {
        bonus_sum(cards, n - 1, k) + cards[n - 1].initial_bonus@[k]
    }
}

/// What the first `n` cards add to the gains of a race.
pub open spec fn race_bonus_sum(cards: Seq<SupportCard>, n: int) -> int
    decreases n,
{
    if n <= 0 {
        0
    } else {
        race_bonus_sum(cards, n - 1) + cards[n - 1].effect.saihou
    }
}

/// How many of the first `n` cards are of this type.
pub open spec fn type_count(cards: Seq<SupportCard>, n: int, card_type: int) -> int
    decreases n,
{
    if n <= 0 {
        0
    } else {
        type_count(cards, n - 1, card_type) + if cards[n - 1].card_type == card_type {
            1int
        } else {
            0
        }
    }
}

/// The place of the last friend among the first `n` cards.
pub open spec fn friend_slot(cards: Seq<SupportCard>, n: int) -> Option<int>
    decreases n,
{
    if n <= 0 {
        None
    } else if cards[n - 1].card_type >= FRIEND_TYPE {
        Some(n - 1)
    } else {
        friend_slot(cards, n - 1)
    }
}

/// The ids of the events.
pub open spec fn ids_of(events: Seq<EventData>) -> Set<u32> {
    events.map_values(|e: EventData| e.id).to_set()
}

/// Whether the sums over the first `n` cards are in the range of `i32`.
pub open spec fn card_sums_fit(known: UmaData, cards: Seq<SupportCard>, n: int) -> bool {
    &&& forall|k: int|
        0 <= k < 5 ==> in_range(#[trigger] known.five_status@[k] + bonus_sum(cards, n, k))
    &&& in_range(known.skill_pt + bonus_sum(cards, n, 5))
    &&& in_range(race_bonus_sum(cards, n))
}

/// Whether the sums with the inherited gains are in the range of `i32`.
pub open spec fn inherited_sums_fit(
    known: UmaData,
    cards: Seq<SupportCard>,
    gain: InheritGain,
    limit_base: Seq<i32>,
) -> bool {
    &&& forall|k: int|
        0 <= k < 5 ==> in_range(
            #[trigger] known.five_status@[k] + bonus_sum(cards, DECK_SIZE as int, k)
                + gain.status@[k],
        )
    &&& forall|k: int| 0 <= k < 5 ==> in_range(#[trigger] limit_base[k] + gain.limit@[k])
}

/// Whether a career can be set up without leaving the range of `i32`, as far as the tables
/// know the trainee and the cards.
pub open spec fn setup_fits(
    data: GameData,
    uma_id: u32,
    deck_ids: Seq<u32>,
    gain: InheritGain,
    limit_base: Seq<i32>,
) -> bool {
    data.umas@.contains_key(uma_id) ==> {
        let known = data.umas@[uma_id];
        let cards = cards_of(data, deck_ids);
        &&& forall|n: int|
            0 <= n <= DECK_SIZE && cards_known(data, deck_ids, n) ==> #[trigger] card_sums_fit(
                known,
                cards,
                n,
            )
        &&& cards_known(data, deck_ids, DECK_SIZE as int) ==> inherited_sums_fit(
            known,
            cards,
            gain,
            limit_base,
        )
    }
}

/// The error of a setup that fails: an unknown trainee comes first, then the first unknown
/// card.
pub open spec fn is_setup_error(
    data: GameData,
    uma_id: u32,
    deck_ids: Seq<u32>,
    error: GameError,
) -> bool {
    if !data.umas@.contains_key(uma_id) {
        error == (GameError::UnknownUma { uma_id })
    } else {
        exists|i: int|
            0 <= i < DECK_SIZE && cards_known(data, deck_ids, i) && !data.cards@.contains_key(
                #[trigger] deck_ids[i],
            ) && error == (GameError::UnknownCard { card_id: deck_ids[i] })
    }
}

/// The trainee after cards and inheritance: attributes and skill points grow by what the
/// cards bring and the attributes by what was inherited; the limits are those of the
/// scenario plus what was inherited.
pub open spec fn uma_is_set_up(
    uma: Uma,
    uma_id: u32,
    known: UmaData,
    cards: Seq<SupportCard>,
    gain: InheritGain,
    limit_base: Seq<i32>,
) -> bool {
    &&& uma.uma_id == uma_id
    &&& forall|k: int|
        0 <= k < 5 ==> #[trigger] uma.five_status@[k] == known.five_status@[k] + bonus_sum(
            cards,
            DECK_SIZE as int,
            k,
        ) + gain.status@[k]
    &&& forall|k: int|
        0 <= k < 5 ==> #[trigger] uma.five_status_limit@[k] == limit_base[k] + gain.limit@[k]
    &&& uma.skill_pt == known.skill_pt + bonus_sum(cards, DECK_SIZE as int, 5)
    &&& uma.race_bonus == race_bonus_sum(cards, DECK_SIZE as int)
    &&& uma.vital == known.vital
    &&& uma.max_vital == known.max_vital
    &&& uma.motivation == known.motivation
    &&& !uma.flags.qiezhe
    &&& forall|t: int| 0 <= t < TURNS ==> !(#[trigger] uma.races@[t])
}

/// The friend at the start: that of the last friend card, or nobody.
pub open spec fn friend_is_set_up(friend: FriendState, cards: Seq<SupportCard>) -> bool {
    &&& match friend_slot(cards, DECK_SIZE as int) {
        Some(slot) => {
            &&& friend.card_id == Some(cards[slot].card_id)
            &&& friend.person_index == slot
            &&& friend.event_bonus == cards[slot].effect.event_bonus
            &&& friend.vital_bonus == cards[slot].effect.vital_bonus
        },
        None => {
            &&& friend.card_id is None
            &&& friend.person_index == 0
            &&& friend.event_bonus == 0
            &&& friend.vital_bonus == 0
        },
    }
    &&& friend.out_state == FriendOutState::UnClicked
    &&& friend.out_used@ == Seq::new(OUTINGS as nat, |i: int| false)
}

proof fn lemma_type_count_bounds(cards: Seq<SupportCard>, n: int, card_type: int)
    requires
        0 <= n,
    ensures
        0 <= type_count(cards, n, card_type) <= n,
    decreases n,
{
    if n > 0 {
        lemma_type_count_bounds(cards, n - 1, card_type);
    }
}

/// The ids of the events.
fn collect_ids(events: &Vec<EventData>) -> (ids: HashSet<u32>)
    ensures
        ids@ == ids_of(events@),
{
    broadcast use vstd::std_specs::hash::group_hash_axioms;

    let mut ids: HashSet<u32> = HashSet::new();
    for n in 0..events.len()
        invariant
            forall|id: u32| #[trigger]
                ids@.contains(id) <==> exists|i: int| 0 <= i < n && (#[trigger] events@[i]).id == id,
    {
        let ghost before = ids@;
        ids.insert(events[n].id);
        assert forall|id: u32| #[trigger] ids@.contains(id) <==> exists|i: int|
            0 <= i < n + 1 && (#[trigger] events@[i]).id == id by {
            assert(before.contains(id) <==> exists|i: int|
                0 <= i < n && (#[trigger] events@[i]).id == id);
            if ids@.contains(id) && !before.contains(id) {
                assert(events@[n as int].id == id);
            }
        }
    }
    proof {
        let all = events@.map_values(|e: EventData| e.id);
        assert forall|id: u32| #[trigger] ids@.contains(id) <==> ids_of(events@).contains(id) by {
            if ids@.contains(id) {
                let i = choose|i: int| 0 <= i < events@.len() && (#[trigger] events@[i]).id == id;
                assert(all[i] == id);
            }
            if all.contains(id) {
                let i = all.index_of(id);
                assert(events@[i].id == id);
            }
        }
        assert(ids@ =~= ids_of(events@));
    }
    ids
}

impl BaseGame {
    /// Whether this is a career at its very start.
    pub open spec fn is_set_up(
        self,
        data: GameData,
        uma_id: u32,
        deck_ids: Seq<u32>,
        inherit: InheritInfo,
        gain: InheritGain,
        limit_base: Seq<i32>,
    ) -> bool {
        let cards = cards_of(data, deck_ids);
        &&& self.turn == 0
        &&& self.stage == TurnStage::Begin
        &&& uma_is_set_up(self.uma, uma_id, data.umas@[uma_id], cards, gain, limit_base)
        &&& self.deck@ == cards
        &&& self.inherit == inherit
        &&& friend_is_set_up(self.friend, cards)
        &&& forall|i: int| 0 <= i < 5 ==> #[trigger] self.train_level_count@[i] == 0
        &&& self.distribution@.len() == 0
        &&& self.absent_rate_drop == 0
        &&& self.events@ == no_counts()
        &&& self.unresolved_events@.len() == 0
        &&& forall|t: int|
            0 <= t < CARD_TYPES ==> #[trigger] self.card_type_count@[t] == type_count(
                cards,
                DECK_SIZE as int,
                t,
            )
        &&& self.friend_event_ids@ == ids_of(data.friend_events@)
        &&& !self.skip_free_race_check
    }

    /// Sets up a career.
    ///
    /// `limit_base` comes from the scenario; what was inherited is added to it here, so a
    /// scenario must not replace the limits afterwards.
    pub fn new(
        data: &GameData,
        uma_id: u32,
        deck_ids: &[u32; 6],
        inherit: InheritInfo,
        gain: InheritGain,
        limit_base: [i32; 5],
    ) -> (game: Result<Self, GameError>)
        requires
            setup_fits(*data, uma_id, deck_ids@, gain, limit_base@),
        ensures
            game is Ok <==> data.umas@.contains_key(uma_id) && cards_known(
                *data,
                deck_ids@,
                DECK_SIZE as int,
            ),
            game matches Err(e) ==> is_setup_error(*data, uma_id, deck_ids@, e),
            game matches Ok(g) ==> g.is_set_up(
                *data,
                uma_id,
                deck_ids@,
                inherit,
                gain,
                limit_base@,
            ),
    {
        let ghost cards = cards_of(*data, deck_ids@);
        let ghost known = data.umas@[uma_id];
        let mut uma: Uma = match Uma::new(data, uma_id, limit_base) {
            Ok(uma) => uma,
            Err(e) => {
                return Err(e);
            },
        };
        let ghost start = uma;
        let mut deck: Vec<SupportCard> = Vec::new();
        let mut friend_card: Option<SupportCard> = None;
        let mut friend_index: usize = 0;
        let mut card_type_count: [i32; 7] = [0; 7];
        for n in 0..DECK_SIZE
            invariant
                setup_fits(*data, uma_id, deck_ids@, gain, limit_base@),
                data.umas@.contains_key(uma_id),
                known == data.umas@[uma_id],
                cards == cards_of(*data, deck_ids@),
                start.starts_as(uma_id, known, limit_base),
                cards_known(*data, deck_ids@, n as int),
                deck@ == cards.take(n as int),
                forall|k: int|
                    0 <= k < 5 ==> #[trigger] uma.five_status@[k] == known.five_status@[k]
                        + bonus_sum(cards, n as int, k),
                uma.skill_pt == known.skill_pt + bonus_sum(cards, n as int, 5),
                uma.race_bonus == race_bonus_sum(cards, n as int),
                uma.uma_id == uma_id,
                uma.five_status_limit == limit_base,
                uma.vital == start.vital,
                uma.max_vital == start.max_vital,
                uma.motivation == start.motivation,
                uma.flags == start.flags,
                uma.races == start.races,
                match friend_slot(cards, n as int) {
                    Some(slot) => friend_card == Some(cards[slot]) && friend_index == slot,
                    None => friend_card is None && friend_index == 0,
                },
                forall|t: int|
                    0 <= t < CARD_TYPES ==> #[trigger] card_type_count@[t] == type_count(
                        cards,
                        n as int,
                        t,
                    ),
        {
            let card: SupportCard = match SupportCard::new(data, deck_ids[n]) {
                Ok(card) => card,
                Err(e) => {
                    assert(!data.cards@.contains_key(deck_ids@[n as int]));
                    return Err(e);
                },
            };
            assert(card == cards[n as int]);
            assert(cards_known(*data, deck_ids@, n + 1));
            assert(card_sums_fit(known, cards, n + 1));
            let ghost before = uma;
            for k in 0..5usize
                invariant
                    0 <= n < DECK_SIZE,
                    card == cards[n as int],
                    card_sums_fit(known, cards, n + 1),
                    forall|j: int|
                        0 <= j < 5 ==> #[trigger] before.five_status@[j] == known.five_status@[j]
                            + bonus_sum(cards, n as int, j),
                    forall|j: int|
                        0 <= j < k ==> #[trigger] uma.five_status@[j] == known.five_status@[j]
                            + bonus_sum(cards, n + 1, j),
                    forall|j: int|
                        k <= j < 5 ==> #[trigger] uma.five_status@[j] == before.five_status@[j],
                    uma.skill_pt == before.skill_pt,
                    uma.race_bonus == before.race_bonus,
                    uma.uma_id == before.uma_id,
                    uma.five_status_limit == before.five_status_limit,
                    uma.vital == before.vital,
                    uma.max_vital == before.max_vital,
                    uma.motivation == before.motivation,
                    uma.flags == before.flags,
                    uma.races == before.races,
            {
                assert(in_range(known.five_status@[k as int] + bonus_sum(cards, n + 1, k as int)));
                assert(uma.five_status@[k as int] == before.five_status@[k as int]);
                uma.five_status[k] = uma.five_status[k] + card.initial_bonus[k];
            }
            uma.skill_pt = uma.skill_pt + card.initial_bonus[5];
            uma.race_bonus = uma.race_bonus + card.effect.saihou;
            if card.card_type >= FRIEND_TYPE {
                friend_card = Some(card);
                friend_index = n;
            }
            if card.card_type < CARD_TYPES as u32 {
                proof {
                    lemma_type_count_bounds(cards, n as int, card.card_type as int);
                }
                let slot: usize = card.card_type as usize;
                card_type_count[slot] = card_type_count[slot] + 1;
            }
            deck.push(card);
            assert(deck@ =~= cards.take(n + 1));
        }
        assert(deck@ =~= cards);
        let ghost before = uma;
        for k in 0..5usize
            invariant
                inherited_sums_fit(known, cards, gain, limit_base@),
                before.five_status_limit == limit_base,
                forall|j: int|
                    0 <= j < 5 ==> #[trigger] before.five_status@[j] == known.five_status@[j]
                        + bonus_sum(cards, DECK_SIZE as int, j),
                forall|j: int|
                    0 <= j < k ==> #[trigger] uma.five_status@[j] == before.five_status@[j]
                        + gain.status@[j],
                forall|j: int|
                    k <= j < 5 ==> #[trigger] uma.five_status@[j] == before.five_status@[j],
                forall|j: int|
                    0 <= j < k ==> #[trigger] uma.five_status_limit@[j] == limit_base@[j]
                        + gain.limit@[j],
                forall|j: int|
                    k <= j < 5 ==> #[trigger] uma.five_status_limit@[j] == limit_base@[j],
                uma.skill_pt == before.skill_pt,
                uma.race_bonus == before.race_bonus,
                uma.uma_id == before.uma_id,
                uma.vital == before.vital,
                uma.max_vital == before.max_vital,
                uma.motivation == before.motivation,
                uma.flags == before.flags,
                uma.races == before.races,
        {
            assert(in_range(
                known.five_status@[k as int] + bonus_sum(cards, DECK_SIZE as int, k as int)
                    + gain.status@[k as int],
            ));
            assert(in_range(limit_base@[k as int] + gain.limit@[k as int]));
            assert(uma.five_status@[k as int] == before.five_status@[k as int]);
            assert(uma.five_status_limit@[k as int] == limit_base@[k as int]);
            uma.five_status[k] = uma.five_status[k] + gain.status[k];
            uma.five_status_limit[k] = uma.five_status_limit[k] + gain.limit[k];
        }
        Ok(
            BaseGame {
                turn: 0,
                stage: TurnStage::Begin,
                uma,
                deck,
                inherit,
                friend: FriendState::new(friend_card, friend_index),
                train_level_count: [0; 5],
                distribution: Vec::new(),
                absent_rate_drop: 0,
                events: EventCounts::new(),
                unresolved_events: Vec::new(),
                card_type_count,
                friend_event_ids: collect_ids(&data.friend_events),
                skip_free_race_check: false,
            },
        )
    }
}

} // verus!
