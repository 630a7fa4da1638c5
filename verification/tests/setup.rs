use rand::rngs::StdRng;
use rand::SeedableRng;
use std::collections::{HashMap, HashSet};
use umasim::card::{CardData, CardEffect, FriendOutState, InheritGain, InheritInfo};
use umasim::data::{GameData, GameError, UmaData};
use umasim::event::{ActionValue, EventChoice, EventData, TriggerType};
use umasim::game::{BaseGame, TurnStage};

const DECK: [u32; 6] = [302424, 302464, 302484, 302564, 302574, 302644];

const LIMIT_BASE: [i32; 5] = [2800, 1900, 2000, 1800, 2100];

fn known_card(card_type: u32, initial_bonus: [i32; 6], saihou: i32) -> CardData {
    CardData {
        card_type,
        initial_bonus,
        effect: CardEffect { saihou, event_bonus: 0, vital_bonus: 0 },
    }
}

fn first_friend_event() -> EventData {
    EventData {
        id: 809050001,
        trigger: TriggerType::Other,
        choices: vec![vec![EventChoice {
            prob: 100,
            result: 0,
            value: ActionValue {
                status_pt: [0, 0, 9, 9, 9, 0],
                motivation: 1,
                friendship: 10,
                max_vital: 4,
                ..Default::default()
            },
        }]],
        person_index: None,
    }
}

fn data() -> GameData {
    let mut umas = HashMap::new();
    umas.insert(
        101901,
        UmaData {
            five_status: [90, 85, 95, 80, 100],
            skill_pt: 120,
            vital: 100,
            max_vital: 104,
            motivation: 3,
            free_races: vec![],
        },
    );
    let mut cards = HashMap::new();
    cards.insert(302424, known_card(0, [20, 0, 0, 0, 0, 5], 5));
    cards.insert(302464, known_card(0, [0; 6], 10));
    cards.insert(302484, known_card(2, [0, 0, 30, 0, 0, 0], 10));
    cards.insert(302564, known_card(3, [0; 6], 0));
    cards.insert(
        302574,
        CardData {
            card_type: 5,
            initial_bonus: [0; 6],
            effect: CardEffect { saihou: 15, event_bonus: 25, vital_bonus: 35 },
        },
    );
    cards.insert(302644, known_card(4, [1, 2, 3, 4, 5, 6], 5));
    cards.insert(302694, known_card(1, [0; 6], 0));
    cards.insert(303000, known_card(6, [0; 6], 0));
    cards.insert(303001, known_card(9, [0; 6], 0));
    GameData {
        umas,
        cards,
        friend_events: vec![
            first_friend_event(),
            EventData { id: 809050002, ..first_friend_event() },
        ],
        card_events: vec![],
    }
}

fn inherit() -> InheritInfo {
    InheritInfo { blue_count: [15, 3, 0, 0, 0], extra_count: [0, 30, 0, 0, 30, 30] }
}

fn gain() -> InheritGain {
    InheritGain { status: [60, 12, 0, 0, 0], limit: [48, 10, 0, 0, 0] }
}

fn newgame(deck: &[u32; 6]) -> BaseGame {
    BaseGame::new(&data(), 101901, deck, inherit(), gain(), LIMIT_BASE).unwrap()
}

#[test]
fn test_newgame() {
    let game = newgame(&DECK);
    assert_eq!(game.inherit, inherit());
    assert_eq!(game.card_type_count, [2, 0, 1, 1, 1, 1, 0]);
    let mut branch = game.clone();
    assert_eq!(branch, game);
    branch.inherit.blue_count[0] += 1;
    branch.inherit.extra_count[5] += 1;
    branch.card_type_count[0] -= 1;
    assert_eq!(game.inherit, inherit());
    assert_eq!(game.card_type_count, [2, 0, 1, 1, 1, 1, 0]);
}

#[test]
fn a_new_career_adds_up_cards_and_inheritance() {
    let game = newgame(&DECK);
    assert_eq!(game.turn, 0);
    assert_eq!(game.stage, TurnStage::Begin);
    assert_eq!(game.uma.uma_id, 101901);
    assert_eq!(game.uma.five_status, [171, 99, 128, 84, 105]);
    assert_eq!(game.uma.skill_pt, 131);
    assert_eq!(game.uma.race_bonus, 45);
    assert_eq!(game.uma.vital, 100);
    assert_eq!(game.uma.max_vital, 104);
    assert_eq!(game.uma.motivation, 3);
    assert!(!game.uma.flags.qiezhe);
    assert!(game.uma.races.iter().all(|raced| !raced));
    let ids: Vec<u32> = game.deck.iter().map(|card| card.card_id).collect();
    assert_eq!(ids, DECK);
    assert_eq!(game.train_level_count, [0; 5]);
    assert!(game.distribution.is_empty());
    assert!(game.unresolved_events.is_empty());
    assert_eq!(game.absent_rate_drop, 0);
    assert_eq!(game.events.times(809050001), 0);
    assert_eq!(game.friend_event_ids, HashSet::from([809050001, 809050002]));
    assert!(!game.skip_free_race_check);
    assert!(game.is_next_of(&game.clone()));
}

#[test]
fn the_friend_is_the_last_friend_card() {
    let game = newgame(&DECK);
    assert_eq!(game.friend.card_id, Some(302574));
    assert_eq!(game.friend.person_index, 4);
    assert_eq!(game.friend.event_bonus, 25);
    assert_eq!(game.friend.vital_bonus, 35);
    assert_eq!(game.friend.out_state, FriendOutState::UnClicked);
    assert_eq!(game.friend.out_used, vec![false; 5]);
    assert!(!game.can_friend_outing());

    let game = newgame(&[302574, 302464, 303000, 302564, 302424, 303001]);
    assert_eq!(game.friend.card_id, Some(303001));
    assert_eq!(game.friend.person_index, 5);
    assert_eq!(game.card_type_count, [2, 0, 0, 1, 0, 1, 1]);
}

#[test]
fn unknown_trainees_and_cards_are_refused() {
    let result = BaseGame::new(&data(), 1, &[2; 6], inherit(), gain(), LIMIT_BASE);
    assert_eq!(result.unwrap_err(), GameError::UnknownUma { uma_id: 1 });
    let deck = [302424, 7, 302484, 8, 302574, 302644];
    let result = BaseGame::new(&data(), 101901, &deck, inherit(), gain(), LIMIT_BASE);
    assert_eq!(result.unwrap_err(), GameError::UnknownCard { card_id: 7 });
}

#[test]
fn test_apply_event_friend_bonus_integration() {
    let mut game = newgame(&DECK);
    game.friend.event_bonus = 30;
    game.friend.vital_bonus = 20;

    let friend_event = first_friend_event();
    assert!(game.friend_event_ids.contains(&friend_event.id));

    let init_status = game.uma.five_status;
    let init_skill_pt = game.uma.skill_pt;
    let init_vital = game.uma.vital;

    let mut rng = StdRng::seed_from_u64(42);
    let settled = game.apply_event(&friend_event, 0, &mut rng).unwrap();

    assert_eq!(game.uma.five_status[0] - init_status[0], 0);
    assert_eq!(game.uma.five_status[1] - init_status[1], 0);
    assert_eq!(game.uma.five_status[2] - init_status[2], 11);
    assert_eq!(game.uma.five_status[3] - init_status[3], 11);
    assert_eq!(game.uma.five_status[4] - init_status[4], 11);
    assert_eq!(game.uma.skill_pt - init_skill_pt, 0);
    assert_eq!(game.uma.vital - init_vital, 0);
    assert_eq!(settled.value.status_pt, [0, 0, 11, 11, 11, 0]);
    assert_eq!(game.events.times(friend_event.id), 1);
}

#[test]
fn test_apply_event_no_friend_bonus_backward_compatible() {
    let mut game = newgame(&[302424, 302464, 302484, 302564, 302644, 302694]);
    assert_eq!(game.friend.event_bonus, 0);
    assert_eq!(game.friend.vital_bonus, 0);
    assert_eq!(game.friend.card_id, None);

    let friend_event = first_friend_event();
    let init_status = game.uma.five_status;
    let mut rng = StdRng::seed_from_u64(42);
    game.apply_event(&friend_event, 0, &mut rng);

    assert_eq!(game.uma.five_status[2] - init_status[2], 9);
    assert_eq!(game.uma.five_status[3] - init_status[3], 9);
    assert_eq!(game.uma.five_status[4] - init_status[4], 9);
}

#[test]
fn test_newgame_status_limit_is_scenario_base_plus_inherit() {
    for base in [[2800, 1900, 2000, 1800, 2100], [3000, 1200, 1200, 1200, 1200], [2801; 5]] {
        let game = BaseGame::new(&data(), 101901, &DECK, inherit(), gain(), base).unwrap();
        let got = game.uma.five_status_limit;
        for i in 0..5 {
            assert_eq!(got[i], base[i] + gain().limit[i]);
        }
        assert!(got[0] > base[0]);
        assert!(got[0] > 2800);
    }
}

#[test]
fn a_copy_is_independent_in_every_part() {
    let mut game = newgame(&DECK);
    game.distribution = vec![vec![1, -1], vec![]];
    game.unresolved_events = vec![first_friend_event()];
    game.stage = TurnStage::Named("Train".to_string());
    let mut branch = game.clone();
    assert_eq!(branch, game);
    branch.distribution[0][0] = 3;
    branch.unresolved_events[0].choices[0][0].value.vital = 9;
    branch.friend.out_used[0] = true;
    branch.friend_event_ids.insert(1);
    branch.events.record(1);
    assert_eq!(game.distribution, vec![vec![1, -1], vec![]]);
    assert_eq!(game.unresolved_events, vec![first_friend_event()]);
    assert_eq!(game.friend.out_used, vec![false; 5]);
    assert!(!game.friend_event_ids.contains(&1));
    assert_eq!(game.events.times(1), 0);
}

#[test]
fn the_order_of_the_deck_does_not_matter() {
    let game = newgame(&DECK);
    let other = newgame(&[302644, 302574, 302424, 302464, 302564, 302484]);
    assert_eq!(other.uma, game.uma);
    assert_eq!(other.card_type_count, game.card_type_count);
    assert!(!other.is_next_of(&game));
}
