use std::collections::HashMap;
use umasim::card::{CardEffect, FriendOutState, SupportCard};
use umasim::data::{FreeRaceData, GameData, UmaData};
use umasim::game::{BaseGame, TurnStage};
use umasim::session::{prepare_turn, Scenario};

fn card(card_id: u32) -> SupportCard {
    SupportCard {
        card_id,
        card_type: 0,
        initial_bonus: [0; 6],
        effect: CardEffect { saihou: 0, event_bonus: 0, vital_bonus: 0 },
    }
}

fn data_with_races(free_races: Vec<FreeRaceData>) -> GameData {
    let mut umas = HashMap::new();
    umas.insert(
        101901,
        UmaData {
            five_status: [0; 5],
            skill_pt: 0,
            vital: 100,
            max_vital: 100,
            motivation: 3,
            free_races,
        },
    );
    GameData { umas, cards: HashMap::new(), friend_events: vec![], card_events: vec![] }
}

#[test]
fn test_explain() {
    let mut game = BaseGame::default();
    game.uma.uma_id = 101901;
    game.uma.motivation = 5;
    game.uma.flags.qiezhe = true;
    let text: Result<String, ()> = game.explain("1 1 1 1 1", "-", Ok("uma".to_string()));
    assert_eq!(text, Ok("回合: 1-Begin 设施等级: 1 1 1 1 1 友人: -\numa".to_string()));
}

#[test]
fn explain_names_the_stage_and_hands_errors_on() {
    let mut game = BaseGame::default();
    game.turn = 77;
    game.stage = TurnStage::Named("Train".to_string());
    let text: Result<String, u8> = game.explain("L", "F", Ok("U".to_string()));
    assert_eq!(text, Ok("回合: 78-Train 设施等级: L 友人: F\nU".to_string()));
    game.turn = -12;
    let text: Result<String, u8> = game.explain("", "", Ok(String::new()));
    assert_eq!(text, Ok("回合: -11-Train 设施等级:  友人: \n".to_string()));
    let text: Result<String, u8> = game.explain("L", "F", Err(7));
    assert_eq!(text, Err(7));
}

#[test]
fn test_can_self_race_bounds() {
    let mut game = BaseGame::default();
    for (turn, expect) in [
        (0, false),
        (12, false),
        (13, true),
        (14, true),
        (71, true),
        (72, false),
        (73, false),
        (74, false),
        (75, false),
        (76, false),
        (77, false),
    ] {
        game.turn = turn;
        assert_eq!(game.can_self_race(), expect);
    }
}

#[test]
fn test_can_friend_outing_bounds() {
    let mut game = BaseGame::default();
    game.friend.out_used = vec![false; 5];
    game.friend.out_state = FriendOutState::AfterUnlock;
    game.turn = 70;
    assert!(game.can_friend_outing());

    game.friend.out_state = FriendOutState::UnClicked;
    assert!(!game.can_friend_outing());

    game.friend.out_state = FriendOutState::AfterUnlock;
    game.turn = 72;
    assert!(!game.can_friend_outing());

    game.turn = 70;
    game.friend.out_used = vec![true; 5];
    assert!(!game.can_friend_outing());
}

#[test]
fn a_single_outing_that_is_left_is_enough() {
    let mut game = BaseGame::default();
    game.friend.out_state = FriendOutState::AfterUnlock;
    assert!(!game.can_friend_outing());
    game.friend.out_used = vec![true, true, true, true, false];
    assert!(game.can_friend_outing());
}

#[test]
fn train_levels_rise_with_the_count() {
    let mut game = BaseGame::default();
    for (count, level) in
        [(-9, 0), (-8, 0), (-7, 0), (-4, 0), (-3, 1), (0, 1), (3, 1), (4, 2), (15, 4), (16, 5), (99, 5)]
    {
        game.train_level_count[2] = count;
        assert_eq!(game.base_train_level(2), level);
    }
    assert_eq!(game.base_train_level(4), 1);
    game.train_level_count[0] = i32::MIN;
    assert_eq!(game.base_train_level(0), 0);
    game.train_level_count[0] = i32::MAX;
    assert_eq!(game.base_train_level(0), 5);
}

#[test]
fn the_camp_is_held_twice() {
    let mut game = BaseGame::default();
    for (turn, expect) in [
        (35, false),
        (36, true),
        (39, true),
        (40, false),
        (59, false),
        (60, true),
        (63, true),
        (64, false),
    ] {
        game.turn = turn;
        assert_eq!(game.is_xiahesu(), expect);
        assert!(game.can_self_race());
    }
}

#[test]
fn races_are_checked_in_the_turn_after_the_stretch() {
    let data = data_with_races(vec![FreeRaceData { start_turn: 20, end_turn: 30, count: 2 }]);
    let mut game = BaseGame::default();
    game.uma.uma_id = 101901;
    game.uma.races[19] = true;
    game.uma.races[20] = true;
    game.uma.races[31] = true;
    for turn in [0, 20, 30, 32, 77] {
        game.turn = turn;
        assert!(game.check_free_race(&data));
    }
    game.turn = 31;
    assert!(!game.check_free_race(&data));
    game.uma.races[30] = true;
    assert!(game.check_free_race(&data));
}

#[test]
fn every_stretch_that_is_due_counts() {
    let data = data_with_races(vec![
        FreeRaceData { start_turn: 10, end_turn: 30, count: 1 },
        FreeRaceData { start_turn: 25, end_turn: 30, count: 1 },
        FreeRaceData { start_turn: 31, end_turn: 40, count: 9 },
    ]);
    let mut game = BaseGame::default();
    game.uma.uma_id = 101901;
    game.turn = 31;
    game.uma.races[12] = true;
    assert!(!game.check_free_race(&data));
    game.uma.races[25] = true;
    assert!(game.check_free_race(&data));
}

#[test]
fn missing_races_pass_where_the_check_is_off_or_the_trainee_unknown() {
    let data = data_with_races(vec![FreeRaceData { start_turn: 20, end_turn: 30, count: 2 }]);
    let mut game = BaseGame::default();
    game.turn = 31;
    assert!(game.check_free_race(&data));
    game.uma.uma_id = 101901;
    assert!(!game.check_free_race(&data));
    game.skip_free_race_check = true;
    assert!(game.check_free_race(&data));
}

#[test]
fn a_negative_turn_is_checked_as_an_unsigned_one() {
    let mut game = BaseGame::default();
    game.uma.uma_id = 101901;
    game.turn = -1;
    let last = FreeRaceData { start_turn: 0, end_turn: u32::MAX - 1, count: 1 };
    assert!(!game.check_free_race(&data_with_races(vec![last])));
    let other = FreeRaceData { start_turn: 0, end_turn: 0, count: 1 };
    assert!(game.check_free_race(&data_with_races(vec![other])));
}

#[test]
fn races_are_counted_within_the_stretch() {
    let mut game = BaseGame::default();
    for turn in [0, 5, 6, 77] {
        game.uma.races[turn] = true;
    }
    let count = |start_turn, end_turn| {
        game.uma.count_free_race(&FreeRaceData { start_turn, end_turn, count: 0 })
    };
    assert_eq!(count(0, 77), 4);
    assert_eq!(count(0, u32::MAX), 4);
    assert_eq!(count(5, 5), 1);
    assert_eq!(count(1, 4), 0);
    assert_eq!(count(6, 5), 0);
    assert_eq!(count(78, 100), 0);
    assert_eq!(count(u32::MAX, u32::MAX), 0);
}

#[test]
fn the_setting_is_for_ramen_alone() {
    let mut game = BaseGame::default();
    prepare_turn(&mut game, Scenario::Onsen, true);
    assert_eq!(game, BaseGame::default());
    prepare_turn(&mut game, Scenario::Ramen, false);
    assert_eq!(game, BaseGame::default());
    prepare_turn(&mut game, Scenario::Ramen, true);
    assert!(game.skip_free_race_check);
    game.turn = 20;
    assert!(game.can_self_race());
    prepare_turn(&mut game, Scenario::Ramen, false);
    assert!(!game.skip_free_race_check);
}

#[test]
fn turns_of_one_career_follow_each_other() {
    let mut last = BaseGame::default();
    last.uma.uma_id = 101901;
    last.turn = 10;
    last.deck = (1..=6).map(card).collect();
    let mut game = last.clone();
    assert!(game.is_next_of(&last));
    game.turn = 11;
    assert!(game.is_next_of(&last));
    assert!(!last.is_next_of(&game));
    game.turn = 12;
    assert!(!game.is_next_of(&last));
    game.turn = 11;
    game.uma.uma_id = 102601;
    assert!(!game.is_next_of(&last));
    game.uma.uma_id = 101901;
    game.deck[5] = card(7);
    assert!(!game.is_next_of(&last));
    game.deck = vec![card(9)];
    assert!(!game.is_next_of(&last));
    last.turn = i32::MAX;
    game.turn = i32::MAX;
    game.deck = last.deck.clone();
    assert!(game.is_next_of(&last));
}

#[test]
fn stretches_after_a_failed_one_are_not_looked_at() {
    let data = data_with_races(vec![
        FreeRaceData { start_turn: 0, end_turn: 30, count: 1 },
        FreeRaceData { start_turn: 0, end_turn: u32::MAX, count: 0 },
    ]);
    let mut game = BaseGame::default();
    game.uma.uma_id = 101901;
    game.turn = 31;
    assert!(!game.check_free_race(&data));
}

#[test]
fn switching_the_check_off_never_fails_a_career() {
    let data = data_with_races(vec![FreeRaceData { start_turn: 20, end_turn: 30, count: 1 }]);
    for raced in [false, true] {
        let mut strict = BaseGame::default();
        strict.uma.uma_id = 101901;
        strict.uma.races[25] = raced;
        strict.turn = 31;
        let mut lenient = strict.clone();
        lenient.skip_free_race_check = true;
        lenient.absent_rate_drop = 9;
        assert_eq!(strict.check_free_race(&data), raced);
        assert!(lenient.check_free_race(&data));
    }
}
