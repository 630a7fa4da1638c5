use rand::rngs::StdRng;
use rand::SeedableRng;
use umasim::card::FriendState;
use umasim::chance::DrawError;
use umasim::counts::EventCounts;
use umasim::event::{ActionValue, EventChoice, EventData, TriggerType};
use umasim::game::happening::card_event;
use umasim::game::BaseGame;
use umasim::uma::UmaFlags;

fn outcome(prob: i32, value: ActionValue) -> EventChoice {
    EventChoice { prob, result: 0, value }
}

fn speed(gain: i32) -> ActionValue {
    ActionValue { status_pt: [gain, 0, 0, 0, 0, 0], ..Default::default() }
}

fn event(id: u32, trigger: TriggerType, choices: Vec<Vec<EventChoice>>) -> EventData {
    EventData { id, trigger, choices, person_index: None }
}

fn story() -> Vec<EventData> {
    (8001..=8003).map(|id| event(id, TriggerType::Other, vec![])).collect()
}

fn recorded(times: &[(u32, u32)]) -> EventCounts {
    let mut counts = EventCounts::new();
    for (id, count) in times {
        for _ in 0..*count {
            counts.record(*id);
        }
    }
    counts
}

#[test]
fn test_apply_friend_bonus_status_pt() {
    let mut value = ActionValue { status_pt: [10, 0, 0, 9, 0, 20], ..Default::default() };
    let mut friend = FriendState::default();
    friend.event_bonus = 30;

    BaseGame::apply_friend_bonus(&mut value, &friend);

    assert_eq!(value.status_pt, [13, 0, 0, 11, 0, 26]);
}

#[test]
fn test_apply_friend_bonus_vital() {
    let mut value = ActionValue { vital: 25, ..Default::default() };
    let mut friend = FriendState::default();
    friend.vital_bonus = 50;

    BaseGame::apply_friend_bonus(&mut value, &friend);

    assert_eq!(value.vital, 37);
}

#[test]
fn test_apply_friend_bonus_other_fields_unchanged() {
    let mut value = ActionValue {
        status_pt: [10, 5, 3, 0, 0, 20],
        vital: 25,
        max_vital: 4,
        motivation: 1,
        hint_level: 2,
        friendship: 15,
    };
    let mut friend = FriendState::default();
    friend.event_bonus = 50;
    friend.vital_bonus = 30;

    BaseGame::apply_friend_bonus(&mut value, &friend);

    assert_eq!(value.status_pt, [15, 7, 4, 0, 0, 30]);
    assert_eq!(value.vital, 32);
    assert_eq!(value.max_vital, 4);
    assert_eq!(value.motivation, 1);
    assert_eq!(value.hint_level, 2);
    assert_eq!(value.friendship, 15);
}

#[test]
fn test_apply_friend_bonus_no_bonus() {
    let mut value = ActionValue {
        status_pt: [10, 5, 3, 0, 0, 20],
        vital: 25,
        max_vital: 4,
        motivation: 1,
        hint_level: 2,
        friendship: 15,
    };
    let friend = FriendState::default();

    BaseGame::apply_friend_bonus(&mut value, &friend);

    assert_eq!(value.status_pt, [10, 5, 3, 0, 0, 20]);
    assert_eq!(value.vital, 25);
    assert_eq!(value.max_vital, 4);
    assert_eq!(value.motivation, 1);
    assert_eq!(value.hint_level, 2);
    assert_eq!(value.friendship, 15);
}

#[test]
fn test_apply_friend_bonus_vital_negative_not_affected() {
    let mut value = ActionValue { vital: -10, ..Default::default() };
    let mut friend = FriendState::default();
    friend.vital_bonus = 50;

    BaseGame::apply_friend_bonus(&mut value, &friend);

    assert_eq!(value.vital, -10);
}

#[test]
fn losses_are_rounded_down_too() {
    let mut value = ActionValue { status_pt: [-9, -10, -1, 1, 7, -100], ..Default::default() };
    let mut friend = FriendState::default();
    friend.event_bonus = 30;
    BaseGame::apply_friend_bonus(&mut value, &friend);
    assert_eq!(value.status_pt, [-12, -13, -2, 1, 9, -130]);
}

#[test]
fn a_bonus_may_be_negative() {
    let mut value = ActionValue { status_pt: [10, 0, 0, 0, 0, 3], vital: 7, ..Default::default() };
    let mut friend = FriendState::default();
    friend.event_bonus = -100;
    friend.vital_bonus = -50;
    BaseGame::apply_friend_bonus(&mut value, &friend);
    assert_eq!(value.status_pt, [0; 6]);
    assert_eq!(value.vital, 3);
}

#[test]
fn an_event_counts_even_where_it_offers_no_choice() {
    let mut game = BaseGame::default();
    let mut rng = StdRng::seed_from_u64(1);
    let quiet = event(5, TriggerType::Other, vec![]);
    assert_eq!(game.apply_event(&quiet, 3, &mut rng), None);
    assert_eq!(game.apply_event(&quiet, 0, &mut rng), None);
    let empty = event(6, TriggerType::Other, vec![vec![]]);
    assert_eq!(game.apply_event(&empty, 0, &mut rng), None);
    assert_eq!(game.events.times(5), 2);
    assert_eq!(game.events.times(6), 1);
    assert_eq!(game.events.times(7), 0);
    assert_eq!(game.uma, BaseGame::default().uma);
}

#[test]
fn a_single_outcome_comes_whatever_its_weight() {
    let game = BaseGame::default();
    let mut rng = StdRng::seed_from_u64(2);
    for prob in [-3, 0, 100] {
        let only = outcome(prob, speed(4));
        assert_eq!(game.random_select_choice_result(&[only], &mut rng), Some(only));
    }
    assert_eq!(game.random_select_choice_result(&[], &mut rng), None);
}

#[test]
fn outcomes_without_weight_never_come() {
    let game = BaseGame::default();
    let mut rng = StdRng::seed_from_u64(3);
    let outcomes =
        [outcome(0, speed(1)), outcome(30, speed(2)), outcome(0, speed(3)), outcome(70, speed(4))];
    let mut seen = [0; 5];
    for _ in 0..200 {
        let drawn = game.random_select_choice_result(&outcomes, &mut rng).unwrap();
        seen[drawn.value.status_pt[0] as usize] += 1;
    }
    assert_eq!(seen[1] + seen[3], 0);
    assert!(seen[2] > 0);
    assert!(seen[4] > 0);
}

#[test]
fn nothing_is_drawn_by_weights_that_are_not_valid() {
    let game = BaseGame::default();
    let mut rng = StdRng::seed_from_u64(4);
    for weights in [[0, 0], [5, -1], [-1, 5], [i32::MAX, 1]] {
        let outcomes = [outcome(weights[0], speed(1)), outcome(weights[1], speed(2))];
        assert_eq!(game.random_select_choice_result(&outcomes, &mut rng), None);
    }
    let outcomes = [outcome(i32::MAX, speed(1)), outcome(0, speed(2))];
    assert_eq!(game.random_select_choice_result(&outcomes, &mut rng), Some(outcomes[0]));
}

#[test]
fn a_settled_outcome_is_the_one_that_took_effect() {
    let mut game = BaseGame::default();
    game.friend.event_bonus = 50;
    game.friend.vital_bonus = 20;
    game.friend_event_ids.insert(9);
    let value = ActionValue {
        status_pt: [10, 5, 0, 0, -3, 7],
        vital: 10,
        max_vital: 4,
        motivation: 1,
        hint_level: 2,
        friendship: 15,
    };
    let drawn = EventChoice { prob: 40, result: 2, value };

    let settled = game.settle_event(9, Some(drawn)).unwrap();
    assert_eq!(settled.prob, 40);
    assert_eq!(settled.result, 2);
    assert_eq!(settled.value.status_pt, [15, 7, 0, 0, -5, 10]);
    assert_eq!(settled.value.vital, 12);
    assert_eq!(game.uma.five_status, [15, 7, 0, 0, -5]);
    assert_eq!(game.uma.skill_pt, 10);
    assert_eq!(game.uma.vital, 12);
    assert_eq!(game.uma.max_vital, 4);
    assert_eq!(game.uma.motivation, 1);
    assert_eq!(game.events.times(9), 1);

    assert_eq!(game.settle_event(10, Some(drawn)), Some(drawn));
    assert_eq!(game.uma.five_status, [25, 12, 0, 0, -8]);
    let before = game.uma;
    assert_eq!(game.settle_event(9, None), None);
    assert_eq!(game.uma, before);
    assert_eq!(game.events.times(9), 2);
}

#[test]
fn a_given_outcome_is_settled_without_a_bonus() {
    let mut game = BaseGame::default();
    game.friend.event_bonus = 50;
    game.apply_event_choice(&outcome(1, speed(10)), UmaFlags { qiezhe: true });
    assert_eq!(game.uma.five_status, [10, 0, 0, 0, 0]);
    assert!(game.uma.flags.qiezhe);
    assert_eq!(game.events, EventCounts::new());
}

#[test]
fn limited_events_are_left_out_once_the_limit_is_reached() {
    let mut game = BaseGame::default();
    let mut rng = StdRng::seed_from_u64(5);
    let events = vec![
        event(1, TriggerType::Random { max_time: 2 }, vec![]),
        event(2, TriggerType::Random { max_time: 0 }, vec![]),
        event(3, TriggerType::Other, vec![]),
        event(4, TriggerType::Random { max_time: 1 }, vec![]),
    ];
    assert_eq!(game.available_events(&events), vec![0, 1, 2, 3]);
    game.events = recorded(&[(1, 1), (2, 50), (3, 50), (4, 1)]);
    assert_eq!(game.available_events(&events), vec![0, 1, 2]);
    game.events.record(1);
    assert_eq!(game.available_events(&events), vec![1, 2]);
    for _ in 0..30 {
        let drawn = game.random_select_event(&events, &mut rng).unwrap();
        assert!(drawn == events[1] || drawn == events[2]);
    }
    assert_eq!(game.random_select_event(&events[..1], &mut rng), None);
    assert_eq!(game.random_select_event(&[], &mut rng), None);
    assert_eq!(game.random_select_event(&events[2..3], &mut rng), Some(events[2].clone()));
}

#[test]
fn drawn_events_never_pass_their_limit() {
    let mut game = BaseGame::default();
    let mut rng = StdRng::seed_from_u64(6);
    let events = vec![
        event(1, TriggerType::Random { max_time: 3 }, vec![]),
        event(2, TriggerType::Random { max_time: 4 }, vec![]),
    ];
    let mut happened = 0;
    while let Some(drawn) = game.random_select_event(&events, &mut rng) {
        game.apply_event(&drawn, 0, &mut rng);
        happened += 1;
    }
    assert_eq!(happened, 7);
    assert_eq!(game.events.times(1), 3);
    assert_eq!(game.events.times(2), 4);
}

#[test]
fn stages_of_a_story_open_one_after_the_other() {
    let mut game = BaseGame::default();
    assert_eq!(game.available_card_events(), vec![0]);
    game.events = recorded(&[(8001, 1)]);
    assert_eq!(game.available_card_events(), vec![0, 1]);
    game.events = recorded(&[(8001, 5), (8002, 2), (8003, 1)]);
    assert_eq!(game.available_card_events(), vec![1, 2]);
    game.events = recorded(&[(8001, 5), (8002, 5), (8003, 4)]);
    assert_eq!(game.available_card_events(), vec![2]);
    game.events = recorded(&[(8001, 5), (8002, 5), (8003, 5)]);
    assert!(game.available_card_events().is_empty());
    let mut rng = StdRng::seed_from_u64(7);
    assert_eq!(game.generate_card_event(&story(), 2, &mut rng), None);
}

#[test]
fn a_story_event_belongs_to_the_person() {
    let game = BaseGame::default();
    let mut rng = StdRng::seed_from_u64(8);
    let drawn = game.generate_card_event(&story(), 4, &mut rng).unwrap();
    assert_eq!(drawn.id, 8001);
    assert_eq!(drawn.person_index, Some(4));
    let mut expected = story().remove(2);
    expected.person_index = Some(-1);
    assert_eq!(card_event(&story(), 2, -1), expected);
}

#[test]
fn stories_stay_in_step_to_the_end() {
    let mut game = BaseGame::default();
    let mut rng = StdRng::seed_from_u64(9);
    let mut happened = 0;
    while let Some(drawn) = game.generate_card_event(&story(), 0, &mut rng) {
        game.apply_event(&drawn, 0, &mut rng);
        happened += 1;
        assert!(game.events.times(8001) <= 5);
        assert!(game.events.times(8002) <= game.events.times(8001));
        assert!(game.events.times(8003) <= game.events.times(8002));
    }
    assert_eq!(happened, 15);
    assert_eq!(game.events.times(8003), 5);
}

#[test]
fn counts_are_kept_apart_by_event() {
    let mut counts = recorded(&[(7, 3)]);
    assert_eq!(counts.times(7), 3);
    assert_eq!(counts.times(8), 0);
    let copy = counts.clone();
    counts.record(8);
    assert_eq!(counts.times(8), 1);
    assert_eq!(counts.times(7), 3);
    assert_eq!(copy.times(8), 0);
    assert_eq!(copy.times(7), 3);
    assert_eq!(EventCounts::default(), EventCounts::new());
}

#[test]
fn the_generator_is_used_only_where_there_is_something_to_draw() {
    let mut game = BaseGame::default();
    let mut rng = StdRng::seed_from_u64(10);
    let untouched = rng.clone();
    let only = outcome(0, speed(1));
    game.random_select_choice_result(&[], &mut rng);
    game.random_select_choice_result(&[only], &mut rng);
    game.random_select_choice_result(&[only, only], &mut rng);
    game.apply_event(&event(1, TriggerType::Other, vec![]), 0, &mut rng);
    game.apply_event(&event(1, TriggerType::Other, vec![vec![only]]), 0, &mut rng);
    game.random_select_event(&[], &mut rng);
    game.events = recorded(&[(8001, 5), (8002, 5), (8003, 5)]);
    game.generate_card_event(&story(), 0, &mut rng);
    assert_eq!(rng, untouched);
    let drawable = outcome(1, speed(1));
    game.random_select_choice_result(&[drawable, drawable], &mut rng);
    assert_ne!(rng, untouched);
}

#[test]
fn a_refused_draw_says_why() {
    let game = BaseGame::default();
    let mut rng = StdRng::seed_from_u64(11);
    for (weights, error) in [
        ([0, 0, 0], DrawError::InsufficientNonZero),
        ([5, 0, -1], DrawError::InvalidWeight),
        ([-1, i32::MAX, 1], DrawError::InvalidWeight),
        ([i32::MAX, 1, -1], DrawError::Overflow),
        ([1, i32::MAX, 0], DrawError::Overflow),
    ] {
        let outcomes = weights.map(|weight| outcome(weight, speed(1)));
        assert_eq!(game.draw_choice_result(&outcomes, &mut rng), Err(error));
        assert_eq!(game.random_select_choice_result(&outcomes, &mut rng), None);
    }
    assert_eq!(game.draw_choice_result(&[], &mut rng), Ok(None));
    let only = outcome(-7, speed(1));
    assert_eq!(game.draw_choice_result(&[only], &mut rng), Ok(Some(only)));
    let outcomes = [outcome(0, speed(1)), outcome(3, speed(2))];
    assert_eq!(game.draw_choice_result(&outcomes, &mut rng), Ok(Some(outcomes[1])));
}
