use holdem::deal::{DealRequest, DealResponse, DealtHand};
use holdem::hand::betting::ActionError;
use holdem::hand::dealing::{DealError, BIG_BLIND, SMALL_BLIND};
use holdem::hand::model::{
    ActivePlayer, Cards, DealInput, Hand, HandState, PlayerAction, PlayerEvent, StreetEvent,
    StreetType,
};
use holdem::hand::repository::HandRepository;
use holdem::hand::service::HandService;
use holdem::player::model::Player;

fn service() -> HandService {
    HandService::new(HandRepository::new("hands".to_string()))
}

fn players(count: usize) -> Vec<Player> {
    (0..count).map(|i| Player::new(format!("p{}", i), Some(1000))).collect()
}

fn board() -> Cards {
    Cards {
        flop: vec!["2h".to_string(), "7d".to_string(), "Kc".to_string()],
        turn: "9s".to_string(),
        river: "Ah".to_string(),
    }
}

fn response(count: usize) -> DealResponse {
    DealResponse {
        hands: (0..count)
            .map(|i| DealtHand {
                cards: vec![format!("{}s", i + 2), format!("{}h", i + 2)],
                score: 100 + i as u64,
                description: format!("pair of {}s", i + 2),
            })
            .collect(),
        board: Some(board()),
    }
}

fn dealt(count: usize) -> Hand {
    let input = DealInput { players: players(count), table_id: "t".to_string() };
    service().create(input, Some(response(count))).unwrap()
}

fn act(hand: &mut Hand, player: &str, action: PlayerAction, amount: i64) {
    assert_eq!(hand.record(player, action, amount), Ok(()));
}

fn bet(player: &str, amount: i64, street: StreetType, stack: i64, pot: i64) -> PlayerEvent {
    PlayerEvent {
        player_id: player.to_string(),
        action: PlayerAction::Bet,
        amount,
        street_type: street,
        current_stack: Some(stack),
        current_pot: Some(pot),
    }
}

fn seat(id: &str, bet: i64, stack: i64, is_inactive: Option<bool>) -> ActivePlayer {
    ActivePlayer { id: id.to_string(), bet, stack, is_inactive }
}

#[test]
fn blinds_are_ten_and_twenty() {
    assert_eq!(SMALL_BLIND, 10);
    assert_eq!(BIG_BLIND, 20);
}

#[test]
fn deal_request_asks_for_one_seat_per_player() {
    let input = DealInput { players: players(6), table_id: "t".to_string() };
    assert_eq!(service().deal_request(&input), DealRequest { player_count: 6 });
}

#[test]
fn create_with_two_players_posts_both_blinds() {
    let p0 = Player::new("p0".to_string(), Some(500));
    let p1 = Player::new("p1".to_string(), None);
    let input = DealInput { players: vec![p0, p1], table_id: "t".to_string() };
    let hand = service().create(input, Some(response(2))).unwrap();
    assert_eq!(
        hand.player_events,
        vec![
            PlayerEvent {
                player_id: "p0".to_string(),
                action: PlayerAction::Bet,
                amount: 10,
                street_type: StreetType::Preflop,
                current_stack: None,
                current_pot: None,
            },
            PlayerEvent {
                player_id: "p1".to_string(),
                action: PlayerAction::Bet,
                amount: 20,
                street_type: StreetType::Preflop,
                current_stack: None,
                current_pot: None,
            },
        ]
    );
    assert_eq!(hand.street_events.len(), 1);
    assert_eq!(hand.street_events[0].pot, 30);
    assert_eq!(
        hand.street_events[0],
        StreetEvent {
            street_type: StreetType::Preflop,
            current_active_players: vec![seat("p0", 10, 490, None), seat("p1", 20, -20, None)],
            pot: 30,
            cycle_count: 0,
            should_increment_cycle: false,
        }
    );
    assert_eq!(hand.table_id, "t");
    assert_eq!(hand.cards, board());
    assert_eq!(hand.id.len(), 36);
    assert!(uuid::Uuid::parse_str(&hand.id).is_ok());
    assert_eq!(hand.state(), HandState::Preflop);
    assert!(hand.is_wf());
}

#[test]
fn create_merges_players_with_their_dealt_hands_by_seat() {
    let hand = dealt(3);
    assert_eq!(hand.players.len(), 3);
    for (i, player) in hand.players.iter().enumerate() {
        assert_eq!(player.id(), format!("p{}", i));
        assert_eq!(player.stack(), Some(1000));
        assert_eq!(player.cards(), &[format!("{}s", i + 2), format!("{}h", i + 2)]);
        assert_eq!(player.score(), 100 + i as u64);
        assert_eq!(player.description(), format!("pair of {}s", i + 2));
    }
    assert_eq!(
        hand.street_events[0].current_active_players,
        vec![seat("p0", 10, 990, None), seat("p1", 20, 980, None), seat("p2", 0, 1000, None)]
    );
    assert_eq!(hand.player_events.len(), 2);
    assert_eq!(hand.street_events[0].pot, 30);
}

#[test]
fn create_gives_each_hand_its_own_id() {
    assert_ne!(dealt(2).id, dealt(2).id);
}

#[test]
fn create_with_one_player_posts_the_small_blind_only() {
    let hand = dealt(1);
    assert_eq!(hand.player_events.len(), 1);
    assert_eq!(hand.player_events[0].amount, 10);
    assert_eq!(hand.street_events[0].pot, 10);
    assert_eq!(hand.state(), HandState::FoldedOut);
}

#[test]
fn create_with_no_players_posts_nothing() {
    let hand = dealt(0);
    assert!(hand.player_events.is_empty());
    assert_eq!(hand.street_events[0].pot, 0);
    assert!(hand.street_events[0].current_active_players.is_empty());
    assert_eq!(hand.state(), HandState::Preflop);
}

#[test]
fn create_fails_when_dealing_is_unavailable() {
    let input = DealInput { players: players(2), table_id: "t".to_string() };
    assert_eq!(service().create(input, None), Err(DealError::DealingUnavailable));
}

#[test]
fn create_fails_on_an_incomplete_deal() {
    let input = DealInput { players: players(3), table_id: "t".to_string() };
    assert_eq!(service().create(input.clone(), Some(response(2))), Err(DealError::DealingUnavailable));
    let mut no_board = response(3);
    no_board.board = None;
    assert_eq!(service().create(input.clone(), Some(no_board)), Err(DealError::DealingUnavailable));
    let mut short_flop = response(3);
    short_flop.board.as_mut().unwrap().flop.pop();
    assert_eq!(service().create(input.clone(), Some(short_flop)), Err(DealError::DealingUnavailable));
    assert!(!response(2).is_complete(3));
    assert!(response(3).is_complete(3));
}

#[test]
fn created_reports_a_failed_save() {
    let hand = dealt(2);
    assert_eq!(service().created(hand.clone(), true), Ok(hand.clone()));
    assert_eq!(service().created(hand, false), Err(DealError::PersistenceError));
}

#[test]
fn recorded_reports_a_failed_save() {
    let hand = dealt(2);
    assert_eq!(service().recorded(hand.clone(), true), Ok(hand.clone()));
    assert_eq!(service().recorded(hand, false), Err(ActionError::PersistenceError));
}

#[test]
fn deal_input_must_fit_a_table() {
    assert!(DealInput { players: players(10), table_id: "t".to_string() }.is_wf());
    assert!(!DealInput { players: players(11), table_id: "t".to_string() }.is_wf());
    let mut twice = players(2);
    twice[1].id = "p0".to_string();
    assert!(!DealInput { players: twice, table_id: "t".to_string() }.is_wf());
    let mut owing = players(2);
    owing[1].stack = Some(-1);
    assert!(!DealInput { players: owing, table_id: "t".to_string() }.is_wf());
    let mut unfunded = players(2);
    unfunded[0].stack = None;
    assert!(DealInput { players: unfunded, table_id: "t".to_string() }.is_wf());
}

#[test]
fn record_action_on_unknown_hand_is_not_found() {
    assert_eq!(
        service().record_action(None, "p0", PlayerAction::Check, 0),
        Err(ActionError::NotFound)
    );
}

#[test]
fn record_action_returns_the_updated_hand() {
    let hand = dealt(2);
    let mut expected = hand.clone();
    act(&mut expected, "p0", PlayerAction::Bet, 30);
    assert_eq!(service().record_action(Some(hand), "p0", PlayerAction::Bet, 30), Ok(expected));
}

#[test]
fn bet_moves_chips_from_stack_to_pot() {
    let mut hand = dealt(3);
    act(&mut hand, "p2", PlayerAction::Bet, 50);
    assert_eq!(hand.player_events.len(), 3);
    assert_eq!(hand.player_events[2], bet("p2", 50, StreetType::Preflop, 950, 80));
    assert_eq!(
        hand.street_events,
        vec![StreetEvent {
            street_type: StreetType::Preflop,
            current_active_players: vec![
                seat("p0", 10, 990, None),
                seat("p1", 20, 980, None),
                seat("p2", 50, 950, None),
            ],
            pot: 80,
            cycle_count: 0,
            should_increment_cycle: false,
        }]
    );
    assert_eq!(hand.state(), HandState::Preflop);
}

#[test]
fn check_changes_no_number() {
    let mut hand = dealt(3);
    let before = hand.street_events.clone();
    act(&mut hand, "p2", PlayerAction::Check, 77);
    assert_eq!(hand.street_events, before);
    assert_eq!(
        hand.player_events[2],
        PlayerEvent {
            player_id: "p2".to_string(),
            action: PlayerAction::Check,
            amount: 0,
            street_type: StreetType::Preflop,
            current_stack: Some(1000),
            current_pot: Some(30),
        }
    );
}

#[test]
fn fold_marks_the_seat_inactive() {
    let mut hand = dealt(3);
    act(&mut hand, "p2", PlayerAction::Fold, 0);
    assert_eq!(
        hand.street_events[0].current_active_players,
        vec![seat("p0", 10, 990, None), seat("p1", 20, 980, None), seat("p2", 0, 1000, Some(true))]
    );
    assert_eq!(hand.street_events[0].pot, 30);
    assert_eq!(hand.state(), HandState::Preflop);
    assert_eq!(hand.record("p2", PlayerAction::Check, 0), Err(ActionError::InvalidActor));
}

#[test]
fn action_of_a_stranger_is_invalid_actor() {
    let mut hand = dealt(2);
    let before = hand.clone();
    assert_eq!(hand.record("nobody", PlayerAction::Check, 0), Err(ActionError::InvalidActor));
    assert_eq!(hand, before);
}

#[test]
fn action_on_a_hand_without_streets_is_invalid_actor() {
    let mut hand = dealt(2);
    hand.street_events.clear();
    assert_eq!(hand.state(), HandState::Created);
    assert_eq!(hand.record("p0", PlayerAction::Check, 0), Err(ActionError::InvalidActor));
}

#[test]
fn negative_bet_is_invalid_amount() {
    let mut hand = dealt(2);
    let before = hand.clone();
    assert_eq!(hand.record("p0", PlayerAction::Bet, -1), Err(ActionError::InvalidAmount));
    assert_eq!(hand, before);
    assert_eq!(hand.record("p0", PlayerAction::Fold, -1), Ok(()));
}

#[test]
fn bet_too_large_to_count_is_invalid_amount() {
    let mut hand = dealt(2);
    assert_eq!(hand.record("p0", PlayerAction::Bet, i64::MAX), Err(ActionError::InvalidAmount));
    assert_eq!(hand.record("p0", PlayerAction::Bet, i64::MAX - 30), Ok(()));
    assert_eq!(hand.street_events[0].pot, i64::MAX);
}

#[test]
fn zero_bet_is_accepted() {
    let mut hand = dealt(3);
    act(&mut hand, "p2", PlayerAction::Bet, 0);
    assert_eq!(hand.street_events[0].pot, 30);
    assert_eq!(hand.player_events[2].amount, 0);
}

#[test]
fn matched_bets_close_the_street() {
    let mut hand = dealt(2);
    act(&mut hand, "p0", PlayerAction::Bet, 10);
    assert_eq!(
        hand.street_events,
        vec![
            StreetEvent {
                street_type: StreetType::Preflop,
                current_active_players: vec![seat("p0", 20, 980, None), seat("p1", 20, 980, None)],
                pot: 40,
                cycle_count: 1,
                should_increment_cycle: true,
            },
            StreetEvent {
                street_type: StreetType::Flop,
                current_active_players: vec![seat("p0", 0, 980, None), seat("p1", 0, 980, None)],
                pot: 40,
                cycle_count: 0,
                should_increment_cycle: false,
            },
        ]
    );
    assert_eq!(hand.state(), HandState::Flop);
    assert!(hand.is_wf());
}

#[test]
fn street_stays_open_until_everyone_has_acted() {
    let mut hand = dealt(3);
    act(&mut hand, "p0", PlayerAction::Bet, 10);
    assert_eq!(hand.street_events.len(), 1);
    act(&mut hand, "p2", PlayerAction::Bet, 20);
    assert_eq!(hand.street_events.len(), 2);
    assert_eq!(hand.state(), HandState::Flop);
    act(&mut hand, "p0", PlayerAction::Check, 0);
    act(&mut hand, "p1", PlayerAction::Check, 0);
    assert_eq!(hand.state(), HandState::Flop);
    assert!(!hand.street_events[1].should_increment_cycle);
    act(&mut hand, "p2", PlayerAction::Check, 0);
    assert_eq!(hand.state(), HandState::Turn);
}

#[test]
fn raise_reopens_the_round() {
    let mut hand = dealt(3);
    act(&mut hand, "p2", PlayerAction::Bet, 60);
    act(&mut hand, "p0", PlayerAction::Bet, 50);
    assert_eq!(hand.state(), HandState::Preflop);
    act(&mut hand, "p1", PlayerAction::Bet, 40);
    assert_eq!(hand.state(), HandState::Flop);
    assert_eq!(hand.street_events[0].pot, 180);
    assert_eq!(hand.street_events[1].pot, 180);
}

#[test]
fn folded_seats_are_carried_to_the_next_street() {
    let mut hand = dealt(3);
    act(&mut hand, "p2", PlayerAction::Fold, 0);
    act(&mut hand, "p0", PlayerAction::Bet, 10);
    assert_eq!(hand.state(), HandState::Flop);
    assert_eq!(
        hand.street_events[1].current_active_players,
        vec![seat("p0", 0, 980, None), seat("p1", 0, 980, None), seat("p2", 0, 1000, Some(true))]
    );
    assert_eq!(hand.record("p2", PlayerAction::Check, 0), Err(ActionError::InvalidActor));
}

#[test]
fn hand_runs_through_all_streets_to_complete() {
    let mut hand = dealt(2);
    assert_eq!(hand.state(), HandState::Preflop);
    act(&mut hand, "p0", PlayerAction::Bet, 10);
    for street in [HandState::Flop, HandState::Turn, HandState::River] {
        assert_eq!(hand.state(), street);
        act(&mut hand, "p1", PlayerAction::Bet, 5);
        assert_eq!(hand.state(), street);
        act(&mut hand, "p0", PlayerAction::Bet, 5);
    }
    assert_eq!(hand.state(), HandState::Complete);
    assert_eq!(hand.street_events.len(), 4);
    assert_eq!(hand.street_events[3].pot, 70);
    assert_eq!(hand.street_events[3].cycle_count, 1);
    assert!(hand.street_events[3].should_increment_cycle);
    assert_eq!(
        hand.street_events.iter().map(|s| s.street_type).collect::<Vec<_>>(),
        vec![StreetType::Preflop, StreetType::Flop, StreetType::Turn, StreetType::River]
    );
    assert_eq!(hand.player_events.len(), 9);
    assert!(hand.is_wf());
    let before = hand.clone();
    assert_eq!(hand.record("p0", PlayerAction::Check, 0), Err(ActionError::HandClosed));
    assert_eq!(hand.record("nobody", PlayerAction::Bet, -5), Err(ActionError::HandClosed));
    assert_eq!(hand, before);
}

#[test]
fn folding_down_to_one_player_closes_the_hand() {
    let mut hand = dealt(3);
    act(&mut hand, "p2", PlayerAction::Fold, 0);
    assert_eq!(hand.state(), HandState::Preflop);
    act(&mut hand, "p0", PlayerAction::Fold, 0);
    assert_eq!(hand.state(), HandState::FoldedOut);
    assert_eq!(hand.street_events.len(), 1);
    assert!(!hand.street_events[0].should_increment_cycle);
    assert_eq!(hand.street_events[0].cycle_count, 0);
    assert_eq!(hand.record("p1", PlayerAction::Check, 0), Err(ActionError::HandClosed));
    assert_eq!(hand.record("p1", PlayerAction::Bet, 10), Err(ActionError::HandClosed));
    assert_eq!(hand.record("p0", PlayerAction::Fold, 0), Err(ActionError::HandClosed));
}

#[test]
fn fold_out_on_a_later_street() {
    let mut hand = dealt(2);
    act(&mut hand, "p0", PlayerAction::Bet, 10);
    act(&mut hand, "p1", PlayerAction::Check, 0);
    act(&mut hand, "p0", PlayerAction::Check, 0);
    assert_eq!(hand.state(), HandState::Turn);
    act(&mut hand, "p1", PlayerAction::Fold, 0);
    assert_eq!(hand.state(), HandState::FoldedOut);
    assert_eq!(hand.street_events.len(), 3);
    assert_eq!(hand.record("p0", PlayerAction::Check, 0), Err(ActionError::HandClosed));
}

#[test]
fn pot_holds_the_logged_chips_throughout() {
    let mut hand = dealt(3);
    let script = [
        ("p2", PlayerAction::Bet, 20),
        ("p0", PlayerAction::Bet, 30),
        ("p1", PlayerAction::Bet, 20),
        ("p2", PlayerAction::Bet, 20),
        ("p0", PlayerAction::Check, 0),
        ("p1", PlayerAction::Bet, 15),
        ("p2", PlayerAction::Fold, 0),
        ("p0", PlayerAction::Bet, 15),
    ];
    for (player, action, amount) in script {
        assert_eq!(hand.record(player, action, amount), Ok(()));
        let logged: i64 = hand.player_events.iter().map(|event| event.amount).sum();
        assert_eq!(hand.street_events.last().unwrap().pot, logged);
        assert!(hand.is_wf());
    }
    assert_eq!(hand.state(), HandState::Turn);
    assert_eq!(hand.street_events.last().unwrap().pot, 150);
}

#[test]
fn is_wf_refuses_broken_logs() {
    let hand = dealt(2);
    assert!(hand.is_wf());
    let mut negative_pot = hand.clone();
    negative_pot.street_events[0].pot = -1;
    assert!(!negative_pot.is_wf());
    let mut wrong_street = hand.clone();
    wrong_street.street_events[0].street_type = StreetType::Flop;
    assert!(!wrong_street.is_wf());
    let mut frozen_preflop = hand.clone();
    frozen_preflop.street_events[0].should_increment_cycle = true;
    frozen_preflop.street_events[0].cycle_count = 1;
    assert!(!frozen_preflop.is_wf());
    let mut miscounted = hand.clone();
    miscounted.street_events[0].cycle_count = 2;
    assert!(!miscounted.is_wf());
    let mut other_pot = hand.clone();
    other_pot.street_events[0].pot = 40;
    assert!(!other_pot.is_wf());
    let mut unlogged = hand.clone();
    unlogged.player_events.pop();
    assert!(!unlogged.is_wf());
    let mut negative_bet = hand.clone();
    negative_bet.street_events[0].current_active_players[1].bet = -20;
    assert!(!negative_bet.is_wf());
    let mut negative_event = hand.clone();
    negative_event.player_events[0].amount = -10;
    assert!(!negative_event.is_wf());
    let mut other_seats = hand.clone();
    act(&mut other_seats, "p0", PlayerAction::Bet, 10);
    other_seats.street_events[1].current_active_players[0].id = "px".to_string();
    assert!(!other_seats.is_wf());
    let mut open_first = hand.clone();
    act(&mut open_first, "p0", PlayerAction::Bet, 10);
    open_first.street_events[0].should_increment_cycle = false;
    open_first.street_events[0].cycle_count = 0;
    assert!(!open_first.is_wf());
}

#[test]
fn new_player_has_no_cards() {
    let player = Player::new("p9".to_string(), None);
    assert_eq!(player.id(), "p9");
    assert_eq!(player.stack(), None);
    assert!(player.cards().is_empty());
    assert_eq!(player.score(), 0);
    assert_eq!(player.description(), "");
    assert_eq!(Player::new("p9".to_string(), Some(5)).stack(), Some(5));
}

#[test]
fn services_keep_their_repositories() {
    let repository = HandRepository::new("hands".to_string());
    assert_eq!(repository.table_name, "hands");
    assert_eq!(HandService::new(repository.clone()).hand_repository, repository);
}

#[test]
fn action_log_only_grows() {
    let mut hand = dealt(3);
    let before = hand.clone();
    act(&mut hand, "p2", PlayerAction::Bet, 20);
    act(&mut hand, "p0", PlayerAction::Bet, 10);
    assert_eq!(hand.player_events[..2], before.player_events[..]);
    assert_eq!(hand.players, before.players);
    assert_eq!(hand.cards, before.cards);
    assert_eq!(hand.id, before.id);
    assert_eq!(hand.table_id, before.table_id);
    let frozen = hand.street_events[0].clone();
    act(&mut hand, "p1", PlayerAction::Check, 0);
    act(&mut hand, "p0", PlayerAction::Bet, 5);
    assert_eq!(hand.street_events[0], frozen);
}
