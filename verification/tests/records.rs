use holdem::deal::{DealResponse, DealtHand};
use holdem::hand::model::{Cards, DealInput, Hand, PlayerAction, StreetType};
use holdem::hand::repository::{
    action_text, hand_from, hand_item, parse_action, parse_street, street_text, HandRepository,
};
use holdem::hand::service::HandService;
use holdem::player::model::Player;
use holdem::store::{find_field, Attr, Field};

fn n(number: i64) -> Attr {
    Attr::N(number.to_string())
}

fn service() -> HandService {
    HandService::new(HandRepository::new("hands".to_string()))
}

fn dealt(count: usize) -> Hand {
    let input = DealInput {
        players: (0..count).map(|i| Player::new(format!("p{}", i), Some(1000))).collect(),
        table_id: "t".to_string(),
    };
    let response = DealResponse {
        hands: (0..count)
            .map(|_| DealtHand {
                cards: vec!["As".to_string(), "Kd".to_string()],
                score: 7,
                description: "high card".to_string(),
            })
            .collect(),
        board: Some(Cards {
            flop: vec!["2h".to_string(), "7d".to_string(), "Kc".to_string()],
            turn: "9s".to_string(),
            river: "Ah".to_string(),
        }),
    };
    service().create(input, Some(response)).unwrap()
}

fn s(text: &str) -> Attr {
    Attr::S(text.to_string())
}

fn f(name: &str, value: Attr) -> Field {
    Field { name: name.to_string(), value }
}

/// What an item keeps of a hand.
fn persisted(hand: &Hand) -> Hand {
    Hand {
        id: hand.id.clone(),
        table_id: String::new(),
        players: Vec::new(),
        cards: Cards { flop: Vec::new(), turn: String::new(), river: String::new() },
        player_events: hand.player_events.clone(),
        street_events: hand.street_events.clone(),
    }
}

#[test]
fn item_of_a_fresh_hand() {
    let hand = dealt(2);
    let item = hand_item(&hand);
    let blind = |player: &str, amount: i64| {
        Attr::M(vec![
            f("player_id", s(player)),
            f("action", s("Bet")),
            f("amount", n(amount)),
            f("street_type", s("Preflop")),
        ])
    };
    let seat = |player: &str, bet: i64, stack: i64| {
        Attr::M(vec![f("id", s(player)), f("bet", n(bet)), f("stack", n(stack))])
    };
    assert_eq!(
        item,
        vec![
            f("hand_id", Attr::S(hand.id.clone())),
            f("player_events", Attr::L(vec![blind("p0", 10), blind("p1", 20)])),
            f(
                "street_events",
                Attr::L(vec![Attr::M(vec![
                    f("street_type", s("Preflop")),
                    f(
                        "current_active_players",
                        Attr::L(vec![seat("p0", 10, 990), seat("p1", 20, 980)]),
                    ),
                    f("pot", n(30)),
                    f("cycle_count", n(0)),
                    f("should_increment_cycle", Attr::Bool(false)),
                ])]),
            ),
        ]
    );
}

#[test]
fn item_keeps_optional_fields_that_are_present() {
    let mut hand = dealt(3);
    assert_eq!(hand.record("p2", PlayerAction::Fold, 0), Ok(()));
    let item = hand_item(&hand);
    let events = match &item[1].value {
        Attr::L(events) => events,
        other => panic!("unexpected value {:?}", other),
    };
    assert_eq!(
        events[2],
        Attr::M(vec![
            f("player_id", s("p2")),
            f("action", s("Fold")),
            f("amount", n(0)),
            f("street_type", s("Preflop")),
            f("current_stack", n(1000)),
            f("current_pot", n(30)),
        ])
    );
    let streets = match &item[2].value {
        Attr::L(streets) => streets,
        other => panic!("unexpected value {:?}", other),
    };
    let seats = match streets[0] {
        Attr::M(ref fields) => match &fields[1].value {
            Attr::L(seats) => seats,
            other => panic!("unexpected value {:?}", other),
        },
        ref other => panic!("unexpected value {:?}", other),
    };
    assert_eq!(
        seats[2],
        Attr::M(vec![
            f("id", s("p2")),
            f("bet", n(0)),
            f("stack", n(1000)),
            f("is_inactive", Attr::Bool(true)),
        ])
    );
}

#[test]
fn save_request_puts_the_item_in_the_hands_table() {
    let hand = dealt(2);
    let request = service().save_request(&hand);
    assert_eq!(request.table_name, "hands");
    assert_eq!(request.item, hand_item(&hand));
    let direct = HandRepository::new("other".to_string()).create_hand(&hand);
    assert_eq!(direct.table_name, "other");
    assert_eq!(direct.item, hand_item(&hand));
}

#[test]
fn find_hand_request_filters_by_id() {
    let request = HandRepository::new("hands".to_string()).find_hand("h1");
    assert_eq!(request.table_name, "hands");
    assert_eq!(request.filter_expression, "hand_id = :hand_id");
    assert_eq!(request.expression_attribute_values, vec![f(":hand_id", s("h1"))]);
}

#[test]
fn fresh_hand_round_trips() {
    let hand = dealt(4);
    assert_eq!(hand_from(&hand_item(&hand)), Some(persisted(&hand)));
}

#[test]
fn played_hand_round_trips() {
    let mut hand = dealt(3);
    let script = [
        ("p2", PlayerAction::Bet, 20),
        ("p0", PlayerAction::Fold, 0),
        ("p1", PlayerAction::Check, 0),
        ("p2", PlayerAction::Bet, 40),
        ("p1", PlayerAction::Bet, 40),
        ("p1", PlayerAction::Check, 0),
    ];
    for (player, action, amount) in script {
        assert_eq!(hand.record(player, action, amount), Ok(()));
        assert_eq!(hand_from(&hand_item(&hand)), Some(persisted(&hand)));
    }
    assert_eq!(hand.street_events.len(), 3);
}

#[test]
fn hand_without_unstored_parts_round_trips_whole() {
    let hand = persisted(&dealt(2));
    assert_eq!(hand_from(&hand_item(&hand)), Some(hand));
}

#[test]
fn read_back_does_not_depend_on_field_order() {
    let hand = dealt(2);
    let mut item = hand_item(&hand);
    item.reverse();
    assert_eq!(hand_from(&item), Some(persisted(&hand)));
}

/// The same value with the fields of every record in reverse order.
fn reversed(attr: &Attr) -> Attr {
    match attr {
        Attr::S(text) => Attr::S(text.clone()),
        Attr::N(number) => Attr::N(number.clone()),
        Attr::Bool(flag) => Attr::Bool(*flag),
        Attr::L(items) => Attr::L(items.iter().map(reversed).collect()),
        Attr::M(fields) => Attr::M(
            fields.iter().rev().map(|field| f(&field.name, reversed(&field.value))).collect(),
        ),
    }
}

#[test]
fn read_back_does_not_depend_on_field_order_at_any_depth() {
    let mut hand = dealt(3);
    assert_eq!(hand.record("p2", PlayerAction::Fold, 0), Ok(()));
    assert_eq!(hand.record("p0", PlayerAction::Bet, 10), Ok(()));
    let item = match reversed(&Attr::M(hand_item(&hand))) {
        Attr::M(fields) => fields,
        other => panic!("unexpected value {:?}", other),
    };
    assert_ne!(item, hand_item(&hand));
    assert_eq!(hand_from(&item), Some(persisted(&hand)));
}

#[test]
fn item_whose_pot_differs_from_the_logged_chips_is_refused() {
    let mut hand = dealt(2);
    hand.street_events[0].pot = 31;
    assert_eq!(hand_from(&hand_item(&hand)), None);
}

#[test]
fn read_hand_takes_the_first_item() {
    let repository = HandRepository::new("hands".to_string());
    let hand = dealt(2);
    assert_eq!(repository.read_hand(&Vec::new()), None);
    assert_eq!(repository.read_hand(&vec![hand_item(&hand)]), Some(persisted(&hand)));
    assert_eq!(repository.read_hand(&vec![Vec::new(), hand_item(&hand)]), None);
}

#[test]
fn malformed_items_are_refused() {
    let hand = dealt(2);
    assert_eq!(hand_from(&Vec::new()), None);
    let mut no_id = hand_item(&hand);
    no_id.remove(0);
    assert_eq!(hand_from(&no_id), None);
    let mut numeric_id = hand_item(&hand);
    numeric_id[0].value = n(1);
    assert_eq!(hand_from(&numeric_id), None);
    let mut bad_events = hand_item(&hand);
    bad_events[1].value = Attr::L(vec![Attr::Bool(true)]);
    assert_eq!(hand_from(&bad_events), None);
    let mut bad_action = hand_item(&hand);
    bad_action[1].value = Attr::L(vec![Attr::M(vec![
        f("player_id", s("p0")),
        f("action", s("Raise")),
        f("amount", n(10)),
        f("street_type", s("Preflop")),
    ])]);
    assert_eq!(hand_from(&bad_action), None);
    let mut bad_streets = hand_item(&hand);
    bad_streets[2].value = s("none");
    assert_eq!(hand_from(&bad_streets), None);
}

#[test]
fn items_of_invalid_hands_are_refused() {
    let mut hand = dealt(2);
    hand.street_events[0].pot = -5;
    assert_eq!(hand_from(&hand_item(&hand)), None);
    let mut hand = dealt(2);
    hand.street_events[0].cycle_count = 7;
    assert_eq!(hand_from(&hand_item(&hand)), None);
}

#[test]
fn cycle_count_out_of_range_is_refused() {
    let hand = dealt(2);
    let street = |count: i64| {
        Attr::L(vec![Attr::M(vec![
            f("street_type", s("Preflop")),
            f("current_active_players", Attr::L(Vec::new())),
            f("pot", n(30)),
            f("cycle_count", n(count)),
            f("should_increment_cycle", Attr::Bool(false)),
        ])])
    };
    let mut item = hand_item(&hand);
    item[2].value = street(0);
    assert!(hand_from(&item).is_some());
    item[2].value = street(-1);
    assert_eq!(hand_from(&item), None);
    item[2].value = street(4294967296);
    assert_eq!(hand_from(&item), None);
}

#[test]
fn numbers_that_are_not_decimal_are_refused() {
    let hand = dealt(2);
    let street = |pot: &str| {
        Attr::L(vec![Attr::M(vec![
            f("street_type", s("Preflop")),
            f("current_active_players", Attr::L(Vec::new())),
            f("pot", Attr::N(pot.to_string())),
            f("cycle_count", n(0)),
            f("should_increment_cycle", Attr::Bool(false)),
        ])])
    };
    let mut item = hand_item(&hand);
    item[2].value = street("30");
    assert!(hand_from(&item).is_some());
    item[2].value = street("030");
    assert!(hand_from(&item).is_some());
    for pot in ["", "-", "30.0", "3e1", "+30", " 30", "thirty", "9223372036854775808"] {
        item[2].value = street(pot);
        assert_eq!(hand_from(&item), None);
    }
}

#[test]
fn names_of_actions_and_streets() {
    for action in [PlayerAction::Bet, PlayerAction::Check, PlayerAction::Fold] {
        assert_eq!(parse_action(&action_text(action)), Some(action));
    }
    for street in [StreetType::Preflop, StreetType::Flop, StreetType::Turn, StreetType::River] {
        assert_eq!(parse_street(&street_text(street)), Some(street));
    }
    assert_eq!(action_text(PlayerAction::Bet), "Bet");
    assert_eq!(action_text(PlayerAction::Check), "Check");
    assert_eq!(action_text(PlayerAction::Fold), "Fold");
    assert_eq!(street_text(StreetType::Preflop), "Preflop");
    assert_eq!(street_text(StreetType::Flop), "Flop");
    assert_eq!(street_text(StreetType::Turn), "Turn");
    assert_eq!(street_text(StreetType::River), "River");
    assert_eq!(parse_action(&"bet".to_string()), None);
    assert_eq!(parse_street(&"".to_string()), None);
}

#[test]
fn find_field_returns_the_first_match() {
    let fields = vec![f("a", n(1)), f("b", n(2)), f("a", n(3))];
    assert_eq!(find_field(&fields, "a"), Some(&n(1)));
    assert_eq!(find_field(&fields, "b"), Some(&n(2)));
    assert_eq!(find_field(&fields, "c"), None);
}
