//! The stored form of a hand and how it is read back.
//!
//! A hand is kept as one item: its identifier and its two logs. Names of
//! actions and streets are stored as strings, amounts as numbers, and a
//! field that is absent in the hand is left out of the item.

use crate::hand::betting::hand_wf;
use crate::hand::model::{
    ActivePlayerView, CardsView, HandView, PlayerAction, PlayerEventView, StreetEventView,
    StreetType,
};
use crate::number::{decimal, law_number_round_trip, read_number};
use crate::store::{
    alike, lemma_lookup_alike, lemma_lookup_at, lemma_lookup_none, lookup, named, AttrView,
    FieldView,
};
use vstd::prelude::*;

verus! {

/// The stored name of an action.
pub open spec fn action_name(action: PlayerAction) -> Seq<char> {
    match action {
        PlayerAction::Bet => "Bet"@,
        PlayerAction::Check => "Check"@,
        PlayerAction::Fold => "Fold"@,
    }
}

/// The action stored under a name, if it names one.
pub open spec fn action_named(name: Seq<char>) -> Option<PlayerAction> {
    if name == "Bet"@ {
        Some(PlayerAction::Bet)
    } else if name == "Check"@ {
        Some(PlayerAction::Check)
    } else if name == "Fold"@ {
        Some(PlayerAction::Fold)
    } else {
        None
    }
}

/// The stored name of a street.
pub open spec fn street_name(street: StreetType) -> Seq<char> {
    match street {
        StreetType::Preflop => "Preflop"@,
        StreetType::Flop => "Flop"@,
        StreetType::Turn => "Turn"@,
        StreetType::River => "River"@,
    }
}

/// The street stored under a name, if it names one.
pub open spec fn street_named(name: Seq<char>) -> Option<StreetType> {
    if name == "Preflop"@ {
        Some(StreetType::Preflop)
    } else if name == "Flop"@ {
        Some(StreetType::Flop)
    } else if name == "Turn"@ {
        Some(StreetType::Turn)
    } else if name == "River"@ {
        Some(StreetType::River)
    } else {
        None
    }
}

/// The field of an optional number: left out when the number is absent.
pub open spec fn optional_number(name: Seq<char>, value: Option<i64>) -> Seq<FieldView> {
    match value {
        Some(n) => seq![named(name, AttrView::N(decimal(n as int)))],
        None => Seq::empty(),
    }
}

/// The field of an optional flag: left out when the flag is absent.
pub open spec fn optional_flag(name: Seq<char>, value: Option<bool>) -> Seq<FieldView> {
    match value {
        Some(b) => seq![named(name, AttrView::Bool(b))],
        None => Seq::empty(),
    }
}

/// The stored form of a logged action.
pub open spec fn event_record(event: PlayerEventView) -> Seq<FieldView> {
    seq![
        named("player_id"@, AttrView::S(event.player_id)),
        named("action"@, AttrView::S(action_name(event.action))),
        named("amount"@, AttrView::N(decimal(event.amount as int))),
        named("street_type"@, AttrView::S(street_name(event.street_type))),
    ] + optional_number("current_stack"@, event.current_stack) + optional_number(
        "current_pot"@,
        event.current_pot,
    )
}

/// The stored form of a seat of a street.
pub open spec fn seat_record(seat: ActivePlayerView) -> Seq<FieldView> {
    seq![
        named("id"@, AttrView::S(seat.id)),
        named("bet"@, AttrView::N(decimal(seat.bet as int))),
        named("stack"@, AttrView::N(decimal(seat.stack as int))),
    ] + optional_flag("is_inactive"@, seat.is_inactive)
}

/// The stored form of a street.
pub open spec fn street_record(street: StreetEventView) -> Seq<FieldView> {
    seq![
        named("street_type"@, AttrView::S(street_name(street.street_type))),
        named(
            "current_active_players"@,
            AttrView::L(
                Seq::new(
                    street.current_active_players.len(),
                    |i: int| AttrView::M(seat_record(street.current_active_players[i])),
                ),
            ),
        ),
        named("pot"@, AttrView::N(decimal(street.pot as int))),
        named("cycle_count"@, AttrView::N(decimal(street.cycle_count as int))),
        named("should_increment_cycle"@, AttrView::Bool(street.should_increment_cycle)),
    ]
}

/// The stored form of a hand: its identifier and its two logs.
pub open spec fn hand_record(hand: HandView) -> Seq<FieldView> {
    seq![
        named("hand_id"@, AttrView::S(hand.id)),
        named(
            "player_events"@,
            AttrView::L(
                Seq::new(
                    hand.player_events.len(),
                    |i: int| AttrView::M(event_record(hand.player_events[i])),
                ),
            ),
        ),
        named(
            "street_events"@,
            AttrView::L(
                Seq::new(
                    hand.street_events.len(),
                    |i: int| AttrView::M(street_record(hand.street_events[i])),
                ),
            ),
        ),
    ]
}

/// The string stored under `name`, if there is one.
pub open spec fn text_at(fields: Seq<FieldView>, name: Seq<char>) -> Option<Seq<char>> {
    match lookup(fields, name) {
        Some(AttrView::S(s)) => Some(s),
        _ => None,
    }
}

/// The number stored under `name`, if there is one.
pub open spec fn number_at(fields: Seq<FieldView>, name: Seq<char>) -> Option<i64> {
    match lookup(fields, name) {
        Some(AttrView::N(text)) => read_number(text),
        _ => None,
    }
}

/// The flag stored under `name`, if there is one.
pub open spec fn flag_at(fields: Seq<FieldView>, name: Seq<char>) -> Option<bool> {
    match lookup(fields, name) {
        Some(AttrView::Bool(b)) => Some(b),
        _ => None,
    }
}

/// The list stored under `name`, if there is one.
pub open spec fn list_at(fields: Seq<FieldView>, name: Seq<char>) -> Option<Seq<AttrView>> {
    match lookup(fields, name) {
        Some(AttrView::L(items)) => Some(items),
        _ => None,
    }
}

/// The number that may be stored under `name`: absent when no field has
/// that name, and unreadable when the field holds something else.
pub open spec fn optional_number_at(fields: Seq<FieldView>, name: Seq<char>) -> Option<
    Option<i64>,
> {
    match lookup(fields, name) {
        None => Some(None),
        Some(AttrView::N(text)) => match read_number(text) {
            Some(n) => Some(Some(n)),
            None => None,
        },
        _ => None,
    }
}

/// The flag that may be stored under `name`: absent when no field has that
/// name, and unreadable when the field holds something else.
pub open spec fn optional_flag_at(fields: Seq<FieldView>, name: Seq<char>) -> Option<
    Option<bool>,
> {
    match lookup(fields, name) {
        None => Some(None),
        Some(AttrView::Bool(b)) => Some(Some(b)),
        _ => None,
    }
}

/// The seat that a stored value describes, if it describes one.
pub open spec fn read_seat(value: AttrView) -> Option<ActivePlayerView> {
    if value is M && text_at(value->M_0, "id"@) is Some && number_at(value->M_0, "bet"@) is Some
        && number_at(value->M_0, "stack"@) is Some && optional_flag_at(
        value->M_0,
        "is_inactive"@,
    ) is Some {
        Some(
            ActivePlayerView {
                id: text_at(value->M_0, "id"@)->Some_0,
                bet: number_at(value->M_0, "bet"@)->Some_0,
                stack: number_at(value->M_0, "stack"@)->Some_0,
                is_inactive: optional_flag_at(value->M_0, "is_inactive"@)->Some_0,
            },
        )
    } else {
        None
    }
}

/// The seats that a stored list describes, if every entry describes one.
pub open spec fn read_seats(items: Seq<AttrView>) -> Option<Seq<ActivePlayerView>> {
    if forall|i: int| 0 <= i < items.len() ==> read_seat(#[trigger] items[i]) is Some {
        Some(Seq::new(items.len(), |i: int| read_seat(items[i])->Some_0))
    } else {
        None
    }
}

/// The number of rounds that a stored number stands for, if it is one.
pub open spec fn read_count(number: Option<i64>) -> Option<u32> {
    match number {
        Some(n) => if 0 <= n <= u32::MAX {
            Some(n as u32)
        } else {
            None
        },
        None => None,
    }
}

/// The street stored under `name`, if a street is named there.
pub open spec fn street_at(fields: Seq<FieldView>, name: Seq<char>) -> Option<StreetType> {
    match text_at(fields, name) {
        Some(text) => street_named(text),
        None => None,
    }
}

/// The action stored under `name`, if an action is named there.
pub open spec fn action_at(fields: Seq<FieldView>, name: Seq<char>) -> Option<PlayerAction> {
    match text_at(fields, name) {
        Some(text) => action_named(text),
        None => None,
    }
}

/// The seats stored under `name`, if a list of seats is stored there.
pub open spec fn seats_at(fields: Seq<FieldView>, name: Seq<char>) -> Option<
    Seq<ActivePlayerView>,
> {
    match list_at(fields, name) {
        Some(items) => read_seats(items),
        None => None,
    }
}

/// The street that a stored value describes, if it describes one.
pub open spec fn read_street(value: AttrView) -> Option<StreetEventView> {
    if value is M && street_at(value->M_0, "street_type"@) is Some && seats_at(
        value->M_0,
        "current_active_players"@,
    ) is Some && number_at(value->M_0, "pot"@) is Some && read_count(
        number_at(value->M_0, "cycle_count"@),
    ) is Some && flag_at(value->M_0, "should_increment_cycle"@) is Some {
        Some(
            StreetEventView {
                street_type: street_at(value->M_0, "street_type"@)->Some_0,
                current_active_players: seats_at(value->M_0, "current_active_players"@)->Some_0,
                pot: number_at(value->M_0, "pot"@)->Some_0,
                cycle_count: read_count(number_at(value->M_0, "cycle_count"@))->Some_0,
                should_increment_cycle: flag_at(value->M_0, "should_increment_cycle"@)->Some_0,
            },
        )
    } else {
        None
    }
}

/// The streets that a stored list describes, if every entry describes one.
pub open spec fn read_streets(items: Seq<AttrView>) -> Option<Seq<StreetEventView>> {
    if forall|i: int| 0 <= i < items.len() ==> read_street(#[trigger] items[i]) is Some {
        Some(Seq::new(items.len(), |i: int| read_street(items[i])->Some_0))
    } else {
        None
    }
}

/// The logged action that a stored value describes, if it describes one.
pub open spec fn read_event(value: AttrView) -> Option<PlayerEventView> {
    if value is M && text_at(value->M_0, "player_id"@) is Some && action_at(
        value->M_0,
        "action"@,
    ) is Some && number_at(value->M_0, "amount"@) is Some && street_at(
        value->M_0,
        "street_type"@,
    ) is Some && optional_number_at(value->M_0, "current_stack"@) is Some && optional_number_at(
        value->M_0,
        "current_pot"@,
    ) is Some {
        Some(
            PlayerEventView {
                player_id: text_at(value->M_0, "player_id"@)->Some_0,
                action: action_at(value->M_0, "action"@)->Some_0,
                amount: number_at(value->M_0, "amount"@)->Some_0,
                street_type: street_at(value->M_0, "street_type"@)->Some_0,
                current_stack: optional_number_at(value->M_0, "current_stack"@)->Some_0,
                current_pot: optional_number_at(value->M_0, "current_pot"@)->Some_0,
            },
        )
    } else {
        None
    }
}

/// The logged actions that a stored list describes, if every entry
/// describes one.
pub open spec fn read_events(items: Seq<AttrView>) -> Option<Seq<PlayerEventView>> {
    if forall|i: int| 0 <= i < items.len() ==> read_event(#[trigger] items[i]) is Some {
        Some(Seq::new(items.len(), |i: int| read_event(items[i])->Some_0))
    } else {
        None
    }
}

/// The logged actions stored under `name`, if a list of them is stored
/// there.
pub open spec fn events_at(fields: Seq<FieldView>, name: Seq<char>) -> Option<
    Seq<PlayerEventView>,
> {
    match list_at(fields, name) {
        Some(items) => read_events(items),
        None => None,
    }
}

/// The streets stored under `name`, if a list of them is stored there.
pub open spec fn streets_at(fields: Seq<FieldView>, name: Seq<char>) -> Option<
    Seq<StreetEventView>,
> {
    match list_at(fields, name) {
        Some(items) => read_streets(items),
        None => None,
    }
}

/// A hand with the given identifier and logs and nothing else: no table,
/// no players, no board. This is all that an item keeps of a hand.
pub open spec fn bare_hand(
    id: Seq<char>,
    player_events: Seq<PlayerEventView>,
    street_events: Seq<StreetEventView>,
) -> HandView {
    HandView {
        id,
        table_id: Seq::empty(),
        players: Seq::empty(),
        cards: CardsView { flop: Seq::empty(), turn: Seq::empty(), river: Seq::empty() },
        player_events,
        street_events,
    }
}

/// What an item keeps of a hand.
pub open spec fn persisted(hand: HandView) -> HandView {
    bare_hand(hand.id, hand.player_events, hand.street_events)
}

/// The hand that an item describes, if it describes a valid one.
pub open spec fn read_hand(item: Seq<FieldView>) -> Option<HandView> {
    if text_at(item, "hand_id"@) is Some && events_at(item, "player_events"@) is Some
        && streets_at(item, "street_events"@) is Some {
        let hand = bare_hand(
            text_at(item, "hand_id"@)->Some_0,
            events_at(item, "player_events"@)->Some_0,
            streets_at(item, "street_events"@)->Some_0,
        );
        if hand_wf(hand) {
            Some(hand)
        } else {
            None
        }
    } else {
        None
    }
}

/// The stored names of the actions tell them apart.
pub proof fn lemma_action_names(action: PlayerAction)
    ensures
        action_named(action_name(action)) == Some(action),
{
    reveal_strlit("Bet");
    reveal_strlit("Check");
    reveal_strlit("Fold");
    assert("Bet"@.len() == 3 && "Check"@.len() == 5 && "Fold"@.len() == 4);
}

/// The stored names of the streets tell them apart.
pub proof fn lemma_street_names(street: StreetType)
    ensures
        street_named(street_name(street)) == Some(street),
{
    reveal_strlit("Preflop");
    reveal_strlit("Flop");
    reveal_strlit("Turn");
    reveal_strlit("River");
    assert("Preflop"@.len() == 7 && "Flop"@.len() == 4 && "Turn"@.len() == 4 && "River"@.len()
        == 5);
    assert("Flop"@[0] == 'F' && "Turn"@[0] == 'T');
}

/// The field names of a stored seat differ from one another.
pub proof fn lemma_seat_field_names()
    ensures
        "id"@ != "bet"@,
        "id"@ != "stack"@,
        "id"@ != "is_inactive"@,
        "bet"@ != "stack"@,
        "bet"@ != "is_inactive"@,
        "stack"@ != "is_inactive"@,
{
    reveal_strlit("id");
    reveal_strlit("bet");
    reveal_strlit("stack");
    reveal_strlit("is_inactive");
    assert("id"@.len() == 2 && "bet"@.len() == 3 && "stack"@.len() == 5 && "is_inactive"@.len()
        == 11);
}

/// The field names of a stored action differ from one another.
pub proof fn lemma_event_field_names()
    ensures
        "player_id"@ != "action"@,
        "player_id"@ != "amount"@,
        "player_id"@ != "street_type"@,
        "player_id"@ != "current_stack"@,
        "player_id"@ != "current_pot"@,
        "action"@ != "amount"@,
        "action"@ != "street_type"@,
        "action"@ != "current_stack"@,
        "action"@ != "current_pot"@,
        "amount"@ != "street_type"@,
        "amount"@ != "current_stack"@,
        "amount"@ != "current_pot"@,
        "street_type"@ != "current_stack"@,
        "street_type"@ != "current_pot"@,
        "current_stack"@ != "current_pot"@,
{
    reveal_strlit("player_id");
    reveal_strlit("action");
    reveal_strlit("amount");
    reveal_strlit("street_type");
    reveal_strlit("current_stack");
    reveal_strlit("current_pot");
    assert("player_id"@.len() == 9 && "action"@.len() == 6 && "amount"@.len() == 6);
    assert("street_type"@.len() == 11 && "current_stack"@.len() == 13 && "current_pot"@.len()
        == 11);
    assert("action"@[1] == 'c' && "amount"@[1] == 'm');
    assert("street_type"@[0] == 's' && "current_pot"@[0] == 'c');
}

/// The field names of a stored street differ from one another.
pub proof fn lemma_street_field_names()
    ensures
        "street_type"@ != "current_active_players"@,
        "street_type"@ != "pot"@,
        "street_type"@ != "cycle_count"@,
        "street_type"@ != "should_increment_cycle"@,
        "current_active_players"@ != "pot"@,
        "current_active_players"@ != "cycle_count"@,
        "current_active_players"@ != "should_increment_cycle"@,
        "pot"@ != "cycle_count"@,
        "pot"@ != "should_increment_cycle"@,
        "cycle_count"@ != "should_increment_cycle"@,
{
    reveal_strlit("street_type");
    reveal_strlit("current_active_players");
    reveal_strlit("pot");
    reveal_strlit("cycle_count");
    reveal_strlit("should_increment_cycle");
    assert("street_type"@.len() == 11 && "current_active_players"@.len() == 22 && "pot"@.len()
        == 3);
    assert("cycle_count"@.len() == 11 && "should_increment_cycle"@.len() == 22);
    assert("street_type"@[0] == 's' && "cycle_count"@[0] == 'c');
    assert("current_active_players"@[0] == 'c' && "should_increment_cycle"@[0] == 's');
}

/// The field names of a stored hand differ from one another.
pub proof fn lemma_hand_field_names()
    ensures
        "hand_id"@ != "player_events"@,
        "hand_id"@ != "street_events"@,
        "player_events"@ != "street_events"@,
{
    reveal_strlit("hand_id");
    reveal_strlit("player_events");
    reveal_strlit("street_events");
    assert("hand_id"@.len() == 7 && "player_events"@.len() == 13 && "street_events"@.len() == 13);
    assert("player_events"@[0] == 'p' && "street_events"@[0] == 's');
}

/// A stored seat reads back as the seat.
pub proof fn lemma_seat_round_trip(seat: ActivePlayerView)
    ensures
        read_seat(AttrView::M(seat_record(seat))) == Some(seat),
{
    let fields = seat_record(seat);
    lemma_seat_field_names();
    law_number_round_trip(seat.bet);
    law_number_round_trip(seat.stack);
    lemma_lookup_at(fields, "id"@, 0);
    lemma_lookup_at(fields, "bet"@, 1);
    lemma_lookup_at(fields, "stack"@, 2);
    match seat.is_inactive {
        Some(flag) => {
            lemma_lookup_at(fields, "is_inactive"@, 3);
        },
        None => {
            lemma_lookup_none(fields, "is_inactive"@);
        },
    }
}

/// A stored action reads back as the action.
pub proof fn lemma_event_round_trip(event: PlayerEventView)
    ensures
        read_event(AttrView::M(event_record(event))) == Some(event),
{
    let fields = event_record(event);
    lemma_event_field_names();
    law_number_round_trip(event.amount);
    lemma_action_names(event.action);
    lemma_street_names(event.street_type);
    lemma_lookup_at(fields, "player_id"@, 0);
    lemma_lookup_at(fields, "action"@, 1);
    lemma_lookup_at(fields, "amount"@, 2);
    lemma_lookup_at(fields, "street_type"@, 3);
    match event.current_stack {
        Some(stack) => {
            law_number_round_trip(stack);
            lemma_lookup_at(fields, "current_stack"@, 4);
            match event.current_pot {
                Some(pot) => {
                    law_number_round_trip(pot);
                    lemma_lookup_at(fields, "current_pot"@, 5);
                },
                None => {
                    lemma_lookup_none(fields, "current_pot"@);
                },
            }
        },
        None => {
            lemma_lookup_none(fields, "current_stack"@);
            match event.current_pot {
                Some(pot) => {
                    law_number_round_trip(pot);
                    lemma_lookup_at(fields, "current_pot"@, 4);
                },
                None => {
                    lemma_lookup_none(fields, "current_pot"@);
                },
            }
        },
    }
}

/// A stored street reads back as the street.
pub proof fn lemma_street_round_trip(street: StreetEventView)
    ensures
        read_street(AttrView::M(street_record(street))) == Some(street),
{
    let fields = street_record(street);
    lemma_street_field_names();
    law_number_round_trip(street.pot);
    law_number_round_trip(street.cycle_count as i64);
    lemma_street_names(street.street_type);
    lemma_lookup_at(fields, "street_type"@, 0);
    lemma_lookup_at(fields, "current_active_players"@, 1);
    lemma_lookup_at(fields, "pot"@, 2);
    lemma_lookup_at(fields, "cycle_count"@, 3);
    lemma_lookup_at(fields, "should_increment_cycle"@, 4);
    let items = list_at(fields, "current_active_players"@)->Some_0;
    assert forall|i: int| 0 <= i < items.len() implies read_seat(#[trigger] items[i]) == Some(
        street.current_active_players[i],
    ) by {
        lemma_seat_round_trip(street.current_active_players[i]);
    }
    assert(read_seats(items)->Some_0 =~= street.current_active_players);
}

/// A valid hand that is stored and read back comes out with the same
/// identifier and the same two logs.
///
/// The item keeps nothing else of the hand, so its table, players and board
/// come back empty.
pub proof fn law_hand_round_trip(hand: HandView)
    requires
        hand_wf(hand),
    ensures
        read_hand(hand_record(hand)) == Some(persisted(hand)),
{
    let item = hand_record(hand);
    lemma_hand_field_names();
    lemma_lookup_at(item, "hand_id"@, 0);
    lemma_lookup_at(item, "player_events"@, 1);
    lemma_lookup_at(item, "street_events"@, 2);
    let events = list_at(item, "player_events"@)->Some_0;
    assert forall|i: int| 0 <= i < events.len() implies read_event(#[trigger] events[i]) == Some(
        hand.player_events[i],
    ) by {
        lemma_event_round_trip(hand.player_events[i]);
    }
    assert(read_events(events)->Some_0 =~= hand.player_events);
    let streets = list_at(item, "street_events"@)->Some_0;
    assert forall|i: int| 0 <= i < streets.len() implies read_street(#[trigger] streets[i])
        == Some(hand.street_events[i]) by {
        lemma_street_round_trip(hand.street_events[i]);
    }
    assert(read_streets(streets)->Some_0 =~= hand.street_events);
}


/// Values that are alike describe the same seat.
pub proof fn lemma_read_seat_alike(a: AttrView, b: AttrView)
    requires
        alike(a, b),
    ensures
        read_seat(a) == read_seat(b),
{
    if a is M {
        lemma_lookup_alike(a->M_0, b->M_0, "id"@);
        lemma_lookup_alike(a->M_0, b->M_0, "bet"@);
        lemma_lookup_alike(a->M_0, b->M_0, "stack"@);
        lemma_lookup_alike(a->M_0, b->M_0, "is_inactive"@);
    }
}

/// Lists that are alike describe the same seats.
pub proof fn lemma_read_seats_alike(a: Seq<AttrView>, b: Seq<AttrView>)
    requires
        alike(AttrView::L(a), AttrView::L(b)),
    ensures
        read_seats(a) == read_seats(b),
{
    assert forall|i: int| 0 <= i < a.len() implies read_seat(#[trigger] a[i]) == read_seat(
        b[i],
    ) by {
        lemma_read_seat_alike(a[i], b[i]);
    }
    if read_seats(a) is Some {
        assert forall|i: int| 0 <= i < b.len() implies read_seat(#[trigger] b[i]) is Some by {
            assert(read_seat(a[i]) is Some);
        }
        assert(read_seats(a)->Some_0 =~= read_seats(b)->Some_0);
    } else {
        let i = choose|i: int| 0 <= i < a.len() && !(read_seat(#[trigger] a[i]) is Some);
        assert(read_seat(b[i]) is None);
    }
}

/// Values that are alike describe the same street.
pub proof fn lemma_read_street_alike(a: AttrView, b: AttrView)
    requires
        alike(a, b),
    ensures
        read_street(a) == read_street(b),
{
    if a is M {
        lemma_lookup_alike(a->M_0, b->M_0, "street_type"@);
        lemma_lookup_alike(a->M_0, b->M_0, "current_active_players"@);
        lemma_lookup_alike(a->M_0, b->M_0, "pot"@);
        lemma_lookup_alike(a->M_0, b->M_0, "cycle_count"@);
        lemma_lookup_alike(a->M_0, b->M_0, "should_increment_cycle"@);
        if let Some(AttrView::L(seats)) = lookup(a->M_0, "current_active_players"@) {
            lemma_read_seats_alike(seats, lookup(b->M_0, "current_active_players"@)->Some_0->L_0);
        }
    }
}

/// Lists that are alike describe the same streets.
pub proof fn lemma_read_streets_alike(a: Seq<AttrView>, b: Seq<AttrView>)
    requires
        alike(AttrView::L(a), AttrView::L(b)),
    ensures
        read_streets(a) == read_streets(b),
{
    assert forall|i: int| 0 <= i < a.len() implies read_street(#[trigger] a[i]) == read_street(
        b[i],
    ) by {
        lemma_read_street_alike(a[i], b[i]);
    }
    if read_streets(a) is Some {
        assert forall|i: int| 0 <= i < b.len() implies read_street(#[trigger] b[i]) is Some by {
            assert(read_street(a[i]) is Some);
        }
        assert(read_streets(a)->Some_0 =~= read_streets(b)->Some_0);
    } else {
        let i = choose|i: int| 0 <= i < a.len() && !(read_street(#[trigger] a[i]) is Some);
        assert(read_street(b[i]) is None);
    }
}

/// Values that are alike describe the same logged action.
pub proof fn lemma_read_event_alike(a: AttrView, b: AttrView)
    requires
        alike(a, b),
    ensures
        read_event(a) == read_event(b),
{
    if a is M {
        lemma_lookup_alike(a->M_0, b->M_0, "player_id"@);
        lemma_lookup_alike(a->M_0, b->M_0, "action"@);
        lemma_lookup_alike(a->M_0, b->M_0, "amount"@);
        lemma_lookup_alike(a->M_0, b->M_0, "street_type"@);
        lemma_lookup_alike(a->M_0, b->M_0, "current_stack"@);
        lemma_lookup_alike(a->M_0, b->M_0, "current_pot"@);
    }
}

/// Lists that are alike describe the same logged actions.
pub proof fn lemma_read_events_alike(a: Seq<AttrView>, b: Seq<AttrView>)
    requires
        alike(AttrView::L(a), AttrView::L(b)),
    ensures
        read_events(a) == read_events(b),
{
    assert forall|i: int| 0 <= i < a.len() implies read_event(#[trigger] a[i]) == read_event(
        b[i],
    ) by {
        lemma_read_event_alike(a[i], b[i]);
    }
    if read_events(a) is Some {
        assert forall|i: int| 0 <= i < b.len() implies read_event(#[trigger] b[i]) is Some by {
            assert(read_event(a[i]) is Some);
        }
        assert(read_events(a)->Some_0 =~= read_events(b)->Some_0);
    } else {
        let i = choose|i: int| 0 <= i < a.len() && !(read_event(#[trigger] a[i]) is Some);
        assert(read_event(b[i]) is None);
    }
}

/// Reading a hand back does not depend on the order in which the store
/// hands out the fields of a record, at any depth.
pub proof fn law_read_hand_ignores_field_order(a: Seq<FieldView>, b: Seq<FieldView>)
    requires
        alike(AttrView::M(a), AttrView::M(b)),
    ensures
        read_hand(a) == read_hand(b),
{
    lemma_lookup_alike(a, b, "hand_id"@);
    lemma_lookup_alike(a, b, "player_events"@);
    lemma_lookup_alike(a, b, "street_events"@);
    if let Some(AttrView::L(events)) = lookup(a, "player_events"@) {
        lemma_read_events_alike(events, lookup(b, "player_events"@)->Some_0->L_0);
    }
    if let Some(AttrView::L(streets)) = lookup(a, "street_events"@) {
        lemma_read_streets_alike(streets, lookup(b, "street_events"@)->Some_0->L_0);
    }
}

/// A valid hand that is stored comes back with the same identifier and the
/// same two logs from any item that holds what was stored, in whatever order
/// its records list their fields.
pub proof fn law_hand_round_trip_in_any_order(hand: HandView, item: Seq<FieldView>)
    requires
        hand_wf(hand),
        alike(AttrView::M(hand_record(hand)), AttrView::M(item)),
    ensures
        read_hand(item) == Some(persisted(hand)),
{
    law_hand_round_trip(hand);
    law_read_hand_ignores_field_order(hand_record(hand), item);
}

} // verus!
