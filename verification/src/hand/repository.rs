//! Storing hands: the requests that keep a hand and the reading of what
//! the store hands back.

use crate::hand::model::{
    ActivePlayer, Cards, Hand, PlayerAction, PlayerEvent, StreetEvent, StreetType,
};
use crate::hand::record::{
    action_name, action_named, bare_hand, event_record, flag_at, hand_record, list_at,
    number_at, optional_flag_at, optional_number_at, read_event, read_events, read_hand,
    read_seat, read_seats, read_street, read_streets, seat_record, street_name, street_named,
    street_record, text_at,
};
use crate::number::{format_number, parse_number};
use crate::store::{
    attrs_view, field, fields_view, find_field, lemma_list_view, lemma_record_view, named, Attr, AttrView,
    Field, PutRequest, PutRequestView, ScanRequest, ScanRequestView,
};
use crate::views::views;
use vstd::prelude::*;

verus! {

/// Whether the string reads `literal`.
pub fn reads(text: &String, literal: &str) -> (same: bool)
    ensures
        same == (text@ == literal@),
{
    let wanted = literal.to_owned();
    *text == wanted
}

/// The stored name of an action.
pub fn action_text(action: PlayerAction) -> (text: String)
    ensures
        text@ == action_name(action),
{
    match action {
        PlayerAction::Bet => "Bet".to_owned(),
        PlayerAction::Check => "Check".to_owned(),
        PlayerAction::Fold => "Fold".to_owned(),
    }
}

/// The stored name of a street.
pub fn street_text(street: StreetType) -> (text: String)
    ensures
        text@ == street_name(street),
{
    match street {
        StreetType::Preflop => "Preflop".to_owned(),
        StreetType::Flop => "Flop".to_owned(),
        StreetType::Turn => "Turn".to_owned(),
        StreetType::River => "River".to_owned(),
    }
}

/// The action that a stored name stands for.
pub fn parse_action(text: &String) -> (action: Option<PlayerAction>)
    ensures
        action == action_named(text@),
{
    if reads(text, "Bet") {
        Some(PlayerAction::Bet)
    } else if reads(text, "Check") {
        Some(PlayerAction::Check)
    } else if reads(text, "Fold") {
        Some(PlayerAction::Fold)
    } else {
        None
    }
}

/// The street that a stored name stands for.
pub fn parse_street(text: &String) -> (street: Option<StreetType>)
    ensures
        street == street_named(text@),
{
    if reads(text, "Preflop") {
        Some(StreetType::Preflop)
    } else if reads(text, "Flop") {
        Some(StreetType::Flop)
    } else if reads(text, "Turn") {
        Some(StreetType::Turn)
    } else if reads(text, "River") {
        Some(StreetType::River)
    } else {
        None
    }
}

/// The stored form of a seat.
pub fn seat_attr(seat: &ActivePlayer) -> (value: Attr)
    ensures
        value@ == AttrView::M(seat_record(seat@)),
{
    let mut fields: Vec<Field> = Vec::new();
    fields.push(field("id", Attr::S(seat.id.clone())));
    fields.push(field("bet", Attr::N(format_number(seat.bet))));
    fields.push(field("stack", Attr::N(format_number(seat.stack))));
    match seat.is_inactive {
        Some(flag) => {
            fields.push(field("is_inactive", Attr::Bool(flag)));
        },
        None => {},
    }
    proof {
        assert(fields_view(fields@) =~= seat_record(seat@));
        lemma_record_view(fields);
    }
    Attr::M(fields)
}

/// The stored form of a logged action.
pub fn event_attr(event: &PlayerEvent) -> (value: Attr)
    ensures
        value@ == AttrView::M(event_record(event@)),
{
    let mut fields: Vec<Field> = Vec::new();
    fields.push(field("player_id", Attr::S(event.player_id.clone())));
    fields.push(field("action", Attr::S(action_text(event.action))));
    fields.push(field("amount", Attr::N(format_number(event.amount))));
    fields.push(field("street_type", Attr::S(street_text(event.street_type))));
    match event.current_stack {
        Some(stack) => {
            fields.push(field("current_stack", Attr::N(format_number(stack))));
        },
        None => {},
    }
    match event.current_pot {
        Some(pot) => {
            fields.push(field("current_pot", Attr::N(format_number(pot))));
        },
        None => {},
    }
    proof {
        assert(fields_view(fields@) =~= event_record(event@));
        lemma_record_view(fields);
    }
    Attr::M(fields)
}

/// The stored form of a street.
pub fn street_attr(street: &StreetEvent) -> (value: Attr)
    ensures
        value@ == AttrView::M(street_record(street@)),
{
    let mut seats: Vec<Attr> = Vec::new();
    let mut i: usize = 0;
    while i < street.current_active_players.len()
        invariant
            i <= street.current_active_players.len(),
            seats@.len() == i,
            forall|j: int|
                0 <= j < i ==> (#[trigger] seats@[j])@ == AttrView::M(
                    seat_record(street.current_active_players@[j]@),
                ),
        decreases street.current_active_players.len() - i,
    {
        seats.push(seat_attr(&street.current_active_players[i]));
        i += 1;
    }
    proof {
        lemma_list_view(seats);
    }
    let mut fields: Vec<Field> = Vec::new();
    fields.push(field("street_type", Attr::S(street_text(street.street_type))));
    fields.push(field("current_active_players", Attr::L(seats)));
    fields.push(field("pot", Attr::N(format_number(street.pot))));
    fields.push(field("cycle_count", Attr::N(format_number(street.cycle_count as i64))));
    fields.push(field("should_increment_cycle", Attr::Bool(street.should_increment_cycle)));
    proof {
        let model = street_record(street@);
        assert(fields_view(fields@)[1].value->L_0 =~= model[1].value->L_0);
        assert(fields_view(fields@) =~= model);
        lemma_record_view(fields);
    }
    Attr::M(fields)
}

/// The stored form of a hand.
pub fn hand_item(hand: &Hand) -> (item: Vec<Field>)
    ensures
        fields_view(item@) == hand_record(hand@),
{
    let mut events: Vec<Attr> = Vec::new();
    let mut i: usize = 0;
    while i < hand.player_events.len()
        invariant
            i <= hand.player_events.len(),
            events@.len() == i,
            forall|j: int|
                0 <= j < i ==> (#[trigger] events@[j])@ == AttrView::M(
                    event_record(hand.player_events@[j]@),
                ),
        decreases hand.player_events.len() - i,
    {
        events.push(event_attr(&hand.player_events[i]));
        i += 1;
    }
    let mut streets: Vec<Attr> = Vec::new();
    let mut k: usize = 0;
    while k < hand.street_events.len()
        invariant
            k <= hand.street_events.len(),
            streets@.len() == k,
            forall|j: int|
                0 <= j < k ==> (#[trigger] streets@[j])@ == AttrView::M(
                    street_record(hand.street_events@[j]@),
                ),
        decreases hand.street_events.len() - k,
    {
        streets.push(street_attr(&hand.street_events[k]));
        k += 1;
    }
    proof {
        lemma_list_view(events);
        lemma_list_view(streets);
    }
    let mut item: Vec<Field> = Vec::new();
    item.push(field("hand_id", Attr::S(hand.id.clone())));
    item.push(field("player_events", Attr::L(events)));
    item.push(field("street_events", Attr::L(streets)));
    proof {
        let model = hand_record(hand@);
        assert(fields_view(item@)[1].value->L_0 =~= model[1].value->L_0);
        assert(fields_view(item@)[2].value->L_0 =~= model[2].value->L_0);
        assert(fields_view(item@) =~= model);
    }
    item
}

/// The string stored under `name`, if there is one.
pub fn text_of(fields: &Vec<Field>, name: &str) -> (text: Option<String>)
    ensures
        match text {
            Some(t) => text_at(fields_view(fields@), name@) == Some(t@),
            None => text_at(fields_view(fields@), name@) is None,
        },
{
    match find_field(fields, name) {
        Some(Attr::S(s)) => Some(s.clone()),
        _ => None,
    }
}

/// The number stored under `name`, if there is one.
pub fn number_of(fields: &Vec<Field>, name: &str) -> (number: Option<i64>)
    ensures
        number == number_at(fields_view(fields@), name@),
{
    match find_field(fields, name) {
        Some(Attr::N(text)) => parse_number(text.as_str()),
        _ => None,
    }
}

/// The flag stored under `name`, if there is one.
pub fn flag_of(fields: &Vec<Field>, name: &str) -> (flag: Option<bool>)
    ensures
        flag == flag_at(fields_view(fields@), name@),
{
    match find_field(fields, name) {
        Some(Attr::Bool(b)) => Some(*b),
        _ => None,
    }
}

/// The number that may be stored under `name`.
pub fn optional_number_of(fields: &Vec<Field>, name: &str) -> (number: Option<Option<i64>>)
    ensures
        number == optional_number_at(fields_view(fields@), name@),
{
    match find_field(fields, name) {
        None => Some(None),
        Some(Attr::N(text)) => match parse_number(text.as_str()) {
            Some(n) => Some(Some(n)),
            None => None,
        },
        _ => None,
    }
}

/// The flag that may be stored under `name`.
pub fn optional_flag_of(fields: &Vec<Field>, name: &str) -> (flag: Option<Option<bool>>)
    ensures
        flag == optional_flag_at(fields_view(fields@), name@),
{
    match find_field(fields, name) {
        None => Some(None),
        Some(Attr::Bool(b)) => Some(Some(*b)),
        _ => None,
    }
}

/// The list stored under `name`, if there is one.
pub fn list_of<'a>(fields: &'a Vec<Field>, name: &str) -> (list: Option<&'a Vec<Attr>>)
    ensures
        match list {
            Some(items) => list_at(fields_view(fields@), name@) == Some(
                attrs_view(items@),
            ),
            None => list_at(fields_view(fields@), name@) is None,
        },
{
    match find_field(fields, name) {
        Some(Attr::L(items)) => {
            proof {
                lemma_list_view(*items);
            }
            Some(items)
        },
        _ => None,
    }
}

/// The seat that a stored value describes, if it describes one.
pub fn seat_from(value: &Attr) -> (seat: Option<ActivePlayer>)
    ensures
        match seat {
            Some(s) => read_seat(value@) == Some(s@),
            None => read_seat(value@) is None,
        },
{
    let fields = match value {
        Attr::M(fields) => fields,
        _ => {
            return None;
        },
    };
    proof {
        lemma_record_view(*fields);
    }
    let id = match text_of(fields, "id") {
        Some(id) => id,
        None => {
            return None;
        },
    };
    let bet = match number_of(fields, "bet") {
        Some(bet) => bet,
        None => {
            return None;
        },
    };
    let stack = match number_of(fields, "stack") {
        Some(stack) => stack,
        None => {
            return None;
        },
    };
    let is_inactive = match optional_flag_of(fields, "is_inactive") {
        Some(flag) => flag,
        None => {
            return None;
        },
    };
    Some(ActivePlayer { id, bet, stack, is_inactive })
}

/// The seats that a stored list describes, if every entry describes one.
pub fn seats_from(items: &Vec<Attr>) -> (seats: Option<Vec<ActivePlayer>>)
    ensures
        match seats {
            Some(s) => read_seats(attrs_view(items@)) == Some(views(s@)),
            None => read_seats(attrs_view(items@)) is None,
        },
{
    let ghost model = attrs_view(items@);
    let mut seats: Vec<ActivePlayer> = Vec::new();
    let mut i: usize = 0;
    while i < items.len()
        invariant
            i <= items.len(),
            model == attrs_view(items@),
            seats@.len() == i,
            forall|j: int| 0 <= j < i ==> read_seat(#[trigger] model[j]) == Some(seats@[j]@),
        decreases items.len() - i,
    {
        assert(model[i as int] == items@[i as int]@);
        match seat_from(&items[i]) {
            Some(seat) => {
                seats.push(seat);
            },
            None => {
                return None;
            },
        }
        i += 1;
    }
    assert(read_seats(model)->Some_0 =~= views(seats@));
    Some(seats)
}

/// The street that a stored value describes, if it describes one.
pub fn street_from(value: &Attr) -> (street: Option<StreetEvent>)
    ensures
        match street {
            Some(s) => read_street(value@) == Some(s@),
            None => read_street(value@) is None,
        },
{
    let fields = match value {
        Attr::M(fields) => fields,
        _ => {
            return None;
        },
    };
    proof {
        lemma_record_view(*fields);
    }
    let street_type = match text_of(fields, "street_type") {
        Some(text) => match parse_street(&text) {
            Some(street) => street,
            None => {
                return None;
            },
        },
        None => {
            return None;
        },
    };
    let current_active_players = match list_of(fields, "current_active_players") {
        Some(items) => match seats_from(items) {
            Some(seats) => seats,
            None => {
                return None;
            },
        },
        None => {
            return None;
        },
    };
    let pot = match number_of(fields, "pot") {
        Some(pot) => pot,
        None => {
            return None;
        },
    };
    let cycle_count: u32 = match number_of(fields, "cycle_count") {
        Some(n) => if 0 <= n && n <= 4294967295 {
            n as u32
        } else {
            return None;
        },
        None => {
            return None;
        },
    };
    let should_increment_cycle = match flag_of(fields, "should_increment_cycle") {
        Some(flag) => flag,
        None => {
            return None;
        },
    };
    Some(
        StreetEvent {
            street_type,
            current_active_players,
            pot,
            cycle_count,
            should_increment_cycle,
        },
    )
}

/// The streets that a stored list describes, if every entry describes one.
pub fn streets_from(items: &Vec<Attr>) -> (streets: Option<Vec<StreetEvent>>)
    ensures
        match streets {
            Some(s) => read_streets(attrs_view(items@)) == Some(views(s@)),
            None => read_streets(attrs_view(items@)) is None,
        },
{
    let ghost model = attrs_view(items@);
    let mut streets: Vec<StreetEvent> = Vec::new();
    let mut i: usize = 0;
    while i < items.len()
        invariant
            i <= items.len(),
            model == attrs_view(items@),
            streets@.len() == i,
            forall|j: int| 0 <= j < i ==> read_street(#[trigger] model[j]) == Some(streets@[j]@),
        decreases items.len() - i,
    {
        assert(model[i as int] == items@[i as int]@);
        match street_from(&items[i]) {
            Some(street) => {
                streets.push(street);
            },
            None => {
                return None;
            },
        }
        i += 1;
    }
    assert(read_streets(model)->Some_0 =~= views(streets@));
    Some(streets)
}

/// The logged action that a stored value describes, if it describes one.
pub fn event_from(value: &Attr) -> (event: Option<PlayerEvent>)
    ensures
        match event {
            Some(e) => read_event(value@) == Some(e@),
            None => read_event(value@) is None,
        },
{
    let fields = match value {
        Attr::M(fields) => fields,
        _ => {
            return None;
        },
    };
    proof {
        lemma_record_view(*fields);
    }
    let player_id = match text_of(fields, "player_id") {
        Some(id) => id,
        None => {
            return None;
        },
    };
    let action = match text_of(fields, "action") {
        Some(text) => match parse_action(&text) {
            Some(action) => action,
            None => {
                return None;
            },
        },
        None => {
            return None;
        },
    };
    let amount = match number_of(fields, "amount") {
        Some(amount) => amount,
        None => {
            return None;
        },
    };
    let street_type = match text_of(fields, "street_type") {
        Some(text) => match parse_street(&text) {
            Some(street) => street,
            None => {
                return None;
            },
        },
        None => {
            return None;
        },
    };
    let current_stack = match optional_number_of(fields, "current_stack") {
        Some(stack) => stack,
        None => {
            return None;
        },
    };
    let current_pot = match optional_number_of(fields, "current_pot") {
        Some(pot) => pot,
        None => {
            return None;
        },
    };
    Some(PlayerEvent { player_id, action, amount, street_type, current_stack, current_pot })
}

/// The logged actions that a stored list describes, if every entry
/// describes one.
pub fn events_from(items: &Vec<Attr>) -> (events: Option<Vec<PlayerEvent>>)
    ensures
        match events {
            Some(e) => read_events(attrs_view(items@)) == Some(views(e@)),
            None => read_events(attrs_view(items@)) is None,
        },
{
    let ghost model = attrs_view(items@);
    let mut events: Vec<PlayerEvent> = Vec::new();
    let mut i: usize = 0;
    while i < items.len()
        invariant
            i <= items.len(),
            model == attrs_view(items@),
            events@.len() == i,
            forall|j: int| 0 <= j < i ==> read_event(#[trigger] model[j]) == Some(events@[j]@),
        decreases items.len() - i,
    {
        assert(model[i as int] == items@[i as int]@);
        match event_from(&items[i]) {
            Some(event) => {
                events.push(event);
            },
            None => {
                return None;
            },
        }
        i += 1;
    }
    assert(read_events(model)->Some_0 =~= views(events@));
    Some(events)
}

/// The hand that an item describes, if it describes a valid one.
///
/// The hand comes back with its identifier and its two logs; an item keeps
/// nothing of its table, players and board, which come back empty.
pub fn hand_from(item: &Vec<Field>) -> (hand: Option<Hand>)
    ensures
        match hand {
            Some(h) => read_hand(fields_view(item@)) == Some(h@) && h.wf(),
            None => read_hand(fields_view(item@)) is None,
        },
{
    let id = match text_of(item, "hand_id") {
        Some(id) => id,
        None => {
            return None;
        },
    };
    let player_events = match list_of(item, "player_events") {
        Some(items) => match events_from(items) {
            Some(events) => events,
            None => {
                return None;
            },
        },
        None => {
            return None;
        },
    };
    let street_events = match list_of(item, "street_events") {
        Some(items) => match streets_from(items) {
            Some(streets) => streets,
            None => {
                return None;
            },
        },
        None => {
            return None;
        },
    };
    let hand = Hand {
        id,
        table_id: String::new(),
        players: Vec::new(),
        cards: Cards { flop: Vec::new(), turn: String::new(), river: String::new() },
        player_events,
        street_events,
    };
    proof {
        assert(hand@.players =~= Seq::empty());
        assert(hand@.cards.flop =~= Seq::empty());
        assert(hand@ == bare_hand(hand@.id, hand@.player_events, hand@.street_events));
    }
    if hand.is_wf() {
        Some(hand)
    } else {
        None
    }
}

/// The requests that keep hands in one table of the store.
#[derive(Clone, Debug, PartialEq, Eq)]
pub struct HandRepository {
    pub table_name: String,
}

/// The filter that picks the item of one hand.
pub open spec fn hand_filter() -> Seq<char> {
    "hand_id = :hand_id"@
}

impl HandRepository {
    /// The repository of the hands kept in the store's table `table_name`.
    pub fn new(table_name: String) -> (repository: HandRepository)
        ensures
            repository.table_name == table_name,
    {
        HandRepository { table_name }
    }

    /// The request that stores the hand, replacing what the store holds
    /// under its identifier.
    pub fn create_hand(&self, hand: &Hand) -> (request: PutRequest)
        ensures
            request@ == (PutRequestView {
                table_name: self.table_name@,
                item: hand_record(hand@),
            }),
    {
        PutRequest { table_name: self.table_name.clone(), item: hand_item(hand) }
    }

    /// The request for the item of the hand called `hand_id`.
    pub fn find_hand(&self, hand_id: &str) -> (request: ScanRequest)
        ensures
            request@ == (ScanRequestView {
                table_name: self.table_name@,
                filter_expression: hand_filter(),
                expression_attribute_values: seq![named(":hand_id"@, AttrView::S(hand_id@))],
            }),
    {
        let mut values: Vec<Field> = Vec::new();
        values.push(field(":hand_id", Attr::S(hand_id.to_owned())));
        assert(fields_view(values@) =~= seq![named(":hand_id"@, AttrView::S(hand_id@))]);
        ScanRequest {
            table_name: self.table_name.clone(),
            filter_expression: "hand_id = :hand_id".to_owned(),
            expression_attribute_values: values,
        }
    }

    /// The hand that the store handed back for one identifier: the hand of
    /// the first item, if there is an item and it describes a valid hand.
    pub fn read_hand(&self, items: &Vec<Vec<Field>>) -> (hand: Option<Hand>)
        ensures
            match hand {
                Some(h) => items@.len() > 0 && read_hand(fields_view(items@[0]@)) == Some(h@)
                    && h.wf(),
                None => items@.len() == 0 || read_hand(fields_view(items@[0]@)) is None,
            },
    {
        if items.len() == 0 {
            None
        } else {
            hand_from(&items[0])
        }
    }
}

} // verus!
