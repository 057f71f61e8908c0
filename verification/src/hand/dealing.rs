//! Turning a dealing answer into a hand: seating, forced bets and the first
//! street.

use crate::deal::{deal_complete, DealResponse, DealResponseView, DealtHandView};
use crate::hand::betting::{chips_logged, hand_wf, same_seats, street_index, street_wf};
use crate::hand::model::{
    ActivePlayer, ActivePlayerView, Cards, DealInput, DealInputView, Hand, HandView, PlayerAction,
    PlayerEvent, PlayerEventView, StreetEvent, StreetEventView, StreetType,
};
use crate::player::model::{Player, PlayerView};
use crate::table::model::MAX_SEATS;
use crate::views::{copy_strings, views};
use vstd::prelude::*;

verus! {

/// The forced bet of the first seat.
pub const SMALL_BLIND: i64 = 10;

/// The forced bet of the second seat.
pub const BIG_BLIND: i64 = 20;

/// Why a hand could not be created.
#[derive(Clone, Copy, Debug, PartialEq, Eq, Structural)]
pub enum DealError {
    /// The dealing service failed or its answer is not a complete deal.
    DealingUnavailable,
    /// The store failed to keep the hand.
    PersistenceError,
}

/// What must hold of the players to be dealt in: they fit a table, nobody
/// is named twice and nobody owes chips.
pub open spec fn deal_input_wf(input: DealInputView) -> bool {
    &&& input.players.len() <= MAX_SEATS
    &&& forall|i: int|
        0 <= i < input.players.len() ==> ((#[trigger] input.players[i]).stack matches Some(stack)
            ==> stack >= 0)
    &&& forall|i: int, j: int|
        0 <= i < j < input.players.len() ==> (#[trigger] input.players[i]).id != (
        #[trigger] input.players[j]).id
}

/// The forced bet a seat posts when the hand is created.
pub open spec fn blind_of(seat: int) -> i64 {
    if seat == 0 {
        SMALL_BLIND
    } else if seat == 1 {
        BIG_BLIND
    } else {
        0
    }
}

/// Number of forced bets posted among `seats` seats.
pub open spec fn blinds_posted(seats: nat) -> nat {
    if seats < 2 {
        seats
    } else {
        2
    }
}

/// The pot once the forced bets are in.
pub open spec fn opening_pot(seats: nat) -> i64 {
    if seats == 0 {
        0
    } else if seats == 1 {
        SMALL_BLIND
    } else {
        30
    }
}

/// The chips a player brings; nothing before buy-in.
pub open spec fn brought(player: PlayerView) -> i64 {
    match player.stack {
        Some(stack) => stack,
        None => 0,
    }
}

/// A player as seated in the hand: their own identity and stack, with what
/// the dealing service dealt to their seat.
pub open spec fn seated_player(player: PlayerView, dealt: DealtHandView) -> PlayerView {
    PlayerView {
        id: player.id,
        stack: player.stack,
        cards: dealt.cards,
        score: dealt.score,
        description: dealt.description,
    }
}

/// The log entry of a forced bet.
pub open spec fn blind_event(player: PlayerView, seat: int) -> PlayerEventView {
    PlayerEventView {
        player_id: player.id,
        action: PlayerAction::Bet,
        amount: blind_of(seat),
        street_type: StreetType::Preflop,
        current_stack: None,
        current_pot: None,
    }
}

/// A seat as the first street opens, after its forced bet.
pub open spec fn opening_seat(player: PlayerView, seat: int) -> ActivePlayerView {
    ActivePlayerView {
        id: player.id,
        bet: blind_of(seat),
        stack: (brought(player) - blind_of(seat)) as i64,
        is_inactive: None,
    }
}

/// The first street of a hand.
pub open spec fn opening_street(players: Seq<PlayerView>) -> StreetEventView {
    StreetEventView {
        street_type: StreetType::Preflop,
        current_active_players: Seq::new(players.len(), |i: int| opening_seat(players[i], i)),
        pot: opening_pot(players.len()),
        cycle_count: 0,
        should_increment_cycle: false,
    }
}

/// The hand that a complete deal creates.
///
/// Seat `i` of the input gets hand `i` of the answer. The first seat posts
/// the small blind and the second the big blind, both logged as bets on the
/// first street, which opens with every seat in.
pub open spec fn dealt_hand(
    id: Seq<char>,
    input: DealInputView,
    response: DealResponseView,
) -> HandView {
    HandView {
        id,
        table_id: input.table_id,
        players: Seq::new(
            input.players.len(),
            |i: int| seated_player(input.players[i], response.hands[i]),
        ),
        cards: response.board->Some_0,
        player_events: Seq::new(
            blinds_posted(input.players.len()),
            |i: int| blind_event(input.players[i], i),
        ),
        street_events: seq![opening_street(input.players)],
    }
}

/// A freshly dealt hand is valid.
pub proof fn lemma_dealt_hand_wf(id: Seq<char>, input: DealInputView, response: DealResponseView)
    requires
        deal_input_wf(input),
    ensures
        hand_wf(dealt_hand(id, input, response)),
{
    let hand = dealt_hand(id, input, response);
    let street = hand.street_events[0];
    assert(street_wf(street));
    assert(same_seats(street, street));
    assert(street_index(street.street_type) == 0);
    let log = hand.player_events;
    assert(hand.street_events.last() == street);
    assert(log.len() == blinds_posted(input.players.len()));
    if log.len() == 0 {
        assert(chips_logged(log) == 0);
    } else if log.len() == 1 {
        assert(log.drop_last().len() == 0);
        assert(chips_logged(log.drop_last()) == 0);
        assert(log.last().amount == SMALL_BLIND);
        assert(chips_logged(log) == SMALL_BLIND);
    } else if log.len() == 2 {
        let first = log.drop_last();
        assert(first.drop_last().len() == 0);
        assert(chips_logged(first.drop_last()) == 0);
        assert(first.last().amount == SMALL_BLIND);
        assert(chips_logged(first) == SMALL_BLIND);
        assert(log.last().amount == BIG_BLIND);
        assert(chips_logged(log) == 30);
    }
}

/// The forced bet a seat posts when the hand is created.
pub fn blind(seat: usize) -> (chips: i64)
    ensures
        chips == blind_of(seat as int),
{
    if seat == 0 {
        SMALL_BLIND
    } else if seat == 1 {
        BIG_BLIND
    } else {
        0
    }
}

impl DealInput {
    /// Whether the players can be dealt in.
    pub open spec fn wf(&self) -> bool {
        deal_input_wf(self@)
    }

    /// Run-time test of [`DealInput::wf`].
    pub fn is_wf(&self) -> (ok: bool)
        ensures
            ok == self.wf(),
    {
        if self.players.len() > MAX_SEATS {
            return false;
        }
        let ghost players = views(self.players@);
        let mut i: usize = 0;
        while i < self.players.len()
            invariant
                i <= self.players.len(),
                players == views(self.players@),
                forall|a: int|
                    0 <= a < i ==> ((#[trigger] players[a]).stack matches Some(stack) ==> stack
                        >= 0),
                forall|a: int, b: int|
                    0 <= a < b < i ==> (#[trigger] players[a]).id != (#[trigger] players[b]).id,
            decreases self.players.len() - i,
        {
            match self.players[i].stack {
                Some(stack) => {
                    if stack < 0 {
                        assert(players[i as int].stack == Some(stack));
                        return false;
                    }
                },
                None => {},
            }
            let mut j: usize = 0;
            while j < i
                invariant
                    j <= i < self.players.len(),
                    players == views(self.players@),
                    forall|a: int| 0 <= a < j ==> (#[trigger] players[a]).id != players[i as int].id,
                decreases i - j,
            {
                if self.players[j].id == self.players[i].id {
                    assert(players[j as int].id == players[i as int].id);
                    return false;
                }
                j += 1;
            }
            i += 1;
        }
        true
    }
}

impl Hand {
    /// Creates the hand that the dealing answer describes.
    ///
    /// An answer that is not a complete deal for the players creates
    /// nothing. Otherwise the hand is exactly [`dealt_hand`], under the
    /// identifier given.
    pub fn deal(id: String, input: DealInput, response: DealResponse) -> (result: Result<
        Hand,
        DealError,
    >)
        requires
            input.wf(),
        ensures
            match result {
                Ok(hand) => deal_complete(response@, input@.players.len()) && hand@ == dealt_hand(
                    id@,
                    input@,
                    response@,
                ) && hand.wf(),
                Err(e) => !deal_complete(response@, input@.players.len()) && e
                    == DealError::DealingUnavailable,
            },
    {
        let seats = input.players.len();
        if !response.is_complete(seats) {
            return Err(DealError::DealingUnavailable);
        }
        let ghost model = dealt_hand(id@, input@, response@);
        let ghost given = views(input.players@);
        let ghost dealt = views(response.hands@);
        let mut players: Vec<Player> = Vec::new();
        let mut player_events: Vec<PlayerEvent> = Vec::new();
        let mut opening: Vec<ActivePlayer> = Vec::new();
        let mut i: usize = 0;
        while i < seats
            invariant
                i <= seats,
                seats == input.players.len(),
                seats == response.hands.len(),
                input.wf(),
                given == views(input.players@),
                dealt == views(response.hands@),
                players@.len() == i,
                opening@.len() == i,
                player_events@.len() == blinds_posted(i as nat),
                forall|j: int|
                    0 <= j < i ==> (#[trigger] players@[j])@ == seated_player(given[j], dealt[j]),
                forall|j: int| 0 <= j < i ==> (#[trigger] opening@[j])@ == opening_seat(given[j], j),
                forall|j: int|
                    0 <= j < player_events@.len() ==> (#[trigger] player_events@[j])@
                        == blind_event(given[j], j),
            decreases seats - i,
        {
            let player = &input.players[i];
            let hand = &response.hands[i];
            assert(given[i as int] == player@);
            assert(dealt[i as int] == hand@);
            players.push(
                Player {
                    id: player.id.clone(),
                    stack: player.stack,
                    cards: copy_strings(&hand.cards),
                    score: hand.score,
                    description: hand.description.clone(),
                },
            );
            let posted = blind(i);
            let stack = match player.stack {
                Some(stack) => stack,
                None => 0,
            };
            opening.push(
                ActivePlayer {
                    id: player.id.clone(),
                    bet: posted,
                    stack: stack - posted,
                    is_inactive: None,
                },
            );
            if i < 2 {
                player_events.push(
                    PlayerEvent {
                        player_id: player.id.clone(),
                        action: PlayerAction::Bet,
                        amount: posted,
                        street_type: StreetType::Preflop,
                        current_stack: None,
                        current_pot: None,
                    },
                );
            }
            i += 1;
        }
        let pot = if seats == 0 {
            0
        } else if seats == 1 {
            SMALL_BLIND
        } else {
            SMALL_BLIND + BIG_BLIND
        };
        let street = StreetEvent {
            street_type: StreetType::Preflop,
            current_active_players: opening,
            pot,
            cycle_count: 0,
            should_increment_cycle: false,
        };
        assert(street@.current_active_players =~= opening_street(
            input@.players,
        ).current_active_players);
        let mut street_events: Vec<StreetEvent> = Vec::new();
        street_events.push(street);
        let board = match response.board {
            Some(board) => board,
            None => Cards { flop: Vec::new(), turn: String::new(), river: String::new() },
        };
        let hand = Hand {
            id,
            table_id: input.table_id,
            players,
            cards: board,
            player_events,
            street_events,
        };
        proof {
            assert(hand@.players =~= model.players);
            assert(hand@.player_events =~= model.player_events);
            assert(hand@.street_events =~= model.street_events);
            lemma_dealt_hand_wf(id@, input@, response@);
        }
        Ok(hand)
    }
}

} // verus!
