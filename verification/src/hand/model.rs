//! A dealt hand and its two append-only logs.

use crate::player::model::{Player, PlayerView};
use crate::views::views;
use vstd::prelude::*;

verus! {

/// What a player does when it is their turn.
#[derive(Clone, Copy, Debug, PartialEq, Eq, Structural)]
pub enum PlayerAction {
    Bet,
    Check,
    Fold,
}

/// A betting phase of a hand.
#[derive(Clone, Copy, Debug, PartialEq, Eq, Structural)]
pub enum StreetType {
    Preflop,
    Flop,
    Turn,
    River,
}

/// Where a hand stands in its life.
#[derive(Clone, Copy, Debug, PartialEq, Eq, Structural)]
pub enum HandState {
    /// No street has been opened.
    Created,
    Preflop,
    Flop,
    Turn,
    River,
    /// The river's betting round has closed.
    Complete,
    /// Everybody but one player has folded.
    FoldedOut,
}

/// Mathematical model of [`Cards`].
pub struct CardsView {
    pub flop: Seq<Seq<char>>,
    pub turn: Seq<char>,
    pub river: Seq<char>,
}

/// The community cards.
#[derive(Clone, Debug, PartialEq, Eq)]
pub struct Cards {
    pub flop: Vec<String>,
    pub turn: String,
    pub river: String,
}

impl View for Cards {
    type V = CardsView;

    open spec fn view(&self) -> CardsView {
        CardsView { flop: views(self.flop@), turn: self.turn@, river: self.river@ }
    }
}

/// Mathematical model of a [`PlayerEvent`].
pub struct PlayerEventView {
    pub player_id: Seq<char>,
    pub action: PlayerAction,
    pub amount: i64,
    pub street_type: StreetType,
    pub current_stack: Option<i64>,
    pub current_pot: Option<i64>,
}

/// One action of one player, as logged.
#[derive(Clone, Debug, PartialEq, Eq)]
pub struct PlayerEvent {
    pub player_id: String,
    pub action: PlayerAction,
    /// Chips put in; zero unless the action is a bet.
    pub amount: i64,
    pub street_type: StreetType,
    /// The player's stack after the action.
    pub current_stack: Option<i64>,
    /// The pot after the action.
    pub current_pot: Option<i64>,
}

impl View for PlayerEvent {
    type V = PlayerEventView;

    open spec fn view(&self) -> PlayerEventView {
        PlayerEventView {
            player_id: self.player_id@,
            action: self.action,
            amount: self.amount,
            street_type: self.street_type,
            current_stack: self.current_stack,
            current_pot: self.current_pot,
        }
    }
}

/// Mathematical model of an [`ActivePlayer`].
pub struct ActivePlayerView {
    pub id: Seq<char>,
    pub bet: i64,
    pub stack: i64,
    pub is_inactive: Option<bool>,
}

/// A seat's standing within one street.
#[derive(Clone, Debug, PartialEq, Eq)]
pub struct ActivePlayer {
    pub id: String,
    /// Chips committed on this street.
    pub bet: i64,
    pub stack: i64,
    /// `Some(true)` once the player has folded.
    pub is_inactive: Option<bool>,
}

impl View for ActivePlayer {
    type V = ActivePlayerView;

    open spec fn view(&self) -> ActivePlayerView {
        ActivePlayerView {
            id: self.id@,
            bet: self.bet,
            stack: self.stack,
            is_inactive: self.is_inactive,
        }
    }
}

/// Mathematical model of a [`StreetEvent`].
pub struct StreetEventView {
    pub street_type: StreetType,
    pub current_active_players: Seq<ActivePlayerView>,
    pub pot: i64,
    pub cycle_count: u32,
    pub should_increment_cycle: bool,
}

/// The snapshot of one street: every seat's bet and stack, and the pot.
#[derive(Clone, Debug, PartialEq, Eq)]
pub struct StreetEvent {
    pub street_type: StreetType,
    pub current_active_players: Vec<ActivePlayer>,
    pub pot: i64,
    /// Betting rounds completed on this street.
    pub cycle_count: u32,
    /// Whether the last action closed the betting round.
    pub should_increment_cycle: bool,
}

impl View for StreetEvent {
    type V = StreetEventView;

    open spec fn view(&self) -> StreetEventView {
        StreetEventView {
            street_type: self.street_type,
            current_active_players: views(self.current_active_players@),
            pot: self.pot,
            cycle_count: self.cycle_count,
            should_increment_cycle: self.should_increment_cycle,
        }
    }
}

/// Mathematical model of a [`Hand`].
pub struct HandView {
    pub id: Seq<char>,
    pub table_id: Seq<char>,
    pub players: Seq<PlayerView>,
    pub cards: CardsView,
    pub player_events: Seq<PlayerEventView>,
    pub street_events: Seq<StreetEventView>,
}

/// One dealt hand of a table.
#[derive(Clone, Debug, PartialEq, Eq)]
pub struct Hand {
    pub id: String,
    pub table_id: String,
    pub players: Vec<Player>,
    pub cards: Cards,
    pub player_events: Vec<PlayerEvent>,
    pub street_events: Vec<StreetEvent>,
}

impl View for Hand {
    type V = HandView;

    open spec fn view(&self) -> HandView {
        HandView {
            id: self.id@,
            table_id: self.table_id@,
            players: views(self.players@),
            cards: self.cards@,
            player_events: views(self.player_events@),
            street_events: views(self.street_events@),
        }
    }
}

/// Mathematical model of a [`DealInput`].
pub struct DealInputView {
    pub players: Seq<PlayerView>,
    pub table_id: Seq<char>,
}

/// Who is to be dealt in, and at which table.
#[derive(Clone, Debug, PartialEq, Eq)]
pub struct DealInput {
    pub players: Vec<Player>,
    pub table_id: String,
}

impl View for DealInput {
    type V = DealInputView;

    open spec fn view(&self) -> DealInputView {
        DealInputView { players: views(self.players@), table_id: self.table_id@ }
    }
}

} // verus!
