//! What is asked of the dealing service and what it answers.

use crate::hand::model::{Cards, CardsView};
use crate::views::views;
use vstd::prelude::*;

verus! {

/// The request for a deal.
#[derive(Clone, Copy, Debug, PartialEq, Eq, Structural)]
pub struct DealRequest {
    /// Number of seats to deal hole cards to.
    pub player_count: i32,
}

/// Mathematical model of a [`DealtHand`].
pub struct DealtHandView {
    pub cards: Seq<Seq<char>>,
    pub score: u64,
    pub description: Seq<char>,
}

/// The hole cards dealt to one seat, with their strength.
#[derive(Clone, Debug, PartialEq, Eq)]
pub struct DealtHand {
    pub cards: Vec<String>,
    pub score: u64,
    pub description: String,
}

impl View for DealtHand {
    type V = DealtHandView;

    open spec fn view(&self) -> DealtHandView {
        DealtHandView {
            cards: views(self.cards@),
            score: self.score,
            description: self.description@,
        }
    }
}

/// Mathematical model of a [`DealResponse`].
pub struct DealResponseView {
    pub hands: Seq<DealtHandView>,
    pub board: Option<CardsView>,
}

/// The answer to a deal: one dealt hand per requested seat, in seat order,
/// and the board.
#[derive(Clone, Debug, PartialEq, Eq)]
pub struct DealResponse {
    pub hands: Vec<DealtHand>,
    pub board: Option<Cards>,
}

impl View for DealResponse {
    type V = DealResponseView;

    open spec fn view(&self) -> DealResponseView {
        DealResponseView {
            hands: views(self.hands@),
            board: match self.board {
                Some(board) => Some(board@),
                None => None,
            },
        }
    }
}

/// Number of cards of a flop.
pub const FLOP_CARDS: usize = 3;

/// Whether the answer is a complete deal for `seats` seats: one hand per
/// seat and a board with a full flop.
pub open spec fn deal_complete(response: DealResponseView, seats: nat) -> bool {
    &&& response.hands.len() == seats
    &&& response.board matches Some(board) && board.flop.len() == FLOP_CARDS
}

impl DealResponse {
    /// Run-time test of [`deal_complete`].
    pub fn is_complete(&self, seats: usize) -> (complete: bool)
        ensures
            complete == deal_complete(self@, seats as nat),
    {
        match &self.board {
            Some(board) => self.hands.len() == seats && board.flop.len() == FLOP_CARDS,
            None => false,
        }
    }
}

} // verus!
