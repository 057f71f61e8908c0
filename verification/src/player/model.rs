//! A player as seated in a hand.

use crate::views::views;
use vstd::prelude::*;

verus! {

/// Mathematical model of a [`Player`].
pub struct PlayerView {
    pub id: Seq<char>,
    pub stack: Option<i64>,
    pub cards: Seq<Seq<char>>,
    pub score: u64,
    pub description: Seq<char>,
}

/// A player: who they are, what they brought and what they were dealt.
///
/// Money is counted in whole chips. `stack` is absent before buy-in, `cards`
/// is empty until the hand is dealt, and `score` and `description` are the
/// dealing service's verdict on the hole cards.
#[derive(Clone, Debug, PartialEq, Eq)]
pub struct Player {
    pub id: String,
    pub stack: Option<i64>,
    pub cards: Vec<String>,
    pub score: u64,
    pub description: String,
}

impl View for Player {
    type V = PlayerView;

    open spec fn view(&self) -> PlayerView {
        PlayerView {
            id: self.id@,
            stack: self.stack,
            cards: views(self.cards@),
            score: self.score,
            description: self.description@,
        }
    }
}

impl Player {
    /// A player who has not been dealt any cards.
    pub fn new(id: String, stack: Option<i64>) -> (player: Player)
        ensures
            player@ == (PlayerView {
                id: id@,
                stack,
                cards: Seq::empty(),
                score: 0,
                description: Seq::empty(),
            }),
    {
        let player = Player { id, stack, cards: Vec::new(), score: 0, description: String::new() };
        assert(player@.cards =~= Seq::empty());
        player
    }

    /// The player's identifier.
    pub fn id(&self) -> (id: &str)
        ensures
            id@ == self@.id,
    {
        self.id.as_str()
    }

    /// The chips the player brought, if they have bought in.
    pub fn stack(&self) -> (stack: Option<i64>)
        ensures
            stack == self@.stack,
    {
        self.stack
    }

    /// The player's hole cards.
    pub fn cards(&self) -> (cards: &[String])
        ensures
            cards@ == self.cards@,
    {
        self.cards.as_slice()
    }

    /// The strength of the player's hole cards.
    pub fn score(&self) -> (score: u64)
        ensures
            score == self@.score,
    {
        self.score
    }

    /// The strength of the player's hole cards, in words.
    pub fn description(&self) -> (description: &str)
        ensures
            description@ == self@.description,
    {
        self.description.as_str()
    }
}

} // verus!
