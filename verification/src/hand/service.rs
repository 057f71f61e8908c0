//! The hand service: creating a hand from a deal and recording actions.
//!
//! The service makes no call of its own. Its caller asks the dealing service
//! and the store, and hands the answers in.

use crate::deal::{deal_complete, DealRequest, DealResponse};
use crate::hand::betting::{record_outcome, ActionError};
use crate::hand::dealing::{dealt_hand, DealError};
use crate::hand::model::{DealInput, Hand, PlayerAction};
use crate::hand::record::hand_record;
use crate::hand::repository::HandRepository;
use crate::ident::{random_id, ID_LENGTH};
use crate::store::{PutRequest, PutRequestView};
use vstd::prelude::*;

verus! {

/// The hand service.
#[derive(Clone, Debug, PartialEq, Eq)]
pub struct HandService {
    pub hand_repository: HandRepository,
}

impl HandService {
    /// The service that keeps its hands through `hand_repository`.
    pub fn new(hand_repository: HandRepository) -> (service: HandService)
        ensures
            service.hand_repository == hand_repository,
    {
        HandService { hand_repository }
    }

    /// The request for a deal: one seat per player.
    pub fn deal_request(&self, data: &DealInput) -> (request: DealRequest)
        requires
            data.wf(),
        ensures
            request.player_count == data@.players.len(),
    {
        DealRequest { player_count: data.players.len() as i32 }
    }

    /// Creates a hand for the players from what the dealing service
    /// answered; `None` stands for a call that failed.
    ///
    /// A hand is created exactly when the answer is a complete deal for the
    /// players. It is then the hand that [`dealt_hand`] describes, under a
    /// fresh identifier. In every other case nothing is created and the
    /// error is `DealingUnavailable`.
    pub fn create(&mut self, data: DealInput, dealt: Option<DealResponse>) -> (result: Result<
        Hand,
        DealError,
    >)
        requires
            data.wf(),
        ensures
            *final(self) == *old(self),
            match result {
                Ok(hand) => {
                    &&& dealt matches Some(response)
                    &&& deal_complete(response@, data@.players.len())
                    &&& hand@ == dealt_hand(hand@.id, data@, response@)
                    &&& hand@.id.len() == ID_LENGTH
                    &&& hand.wf()
                },
                Err(e) => {
                    &&& e == DealError::DealingUnavailable
                    &&& dealt matches Some(response) ==> !deal_complete(
                        response@,
                        data@.players.len(),
                    )
                },
            },
    {
        match dealt {
            Some(response) => Hand::deal(random_id(), data, response),
            None => Err(DealError::DealingUnavailable),
        }
    }

    /// The request that stores the hand.
    pub fn save_request(&self, hand: &Hand) -> (request: PutRequest)
        ensures
            request@ == (PutRequestView {
                table_name: self.hand_repository.table_name@,
                item: hand_record(hand@),
            }),
    {
        self.hand_repository.create_hand(hand)
    }

    /// Settles the creation of a hand once the store has answered: a hand
    /// that was not stored has not been created.
    pub fn created(&self, hand: Hand, stored: bool) -> (result: Result<Hand, DealError>)
        ensures
            match result {
                Ok(kept) => stored && kept == hand,
                Err(e) => !stored && e == DealError::PersistenceError,
            },
    {
        if stored {
            Ok(hand)
        } else {
            Err(DealError::PersistenceError)
        }
    }

    /// Records one action on the hand that the store handed back; `None`
    /// stands for a hand that the store does not have.
    ///
    /// On success the updated hand is returned, to be stored.
    pub fn record_action(
        &self,
        found: Option<Hand>,
        player_id: &str,
        action: PlayerAction,
        amount: i64,
    ) -> (result: Result<Hand, ActionError>)
        requires
            found matches Some(hand) ==> hand.wf(),
        ensures
            match found {
                None => result matches Err(e) && e == ActionError::NotFound,
                Some(hand) => match record_outcome(hand@, player_id@, action, amount) {
                    Ok(after) => result matches Ok(updated) && updated@ == after && updated.wf(),
                    Err(error) => result matches Err(e) && e == error,
                },
            },
    {
        match found {
            None => Err(ActionError::NotFound),
            Some(hand) => {
                let mut hand = hand;
                match hand.record(player_id, action, amount) {
                    Ok(()) => Ok(hand),
                    Err(e) => Err(e),
                }
            },
        }
    }

    /// Settles an action once the store has answered: an update that was not
    /// stored has not happened.
    pub fn recorded(&self, hand: Hand, stored: bool) -> (result: Result<Hand, ActionError>)
        ensures
            match result {
                Ok(kept) => stored && kept == hand,
                Err(e) => !stored && e == ActionError::PersistenceError,
            },
    {
        if stored {
            Ok(hand)
        } else {
            Err(ActionError::PersistenceError)
        }
    }
}

} // verus!
