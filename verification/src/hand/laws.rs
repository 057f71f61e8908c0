//! Laws of the betting rules.

use crate::hand::betting::{
    apply_action, chips_of, hand_state, hand_wf, is_live, is_seat_of, lemma_live_count_carried,
    lemma_live_count_update, lemma_open_street, live_count, next_street, record_outcome,
    round_closed, seat_of, ActionError,
};
use crate::hand::model::{HandState, HandView, PlayerAction, StreetEventView};
use vstd::prelude::*;

verus! {

/// The current street of `hand` right after the action, before the round is
/// settled.
pub open spec fn street_after(
    hand: HandView,
    player_id: Seq<char>,
    action: PlayerAction,
    amount: i64,
) -> StreetEventView {
    let street = hand.street_events.last();
    apply_action(
        street,
        seat_of(street.current_active_players, player_id)->Some_0,
        action,
        amount,
    )
}

/// An action that leaves every remaining player with the same bet, all of
/// them having acted, closes the street.
///
/// The street is frozen with exactly one more completed round. Before the
/// river a new street event appears for the next street, and the pot it
/// starts with is the pot the closed street ended with: the old pot plus the
/// chips of this action. On the river no street is added and the hand is
/// complete.
pub proof fn law_closed_round_advances(
    hand: HandView,
    player_id: Seq<char>,
    action: PlayerAction,
    amount: i64,
)
    requires
        hand_wf(hand),
        record_outcome(hand, player_id, action, amount) is Ok,
        live_count(street_after(hand, player_id, action, amount).current_active_players) > 1,
        round_closed(
            record_outcome(hand, player_id, action, amount)->Ok_0.player_events,
            street_after(hand, player_id, action, amount),
        ),
    ensures
        ({
            let before = hand.street_events;
            let after = record_outcome(hand, player_id, action, amount)->Ok_0.street_events;
            let n = before.len() as int;
            &&& n >= 1
            &&& after.len() >= n
            &&& after.subrange(0, n - 1) == before.subrange(0, n - 1)
            &&& after[n - 1].should_increment_cycle
            &&& after[n - 1].cycle_count == before[n - 1].cycle_count + 1
            &&& after[n - 1].pot == before[n - 1].pot + chips_of(action, amount)
            &&& match next_street(before[n - 1].street_type) {
                Some(street) => {
                    &&& after.len() == n + 1
                    &&& after[n].street_type == street
                    &&& after[n].pot == after[n - 1].pot
                    &&& after[n].cycle_count == 0
                    &&& !after[n].should_increment_cycle
                },
                None => {
                    &&& after.len() == n
                    &&& hand_state(after) == HandState::Complete
                },
            }
        }),
{
    let before = hand.street_events;
    let n = before.len() as int;
    let street = before.last();
    lemma_open_street(before);
    let seat = seat_of(street.current_active_players, player_id)->Some_0;
    assert(is_seat_of(street.current_active_players, player_id, seat));
    let moved = street_after(hand, player_id, action, amount);
    let after = record_outcome(hand, player_id, action, amount)->Ok_0.street_events;
    assert(after.subrange(0, n - 1) =~= before.subrange(0, n - 1));
    match next_street(street.street_type) {
        Some(next) => {
            lemma_live_count_carried(moved.current_active_players);
        },
        None => {
            assert(after.last().current_active_players == moved.current_active_players);
        },
    }
}

/// Folding down to one remaining player ends the hand on any street, and a
/// hand that has ended refuses every further action.
pub proof fn law_fold_out_closes_hand(
    hand: HandView,
    player_id: Seq<char>,
    amount: i64,
    next_player: Seq<char>,
    next_action: PlayerAction,
    next_amount: i64,
)
    requires
        hand_wf(hand),
        record_outcome(hand, player_id, PlayerAction::Fold, amount) is Ok,
        live_count(hand.street_events.last().current_active_players) == 2,
    ensures
        ({
            let after = record_outcome(hand, player_id, PlayerAction::Fold, amount)->Ok_0;
            &&& hand_state(after.street_events) == HandState::FoldedOut
            &&& record_outcome(after, next_player, next_action, next_amount) == Err::<
                HandView,
                ActionError,
            >(ActionError::HandClosed)
        }),
{
    let street = hand.street_events.last();
    let seat = seat_of(street.current_active_players, player_id)->Some_0;
    assert(is_seat_of(street.current_active_players, player_id, seat));
    let moved = street_after(hand, player_id, PlayerAction::Fold, amount);
    lemma_live_count_update(
        street.current_active_players,
        seat,
        moved.current_active_players[seat],
    );
    let after = record_outcome(hand, player_id, PlayerAction::Fold, amount)->Ok_0;
    assert(after.street_events.last().current_active_players == moved.current_active_players);
}

/// A hand that is complete or folded out refuses every action.
pub proof fn law_closed_hand_refuses(
    hand: HandView,
    player_id: Seq<char>,
    action: PlayerAction,
    amount: i64,
)
    requires
        hand_state(hand.street_events) == HandState::Complete || hand_state(hand.street_events)
            == HandState::FoldedOut,
    ensures
        record_outcome(hand, player_id, action, amount) == Err::<HandView, ActionError>(
            ActionError::HandClosed,
        ),
{
}

/// Only a fold changes who is still in, and only by the folding seat.
pub proof fn law_action_keeps_players_in(
    hand: HandView,
    player_id: Seq<char>,
    action: PlayerAction,
    amount: i64,
)
    requires
        hand_wf(hand),
        record_outcome(hand, player_id, action, amount) is Ok,
    ensures
        ({
            let before = live_count(hand.street_events.last().current_active_players);
            let after = live_count(
                record_outcome(
                    hand,
                    player_id,
                    action,
                    amount,
                )->Ok_0.street_events.last().current_active_players,
            );
            if action == PlayerAction::Fold {
                after == before - 1
            } else {
                after == before
            }
        }),
{
    let street = hand.street_events.last();
    lemma_open_street(hand.street_events);
    let seat = seat_of(street.current_active_players, player_id)->Some_0;
    assert(is_seat_of(street.current_active_players, player_id, seat));
    let moved = street_after(hand, player_id, action, amount);
    if action != PlayerAction::Check {
        lemma_live_count_update(
            street.current_active_players,
            seat,
            moved.current_active_players[seat],
        );
    }
    let after = record_outcome(hand, player_id, action, amount)->Ok_0.street_events;
    if after.last().current_active_players != moved.current_active_players {
        lemma_live_count_carried(moved.current_active_players);
    }
    assert(is_live(street.current_active_players[seat]));
}

/// Recording an action only ever adds to a hand.
///
/// The action log grows by the one action, every street but the current
/// one stays frozen as it was, no street disappears, and the hand keeps its
/// identifier, table, players and board.
pub proof fn law_logs_only_grow(
    hand: HandView,
    player_id: Seq<char>,
    action: PlayerAction,
    amount: i64,
)
    requires
        hand_wf(hand),
        record_outcome(hand, player_id, action, amount) is Ok,
    ensures
        ({
            let after = record_outcome(hand, player_id, action, amount)->Ok_0;
            let n = hand.street_events.len() as int;
            &&& after.player_events.len() == hand.player_events.len() + 1
            &&& after.player_events.drop_last() == hand.player_events
            &&& after.player_events.last().player_id == player_id
            &&& after.player_events.last().action == action
            &&& after.player_events.last().amount == chips_of(action, amount)
            &&& after.player_events.last().street_type == hand.street_events.last().street_type
            &&& n <= after.street_events.len() <= n + 1
            &&& after.street_events.subrange(0, n - 1) == hand.street_events.subrange(0, n - 1)
            &&& after.id == hand.id
            &&& after.table_id == hand.table_id
            &&& after.players == hand.players
            &&& after.cards == hand.cards
        }),
{
    let after = record_outcome(hand, player_id, action, amount)->Ok_0;
    let n = hand.street_events.len() as int;
    assert(after.player_events.drop_last() =~= hand.player_events);
    assert(after.street_events.subrange(0, n - 1) =~= hand.street_events.subrange(0, n - 1));
}

} // verus!
