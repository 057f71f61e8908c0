//! The betting rules: who may act, what an action does to the current
//! street, and when a betting round closes.
//!
//! A betting round closes as soon as every player still in the hand has
//! acted on the street and all of them have the same amount committed. The
//! forced bets that open the first street count as actions of the players
//! who post them.

use crate::hand::model::{
    ActivePlayer, ActivePlayerView, Hand, HandState, HandView, PlayerAction, PlayerEvent,
    PlayerEventView, StreetEvent, StreetEventView, StreetType,
};
use crate::views::{lemma_views_drop_last, lemma_views_push, lemma_views_update, views};
use vstd::prelude::*;

verus! {

/// Why an action was not recorded.
#[derive(Clone, Copy, Debug, PartialEq, Eq, Structural)]
pub enum ActionError {
    /// No hand has the given identifier.
    NotFound,
    /// The player is not seated in the hand or has folded.
    InvalidActor,
    /// The bet is negative or too large to be counted.
    InvalidAmount,
    /// The hand is complete or folded out.
    HandClosed,
    /// The store failed to keep the updated hand.
    PersistenceError,
}

/// Whether the seat is still in the hand.
pub open spec fn is_live(player: ActivePlayerView) -> bool {
    player.is_inactive != Some(true)
}

/// Number of seats still in the hand.
pub open spec fn live_count(players: Seq<ActivePlayerView>) -> nat
    decreases players.len(),
{
    if players.len() == 0 {
        0
    } else {
        live_count(players.drop_last()) + if is_live(players.last()) {
            1nat
        } else {
            0nat
        }
    }
}

/// Whether `seat` is the first seat of the player called `id`.
pub open spec fn is_seat_of(players: Seq<ActivePlayerView>, id: Seq<char>, seat: int) -> bool {
    &&& 0 <= seat < players.len()
    &&& players[seat].id == id
    &&& forall|j: int| 0 <= j < seat ==> (#[trigger] players[j]).id != id
}

/// The first seat of the player called `id`, if they have one.
pub open spec fn seat_of(players: Seq<ActivePlayerView>, id: Seq<char>) -> Option<int> {
    if exists|seat: int| is_seat_of(players, id, seat) {
        Some(choose|seat: int| is_seat_of(players, id, seat))
    } else {
        None
    }
}

/// Whether the player has an event on the street.
pub open spec fn has_acted(log: Seq<PlayerEventView>, street: StreetType, id: Seq<char>) -> bool {
    exists|k: int|
        0 <= k < log.len() && (#[trigger] log[k]).street_type == street && log[k].player_id == id
}

/// Whether all seats still in the hand have the same amount committed.
pub open spec fn bets_level(players: Seq<ActivePlayerView>) -> bool {
    forall|i: int, j: int|
        0 <= i < players.len() && 0 <= j < players.len() && is_live(#[trigger] players[i])
            && is_live(#[trigger] players[j]) ==> players[i].bet == players[j].bet
}

/// Whether every seat still in the hand has acted on the street.
pub open spec fn all_acted(log: Seq<PlayerEventView>, street: StreetEventView) -> bool {
    forall|i: int|
        0 <= i < street.current_active_players.len() && is_live(
            #[trigger] street.current_active_players[i],
        ) ==> has_acted(log, street.street_type, street.current_active_players[i].id)
}

/// Whether the betting round of the street is closed.
pub open spec fn round_closed(log: Seq<PlayerEventView>, street: StreetEventView) -> bool {
    bets_level(street.current_active_players) && all_acted(log, street)
}

/// The street that follows, if any.
pub open spec fn next_street(street: StreetType) -> Option<StreetType> {
    match street {
        StreetType::Preflop => Some(StreetType::Flop),
        StreetType::Flop => Some(StreetType::Turn),
        StreetType::Turn => Some(StreetType::River),
        StreetType::River => None,
    }
}

/// The place of a street in a hand, counted from zero.
pub open spec fn street_index(street: StreetType) -> int {
    match street {
        StreetType::Preflop => 0,
        StreetType::Flop => 1,
        StreetType::Turn => 2,
        StreetType::River => 3,
    }
}

/// The state of a hand, read off its street log.
///
/// A hand is folded out when exactly one seat of its current street is still
/// in, and complete when the river's round has closed.
pub open spec fn hand_state(streets: Seq<StreetEventView>) -> HandState {
    if streets.len() == 0 {
        HandState::Created
    } else if live_count(streets.last().current_active_players) == 1 {
        HandState::FoldedOut
    } else if streets.last().street_type == StreetType::River
        && streets.last().should_increment_cycle {
        HandState::Complete
    } else {
        match streets.last().street_type {
            StreetType::Preflop => HandState::Preflop,
            StreetType::Flop => HandState::Flop,
            StreetType::Turn => HandState::Turn,
            StreetType::River => HandState::River,
        }
    }
}

/// Whether a bet of `amount` by `seat` can be counted: it is not negative,
/// and pot, bet and stack stay within what an `i64` holds.
pub open spec fn amount_ok(street: StreetEventView, seat: int, amount: i64) -> bool {
    &&& 0 <= amount
    &&& street.pot + amount <= i64::MAX
    &&& street.current_active_players[seat].bet + amount <= i64::MAX
    &&& street.current_active_players[seat].stack - amount >= i64::MIN
}

/// The street after `seat` has acted, before the round is settled.
pub open spec fn apply_action(
    street: StreetEventView,
    seat: int,
    action: PlayerAction,
    amount: i64,
) -> StreetEventView {
    let player = street.current_active_players[seat];
    match action {
        PlayerAction::Bet => StreetEventView {
            current_active_players: street.current_active_players.update(
                seat,
                ActivePlayerView {
                    bet: (player.bet + amount) as i64,
                    stack: (player.stack - amount) as i64,
                    ..player
                },
            ),
            pot: (street.pot + amount) as i64,
            ..street
        },
        PlayerAction::Check => street,
        PlayerAction::Fold => StreetEventView {
            current_active_players: street.current_active_players.update(
                seat,
                ActivePlayerView { is_inactive: Some(true), ..player },
            ),
            ..street
        },
    }
}

/// The chips an action puts in: the amount of a bet, nothing otherwise.
pub open spec fn chips_of(action: PlayerAction, amount: i64) -> i64 {
    if action == PlayerAction::Bet {
        amount
    } else {
        0
    }
}

/// A seat as it enters the next street: nothing committed, the rest kept.
pub open spec fn carried_seat(player: ActivePlayerView) -> ActivePlayerView {
    ActivePlayerView { bet: 0, ..player }
}

/// The street that opens after `closed`: same seats with their bets reset,
/// stacks and pot carried forward.
pub open spec fn open_street(closed: StreetEventView, street: StreetType) -> StreetEventView {
    StreetEventView {
        street_type: street,
        current_active_players: Seq::new(
            closed.current_active_players.len(),
            |i: int| carried_seat(closed.current_active_players[i]),
        ),
        pot: closed.pot,
        cycle_count: 0,
        should_increment_cycle: false,
    }
}

/// The street log once the action's effect on the current street is known.
///
/// If more than one seat is still in and the round is closed, the current
/// street is frozen with one more completed round and, unless it is the
/// river, the next street opens. Otherwise the current street stays open.
pub open spec fn settle(
    earlier: Seq<StreetEventView>,
    moved: StreetEventView,
    log: Seq<PlayerEventView>,
) -> Seq<StreetEventView> {
    if live_count(moved.current_active_players) > 1 && round_closed(log, moved) {
        let closed = StreetEventView {
            cycle_count: (moved.cycle_count + 1) as u32,
            should_increment_cycle: true,
            ..moved
        };
        match next_street(moved.street_type) {
            Some(street) => earlier.push(closed).push(open_street(closed, street)),
            None => earlier.push(closed),
        }
    } else {
        earlier.push(StreetEventView { should_increment_cycle: false, ..moved })
    }
}

/// What recording an action does to a hand.
///
/// A closed hand refuses every action. Otherwise the actor must hold a seat
/// that is still in, and a bet must be countable. The action is then logged
/// with the stack and pot it leaves, applied to the current street, and the
/// round is settled.
pub open spec fn record_outcome(
    hand: HandView,
    player_id: Seq<char>,
    action: PlayerAction,
    amount: i64,
) -> Result<HandView, ActionError> {
    let state = hand_state(hand.street_events);
    if state == HandState::Complete || state == HandState::FoldedOut {
        Err(ActionError::HandClosed)
    } else if state == HandState::Created {
        Err(ActionError::InvalidActor)
    } else {
        let street = hand.street_events.last();
        match seat_of(street.current_active_players, player_id) {
            None => Err(ActionError::InvalidActor),
            Some(seat) => if !is_live(street.current_active_players[seat]) {
                Err(ActionError::InvalidActor)
            } else if action == PlayerAction::Bet && !amount_ok(street, seat, amount) {
                Err(ActionError::InvalidAmount)
            } else {
                let moved = apply_action(street, seat, action, amount);
                let event = PlayerEventView {
                    player_id,
                    action,
                    amount: chips_of(action, amount),
                    street_type: street.street_type,
                    current_stack: Some(moved.current_active_players[seat].stack),
                    current_pot: Some(moved.pot),
                };
                let log = hand.player_events.push(event);
                Ok(
                    HandView {
                        player_events: log,
                        street_events: settle(hand.street_events.drop_last(), moved, log),
                        ..hand
                    },
                )
            },
        }
    }
}

/// What must hold of one street of a valid log.
pub open spec fn street_wf(street: StreetEventView) -> bool {
    &&& street.pot >= 0
    &&& forall|i: int|
        0 <= i < street.current_active_players.len() ==> (
        #[trigger] street.current_active_players[i]).bet >= 0
    &&& street.cycle_count == if street.should_increment_cycle {
        1u32
    } else {
        0u32
    }
}

/// Whether two streets list the same players seat by seat.
pub open spec fn same_seats(a: StreetEventView, b: StreetEventView) -> bool {
    &&& a.current_active_players.len() == b.current_active_players.len()
    &&& forall|i: int|
        0 <= i < a.current_active_players.len() ==> (#[trigger] a.current_active_players[i]).id
            == b.current_active_players[i].id
}

/// What must hold of a valid street log: the streets come in order, every
/// street but the current one is frozen, a frozen current street is the
/// river, and all streets list the same seats.
pub open spec fn streets_wf(streets: Seq<StreetEventView>) -> bool {
    &&& forall|k: int|
        0 <= k < streets.len() ==> street_wf(#[trigger] streets[k]) && street_index(
            streets[k].street_type,
        ) == k && same_seats(streets[0], streets[k])
    &&& forall|k: int| 0 <= k < streets.len() - 1 ==> (#[trigger] streets[k]).should_increment_cycle
    &&& streets.len() > 0 && streets.last().should_increment_cycle ==> streets.last().street_type
        == StreetType::River
}

/// What must hold of a valid action log: no event takes chips out.
pub open spec fn log_wf(log: Seq<PlayerEventView>) -> bool {
    forall|k: int| 0 <= k < log.len() ==> (#[trigger] log[k]).amount >= 0
}

/// The chips that the logged actions have put in, all told.
pub open spec fn chips_logged(log: Seq<PlayerEventView>) -> int
    decreases log.len(),
{
    if log.len() == 0 {
        0
    } else {
        chips_logged(log.drop_last()) + log.last().amount
    }
}

/// What must hold of a valid hand: both logs are valid, and the pot of the
/// current street holds exactly the chips that the logged actions put in.
pub open spec fn hand_wf(hand: HandView) -> bool {
    &&& streets_wf(hand.street_events)
    &&& log_wf(hand.player_events)
    &&& hand.street_events.len() > 0 ==> hand.street_events.last().pot == chips_logged(
        hand.player_events,
    )
}

/// Logging one more action adds its chips.
pub proof fn lemma_chips_logged_push(log: Seq<PlayerEventView>, event: PlayerEventView)
    ensures
        chips_logged(log.push(event)) == chips_logged(log) + event.amount,
{
    assert(log.push(event).drop_last() =~= log);
}

/// A valid log has put in no less than nothing.
pub proof fn lemma_chips_logged_sign(log: Seq<PlayerEventView>)
    requires
        log_wf(log),
    ensures
        0 <= chips_logged(log),
    decreases log.len(),
{
    if log.len() > 0 {
        assert(log.last() == log[log.len() - 1]);
        lemma_chips_logged_sign(log.drop_last());
    }
}

/// The chips of a valid log never go down as the log grows.
pub proof fn lemma_chips_logged_grow(log: Seq<PlayerEventView>, k: int)
    requires
        log_wf(log),
        0 <= k <= log.len(),
    ensures
        0 <= chips_logged(log.take(k)) <= chips_logged(log),
    decreases log.len() - k,
{
    lemma_chips_logged_sign(log.take(k));
    if k == log.len() {
        assert(log.take(k) =~= log);
    } else {
        lemma_chips_logged_grow(log, k + 1);
        assert(log.take(k + 1).drop_last() =~= log.take(k));
        assert(log.take(k + 1).last() == log[k]);
    }
}

/// Counting one more seat adds it if it is still in.
pub proof fn lemma_live_count_push(players: Seq<ActivePlayerView>, player: ActivePlayerView)
    ensures
        live_count(players.push(player)) == live_count(players) + if is_live(player) {
            1nat
        } else {
            0nat
        },
{
    assert(players.push(player).drop_last() =~= players);
}

/// Replacing one seat changes the count by that seat alone.
pub proof fn lemma_live_count_update(
    players: Seq<ActivePlayerView>,
    seat: int,
    player: ActivePlayerView,
)
    requires
        0 <= seat < players.len(),
    ensures
        live_count(players.update(seat, player)) + (if is_live(players[seat]) {
            1nat
        } else {
            0nat
        }) == live_count(players) + (if is_live(player) {
            1nat
        } else {
            0nat
        }),
    decreases players.len(),
{
    let after = players.update(seat, player);
    if seat == players.len() - 1 {
        assert(after.drop_last() =~= players.drop_last());
    } else {
        assert(after.drop_last() =~= players.drop_last().update(seat, player));
        lemma_live_count_update(players.drop_last(), seat, player);
    }
}

/// Resetting the bets keeps every seat in or out as it was.
pub proof fn lemma_live_count_carried(players: Seq<ActivePlayerView>)
    ensures
        live_count(Seq::new(players.len(), |i: int| carried_seat(players[i]))) == live_count(
            players,
        ),
    decreases players.len(),
{
    let carried = Seq::new(players.len(), |i: int| carried_seat(players[i]));
    if players.len() > 0 {
        let shorter = players.drop_last();
        assert(carried.drop_last() =~= Seq::new(shorter.len(), |i: int| carried_seat(shorter[i])));
        lemma_live_count_carried(shorter);
    }
}

/// A player has at most one first seat.
pub proof fn lemma_seat_of(players: Seq<ActivePlayerView>, id: Seq<char>, seat: int)
    requires
        is_seat_of(players, id, seat),
    ensures
        seat_of(players, id) == Some(seat),
{
    let chosen = choose|s: int| is_seat_of(players, id, s);
    if chosen < seat {
        assert(players[chosen].id != id);
    } else if seat < chosen {
        assert(players[seat].id != id);
    }
}

/// Number of seats still in.
pub fn count_live(players: &Vec<ActivePlayer>) -> (count: usize)
    ensures
        count == live_count(views(players@)),
{
    let mut count: usize = 0;
    let mut i: usize = 0;
    while i < players.len()
        invariant
            i <= players.len(),
            count <= i,
            count == live_count(views(players@).take(i as int)),
        decreases players.len() - i,
    {
        proof {
            let all = views(players@);
            assert(all.take(i + 1) =~= all.take(i as int).push(all[i as int]));
            lemma_live_count_push(all.take(i as int), all[i as int]);
        }
        if !is_folded(&players[i]) {
            count += 1;
        }
        i += 1;
    }
    proof {
        let all = views(players@);
        assert(all.take(i as int) =~= all);
    }
    count
}

/// Whether the seat has folded.
pub fn is_folded(player: &ActivePlayer) -> (folded: bool)
    ensures
        folded == !is_live(player@),
{
    match player.is_inactive {
        Some(flag) => flag,
        None => false,
    }
}

/// The first seat of the player called `id`, if they have one.
pub fn find_seat(players: &Vec<ActivePlayer>, id: &String) -> (seat: Option<usize>)
    ensures
        match seat {
            Some(s) => seat_of(views(players@), id@) == Some(s as int) && s < players.len(),
            None => seat_of(views(players@), id@) is None,
        },
{
    let mut i: usize = 0;
    while i < players.len()
        invariant
            i <= players.len(),
            forall|j: int| 0 <= j < i ==> (#[trigger] views(players@)[j]).id != id@,
        decreases players.len() - i,
    {
        if players[i].id == *id {
            proof {
                assert(views(players@)[i as int].id == id@);
                lemma_seat_of(views(players@), id@, i as int);
            }
            return Some(i);
        }
        i += 1;
    }
    None
}

/// Whether the player has an event on the street.
pub fn acted_on(log: &Vec<PlayerEvent>, street: StreetType, id: &String) -> (acted: bool)
    ensures
        acted == has_acted(views(log@), street, id@),
{
    let mut k: usize = 0;
    while k < log.len()
        invariant
            k <= log.len(),
            forall|j: int|
                0 <= j < k ==> !((#[trigger] views(log@)[j]).street_type == street && views(
                    log@,
                )[j].player_id == id@),
        decreases log.len() - k,
    {
        if log[k].street_type == street && log[k].player_id == *id {
            proof {
                assert(views(log@)[k as int].street_type == street);
                assert(views(log@)[k as int].player_id == id@);
            }
            return true;
        }
        k += 1;
    }
    false
}

/// Whether the betting round of the street is closed.
pub fn is_round_closed(log: &Vec<PlayerEvent>, street: &StreetEvent) -> (closed: bool)
    ensures
        closed == round_closed(views(log@), street@),
{
    let players = &street.current_active_players;
    let ghost seats = views(players@);
    let ghost mut first: int = 0;
    let mut level: Option<i64> = None;
    let mut i: usize = 0;
    while i < players.len()
        invariant
            i <= players.len(),
            seats == views(players@),
            seats == street@.current_active_players,
            forall|j: int| 0 <= j < i && is_live(#[trigger] seats[j]) ==> level == Some(seats[j].bet),
            level is Some ==> 0 <= first < i && is_live(seats[first]),
            forall|j: int|
                0 <= j < i && is_live(#[trigger] seats[j]) ==> has_acted(
                    views(log@),
                    street.street_type,
                    seats[j].id,
                ),
        decreases players.len() - i,
    {
        if !is_folded(&players[i]) {
            assert(is_live(seats[i as int]));
            match level {
                Some(bet) => {
                    if bet != players[i].bet {
                        assert(seats[first].bet != seats[i as int].bet);
                        return false;
                    }
                },
                None => {
                    level = Some(players[i].bet);
                    proof {
                        first = i as int;
                    }
                },
            }
            if !acted_on(log, street.street_type, &players[i].id) {
                return false;
            }
        }
        i += 1;
    }
    true
}


/// The street that follows, if any.
pub fn following(street: StreetType) -> (next: Option<StreetType>)
    ensures
        next == next_street(street),
{
    match street {
        StreetType::Preflop => Some(StreetType::Flop),
        StreetType::Flop => Some(StreetType::Turn),
        StreetType::Turn => Some(StreetType::River),
        StreetType::River => None,
    }
}

/// Opens the street that follows `closed`.
pub fn open_next(closed: &StreetEvent, street: StreetType) -> (opened: StreetEvent)
    ensures
        opened@ == open_street(closed@, street),
{
    let mut seats: Vec<ActivePlayer> = Vec::new();
    let mut i: usize = 0;
    while i < closed.current_active_players.len()
        invariant
            i <= closed.current_active_players.len(),
            seats@.len() == i,
            forall|j: int|
                0 <= j < i ==> (#[trigger] seats@[j])@ == carried_seat(
                    closed.current_active_players@[j]@,
                ),
        decreases closed.current_active_players.len() - i,
    {
        let seat = &closed.current_active_players[i];
        seats.push(
            ActivePlayer {
                id: seat.id.clone(),
                bet: 0,
                stack: seat.stack,
                is_inactive: seat.is_inactive,
            },
        );
        i += 1;
    }
    let opened = StreetEvent {
        street_type: street,
        current_active_players: seats,
        pot: closed.pot,
        cycle_count: 0,
        should_increment_cycle: false,
    };
    assert(opened@.current_active_players =~= open_street(
        closed@,
        street,
    ).current_active_players);
    opened
}

impl Hand {
    /// Whether the hand's logs are valid.
    pub open spec fn wf(&self) -> bool {
        hand_wf(self@)
    }

    /// Where the hand stands.
    pub fn state(&self) -> (state: HandState)
        ensures
            state == hand_state(self@.street_events),
    {
        let n = self.street_events.len();
        if n == 0 {
            return HandState::Created;
        }
        proof {
            lemma_views_drop_last(self.street_events@);
        }
        let street = &self.street_events[n - 1];
        if count_live(&street.current_active_players) == 1 {
            HandState::FoldedOut
        } else if street.street_type == StreetType::River && street.should_increment_cycle {
            HandState::Complete
        } else {
            match street.street_type {
                StreetType::Preflop => HandState::Preflop,
                StreetType::Flop => HandState::Flop,
                StreetType::Turn => HandState::Turn,
                StreetType::River => HandState::River,
            }
        }
    }

    /// Records one action of one player.
    ///
    /// On success the action is appended to the action log, the current
    /// street is updated and the round is settled, exactly as
    /// [`record_outcome`] says. On failure the hand is left as it was.
    pub fn record(&mut self, player_id: &str, action: PlayerAction, amount: i64) -> (result: Result<
        (),
        ActionError,
    >)
        requires
            old(self).wf(),
        ensures
            match record_outcome(old(self)@, player_id@, action, amount) {
                Ok(after) => result is Ok && final(self)@ == after,
                Err(e) => result == Err::<(), ActionError>(e) && *final(self) == *old(self),
            },
            final(self).wf(),
    {
        let state = self.state();
        if state == HandState::Complete || state == HandState::FoldedOut {
            return Err(ActionError::HandClosed);
        }
        if state == HandState::Created {
            return Err(ActionError::InvalidActor);
        }
        let n = self.street_events.len();
        let ghost streets = self@.street_events;
        let ghost current = streets.last();
        proof {
            lemma_views_drop_last(self.street_events@);
        }
        let wanted = player_id.to_owned();
        let seat = match find_seat(&self.street_events[n - 1].current_active_players, &wanted) {
            Some(seat) => seat,
            None => {
                return Err(ActionError::InvalidActor);
            },
        };
        assert(is_seat_of(current.current_active_players, player_id@, seat as int));
        if is_folded(&self.street_events[n - 1].current_active_players[seat]) {
            return Err(ActionError::InvalidActor);
        }
        let pot = self.street_events[n - 1].pot;
        let bet = self.street_events[n - 1].current_active_players[seat].bet;
        let stack = self.street_events[n - 1].current_active_players[seat].stack;
        let inactive = self.street_events[n - 1].current_active_players[seat].is_inactive;
        if action == PlayerAction::Bet && (amount < 0 || pot > i64::MAX - amount || bet > i64::MAX
            - amount || stack < i64::MIN + amount) {
            return Err(ActionError::InvalidAmount);
        }
        proof {
            lemma_record_keeps_wf(self@, player_id@, action, amount);
        }
        let mut street = self.street_events.pop().unwrap();
        assert(street@ == current);
        assert(views(self.street_events@) == streets.drop_last());
        let ghost seats = street.current_active_players@;
        match action {
            PlayerAction::Bet => {
                let updated = ActivePlayer {
                    id: wanted.clone(),
                    bet: bet + amount,
                    stack: stack - amount,
                    is_inactive: inactive,
                };
                proof {
                    lemma_views_update(seats, seat as int, updated);
                }
                street.current_active_players[seat] = updated;
                street.pot = pot + amount;
            },
            PlayerAction::Check => {},
            PlayerAction::Fold => {
                let updated = ActivePlayer { id: wanted.clone(), bet, stack, is_inactive: Some(true) };
                proof {
                    lemma_views_update(seats, seat as int, updated);
                }
                street.current_active_players[seat] = updated;
            },
        }
        let ghost moved = apply_action(current, seat as int, action, amount);
        assert(street@ == moved);
        let chips = if action == PlayerAction::Bet {
            amount
        } else {
            0
        };
        let event = PlayerEvent {
            player_id: wanted,
            action,
            amount: chips,
            street_type: street.street_type,
            current_stack: Some(street.current_active_players[seat].stack),
            current_pot: Some(street.pot),
        };
        proof {
            lemma_views_push(self.player_events@, event);
        }
        self.player_events.push(event);
        if count_live(&street.current_active_players) > 1 && is_round_closed(
            &self.player_events,
            &street,
        ) {
            street.cycle_count = street.cycle_count + 1;
            street.should_increment_cycle = true;
            match following(street.street_type) {
                Some(next) => {
                    let opened = open_next(&street, next);
                    proof {
                        lemma_views_push(self.street_events@, street);
                        lemma_views_push(self.street_events@.push(street), opened);
                    }
                    self.street_events.push(street);
                    self.street_events.push(opened);
                },
                None => {
                    proof {
                        lemma_views_push(self.street_events@, street);
                    }
                    self.street_events.push(street);
                },
            }
        } else {
            street.should_increment_cycle = false;
            proof {
                lemma_views_push(self.street_events@, street);
            }
            self.street_events.push(street);
        }
        Ok(())
    }
}

/// An open hand's current street is not frozen and has counted no round.
pub proof fn lemma_open_street(streets: Seq<StreetEventView>)
    requires
        streets_wf(streets),
        hand_state(streets) != HandState::Created,
        hand_state(streets) != HandState::Complete,
        hand_state(streets) != HandState::FoldedOut,
    ensures
        !streets.last().should_increment_cycle,
        streets.last().cycle_count == 0,
{
    assert(street_wf(streets[streets.len() - 1]));
}

/// Recording an action keeps a valid hand valid.
pub proof fn lemma_record_keeps_wf(
    hand: HandView,
    player_id: Seq<char>,
    action: PlayerAction,
    amount: i64,
)
    requires
        hand_wf(hand),
    ensures
        record_outcome(hand, player_id, action, amount) matches Ok(after) ==> hand_wf(after),
{
    if let Ok(after) = record_outcome(hand, player_id, action, amount) {
        let streets = hand.street_events;
        let n = streets.len() as int;
        let street = streets.last();
        lemma_open_street(streets);
        let seat = seat_of(street.current_active_players, player_id)->Some_0;
        assert(is_seat_of(street.current_active_players, player_id, seat));
        let moved = apply_action(street, seat, action, amount);
        let log = after.player_events;
        let earlier = streets.drop_last();
        let result = after.street_events;
        assert(result == settle(earlier, moved, log));
        assert(street_wf(streets[n - 1]) && same_seats(streets[0], streets[n - 1]));
        assert(street_wf(StreetEventView { should_increment_cycle: false, ..moved })) by {
            assert forall|i: int| 0 <= i < moved.current_active_players.len() implies (
            #[trigger] moved.current_active_players[i]).bet >= 0 by {
                assert(street.current_active_players[i].bet >= 0);
            }
        }
        assert forall|k: int| 0 <= k < result.len() implies street_wf(#[trigger] result[k])
            && street_index(result[k].street_type) == k && same_seats(streets[0], result[k]) by {
            if k < n - 1 {
                assert(result[k] == streets[k]);
            } else if k == n - 1 {
                assert(result[k].current_active_players == moved.current_active_players);
                assert forall|i: int|
                    0 <= i < moved.current_active_players.len() implies (
                #[trigger] streets[0].current_active_players[i]).id
                    == moved.current_active_players[i].id by {
                    assert(street.current_active_players[i].id
                        == moved.current_active_players[i].id);
                }
            } else {
                assert(result[k].current_active_players.len()
                    == moved.current_active_players.len());
                assert forall|i: int|
                    0 <= i < moved.current_active_players.len() implies (
                #[trigger] streets[0].current_active_players[i]).id
                    == result[k].current_active_players[i].id by {
                    assert(street.current_active_players[i].id
                        == moved.current_active_players[i].id);
                }
            }
        }
        assert forall|k: int| 0 <= k < result.len() implies same_seats(
            result[0],
            #[trigger] result[k],
        ) by {
            assert(same_seats(streets[0], result[0]));
            assert(same_seats(streets[0], result[k]));
        }
        assert forall|k: int| 0 <= k < result.len() - 1 implies (
        #[trigger] result[k]).should_increment_cycle by {
            if k < n - 1 {
                assert(result[k] == streets[k]);
            }
        }
        assert(streets_wf(result));
        assert forall|k: int| 0 <= k < log.len() implies (#[trigger] log[k]).amount >= 0 by {
            if k < hand.player_events.len() {
                assert(log[k] == hand.player_events[k]);
            }
        }
        lemma_chips_logged_push(hand.player_events, log.last());
        assert(result.last().pot == moved.pot);
    }
}


/// The place of a street in a hand, counted from zero.
pub fn index_of_street(street: StreetType) -> (index: usize)
    ensures
        index == street_index(street),
{
    match street {
        StreetType::Preflop => 0,
        StreetType::Flop => 1,
        StreetType::Turn => 2,
        StreetType::River => 3,
    }
}

/// Run-time test of [`street_wf`].
pub fn is_street_wf(street: &StreetEvent) -> (ok: bool)
    ensures
        ok == street_wf(street@),
{
    if street.pot < 0 {
        return false;
    }
    let expected: u32 = if street.should_increment_cycle {
        1
    } else {
        0
    };
    if street.cycle_count != expected {
        return false;
    }
    let ghost seats = street@.current_active_players;
    let mut i: usize = 0;
    while i < street.current_active_players.len()
        invariant
            i <= street.current_active_players.len(),
            seats == views(street.current_active_players@),
            forall|j: int| 0 <= j < i ==> (#[trigger] seats[j]).bet >= 0,
        decreases street.current_active_players.len() - i,
    {
        if street.current_active_players[i].bet < 0 {
            assert(seats[i as int].bet < 0);
            return false;
        }
        i += 1;
    }
    true
}

/// Run-time test of [`same_seats`].
pub fn have_same_seats(a: &StreetEvent, b: &StreetEvent) -> (same: bool)
    ensures
        same == same_seats(a@, b@),
{
    if a.current_active_players.len() != b.current_active_players.len() {
        return false;
    }
    let ghost left = a@.current_active_players;
    let ghost right = b@.current_active_players;
    let mut i: usize = 0;
    while i < a.current_active_players.len()
        invariant
            i <= a.current_active_players.len(),
            a.current_active_players.len() == b.current_active_players.len(),
            left == views(a.current_active_players@),
            right == views(b.current_active_players@),
            forall|j: int| 0 <= j < i ==> (#[trigger] left[j]).id == right[j].id,
        decreases a.current_active_players.len() - i,
    {
        if !(a.current_active_players[i].id == b.current_active_players[i].id) {
            assert(left[i as int].id != right[i as int].id);
            return false;
        }
        i += 1;
    }
    true
}

/// Run-time test of [`log_wf`].
pub fn is_log_wf(log: &Vec<PlayerEvent>) -> (ok: bool)
    ensures
        ok == log_wf(views(log@)),
{
    let mut k: usize = 0;
    while k < log.len()
        invariant
            k <= log.len(),
            forall|j: int| 0 <= j < k ==> (#[trigger] views(log@)[j]).amount >= 0,
        decreases log.len() - k,
    {
        if log[k].amount < 0 {
            assert(views(log@)[k as int].amount < 0);
            return false;
        }
        k += 1;
    }
    true
}

/// Run-time test of [`streets_wf`].
pub fn are_streets_wf(streets: &Vec<StreetEvent>) -> (ok: bool)
    ensures
        ok == streets_wf(views(streets@)),
{
    let ghost model = views(streets@);
    let n = streets.len();
    let mut k: usize = 0;
    while k < n
        invariant
            k <= n,
            n == streets.len(),
            model == views(streets@),
            forall|j: int|
                0 <= j < k ==> street_wf(#[trigger] model[j]) && street_index(model[j].street_type)
                    == j && same_seats(model[0], model[j]),
            forall|j: int| 0 <= j < k && j < n - 1 ==> (#[trigger] model[j]).should_increment_cycle,
        decreases n - k,
    {
        let street = &streets[k];
        assert(model[k as int] == street@);
        assert(model[0] == streets[0]@);
        if !is_street_wf(street) || index_of_street(street.street_type) != k || !have_same_seats(
            &streets[0],
            street,
        ) {
            return false;
        }
        if k < n - 1 && !street.should_increment_cycle {
            return false;
        }
        k += 1;
    }
    if n > 0 {
        let last = &streets[n - 1];
        assert(model.last() == last@);
        if last.should_increment_cycle && last.street_type != StreetType::River {
            return false;
        }
    }
    true
}

impl Hand {
    /// Run-time test of [`Hand::wf`].
    pub fn is_wf(&self) -> (ok: bool)
        ensures
            ok == self.wf(),
    {
        if !are_streets_wf(&self.street_events) || !is_log_wf(&self.player_events) {
            return false;
        }
        let n = self.street_events.len();
        if n == 0 {
            return true;
        }
        proof {
            lemma_views_drop_last(self.street_events@);
        }
        pot_is_logged(&self.player_events, self.street_events[n - 1].pot)
    }
}

/// Whether `pot` holds exactly the chips that the logged actions put in.
pub fn pot_is_logged(log: &Vec<PlayerEvent>, pot: i64) -> (ok: bool)
    requires
        log_wf(views(log@)),
    ensures
        ok == (pot == chips_logged(views(log@))),
{
    let ghost all = views(log@);
    let mut total: i64 = 0;
    let mut k: usize = 0;
    proof {
        lemma_chips_logged_grow(all, 0);
    }
    while k < log.len()
        invariant
            k <= log.len(),
            all == views(log@),
            log_wf(all),
            total == chips_logged(all.take(k as int)),
        decreases log.len() - k,
    {
        let amount = log[k].amount;
        proof {
            assert(all[k as int].amount == amount);
            assert(all.take(k + 1).drop_last() =~= all.take(k as int));
            assert(all.take(k + 1).last() == all[k as int]);
            lemma_chips_logged_grow(all, k as int);
            lemma_chips_logged_grow(all, k + 1);
        }
        if amount > i64::MAX - total {
            return false;
        }
        total = total + amount;
        k += 1;
    }
    proof {
        assert(all.take(k as int) =~= all);
    }
    total == pot
}


} // verus!
