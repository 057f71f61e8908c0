//! Laws of seating and of concurrent joins.
//!
//! Concurrent joiners are modelled as a world: the roster that the store
//! holds and one join per player. The store serves one request at a time, so
//! a run of the world is a sequence of turns; in each turn the store answers
//! the pending request of one join, against the roster as it is then, and
//! that join moves on. A read may be stale by the time its join writes: only
//! the conditional write itself looks at the roster of the moment.

use crate::table::model::{
    lemma_seat_keeps_roster_wf, roster_wf, seat_outcome, JoinError, TableView, MAX_SEATS,
};
use crate::table::service::{
    is_table_at, join_next, join_start, lemma_table_named, JoinPhase, JoinView, StoreReplyView,
    MAX_JOIN_ATTEMPTS,
};
use vstd::prelude::*;

verus! {

/// A player who is seated stays seated once, and is told so.
///
/// After a first join has succeeded, a second join of the same player at the
/// same table fails with `AlreadySeated` and leaves the roster as it is, with
/// the player in it exactly once.
pub proof fn law_join_twice(roster: Seq<Seq<char>>, player: Seq<char>)
    requires
        roster_wf(roster),
        seat_outcome(roster, player) is Ok,
    ensures
        ({
            let seated = seat_outcome(roster, player)->Ok_0;
            &&& seat_outcome(seated, player) == Err::<Seq<Seq<char>>, JoinError>(
                JoinError::AlreadySeated,
            )
            &&& seated.contains(player)
            &&& roster_wf(seated)
        }),
{
    let seated = seat_outcome(roster, player)->Ok_0;
    assert(seated[roster.len() as int] == player);
    lemma_seat_keeps_roster_wf(roster, player);
}

/// Distinct players who join a table one after another are seated while
/// seats last, in the order of their joins.
pub proof fn law_seats_fill_in_order(roster: Seq<Seq<char>>, player: Seq<char>)
    requires
        roster_wf(roster),
        !roster.contains(player),
    ensures
        roster.len() < MAX_SEATS ==> seat_outcome(roster, player) == Ok::<
            Seq<Seq<char>>,
            JoinError,
        >(roster.push(player)),
        roster.len() == MAX_SEATS ==> seat_outcome(roster, player) == Err::<
            Seq<Seq<char>>,
            JoinError,
        >(JoinError::TableFull),
{
}

/// The roster in the store and the joins under way.
pub struct World {
    pub roster: Seq<Seq<char>>,
    pub joins: Seq<JoinView>,
}

/// The world as the joins begin: each player has asked for the table.
pub open spec fn world_start(
    roster: Seq<Seq<char>>,
    table_id: Seq<char>,
    players: Seq<Seq<char>>,
) -> World {
    World { roster, joins: Seq::new(players.len(), |i: int| join_start(table_id, players[i])) }
}

/// The world after the store has answered the pending request of the join
/// `who`. A read is answered with the roster of the moment. A conditional
/// write is committed, and the player appended, exactly when a seat is free
/// and the player absent at that moment; otherwise it is rejected.
pub open spec fn world_turn(world: World, table_id: Seq<char>, who: int) -> World {
    if 0 <= who < world.joins.len() {
        let join = world.joins[who];
        match join.phase {
            JoinPhase::Loading => World {
                joins: world.joins.update(
                    who,
                    join_next(
                        join,
                        StoreReplyView::Found(
                            seq![TableView { id: table_id, player_ids: world.roster }],
                        ),
                    ),
                ),
                ..world
            },
            JoinPhase::Appending => match seat_outcome(world.roster, join.player_id) {
                Ok(roster) => World {
                    roster,
                    joins: world.joins.update(who, join_next(join, StoreReplyView::Written)),
                },
                Err(_) => World {
                    joins: world.joins.update(who, join_next(join, StoreReplyView::Rejected)),
                    ..world
                },
            },
            JoinPhase::Finished(_) => world,
        }
    } else {
        world
    }
}

/// The world after the turns of `schedule`, taken in order.
pub open spec fn world_run(world: World, table_id: Seq<char>, schedule: Seq<int>) -> World
    decreases schedule.len(),
{
    if schedule.len() == 0 {
        world
    } else {
        world_turn(world_run(world, table_id, schedule.drop_last()), table_id, schedule.last())
    }
}

/// Whether the join has ended with success.
pub open spec fn has_joined(join: JoinView) -> bool {
    join.phase == JoinPhase::Finished(Ok(()))
}

/// Whether the join has ended.
pub open spec fn is_over(join: JoinView) -> bool {
    join.phase is Finished
}

/// Number of joins that have ended with success.
pub open spec fn joined_count(joins: Seq<JoinView>) -> nat
    decreases joins.len(),
{
    if joins.len() == 0 {
        0
    } else {
        joined_count(joins.drop_last()) + if has_joined(joins.last()) {
            1nat
        } else {
            0nat
        }
    }
}

/// The smaller of two numbers.
pub open spec fn smaller(a: int, b: int) -> int {
    if a <= b {
        a
    } else {
        b
    }
}

/// Replacing one join changes the count by that join alone.
proof fn lemma_joined_count_update(joins: Seq<JoinView>, who: int, join: JoinView)
    requires
        0 <= who < joins.len(),
    ensures
        joined_count(joins.update(who, join)) + (if has_joined(joins[who]) {
            1nat
        } else {
            0nat
        }) == joined_count(joins) + (if has_joined(join) {
            1nat
        } else {
            0nat
        }),
    decreases joins.len(),
{
    let after = joins.update(who, join);
    if who == joins.len() - 1 {
        assert(after.drop_last() =~= joins.drop_last());
    } else {
        assert(after.drop_last() =~= joins.drop_last().update(who, join));
        lemma_joined_count_update(joins.drop_last(), who, join);
    }
}

/// No more joins have succeeded than there are joins; all have exactly when
/// none is left that has not.
proof fn lemma_joined_count_bounds(joins: Seq<JoinView>)
    ensures
        joined_count(joins) <= joins.len(),
        joined_count(joins) == joins.len() <==> forall|i: int|
            0 <= i < joins.len() ==> has_joined(#[trigger] joins[i]),
    decreases joins.len(),
{
    if joins.len() > 0 {
        let shorter = joins.drop_last();
        lemma_joined_count_bounds(shorter);
        if joined_count(joins) == joins.len() {
            assert forall|i: int| 0 <= i < joins.len() implies has_joined(#[trigger] joins[i]) by {
                if i < shorter.len() {
                    assert(has_joined(shorter[i]));
                }
            }
        } else if forall|i: int| 0 <= i < joins.len() ==> has_joined(#[trigger] joins[i]) {
            assert forall|i: int| 0 <= i < shorter.len() implies has_joined(
                #[trigger] shorter[i],
            ) by {
                assert(has_joined(joins[i]));
            }
        }
    }
}

/// No join has begun with success.
proof fn lemma_joined_count_start(table_id: Seq<char>, players: Seq<Seq<char>>)
    ensures
        joined_count(Seq::new(players.len(), |i: int| join_start(table_id, players[i]))) == 0,
    decreases players.len(),
{
    let joins = Seq::new(players.len(), |i: int| join_start(table_id, players[i]));
    if players.len() > 0 {
        let shorter = players.drop_last();
        assert(joins.drop_last() =~= Seq::new(
            shorter.len(),
            |i: int| join_start(table_id, shorter[i]),
        ));
        lemma_joined_count_start(table_id, shorter);
    }
}

/// What holds of every world that a run reaches.
///
/// The roster is valid and has grown by one seat per successful join; a
/// player is on the roster exactly when their join has succeeded; and a join
/// has failed only for want of a seat, which is then still wanting.
pub open spec fn world_inv(
    world: World,
    roster: Seq<Seq<char>>,
    table_id: Seq<char>,
    players: Seq<Seq<char>>,
) -> bool {
    &&& world.joins.len() == players.len()
    &&& roster_wf(world.roster)
    &&& world.roster.len() == roster.len() + joined_count(world.joins)
    &&& forall|i: int|
        0 <= i < players.len() ==> {
            let join = #[trigger] world.joins[i];
            &&& join.player_id == players[i]
            &&& join.table_id == table_id
            &&& join.rejected < MAX_JOIN_ATTEMPTS
            &&& has_joined(join) <==> world.roster.contains(players[i])
            &&& join.phase matches JoinPhase::Finished(Err(e)) ==> (e == JoinError::TableFull || e
                == JoinError::Conflict) && world.roster.len() == MAX_SEATS
        }
}

/// A turn keeps what holds of every reachable world.
proof fn lemma_turn_keeps_inv(
    world: World,
    roster: Seq<Seq<char>>,
    table_id: Seq<char>,
    players: Seq<Seq<char>>,
    who: int,
)
    requires
        players.no_duplicates(),
        world_inv(world, roster, table_id, players),
    ensures
        world_inv(world_turn(world, table_id, who), roster, table_id, players),
{
    let after = world_turn(world, table_id, who);
    if 0 <= who < world.joins.len() {
        let join = world.joins[who];
        assert(!is_over(join) ==> !world.roster.contains(players[who]));
        match join.phase {
            JoinPhase::Loading => {
                let tables = seq![TableView { id: table_id, player_ids: world.roster }];
                assert(is_table_at(tables, table_id, 0));
                lemma_table_named(tables, table_id, 0);
                let moved = join_next(join, StoreReplyView::Found(tables));
                lemma_joined_count_update(world.joins, who, moved);
                assert forall|i: int| 0 <= i < players.len() implies ({
                    let j = #[trigger] after.joins[i];
                    &&& j.player_id == players[i]
                    &&& j.table_id == table_id
                    &&& j.rejected < MAX_JOIN_ATTEMPTS
                    &&& has_joined(j) <==> after.roster.contains(players[i])
                    &&& j.phase matches JoinPhase::Finished(Err(e)) ==> (e == JoinError::TableFull
                        || e == JoinError::Conflict) && after.roster.len() == MAX_SEATS
                }) by {
                    if i != who {
                        assert(after.joins[i] == world.joins[i]);
                    }
                }
            },
            JoinPhase::Appending => {
                match seat_outcome(world.roster, join.player_id) {
                    Ok(grown) => {
                        let moved = join_next(join, StoreReplyView::Written);
                        lemma_joined_count_update(world.joins, who, moved);
                        lemma_seat_keeps_roster_wf(world.roster, join.player_id);
                        assert(grown[world.roster.len() as int] == players[who]);
                        assert forall|i: int| 0 <= i < players.len() implies ({
                            let j = #[trigger] after.joins[i];
                            &&& j.player_id == players[i]
                            &&& j.table_id == table_id
                            &&& j.rejected < MAX_JOIN_ATTEMPTS
                            &&& has_joined(j) <==> after.roster.contains(players[i])
                            &&& j.phase matches JoinPhase::Finished(Err(e)) ==> (e
                                == JoinError::TableFull || e == JoinError::Conflict)
                                && after.roster.len() == MAX_SEATS
                        }) by {
                            if i != who {
                                assert(after.joins[i] == world.joins[i]);
                                assert(players[i] != players[who]);
                                if world.roster.contains(players[i]) {
                                    let at = choose|at: int|
                                        0 <= at < world.roster.len() && world.roster[at]
                                            == players[i];
                                    assert(grown[at] == players[i]);
                                }
                            }
                        }
                    },
                    Err(_) => {
                        let moved = join_next(join, StoreReplyView::Rejected);
                        lemma_joined_count_update(world.joins, who, moved);
                        assert forall|i: int| 0 <= i < players.len() implies ({
                            let j = #[trigger] after.joins[i];
                            &&& j.player_id == players[i]
                            &&& j.table_id == table_id
                            &&& j.rejected < MAX_JOIN_ATTEMPTS
                            &&& has_joined(j) <==> after.roster.contains(players[i])
                            &&& j.phase matches JoinPhase::Finished(Err(e)) ==> (e
                                == JoinError::TableFull || e == JoinError::Conflict)
                                && after.roster.len() == MAX_SEATS
                        }) by {
                            if i != who {
                                assert(after.joins[i] == world.joins[i]);
                            }
                        }
                    },
                }
            },
            JoinPhase::Finished(_) => {},
        }
    }
}

/// Every world that a run reaches from the start satisfies `world_inv`.
proof fn lemma_run_keeps_inv(
    roster: Seq<Seq<char>>,
    table_id: Seq<char>,
    players: Seq<Seq<char>>,
    schedule: Seq<int>,
)
    requires
        roster_wf(roster),
        players.no_duplicates(),
        forall|i: int| 0 <= i < players.len() ==> !roster.contains(#[trigger] players[i]),
    ensures
        world_inv(
            world_run(world_start(roster, table_id, players), table_id, schedule),
            roster,
            table_id,
            players,
        ),
    decreases schedule.len(),
{
    let start = world_start(roster, table_id, players);
    if schedule.len() == 0 {
        lemma_joined_count_start(table_id, players);
    } else {
        lemma_run_keeps_inv(roster, table_id, players, schedule.drop_last());
        lemma_turn_keeps_inv(
            world_run(start, table_id, schedule.drop_last()),
            roster,
            table_id,
            players,
            schedule.last(),
        );
    }
}

/// Concurrent joins of distinct players fill the free seats and no more.
///
/// Take a valid roster with `k` free seats and `n` distinct players who are
/// not on it, and let them join concurrently, their requests reaching the
/// store in any order. The roster stays valid throughout: never more than
/// `MAX_SEATS` players, nobody twice. Once every join is over, exactly
/// `min(k, n)` of them have succeeded, the roster has grown by as many
/// seats, and each of the others has failed with `TableFull` or `Conflict`.
pub proof fn law_concurrent_joins(
    roster: Seq<Seq<char>>,
    table_id: Seq<char>,
    players: Seq<Seq<char>>,
    schedule: Seq<int>,
)
    requires
        roster_wf(roster),
        players.no_duplicates(),
        forall|i: int| 0 <= i < players.len() ==> !roster.contains(#[trigger] players[i]),
    ensures
        ({
            let world = world_run(world_start(roster, table_id, players), table_id, schedule);
            &&& roster_wf(world.roster)
            &&& world.joins.len() == players.len()
            &&& world.roster.len() == roster.len() + joined_count(world.joins)
            &&& (forall|i: int| 0 <= i < world.joins.len() ==> is_over(#[trigger] world.joins[i]))
                ==> {
                &&& joined_count(world.joins) == smaller(
                    MAX_SEATS - roster.len(),
                    players.len() as int,
                )
                &&& forall|i: int|
                    0 <= i < world.joins.len() ==> {
                        ||| has_joined(#[trigger] world.joins[i])
                        ||| world.joins[i].phase == JoinPhase::Finished(Err(JoinError::TableFull))
                        ||| world.joins[i].phase == JoinPhase::Finished(Err(JoinError::Conflict))
                    }
            }
        }),
{
    let world = world_run(world_start(roster, table_id, players), table_id, schedule);
    lemma_run_keeps_inv(roster, table_id, players, schedule);
    lemma_joined_count_bounds(world.joins);
    if forall|i: int| 0 <= i < world.joins.len() ==> is_over(#[trigger] world.joins[i]) {
        assert forall|i: int| 0 <= i < world.joins.len() implies {
            ||| has_joined(#[trigger] world.joins[i])
            ||| world.joins[i].phase == JoinPhase::Finished(Err(JoinError::TableFull))
            ||| world.joins[i].phase == JoinPhase::Finished(Err(JoinError::Conflict))
        } by {
            let join = world.joins[i];
            assert(is_over(join));
            match join.phase {
                JoinPhase::Finished(Ok(unit)) => {
                    assert(unit == ());
                    assert(has_joined(join));
                },
                JoinPhase::Finished(Err(e)) => {
                    assert(e == JoinError::TableFull || e == JoinError::Conflict);
                },
                _ => {},
            }
        }
        if forall|i: int| 0 <= i < world.joins.len() ==> has_joined(#[trigger] world.joins[i]) {
        } else {
            let failed = choose|i: int|
                0 <= i < world.joins.len() && !has_joined(#[trigger] world.joins[i]);
            assert(is_over(world.joins[failed]));
            assert(world.joins[failed].phase matches JoinPhase::Finished(Err(e)));
            assert(world.roster.len() == MAX_SEATS);
        }
    }
}

/// The join after the store's answers `replies`, taken in order.
pub open spec fn join_after(join: JoinView, replies: Seq<StoreReplyView>) -> JoinView
    decreases replies.len(),
{
    if replies.len() == 0 {
        join
    } else {
        join_next(join_after(join, replies.drop_last()), replies.last())
    }
}

/// Number of answers after which the join is over at the latest: two for
/// each attempt that is left, one less once the write has been asked for.
pub open spec fn answers_left(join: JoinView) -> int {
    match join.phase {
        JoinPhase::Loading => 2 * (MAX_JOIN_ATTEMPTS - join.rejected),
        JoinPhase::Appending => 2 * (MAX_JOIN_ATTEMPTS - join.rejected) - 1,
        JoinPhase::Finished(_) => 0,
    }
}

/// Every answer brings a join that is under way closer to its end.
proof fn lemma_answer_counts(join: JoinView, reply: StoreReplyView)
    requires
        join.rejected < MAX_JOIN_ATTEMPTS,
    ensures
        join_next(join, reply).rejected < MAX_JOIN_ATTEMPTS,
        answers_left(join_next(join, reply)) <= answers_left(join),
        !is_over(join) ==> answers_left(join_next(join, reply)) < answers_left(join),
{
}

/// After some answers a join has that many fewer answers left, or is over.
proof fn lemma_answers_count(join: JoinView, replies: Seq<StoreReplyView>)
    requires
        join.rejected < MAX_JOIN_ATTEMPTS,
    ensures
        join_after(join, replies).rejected < MAX_JOIN_ATTEMPTS,
        answers_left(join_after(join, replies)) <= answers_left(join),
        is_over(join_after(join, replies)) || answers_left(join_after(join, replies))
            <= answers_left(join) - replies.len(),
    decreases replies.len(),
{
    if replies.len() > 0 {
        lemma_answers_count(join, replies.drop_last());
        lemma_answer_counts(join_after(join, replies.drop_last()), replies.last());
    }
}

/// A join ends, whatever the store answers.
///
/// It makes at most `MAX_JOIN_ATTEMPTS` attempts of one read and one write
/// each, so after twice as many answers it is over.
pub proof fn law_join_ends(
    table_id: Seq<char>,
    player_id: Seq<char>,
    replies: Seq<StoreReplyView>,
)
    requires
        replies.len() >= 2 * MAX_JOIN_ATTEMPTS,
    ensures
        is_over(join_after(join_start(table_id, player_id), replies)),
{
    lemma_answers_count(join_start(table_id, player_id), replies);
}

} // verus!
