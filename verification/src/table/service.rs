//! The table coordinator: creating tables, listing the joinable ones and
//! the protocol by which a player joins.
//!
//! Joiners run in separate processes and share nothing but the store, so a
//! join is a conversation with the store: read the table, decide, and ask for
//! a conditional write that commits only if a seat is still free and the
//! player is still absent at write time. A rejected write is followed by a
//! fresh read, a bounded number of times.

use crate::ident::ID_LENGTH;
use crate::store::{ScanRequest, ScanRequestView, UpdateRequest, UpdateRequestView};
use crate::table::model::{seat_outcome, JoinError, Table, TableView, MAX_SEATS};
use crate::table::repository::{join_request, space_request, table_request, TableRepository};
use crate::views::{lemma_views_push, views};
use vstd::prelude::*;

verus! {

/// Number of rejected writes after which a join gives up.
pub const MAX_JOIN_ATTEMPTS: u32 = 3;

/// Where a join stands.
#[derive(Clone, Copy, Debug, PartialEq, Eq)]
pub enum JoinPhase {
    /// The table has been asked for.
    Loading,
    /// The conditional write has been asked for.
    Appending,
    /// The join is over, with this result.
    Finished(Result<(), JoinError>),
}

/// Mathematical model of a [`Join`].
pub struct JoinView {
    pub table_id: Seq<char>,
    pub player_id: Seq<char>,
    pub rejected: u32,
    pub phase: JoinPhase,
}

/// One player's attempt to join one table.
#[derive(Clone, Debug, PartialEq, Eq)]
pub struct Join {
    pub table_id: String,
    pub player_id: String,
    /// Conditional writes that the store has rejected so far.
    pub rejected: u32,
    pub phase: JoinPhase,
}

impl View for Join {
    type V = JoinView;

    open spec fn view(&self) -> JoinView {
        JoinView {
            table_id: self.table_id@,
            player_id: self.player_id@,
            rejected: self.rejected,
            phase: self.phase,
        }
    }
}

/// Mathematical model of a [`StoreReply`].
pub enum StoreReplyView {
    Found(Seq<TableView>),
    Written,
    Rejected,
    Failed,
}

/// What the store answered to the last request of a join.
#[derive(Clone, Debug, PartialEq, Eq)]
pub enum StoreReply {
    /// The tables that a query found.
    Found(Vec<Table>),
    /// The conditional write was committed.
    Written,
    /// The conditional write was refused because its condition did not hold.
    Rejected,
    /// The store could not be reached or failed.
    Failed,
}

impl View for StoreReply {
    type V = StoreReplyView;

    open spec fn view(&self) -> StoreReplyView {
        match self {
            StoreReply::Found(tables) => StoreReplyView::Found(views(tables@)),
            StoreReply::Written => StoreReplyView::Written,
            StoreReply::Rejected => StoreReplyView::Rejected,
            StoreReply::Failed => StoreReplyView::Failed,
        }
    }
}

/// Mathematical model of a [`JoinStep`].
pub enum JoinStepView {
    Load(ScanRequestView),
    Append(UpdateRequestView),
    Done(Result<(), JoinError>),
}

/// What a join needs next.
#[derive(Debug, PartialEq, Eq)]
pub enum JoinStep {
    /// Run the query and answer with what it found.
    Load(ScanRequest),
    /// Run the conditional write and answer whether it was committed.
    Append(UpdateRequest),
    /// Nothing: the join is over, with this result.
    Done(Result<(), JoinError>),
}

impl View for JoinStep {
    type V = JoinStepView;

    open spec fn view(&self) -> JoinStepView {
        match self {
            JoinStep::Load(request) => JoinStepView::Load(request@),
            JoinStep::Append(request) => JoinStepView::Append(request@),
            JoinStep::Done(result) => JoinStepView::Done(*result),
        }
    }
}

/// Whether `at` is the place of the first table called `id`.
pub open spec fn is_table_at(tables: Seq<TableView>, id: Seq<char>, at: int) -> bool {
    &&& 0 <= at < tables.len()
    &&& tables[at].id == id
    &&& forall|j: int| 0 <= j < at ==> (#[trigger] tables[j]).id != id
}

/// The first table called `id`, if there is one.
pub open spec fn table_named(tables: Seq<TableView>, id: Seq<char>) -> Option<TableView> {
    if exists|at: int| is_table_at(tables, id, at) {
        Some(tables[choose|at: int| is_table_at(tables, id, at)])
    } else {
        None
    }
}

/// The first table called `id` is the one that `table_named` finds.
pub proof fn lemma_table_named(tables: Seq<TableView>, id: Seq<char>, at: int)
    requires
        is_table_at(tables, id, at),
    ensures
        table_named(tables, id) == Some(tables[at]),
{
    let chosen = choose|c: int| is_table_at(tables, id, c);
    if chosen < at {
        assert(tables[chosen].id != id);
    } else if at < chosen {
        assert(tables[at].id != id);
    }
}

/// A join that has just begun: the table is being asked for.
pub open spec fn join_start(table_id: Seq<char>, player_id: Seq<char>) -> JoinView {
    JoinView { table_id, player_id, rejected: 0, phase: JoinPhase::Loading }
}

/// The join, over with `result`.
pub open spec fn finished(join: JoinView, result: Result<(), JoinError>) -> JoinView {
    JoinView { phase: JoinPhase::Finished(result), ..join }
}

/// The join after the store's answer to its last request.
///
/// After a read: an unknown table, a seated player and a full table end the
/// join with the matching error and without a write; otherwise the
/// conditional write is asked for. After a write: a committed write ends the
/// join with success; a rejected one is counted and followed by a fresh read,
/// unless it was the last attempt, which ends the join with `Conflict`. A
/// failure of the store, or an answer that does not fit the request, ends
/// the join with `PersistenceError`. A finished join stays as it is.
pub open spec fn join_next(join: JoinView, reply: StoreReplyView) -> JoinView {
    match join.phase {
        JoinPhase::Loading => match reply {
            StoreReplyView::Found(tables) => match table_named(tables, join.table_id) {
                None => finished(join, Err(JoinError::NotFound)),
                Some(table) => match seat_outcome(table.player_ids, join.player_id) {
                    Err(e) => finished(join, Err(e)),
                    Ok(_) => JoinView { phase: JoinPhase::Appending, ..join },
                },
            },
            _ => finished(join, Err(JoinError::PersistenceError)),
        },
        JoinPhase::Appending => match reply {
            StoreReplyView::Written => finished(join, Ok(())),
            StoreReplyView::Rejected => if join.rejected + 1 >= MAX_JOIN_ATTEMPTS {
                finished(join, Err(JoinError::Conflict))
            } else {
                JoinView { rejected: (join.rejected + 1) as u32, phase: JoinPhase::Loading, ..join }
            },
            _ => finished(join, Err(JoinError::PersistenceError)),
        },
        JoinPhase::Finished(_) => join,
    }
}

/// What a join needs next from the store kept under `table_name`.
pub open spec fn step_of(join: JoinView, table_name: Seq<char>) -> JoinStepView {
    match join.phase {
        JoinPhase::Loading => JoinStepView::Load(table_request(table_name, join.table_id)),
        JoinPhase::Appending => JoinStepView::Append(
            join_request(table_name, join.table_id, join.player_id),
        ),
        JoinPhase::Finished(result) => JoinStepView::Done(result),
    }
}

/// The tables with a free seat, in order.
pub open spec fn with_space(tables: Seq<TableView>) -> Seq<TableView> {
    tables.filter(|table: TableView| table.player_ids.len() < MAX_SEATS)
}

/// The first table called `id`, if there is one.
pub fn find_table<'a>(tables: &'a Vec<Table>, id: &String) -> (found: Option<&'a Table>)
    ensures
        match found {
            Some(table) => table_named(views(tables@), id@) == Some(table@),
            None => table_named(views(tables@), id@) is None,
        },
{
    let mut i: usize = 0;
    while i < tables.len()
        invariant
            i <= tables.len(),
            forall|j: int| 0 <= j < i ==> (#[trigger] views(tables@)[j]).id != id@,
        decreases tables.len() - i,
    {
        if tables[i].id == *id {
            proof {
                assert(views(tables@)[i as int].id == id@);
                lemma_table_named(views(tables@), id@, i as int);
            }
            return Some(&tables[i]);
        }
        i += 1;
    }
    None
}

/// The table coordinator.
#[derive(Clone, Debug, PartialEq, Eq)]
pub struct TableService {
    pub table_repository: TableRepository,
}

impl TableService {
    /// The coordinator that keeps its tables through `table_repository`.
    pub fn new(table_repository: TableRepository) -> (service: TableService)
        ensures
            service.table_repository == table_repository,
    {
        TableService { table_repository }
    }

    /// What the join needs next.
    pub fn step(&self, join: &Join) -> (step: JoinStep)
        ensures
            step@ == step_of(join@, self.table_repository.table_name@),
    {
        match join.phase {
            JoinPhase::Loading => JoinStep::Load(
                self.table_repository.find_table(join.table_id.as_str()),
            ),
            JoinPhase::Appending => JoinStep::Append(
                self.table_repository.add_player_to_table(
                    join.table_id.as_str(),
                    join.player_id.as_str(),
                ),
            ),
            JoinPhase::Finished(result) => JoinStep::Done(result),
        }
    }

    /// A new table with nobody seated, to be stored.
    pub fn create_table(&mut self) -> (table: Table)
        ensures
            table@.player_ids == Seq::<Seq<char>>::empty(),
            table@.id.len() == ID_LENGTH,
            table.wf(),
            *final(self) == *old(self),
    {
        self.table_repository.create_table()
    }

    /// Begins the join of a player: the first thing it needs is the table.
    pub fn add_player_to_table(&mut self, table_id: &str, player_id: &str) -> (begun: (
        Join,
        JoinStep,
    ))
        ensures
            begun.0@ == join_start(table_id@, player_id@),
            begun.1@ == step_of(begun.0@, old(self).table_repository.table_name@),
            *final(self) == *old(self),
    {
        let join = Join {
            table_id: table_id.to_owned(),
            player_id: player_id.to_owned(),
            rejected: 0,
            phase: JoinPhase::Loading,
        };
        let step = self.step(&join);
        (join, step)
    }

    /// Takes the store's answer to the join's last request and says what the
    /// join needs next.
    pub fn resume_join(&self, join: Join, reply: StoreReply) -> (resumed: (Join, JoinStep))
        ensures
            resumed.0@ == join_next(join@, reply@),
            resumed.1@ == step_of(resumed.0@, self.table_repository.table_name@),
    {
        let mut join = join;
        match join.phase {
            JoinPhase::Loading => match reply {
                StoreReply::Found(tables) => match find_table(&tables, &join.table_id) {
                    None => {
                        join.phase = JoinPhase::Finished(Err(JoinError::NotFound));
                    },
                    Some(table) => {
                        if table.is_seated(join.player_id.as_str()) {
                            join.phase = JoinPhase::Finished(Err(JoinError::AlreadySeated));
                        } else if !table.has_space() {
                            join.phase = JoinPhase::Finished(Err(JoinError::TableFull));
                        } else {
                            join.phase = JoinPhase::Appending;
                        }
                    },
                },
                _ => {
                    join.phase = JoinPhase::Finished(Err(JoinError::PersistenceError));
                },
            },
            JoinPhase::Appending => match reply {
                StoreReply::Written => {
                    join.phase = JoinPhase::Finished(Ok(()));
                },
                StoreReply::Rejected => {
                    if join.rejected >= MAX_JOIN_ATTEMPTS - 1 {
                        join.phase = JoinPhase::Finished(Err(JoinError::Conflict));
                    } else {
                        join.rejected = join.rejected + 1;
                        join.phase = JoinPhase::Loading;
                    }
                },
                _ => {
                    join.phase = JoinPhase::Finished(Err(JoinError::PersistenceError));
                },
            },
            JoinPhase::Finished(_) => {},
        }
        let step = self.step(&join);
        (join, step)
    }

    /// The query for the tables with a free seat.
    pub fn get_tables_with_space(&self) -> (request: ScanRequest)
        ensures
            request@ == space_request(self.table_repository.table_name@),
    {
        self.table_repository.get_tables_with_space()
    }

    /// The tables with a free seat among those that the store handed back.
    pub fn joinable(&self, tables: &Vec<Table>) -> (open: Vec<Table>)
        ensures
            views(open@) == with_space(views(tables@)),
    {
        let ghost all = views(tables@);
        let ghost free = |table: TableView| table.player_ids.len() < MAX_SEATS;
        let mut open: Vec<Table> = Vec::new();
        let mut i: usize = 0;
        proof {
            reveal(Seq::filter);
            assert(views(open@) =~= all.take(0).filter(free));
        }
        while i < tables.len()
            invariant
                i <= tables.len(),
                all == views(tables@),
                free == |table: TableView| table.player_ids.len() < MAX_SEATS,
                views(open@) == all.take(i as int).filter(free),
            decreases tables.len() - i,
        {
            proof {
                reveal(Seq::filter);
                assert(all.take(i + 1).drop_last() =~= all.take(i as int));
                assert(all.take(i + 1).last() == tables@[i as int]@);
            }
            if tables[i].has_space() {
                let copy = tables[i].duplicate();
                proof {
                    lemma_views_push(open@, copy);
                }
                open.push(copy);
            }
            i += 1;
        }
        proof {
            assert(all.take(i as int) =~= all);
        }
        open
    }
}

} // verus!
