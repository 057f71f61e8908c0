//! A table and its capacity-bounded roster of seated players.

use crate::views::{copy_strings, lemma_views_push, views};
use vstd::prelude::*;

verus! {

/// Number of seats at a table.
pub const MAX_SEATS: usize = 10;

/// Why a player could not be seated.
#[derive(Clone, Copy, Debug, PartialEq, Eq, Structural)]
pub enum JoinError {
    /// Every seat is taken.
    TableFull,
    /// The player already sits at the table; nothing was written.
    AlreadySeated,
    /// Concurrent joins kept winning until the retry budget ran out.
    Conflict,
    /// No table has the given identifier.
    NotFound,
    /// The store failed to answer.
    PersistenceError,
}

/// Mathematical model of a [`Table`].
pub struct TableView {
    pub id: Seq<char>,
    pub player_ids: Seq<Seq<char>>,
}

/// A roster is valid when it fits the seats and names nobody twice.
pub open spec fn roster_wf(roster: Seq<Seq<char>>) -> bool {
    &&& roster.len() <= MAX_SEATS
    &&& roster.no_duplicates()
}

/// What an atomic check-and-append does to a roster: the player is appended
/// if and only if they are not seated yet and a seat is free.
pub open spec fn seat_outcome(roster: Seq<Seq<char>>, player: Seq<char>) -> Result<
    Seq<Seq<char>>,
    JoinError,
> {
    if roster.contains(player) {
        Err(JoinError::AlreadySeated)
    } else if roster.len() >= MAX_SEATS {
        Err(JoinError::TableFull)
    } else {
        Ok(roster.push(player))
    }
}

/// A poker table.
#[derive(Clone, Debug, PartialEq, Eq)]
pub struct Table {
    pub id: String,
    pub player_ids: Vec<String>,
}

impl View for Table {
    type V = TableView;

    open spec fn view(&self) -> TableView {
        TableView { id: self.id@, player_ids: views(self.player_ids@) }
    }
}

/// Position of the first identifier equal to `wanted`, if any.
pub fn find_id(ids: &Vec<String>, wanted: &String) -> (found: Option<usize>)
    ensures
        match found {
            Some(i) => i < ids.len() && ids[i as int]@ == wanted@ && forall|j: int|
                0 <= j < i ==> ids[j]@ != wanted@,
            None => !views(ids@).contains(wanted@),
        },
{
    let mut i: usize = 0;
    while i < ids.len()
        invariant
            i <= ids.len(),
            forall|j: int| 0 <= j < i ==> ids[j]@ != wanted@,
        decreases ids.len() - i,
    {
        if ids[i] == *wanted {
            return Some(i);
        }
        i += 1;
    }
    None
}

/// Whether no identifier occurs twice.
pub fn all_distinct(ids: &Vec<String>) -> (distinct: bool)
    ensures
        distinct == views(ids@).no_duplicates(),
{
    let mut i: usize = 0;
    while i < ids.len()
        invariant
            i <= ids.len(),
            forall|a: int, b: int| 0 <= a < b < i ==> ids[a]@ != ids[b]@,
        decreases ids.len() - i,
    {
        let mut j: usize = 0;
        while j < i
            invariant
                j <= i < ids.len(),
                forall|a: int| 0 <= a < j ==> ids[a]@ != ids[i as int]@,
            decreases i - j,
        {
            if ids[j] == ids[i] {
                proof {
                    let v = views(ids@);
                    assert(v[j as int] == v[i as int]);
                }
                return false;
            }
            j += 1;
        }
        i += 1;
    }
    proof {
        let v = views(ids@);
        assert forall|a: int, b: int| 0 <= a < v.len() && 0 <= b < v.len() && a != b implies v[a]
            != v[b] by {
            if a < b {
                assert(ids[a]@ != ids[b]@);
            } else {
                assert(ids[b]@ != ids[a]@);
            }
        }
    }
    true
}

impl Table {
    /// The roster invariant: at most [`MAX_SEATS`] players, each seated once.
    pub open spec fn wf(&self) -> bool {
        roster_wf(self@.player_ids)
    }

    /// A table with nobody seated.
    pub fn new(id: String) -> (table: Table)
        ensures
            table@ == (TableView { id: id@, player_ids: Seq::empty() }),
            table.wf(),
    {
        let table = Table { id, player_ids: Vec::new() };
        assert(table@.player_ids =~= Seq::empty());
        table
    }

    /// Builds a table from a stored roster, refusing one that breaks the
    /// roster invariant.
    pub fn with_roster(id: String, player_ids: Vec<String>) -> (table: Option<Table>)
        ensures
            match table {
                Some(t) => t.id == id && t.player_ids == player_ids && t.wf(),
                None => !roster_wf(views(player_ids@)),
            },
    {
        if player_ids.len() <= MAX_SEATS && all_distinct(&player_ids) {
            Some(Table { id, player_ids })
        } else {
            None
        }
    }

    /// Run-time test of the roster invariant.
    pub fn is_wf(&self) -> (ok: bool)
        ensures
            ok == self.wf(),
    {
        self.player_ids.len() <= MAX_SEATS && all_distinct(&self.player_ids)
    }

    /// The table's identifier.
    pub fn id(&self) -> (id: &str)
        ensures
            id@ == self@.id,
    {
        self.id.as_str()
    }

    /// The seated players, in the order in which they joined.
    pub fn player_ids(&self) -> (ids: &[String])
        ensures
            ids@ == self.player_ids@,
    {
        self.player_ids.as_slice()
    }

    /// A copy of the table.
    pub fn duplicate(&self) -> (copy: Table)
        ensures
            copy@ == self@,
    {
        Table { id: self.id.clone(), player_ids: copy_strings(&self.player_ids) }
    }

    /// Whether a seat is free.
    pub fn has_space(&self) -> (free: bool)
        ensures
            free == (self@.player_ids.len() < MAX_SEATS),
    {
        self.player_ids.len() < MAX_SEATS
    }

    /// Whether the player sits at this table.
    pub fn is_seated(&self, player_id: &str) -> (seated: bool)
        ensures
            seated == self@.player_ids.contains(player_id@),
    {
        let wanted = player_id.to_owned();
        let found = find_id(&self.player_ids, &wanted);
        proof {
            if let Some(i) = found {
                assert(views(self.player_ids@)[i as int] == player_id@);
            }
        }
        found.is_some()
    }

    /// Seats the player in one atomic check-and-append.
    ///
    /// The player is appended to the roster exactly when they are not seated
    /// yet and a seat is free; otherwise the table is left as it was.
    pub fn seat(&mut self, player_id: &str) -> (result: Result<(), JoinError>)
        ensures
            match seat_outcome(old(self)@.player_ids, player_id@) {
                Ok(roster) => result == Ok::<(), JoinError>(()) && final(self)@ == (TableView {
                    id: old(self)@.id,
                    player_ids: roster,
                }),
                Err(e) => result == Err::<(), JoinError>(e) && *final(self) == *old(self),
            },
            old(self).wf() ==> final(self).wf(),
    {
        let wanted = player_id.to_owned();
        let found = find_id(&self.player_ids, &wanted);
        if found.is_some() {
            proof {
                assert(views(self.player_ids@)[found.unwrap() as int] == player_id@);
            }
            return Err(JoinError::AlreadySeated);
        }
        if self.player_ids.len() >= MAX_SEATS {
            return Err(JoinError::TableFull);
        }
        proof {
            lemma_views_push(self.player_ids@, wanted);
            if self.wf() {
                lemma_seat_keeps_roster_wf(self@.player_ids, player_id@);
            }
        }
        self.player_ids.push(wanted);
        Ok(())
    }
}

/// Seating never breaks the roster invariant, whatever the outcome.
pub proof fn lemma_seat_keeps_roster_wf(roster: Seq<Seq<char>>, player: Seq<char>)
    requires
        roster_wf(roster),
    ensures
        seat_outcome(roster, player) matches Ok(after) ==> roster_wf(after),
{
    if let Ok(after) = seat_outcome(roster, player) {
        assert forall|a: int, b: int| 0 <= a < after.len() && 0 <= b < after.len() && a != b implies after[a]
            != after[b] by {
            if a == roster.len() {
                assert(roster[b] != player);
            } else if b == roster.len() {
                assert(roster[a] != player);
            }
        }
    }
}

} // verus!
