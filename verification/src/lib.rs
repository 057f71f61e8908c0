//! Sans-I/O core of a Texas Hold'em table service.
//!
//! The crate seats players at capacity-bounded tables and tracks one dealt hand
//! through its betting streets. It never talks to a store or to a dealing
//! service itself: every function either decides what has to be asked of such a
//! collaborator or consumes what the collaborator answered.

use vstd::prelude::*;

pub mod deal;
pub mod hand;
pub mod ident;
pub mod number;
pub mod player;
pub mod store;
pub mod table;
pub mod views;

verus! {

/// The choices offered to a player who has not picked a table yet.
pub fn get_table_actions() -> (actions: Vec<&'static str>)
    ensures
        actions@.len() == 2,
        actions@[0]@ == "Join Table"@,
        actions@[1]@ == "Create Table"@,
{
    vec!["Join Table", "Create Table"]
}

} // verus!
