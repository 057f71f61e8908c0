//! Players.

pub mod model;
