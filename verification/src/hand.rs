//! Hands: the event-log model, the betting rules and what is persisted.

pub mod betting;
pub mod dealing;
pub mod laws;
pub mod model;
pub mod record;
pub mod repository;
pub mod service;
