//! Tables: the roster model, the requests that persist it and the join protocol.

pub mod laws;
pub mod model;
pub mod repository;
pub mod service;
