//! Core of a quiz service: time-ordered identifiers, the two credential
//! planes, and the decisions behind storing, fetching and solving quizzes.
//!
//! The library holds no connection and performs no I/O. A caller runs the
//! statements that the engine plans and hands the rows it read back in.

pub mod auth;
pub mod error;
pub mod handlers;
pub mod id;
pub mod listing;
pub mod model;
pub mod models;
pub mod plan;
pub mod store;
