//! Verified core of the hike club admin worker: the trust boundary that every
//! write passes through, and the decisions each HTTP handler makes between
//! its storage round trips.
pub mod handlers;
pub mod json;
pub mod laws;
pub mod listing;
pub mod models;
pub mod outcome;
pub mod text;
pub mod time;
pub mod validate;
