//! The panel API's route decisions.
pub mod auth;
pub mod metrics;
pub mod openai;
