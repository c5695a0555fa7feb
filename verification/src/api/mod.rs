//! The control-panel API: OpenAI-compatible types, panel configuration,
//! authentication helpers, events and the task board.
pub mod auth;
pub mod config;
pub mod events;
pub mod middleware;
pub mod openai_types;
pub mod routes;
pub mod tasks;
