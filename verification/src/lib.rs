//! Core of an automated phone game show: per-call session state, the
//! transcript timeline, the call state machine, the judgment step and the
//! reward settlement rules, all with verified contracts.

pub mod api;
pub mod cache;
pub mod call;
pub mod database;
pub mod game;
pub mod records;
pub mod text;
pub mod twiml;
pub mod webhook;
