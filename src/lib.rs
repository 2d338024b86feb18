//! A small quiz service: question catalog, submission scoring, flag
//! resolution and the client-side state machine that keeps draft answers.
pub mod catalog;
pub mod client;
pub mod flag;
pub mod quiz;
pub mod submission;
pub mod text;
