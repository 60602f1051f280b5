//! Progressive-overload pipeline for a fitness tracker: title parsing,
//! deload planning, prompt rendering, reply decoding and event intake.
pub mod text;
pub mod title;
pub mod models;
pub mod prompt;
pub mod deload;
pub mod overload;
pub mod suggestions;
pub mod reply;
pub mod config;
pub mod intake;
pub mod sync;
