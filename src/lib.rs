//! Core logic of a single-elimination bracket tournament: tag and label
//! comparison, battle-log adjudication, and the round-advancement state
//! machine, each with a verified contract.
pub mod text;
pub mod resolver;
pub mod region;
pub mod config;
pub mod api;
pub mod bracket;
pub mod player;
pub mod roster;
pub mod misc;
