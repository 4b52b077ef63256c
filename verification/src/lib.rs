use vstd::prelude::*;

pub mod cli;
pub mod commands;
pub mod engine;
pub mod laws;
pub mod models;
pub mod profile;
pub mod pruning;
pub mod ranking;
pub mod report;
pub mod rules;
pub mod scoring;
pub mod scraper;
pub mod search;
pub mod sockets;
pub mod stat_names;
pub mod stats;
pub mod text;
pub mod tui;

verus! {

} // verus!
