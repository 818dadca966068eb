use vstd::prelude::*;

pub mod analysis;
pub mod cache;
pub mod cards;
pub mod clock;
pub mod config;
pub mod dates;
pub mod intent;
pub mod models;
pub mod numbers;
pub mod order;
pub mod prompt;
pub mod prompts;
pub mod providers;
pub mod query;
pub mod reply;
pub mod search;
pub mod seqs;
pub mod settings;
pub mod startup;
pub mod stats;
pub mod status;
pub mod text;
pub mod timestats;
pub mod trello;
pub mod webhook;

verus! {

} // verus!
