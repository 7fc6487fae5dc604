//! A verified core for a live log viewer: message buffers, scrolling,
//! regex filtering, log parsing and aggregation, and poll-rate control.
use vstd::prelude::*;

pub mod aggregators;
pub mod binary_search;
pub mod command;
pub mod constants;
pub mod date;
pub mod directories;
pub mod error;
pub mod highlight;
pub mod history;
pub mod input;
pub mod keys;
pub mod multiple_choice;
pub mod normal;
pub mod number;
pub mod parser;
pub mod parser_handler;
pub mod pattern;
pub mod poll;
pub mod regex_handler;
pub mod render;
pub mod sanitizers;
pub mod scroll;
pub mod search;
pub mod session;
pub mod split;
pub mod startup;
pub mod tally;
pub mod text;
pub mod user_input;
pub mod window;

verus! {

} // verus!
