//! The decision logic of a command-line client for a project-board service:
//! where a card or list goes when it is moved to a rank, which list or board a
//! typed name stands for, how the command line reads, and the small rules around
//! labels, comments, credentials and searches.
use vstd::prelude::*;

pub mod api;
pub mod cards;
pub mod cli;
pub mod config;
pub mod display;
pub mod find;
pub mod ids;
pub mod models;
pub mod position;
pub mod resolve;
pub mod text;

verus! {

} // verus!
