//! Configuration resolution and launch planning for an openppp2 client front-end.
use vstd::prelude::*;

pub mod assets;
pub mod candidates;
pub mod cli;
pub mod client_config;
pub mod decimal;
pub mod launch;
pub mod menu;
pub mod settings;
pub mod ssh_parser;
pub mod utils;

verus! {

} // verus!
