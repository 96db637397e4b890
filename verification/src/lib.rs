//! A task runner driven by a `bakefile.yaml`: the bakefile model, its parsers,
//! the view model that runs tasks through host capabilities, and the pure
//! helpers of the command line and the web front end.
use vstd::prelude::*;

pub mod arg_parser;
pub mod cli;
pub mod text;
pub mod util;
pub mod view_model;
pub mod viewmodel;
pub mod model;
pub mod serve;

verus! {

} // verus!
