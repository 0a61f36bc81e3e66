//! Packaging a branch's unpushed commits as a mailed patch series for a lab
//! submission: reading the commit count, naming and ordering the generated
//! patch files, tagging the first patch's subject with the task, building the
//! version-control and mail commands, and the stages of a submission run.
use vstd::prelude::*;

pub mod annotate;
pub mod config;
pub mod count;
pub mod error;
pub mod git;
pub mod run;
pub mod text;

verus! {

} // verus!
