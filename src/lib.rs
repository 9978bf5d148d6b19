// Supervision of the local backend services and acquisition of their models:
// the decisions are made here, the process, network and file work is done by
// the caller that drives them.
use vstd::prelude::*;

pub mod config;
pub mod download;
pub mod health;
pub mod supervisor;

verus! {

} // verus!
