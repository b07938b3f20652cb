use vstd::prelude::*;

pub mod config;
pub mod generator;
pub mod histogram;
pub mod methods;
pub mod text;
pub mod worker;
pub mod stats;

verus! {

} // verus!
