//! Gradle output filtering, task detection and configuration handling,
//! with their behaviour stated as Verus contracts.
use vstd::prelude::*;

pub mod config;
pub mod text;
pub mod utils;
pub mod gradle;

verus! {

} // verus!
