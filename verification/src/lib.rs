//! Evolutionary search for keyboard layouts.
//!
//! The crate models a 26-key, 8-finger keyboard: a travel-cost matrix over
//! key positions, layouts as permutations of the alphabet, a deterministic
//! typing simulation that scores a layout against a corpus, a mutation
//! operator, and the generational selection loop that drives the search.

pub mod controller;
pub mod distance;
pub mod errors;
pub mod evaluate;
pub mod layout;
pub mod mutation;
pub mod population;
pub mod rng;
