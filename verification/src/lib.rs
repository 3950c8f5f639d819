//! Search for key pairs whose public identifier shows a chosen prefix or suffix.
//!
//! A [`pattern::VanityMatcher`] is built from a validated prefix and suffix and tests
//! identifiers. A [`search::Coordinator`] holds what a search has tried and found and
//! takes candidates through it one by one; [`search::generate_vanity_address`] is the
//! loop of a worker that draws them. The module [`laws`] states what holds of all of
//! these for every input.

pub mod alphabet;
pub mod error;
pub mod keypair;
pub mod laws;
pub mod num_cpus;
pub mod pattern;
pub mod search;
pub mod text;
