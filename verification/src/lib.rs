//! A small evolutionary-computation engine.  A population of deterministic
//! finite transducers ("flibs") is evolved to predict the next symbol of a
//! fixed, cyclically repeating binary environment: each generation the
//! population is scored, the worst automaton is replaced by a crossover of
//! the worst and the best, one other slot is mutated, and the loop stops as
//! soon as some automaton predicts the whole cycle perfectly.

pub mod automaton;
pub mod cards;
pub mod chromosome;
pub mod cli;
pub mod errors;
pub mod evolve;
mod rng;
