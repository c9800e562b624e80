use vstd::prelude::*;

verus! {

/// The failure kinds of the engine.  All of them mark precondition violations
/// on data that a well-formed run never produces, so callers treat them as
/// fatal rather than retrying.
#[derive(Debug, Clone, Copy, PartialEq, Eq, Structural)]
pub enum FlibError {
    /// A chromosome whose length is not a multiple of four, or whose
    /// characters do not fit the slot they stand in.
    MalformedChromosome,
    /// A transition was fed a character other than '0' or '1'.
    InvalidInputSymbol,
    /// Crossover was handed chromosomes of different lengths.
    IncompatibleChromosomeLength,
}

} // verus!
