use ark_relations::r1cs::SynthesisError;
use vstd::prelude::*;

verus! {

/// Why a witness could not be computed or a circuit could not be synthesized.
#[derive(Clone, Copy, Debug, PartialEq, Eq)]
pub enum CircuitError {
    /// The value has no inverse for the modulus.
    NoInverse,
    /// A quotient and a remainder were asked for the modulus zero.
    ZeroModulus,
    /// The constraint system's counters have no room for what would be added.
    Exhausted,
    /// The constraint system reported the failure that is carried here.
    Backend(SynthesisError),
}

} // verus!
