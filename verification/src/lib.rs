//! Verification of a DSA-style signature as a rank-one constraint system.
//!
//! The relation `((g^u1 * y^u2) mod p) mod q == r mod q`, with
//! `u1 = h(x) * s^-1 mod q` and `u2 = r * s^-1 mod q`, is handed to a
//! constraint system over the scalar field of BLS12-381 as four modular
//! reductions and one equality. The two exponentiations are computed for the
//! witness and are not constrained.
//!
//! - `utils`: the extended Euclidean algorithm, modular inverse and modular
//!   exponentiation, in true integers.
//! - `backend`: the constraint system of `ark-relations`, with what is
//!   believed of it.
//! - `model`: what a sequence of allocations and constraints makes of a
//!   constraint system.
//! - `gadget`: the modular-reduction gadget.
//! - `circuit`: the signature check: its witness and its constraints.
//! - `semantics`: when a constraint holds, and what the gadget's constraints
//!   say.
//! - `relation`: what the circuit's constraints say of a witness bundle.

pub mod backend;
pub mod circuit;
pub mod error;
pub mod gadget;
pub mod model;
pub mod relation;
pub mod semantics;
pub mod utils;
