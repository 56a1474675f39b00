//! The ways in which laying out a hash can fail.
use vstd::prelude::*;
use midnight_proofs::plonk::Error;

verus! {

/// Why a hash was not laid out.
pub enum Blake2bError {
    /// The requested digest length is not between 1 and 64 bytes.
    OutputSize,
    /// The key is longer than 64 bytes.
    KeySize,
    /// A known input or key cell holds a field element of 256 or more.
    NotAByte,
    /// The rows that the input needs cannot be counted in a `usize`.
    InputTooLong,
    /// The backend refused an assignment or a constraint.
    Backend(Error),
}

impl Blake2bError {
    /// A sentence that says what went wrong.
    pub fn message(&self) -> (text: &'static str)
        ensures
            self is OutputSize ==> text == "Output size must be between 1 and 64 bytes",
            self is KeySize ==> text == "Key size must be between 1 and 64 bytes",
            self is NotAByte ==> text == "Input and key cells must hold bytes",
            self is InputTooLong ==> text == "The input needs more rows than can be counted",
            self is Backend ==> text == "The proving backend refused the circuit",
    {
        match self {
            Blake2bError::OutputSize => "Output size must be between 1 and 64 bytes",
            Blake2bError::KeySize => "Key size must be between 1 and 64 bytes",
            Blake2bError::NotAByte => "Input and key cells must hold bytes",
            Blake2bError::InputTooLong => "The input needs more rows than can be counted",
            Blake2bError::Backend(_) => "The proving backend refused the circuit",
        }
    }
}

} // verus!
