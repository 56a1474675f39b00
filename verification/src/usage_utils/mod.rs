pub mod blake2b_circuit;
pub mod circuit_runner;
