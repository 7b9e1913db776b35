//! Compiler and executor for CGE-encoded neural networks.
//!
//! A linear genome of genes (inputs, neurons, jumpers, biases) is flattened
//! into a straight-line program of scalar operations over IEEE-754 values,
//! which an allocation-free executor then runs against an input vector and,
//! for recurrent networks, a persistent state vector. The compiler's central
//! theorem proves the program equivalent, bit for bit, to a naive
//! tree-walking interpretation of the genome.

pub mod activations;
pub mod compile;
pub mod evaluator;
pub mod gene;
pub mod interpreter;
pub mod math;
pub mod network;
pub mod numeric;
pub mod program;
pub mod ranges;
pub mod recurrence;
pub mod semantics;
pub mod stack;
