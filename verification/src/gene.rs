//! The gene model: the linear genome that encodes an expression forest.
//!
//! A genome is an ordered gene array in prefix layout: a `Neuron` gene stands
//! immediately before the contiguous block of genes forming its operand
//! subtrees, so traversal proceeds from the high index down to the low index
//! with an explicit operand stack. All weights are double-precision bit
//! patterns; the chosen numeric width converts them once, at compile time.

use vstd::prelude::*;

verus! {

/// One element of a genome. Every variant carries a `weight`, stored as the
/// bit pattern of a double-precision value.
#[derive(Clone, Copy, Debug, PartialEq, Eq, Structural)]
pub enum Gene {
    /// Sources from input slot `input_id`, weighted.
    Input { weight: u64, input_id: usize },
    /// Sums its `arity` operand subtrees, applies the activation function,
    /// then (conditionally) multiplies by `weight`.
    Neuron { weight: u64, neuron_id: usize, arity: usize },
    /// References a neuron whose subtree appears elsewhere in the array;
    /// recomputes that subtree and weights the result.
    ForwardJumper { weight: u64, source_id: usize },
    /// References a neuron's previous evaluation result, read from persistent
    /// state and weighted; never recomputed.
    RecurrentJumper { weight: u64, source_id: usize },
    /// A constant contribution equal to `weight`.
    Bias { weight: u64 },
}

/// A structurally invalid genome discovered during flattening. All variants
/// are fatal to the compile attempt and identify the offending gene position
/// and neuron id where one exists.
#[derive(Clone, Copy, Debug, PartialEq, Eq, Structural)]
pub enum CompileError {
    /// A forward jumper references a neuron id with no subtree in the genome.
    DanglingForwardJumper { gene_index: usize, source_id: usize },
    /// A recurrent jumper references a neuron id absent from the recurrence
    /// table.
    DanglingRecurrentJumper { gene_index: usize, source_id: usize },
    /// A neuron declared more operands than the stack held when it was
    /// visited.
    InsufficientOperands { gene_index: usize, neuron_id: usize, expected: usize, available: usize },
    /// A neuron declared zero operands; an empty sum has no value.
    ZeroArityNeuron { gene_index: usize, neuron_id: usize },
    /// Two neuron genes declared the same id, so jumper targets would be
    /// ambiguous.
    DuplicateNeuronId { gene_index: usize, neuron_id: usize },
    /// An input gene's slot index is not below the number of distinct input
    /// ids, so the input vector would be read out of bounds.
    InvalidInputId { gene_index: usize, input_id: usize },
    /// Forward jumpers nest deeper than the genome's length allows, which
    /// only a cyclic (corrupt) chain of forward references can cause.
    DepthLimitExceeded { gene_index: usize, source_id: usize },
    /// A forward jumper's target range produced no result to read.
    EmptySubnetwork { gene_index: usize, source_id: usize },
    /// A full top-level pass left nothing on the stack: the network declares
    /// no outputs.
    NoOutputs,
}

/// Whether `gene` is a neuron declaring `neuron_id`.
pub open spec fn is_neuron_with_id(gene: Gene, neuron_id: usize) -> bool {
    gene matches Gene::Neuron { neuron_id: n, .. } && n == neuron_id
}

/// A corruption error identifies its offender: the gene index lies in the
/// genome, the gene there is of the matching kind, and the carried ids and
/// counts are that gene's own. A duplicate-id error additionally points below
/// a second neuron gene declaring the same id; an insufficient-operands error
/// carries the neuron's declared arity and a smaller available count.
pub open spec fn error_describes_genome(e: CompileError, genome: Seq<Gene>) -> bool {
    match e {
        CompileError::DanglingForwardJumper { gene_index, source_id } => gene_index < genome.len()
            && (genome[gene_index as int] matches Gene::ForwardJumper { source_id: s, .. } && s
            == source_id),
        CompileError::DanglingRecurrentJumper { gene_index, source_id } => gene_index
            < genome.len() && (genome[gene_index as int] matches Gene::RecurrentJumper {
            source_id: s,
            ..
        } && s == source_id),
        CompileError::InsufficientOperands { gene_index, neuron_id, expected, available } => {
            &&& gene_index < genome.len()
            &&& (genome[gene_index as int] matches Gene::Neuron { neuron_id: n, arity, .. } && n
                == neuron_id && arity == expected)
            &&& available < expected
        },
        CompileError::ZeroArityNeuron { gene_index, neuron_id } => gene_index < genome.len() && (
        genome[gene_index as int] matches Gene::Neuron { neuron_id: n, arity, .. } && n
            == neuron_id && arity == 0),
        CompileError::DuplicateNeuronId { gene_index, neuron_id } => {
            &&& gene_index < genome.len()
            &&& is_neuron_with_id(genome[gene_index as int], neuron_id)
            &&& exists|j: int|
                gene_index < j < genome.len() && is_neuron_with_id(
                    #[trigger] genome[j],
                    neuron_id,
                )
        },
        CompileError::InvalidInputId { gene_index, input_id } => gene_index < genome.len() && (
        genome[gene_index as int] matches Gene::Input { input_id: i, .. } && i == input_id),
        CompileError::DepthLimitExceeded { gene_index, source_id } => gene_index < genome.len()
            && (genome[gene_index as int] matches Gene::ForwardJumper { source_id: s, .. } && s
            == source_id),
        CompileError::EmptySubnetwork { gene_index, source_id } => gene_index < genome.len() && (
        genome[gene_index as int] matches Gene::ForwardJumper { source_id: s, .. } && s
            == source_id),
        CompileError::NoOutputs => true,
    }
}

} // verus!
