//! The executable reference interpreter: a naive tree-walking evaluator that
//! recomputes every neuron on every reference.
//!
//! It walks the genome exactly as the compiler does, but carries scalar
//! values instead of handles, and is proved to return precisely what the
//! specification-level interpretation returns. A compiled program is proved
//! equivalent to the same specification, so running this interpreter against
//! the executor is a differential test whose agreement is a theorem rather
//! than an observation.

use vstd::prelude::*;
use crate::activations::Activation;
use crate::activations::apply_activation;
use crate::gene::CompileError;
use crate::gene::Gene;
use crate::gene::error_describes_genome;
use crate::numeric::NumericType;
use crate::numeric::num_mul;
use crate::program::apply_effects;
use crate::program::sum_fold;
use crate::ranges::NeuronInfo;
use crate::ranges::build_neuron_info;
use crate::ranges::info_find;
use crate::ranges::lemma_info_lookup;
use crate::ranges::spec_neuron_info;
use crate::recurrence::RecurrenceTable;
use crate::recurrence::identify_recurrence;
use crate::recurrence::lemma_table_lookup;
use crate::recurrence::spec_recurrent_ids;
use crate::semantics::InterpCtx;
use crate::semantics::interp_gene;
use crate::semantics::interp_part;
use crate::stack::Stack;

verus! {

/// Interpret the gene range `[lo, hi)` against concrete inputs and entry
/// state, returning the residual value stack and appending the deferred
/// `(slot, value)` commits. Mirrors the compiler walk value for value; the
/// result is exactly the specification-level interpretation of the range.
pub fn interpret(
    genome: &Vec<Gene>,
    neuron_info: &Vec<NeuronInfo>,
    lo: usize,
    hi: usize,
    neuron_update: bool,
    suppress_root: bool,
    recurrence_table: &RecurrenceTable,
    numeric_type: NumericType,
    activation: Activation,
    inputs: &Vec<u64>,
    state: &Vec<u64>,
    commits: &mut Vec<(usize, u64)>,
    depth: usize,
) -> (r: Result<Vec<u64>, CompileError>)
    requires
        lo <= hi <= genome@.len(),
        activation.spec_executable(),
        forall|k: int|
            0 <= k < genome@.len() ==> ((#[trigger] genome@[k]) matches Gene::Input {
                input_id,
                ..
            } ==> input_id < inputs@.len()),
        forall|k: int|
            0 <= k < neuron_info@.len() ==> (#[trigger] neuron_info@[k]).start
                < neuron_info@[k].end <= genome@.len(),
        state@.len() == recurrence_table.ids@.len(),
    ensures
        ({
            let ctx = InterpCtx {
                genome: genome@,
                info: neuron_info@,
                table: recurrence_table.ids@,
                width: numeric_type,
                act: activation,
                inputs: inputs@,
                state: state@,
            };
            let res = interp_part(
                ctx,
                lo as int,
                lo as int,
                hi as int,
                neuron_update,
                suppress_root,
                depth as nat,
            );
            match r {
                Ok(stack_values) => {
                    &&& res matches Some(sc) && sc.0 == stack_values@ && final(commits)@
                        == old(commits)@ + sc.1
                    &&& forall|k: int|
                        old(commits)@.len() <= k < final(commits)@.len()
                            ==> (#[trigger] final(commits)@[k]).0 < recurrence_table.ids@.len()
                },
                Err(e) => {
                    &&& res is None
                    &&& error_describes_genome(e, genome@)
                    &&& !(e matches CompileError::InvalidInputId { .. })
                },
            }
        }),
    decreases depth,
{
    let ghost ctx = InterpCtx {
        genome: genome@,
        info: neuron_info@,
        table: recurrence_table.ids@,
        width: numeric_type,
        act: activation,
        inputs: inputs@,
        state: state@,
    };
    let ghost e0 = old(commits)@;
    let mut stack: Stack<u64> = Stack::new();
    let mut idx: usize = hi;
    proof {
        assert(commits@.skip(e0.len() as int) =~= Seq::<(usize, u64)>::empty());
        assert(e0 + commits@.skip(e0.len() as int) =~= commits@);
    }
    while idx > lo
        invariant
            lo <= idx <= hi <= genome@.len(),
            e0 == old(commits)@,
            activation.spec_executable(),
            forall|k: int|
                0 <= k < genome@.len() ==> ((#[trigger] genome@[k]) matches Gene::Input {
                    input_id,
                    ..
                } ==> input_id < inputs@.len()),
            forall|k: int|
                0 <= k < neuron_info@.len() ==> (#[trigger] neuron_info@[k]).start
                    < neuron_info@[k].end <= genome@.len(),
            state@.len() == recurrence_table.ids@.len(),
            ctx == (InterpCtx {
                genome: genome@,
                info: neuron_info@,
                table: recurrence_table.ids@,
                width: numeric_type,
                act: activation,
                inputs: inputs@,
                state: state@,
            }),
            commits@.len() >= e0.len(),
            commits@.subrange(0, e0.len() as int) == e0,
            forall|k: int|
                e0.len() <= k < commits@.len() ==> (#[trigger] commits@[k]).0
                    < recurrence_table.ids@.len(),
            interp_part(
                ctx,
                lo as int,
                idx as int,
                hi as int,
                neuron_update,
                suppress_root,
                depth as nat,
            ) == Some((stack.data@, commits@.skip(e0.len() as int))),
        decreases idx,
    {
        let g = idx - 1;
        let ghost idx0 = idx as int;
        let ghost stk0 = stack.data@;
        let ghost cms0 = commits@.skip(e0.len() as int);
        match genome[g] {
            Gene::Input { weight, input_id } => {
                let w_bits = numeric_type.naive_conversion(weight);
                let v = num_mul(numeric_type, w_bits, inputs[input_id]);
                stack.push(v);
                proof {
                    assert(interp_gene(ctx, g as int, lo as int, neuron_update, suppress_root,
                        stk0, cms0, depth as nat) == Some((stk0.push(v), cms0)));
                }
            },
            Gene::Bias { weight } => {
                let v = numeric_type.naive_conversion(weight);
                stack.push(v);
                proof {
                    assert(interp_gene(ctx, g as int, lo as int, neuron_update, suppress_root,
                        stk0, cms0, depth as nat) == Some((stk0.push(v), cms0)));
                }
            },
            Gene::RecurrentJumper { weight, source_id } => {
                let slot = match recurrence_table.lookup(source_id) {
                    Some(slot) => slot,
                    None => {
                        proof {
                            lemma_part_none(ctx, lo as int, idx0, hi as int, neuron_update,
                                suppress_root, depth as nat, stk0, cms0);
                        }
                        return Err(
                            CompileError::DanglingRecurrentJumper { gene_index: g, source_id },
                        );
                    },
                };
                proof {
                    lemma_table_lookup(recurrence_table.ids@, source_id);
                }
                let w_bits = numeric_type.naive_conversion(weight);
                let v = num_mul(numeric_type, w_bits, state[slot]);
                stack.push(v);
                proof {
                    assert(interp_gene(ctx, g as int, lo as int, neuron_update, suppress_root,
                        stk0, cms0, depth as nat) == Some((stk0.push(v), cms0)));
                }
            },
            Gene::Neuron { weight, neuron_id, arity } => {
                let available = stack.data.len();
                if arity == 0 || arity > available {
                    proof {
                        lemma_part_none(ctx, lo as int, idx0, hi as int, neuron_update,
                            suppress_root, depth as nat, stk0, cms0);
                    }
                    if arity == 0 {
                        return Err(CompileError::ZeroArityNeuron { gene_index: g, neuron_id });
                    }
                    return Err(
                        CompileError::InsufficientOperands {
                            gene_index: g,
                            neuron_id,
                            expected: arity,
                            available,
                        },
                    );
                }
                let popped = stack.pop(arity).unwrap();
                let ghost operands = stk0.subrange(stk0.len() - arity, stk0.len() as int);
                // Sum in reversed pop order: the original left-to-right order.
                let mut acc: u64 = popped[arity - 1];
                let mut q: usize = 1;
                proof {
                    assert(operands.take(1) =~= seq![operands[0]]);
                    assert(popped@[arity - 1] == operands[0]);
                }
                while q < arity
                    invariant
                        1 <= q <= arity,
                        arity <= stk0.len(),
                        popped@.len() == arity,
                        operands == stk0.subrange(stk0.len() - arity, stk0.len() as int),
                        forall|i: int|
                            0 <= i < arity ==> popped@[i] == stk0[stk0.len() - 1 - i],
                        acc == sum_fold(numeric_type, operands.take(q as int)),
                    decreases arity - q,
                {
                    let next = popped[arity - 1 - q];
                    proof {
                        assert(operands.take(q + 1).drop_last() =~= operands.take(q as int));
                        assert(operands.take(q + 1).last() == operands[q as int]);
                        assert(popped@[arity - 1 - q] == operands[q as int]);
                    }
                    acc = crate::numeric::num_add(numeric_type, acc, next);
                    q = q + 1;
                }
                proof {
                    assert(operands.take(arity as int) =~= operands);
                }
                let value = apply_activation(numeric_type, activation, acc);
                if neuron_update {
                    match recurrence_table.lookup(neuron_id) {
                        Some(slot) => {
                            proof {
                                lemma_table_lookup(recurrence_table.ids@, neuron_id);
                            }
                            commits.push((slot, value));
                        },
                        None => {},
                    }
                }
                let suppressed = suppress_root && g == lo;
                if !suppressed {
                    let w_bits = numeric_type.naive_conversion(weight);
                    stack.push(num_mul(numeric_type, value, w_bits));
                } else {
                    stack.push(value);
                }
                proof {
                    assert(commits@.subrange(0, e0.len() as int) =~= e0);
                    let cms1 = commits@.skip(e0.len() as int);
                    assert(interp_gene(ctx, g as int, lo as int, neuron_update, suppress_root,
                        stk0, cms0, depth as nat) matches Some(sc) && sc.0 == stack.data@ && sc.1
                        == cms1) by {
                        lemma_table_lookup(recurrence_table.ids@, neuron_id);
                        if neuron_update && crate::recurrence::spec_table_lookup(
                            recurrence_table.ids@,
                            neuron_id,
                        ) is Some {
                            assert(cms1 =~= cms0.push(
                                ((crate::recurrence::spec_table_lookup(recurrence_table.ids@,
                                neuron_id)->Some_0) as usize, value),
                            ));
                        }
                    }
                }
            },
            Gene::ForwardJumper { weight, source_id } => {
                if depth == 0 {
                    proof {
                        lemma_part_none(ctx, lo as int, idx0, hi as int, neuron_update,
                            suppress_root, depth as nat, stk0, cms0);
                    }
                    return Err(CompileError::DepthLimitExceeded { gene_index: g, source_id });
                }
                let ni = match info_find(neuron_info, source_id) {
                    Some(ni) => ni,
                    None => {
                        proof {
                            lemma_part_none(ctx, lo as int, idx0, hi as int, neuron_update,
                                suppress_root, depth as nat, stk0, cms0);
                        }
                        return Err(
                            CompileError::DanglingForwardJumper { gene_index: g, source_id },
                        );
                    },
                };
                proof {
                    lemma_info_lookup(neuron_info@, source_id);
                    let k = choose|k: int| 0 <= k < neuron_info@.len() && neuron_info@[k] == ni;
                    assert(neuron_info@[k].start < neuron_info@[k].end <= genome@.len());
                }
                let mut sub_commits: Vec<(usize, u64)> = Vec::new();
                let sub = interpret(
                    genome,
                    neuron_info,
                    ni.start,
                    ni.end,
                    false,
                    true,
                    recurrence_table,
                    numeric_type,
                    activation,
                    inputs,
                    state,
                    &mut sub_commits,
                    depth - 1,
                );
                let sub_stack = match sub {
                    Ok(values) => values,
                    Err(e) => {
                        proof {
                            lemma_part_none(ctx, lo as int, idx0, hi as int, neuron_update,
                                suppress_root, depth as nat, stk0, cms0);
                        }
                        return Err(e);
                    },
                };
                if sub_stack.len() == 0 {
                    proof {
                        lemma_part_none(ctx, lo as int, idx0, hi as int, neuron_update,
                            suppress_root, depth as nat, stk0, cms0);
                    }
                    return Err(CompileError::EmptySubnetwork { gene_index: g, source_id });
                }
                let last = sub_stack[sub_stack.len() - 1];
                let w_bits = numeric_type.naive_conversion(weight);
                stack.push(num_mul(numeric_type, last, w_bits));
                // Splice the subtree's (always empty) commit list through.
                let mut sc_idx: usize = 0;
                let sn = sub_commits.len();
                while sc_idx < sn
                    invariant
                        sc_idx <= sn,
                        sn == sub_commits@.len(),
                        commits@ == e0 + cms0 + sub_commits@.take(sc_idx as int),
                        forall|k: int|
                            0 <= k < sub_commits@.len() ==> (#[trigger] sub_commits@[k]).0
                                < recurrence_table.ids@.len(),
                        forall|k: int|
                            e0.len() <= k < (e0 + cms0).len() ==> (#[trigger] (e0 + cms0)[k]).0
                                < recurrence_table.ids@.len(),
                    decreases sn - sc_idx,
                {
                    let entry = sub_commits[sc_idx];
                    commits.push(entry);
                    sc_idx = sc_idx + 1;
                    proof {
                        assert(commits@ =~= e0 + cms0 + sub_commits@.take(sc_idx as int));
                    }
                }
                proof {
                    assert(sub_commits@.take(sn as int) =~= sub_commits@);
                    assert(commits@.subrange(0, e0.len() as int) =~= e0);
                    assert(commits@.skip(e0.len() as int) =~= cms0 + sub_commits@);
                    let v = crate::numeric::sem_mul(ctx.width, sub_stack@.last(),
                        ctx.width.spec_conversion(weight));
                    assert(interp_gene(ctx, g as int, lo as int, neuron_update, suppress_root,
                        stk0, cms0, depth as nat) == Some(
                        (stk0.push(v), cms0 + sub_commits@),
                    ));
                }
            },
        }
        idx = g;
    }
    proof {
        assert(e0 + commits@.skip(e0.len() as int) =~= commits@);
    }
    Ok(stack.data)
}

/// When the step at `idx0 - 1` fails, the whole range's interpretation is
/// `None` for this context.
proof fn lemma_part_none(
    ctx: InterpCtx,
    lo: int,
    idx0: int,
    hi: int,
    update: bool,
    suppress: bool,
    fuel: nat,
    stk0: Seq<u64>,
    cms0: Seq<(usize, u64)>,
)
    requires
        lo < idx0 <= hi,
        interp_part(ctx, lo, idx0, hi, update, suppress, fuel) == Some((stk0, cms0)),
        interp_gene(ctx, idx0 - 1, lo, update, suppress, stk0, cms0, fuel) is None,
    ensures
        interp_part(ctx, lo, lo, hi, update, suppress, fuel) is None,
{
    assert(interp_part(ctx, lo, idx0 - 1, hi, update, suppress, fuel) is None);
    crate::semantics::lemma_interp_none_propagates(ctx, lo, lo, idx0 - 1, hi, update, suppress,
        fuel);
}

/// Evaluate a genome directly — load-and-walk, no compilation — against an
/// input vector and a persistent state vector, at the given width and
/// executable activation. Builds the same recurrence table and subtree map
/// the compiler builds, fails on the same corrupt genomes, and returns
/// exactly the specification-level interpretation that a compiled program is
/// proved to reproduce.
pub fn interpret_network(
    genome: &Vec<Gene>,
    numeric_type: NumericType,
    activation: Activation,
    inputs: &Vec<u64>,
    state: &mut Vec<u64>,
) -> (r: Result<Vec<u64>, CompileError>)
    requires
        activation.spec_executable(),
        forall|k: int|
            0 <= k < genome@.len() ==> ((#[trigger] genome@[k]) matches Gene::Input {
                input_id,
                ..
            } ==> input_id < inputs@.len()),
        old(state)@.len() == spec_recurrent_ids(genome@).len(),
    ensures
        ({
            let ctx = InterpCtx {
                genome: genome@,
                info: spec_neuron_info(genome@)->Some_0,
                table: spec_recurrent_ids(genome@),
                width: numeric_type,
                act: activation,
                inputs: inputs@,
                state: old(state)@,
            };
            match r {
                Ok(outputs) => {
                    &&& spec_neuron_info(genome@) is Some
                    &&& interp_part(ctx, 0, 0, genome@.len() as int, true, false,
                        genome@.len() as nat) matches Some(sc) && sc.0 == outputs@
                        && final(state)@ == apply_effects(sc.1, old(state)@)
                    &&& outputs@.len() > 0
                },
                Err(e) => {
                    // Failure marks a genuinely corrupt genome — the subtree
                    // map does not build, or the interpretation gets stuck or
                    // yields no output — names the offender, and leaves the
                    // state untouched.
                    &&& final(state)@ == old(state)@
                    &&& error_describes_genome(e, genome@)
                    &&& (spec_neuron_info(genome@) is None || match interp_part(
                        ctx,
                        0,
                        0,
                        genome@.len() as int,
                        true,
                        false,
                        genome@.len() as nat,
                    ) {
                        Some(sc) => sc.0.len() == 0,
                        None => true,
                    })
                },
            }
        }),
{
    let recurrence_table = identify_recurrence(genome);
    let neuron_info = match build_neuron_info(genome) {
        Ok(info) => info,
        Err(e) => {
            return Err(e);
        },
    };
    let mut commits: Vec<(usize, u64)> = Vec::new();
    let n = genome.len();
    let outputs = match interpret(
        genome,
        &neuron_info,
        0,
        n,
        true,
        false,
        &recurrence_table,
        numeric_type,
        activation,
        inputs,
        state,
        &mut commits,
        n,
    ) {
        Ok(values) => values,
        Err(e) => {
            return Err(e);
        },
    };
    if outputs.len() == 0 {
        return Err(CompileError::NoOutputs);
    }
    let ghost effects = commits@;
    let ghost entry_state = state@;
    let cn = commits.len();
    let mut c: usize = 0;
    while c < cn
        invariant
            c <= cn,
            cn == commits@.len(),
            effects == commits@,
            state@.len() == entry_state.len(),
            forall|k: int| 0 <= k < cn ==> (#[trigger] commits@[k]).0 < state@.len(),
            state@ == apply_effects(effects.take(c as int), entry_state),
        decreases cn - c,
    {
        let (slot, value) = commits[c];
        proof {
            assert(effects.take(c + 1).drop_last() =~= effects.take(c as int));
            assert(effects.take(c + 1).last() == effects[c as int]);
            crate::program::lemma_apply_effects_len(effects.take(c as int), entry_state);
        }
        state[slot] = value;
        c = c + 1;
    }
    proof {
        assert(effects.take(cn as int) =~= effects);
    }
    Ok(outputs)
}


} // verus!
