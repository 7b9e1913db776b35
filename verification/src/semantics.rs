//! The naive tree-walking reference semantics of a genome.
//!
//! `interp_part` walks a gene range from its high end down to its low end,
//! exactly as the compiler does, but carries scalar *values* instead of
//! handles: a stack of operand values and a deferred list of `(slot, value)`
//! state commits. A forward jumper re-interprets its target subtree — every
//! neuron is recomputed on every reference — under a fuel bound that only a
//! cyclic chain of forward references can exhaust. `None` marks a corrupt
//! genome.
//!
//! The compiler's central contract states that the program it emits computes,
//! for every input vector, entry state and activation, precisely what this
//! interpreter computes on the genome.

use vstd::prelude::*;
use crate::activations::Activation;
use crate::activations::sem_activation;
use crate::gene::Gene;
use crate::numeric::NumericType;
use crate::numeric::sem_mul;
use crate::program::sum_fold;
use crate::ranges::NeuronInfo;
use crate::ranges::spec_info_lookup;
use crate::recurrence::spec_table_lookup;

verus! {

/// Everything a genome's interpretation depends on: the genome itself, the
/// subtree map, the recurrence table, the numeric width, the activation, the
/// input vector and the entry state.
pub struct InterpCtx {
    pub genome: Seq<Gene>,
    pub info: Seq<NeuronInfo>,
    pub table: Seq<usize>,
    pub width: NumericType,
    pub act: Activation,
    pub inputs: Seq<u64>,
    pub state: Seq<u64>,
}

/// Whether `ctx` interprets the given genome under the given subtree map,
/// recurrence table and numeric width — the parts the compiler fixes; the
/// activation, inputs and entry state stay free.
pub open spec fn ctx_fixed(
    ctx: InterpCtx,
    genome: Seq<Gene>,
    info: Seq<NeuronInfo>,
    table: Seq<usize>,
    width: NumericType,
) -> bool {
    ctx.genome == genome && ctx.info == info && ctx.table == table && ctx.width == width
}

/// Interpret the gene at index `g` against the value stack `stk` and commit
/// list `cms`. `lo` is the low end of the enclosing range: when `suppress` is
/// set and `g == lo`, the neuron's own weight is not applied (the forward
/// jumper that requested this range supplies its own edge weight instead).
pub open spec fn interp_gene(
    ctx: InterpCtx,
    g: int,
    lo: int,
    update: bool,
    suppress: bool,
    stk: Seq<u64>,
    cms: Seq<(usize, u64)>,
    fuel: nat,
) -> Option<(Seq<u64>, Seq<(usize, u64)>)>
    decreases fuel, 0int, 0int,
{
    match ctx.genome[g] {
        Gene::Input { weight, input_id } => Some(
            (
                stk.push(
                    sem_mul(
                        ctx.width,
                        ctx.width.spec_conversion(weight),
                        ctx.inputs[input_id as int],
                    ),
                ),
                cms,
            ),
        ),
        Gene::Bias { weight } => Some((stk.push(ctx.width.spec_conversion(weight)), cms)),
        Gene::RecurrentJumper { weight, source_id } => match spec_table_lookup(
            ctx.table,
            source_id,
        ) {
            None => None,
            Some(slot) => Some(
                (
                    stk.push(
                        sem_mul(ctx.width, ctx.width.spec_conversion(weight), ctx.state[slot]),
                    ),
                    cms,
                ),
            ),
        },
        Gene::Neuron { weight, neuron_id, arity } => {
            if arity == 0 || stk.len() < arity {
                None
            } else {
                let operands = stk.subrange(stk.len() - arity, stk.len() as int);
                let v = sem_activation(ctx.width, ctx.act, sum_fold(ctx.width, operands));
                let cms2 = if update && spec_table_lookup(ctx.table, neuron_id) is Some {
                    cms.push(((spec_table_lookup(ctx.table, neuron_id)->Some_0) as usize, v))
                } else {
                    cms
                };
                let pushed = if !suppress || g != lo {
                    sem_mul(ctx.width, v, ctx.width.spec_conversion(weight))
                } else {
                    v
                };
                Some((stk.take(stk.len() - arity).push(pushed), cms2))
            }
        },
        Gene::ForwardJumper { weight, source_id } => {
            if fuel == 0 {
                None
            } else {
                match spec_info_lookup(ctx.info, source_id) {
                    None => None,
                    Some(ni) => match interp_part(
                        ctx,
                        ni.start as int,
                        ni.start as int,
                        ni.end as int,
                        false,
                        true,
                        (fuel - 1) as nat,
                    ) {
                        None => None,
                        Some((sstk, scms)) => {
                            if sstk.len() == 0 {
                                None
                            } else {
                                Some(
                                    (
                                        stk.push(
                                            sem_mul(
                                                ctx.width,
                                                sstk.last(),
                                                ctx.width.spec_conversion(weight),
                                            ),
                                        ),
                                        cms + scms,
                                    ),
                                )
                            }
                        },
                    },
                }
            }
        },
    }
}

/// Interpret the genes at indices `[cur, hi)` of the range `[lo, hi)`, from
/// the high index down, starting from an empty stack and commit list.
pub open spec fn interp_part(
    ctx: InterpCtx,
    lo: int,
    cur: int,
    hi: int,
    update: bool,
    suppress: bool,
    fuel: nat,
) -> Option<(Seq<u64>, Seq<(usize, u64)>)>
    decreases fuel, hi - cur, 1int,
{
    if cur >= hi {
        Some((Seq::empty(), Seq::empty()))
    } else {
        match interp_part(ctx, lo, cur + 1, hi, update, suppress, fuel) {
            None => None,
            Some((stk, cms)) => interp_gene(ctx, cur, lo, update, suppress, stk, cms, fuel),
        }
    }
}

/// Once interpretation fails on a high part of a range, the whole range fails.
pub proof fn lemma_interp_none_propagates(
    ctx: InterpCtx,
    lo: int,
    a: int,
    b: int,
    hi: int,
    update: bool,
    suppress: bool,
    fuel: nat,
)
    requires
        a <= b,
        interp_part(ctx, lo, b, hi, update, suppress, fuel) is None,
    ensures
        interp_part(ctx, lo, a, hi, update, suppress, fuel) is None,
    decreases b - a,
{
    if a < b {
        lemma_interp_none_propagates(ctx, lo, a + 1, b, hi, update, suppress, fuel);
    }
}


} // verus!
