//! The expression compiler: flatten a gene range into straight-line
//! instructions.
//!
//! The range is walked from its high index down to its low index with an
//! explicit stack of handles. Every gene pushes exactly one handle; a neuron
//! first pops its `arity` operands (most recently pushed first) and reverses
//! them, restoring the original left-to-right connection order — floating
//! point addition is not associative, so this order is part of the contract.
//! A forward jumper compiles its target subtree in place, with state updates
//! off and the subtree root's own weight suppressed, then weights the
//! subtree's last handle itself.
//!
//! The contract proves the emitted instructions equivalent, handle for handle
//! and commit for commit, to the naive tree-walking interpretation of the
//! same range, for every input vector, entry state and activation.

use vstd::prelude::*;
use crate::gene::CompileError;
use crate::gene::Gene;
use crate::gene::error_describes_genome;
use crate::numeric::NumericType;
use crate::numeric::sem_mul;
use crate::program::Commit;
use crate::program::Instruction;
use crate::program::instr_values;
use crate::program::instr_wf;
use crate::program::lemma_instr_values_len;
use crate::program::lemma_instr_values_prefix;
use crate::program::operand_values;
use crate::program::sum_fold;
use crate::activations::sem_activation;
use crate::ranges::NeuronInfo;
use crate::ranges::info_find;
use crate::ranges::lemma_info_lookup;
use crate::ranges::spec_info_lookup;
use crate::recurrence::RecurrenceTable;
use crate::recurrence::lemma_table_lookup;
use crate::recurrence::spec_table_lookup;
use crate::semantics::InterpCtx;
use crate::semantics::ctx_fixed;
use crate::semantics::interp_gene;
use crate::semantics::interp_part;
use crate::semantics::lemma_interp_none_propagates;
use crate::stack::Stack;

verus! {

/// Issues monotonically increasing, unique handles for intermediate scalar
/// results. The count always equals the number of instructions emitted so
/// far, so a fresh handle is the next instruction's own position.
pub struct ResultNames {
    pub index: usize,
}

impl ResultNames {
    pub fn new() -> (s: Self)
        ensures
            s.index == 0,
    {
        Self { index: 0 }
    }

    /// Get the next handle, advancing the generator.
    pub fn advance(&mut self) -> (h: usize)
        requires
            old(self).index < usize::MAX,
        ensures
            h == old(self).index,
            final(self).index == old(self).index + 1,
    {
        let h = self.index;
        self.index = self.index + 1;
        h
    }

    /// The most recently generated handle.
    pub fn last(&self) -> (h: usize)
        ensures
            h == if self.index > 0 {
                (self.index - 1) as int
            } else {
                0int
            },
    {
        if self.index > 0 {
            self.index - 1
        } else {
            0
        }
    }
}

/// The returned handles name, position for position, the interpreter's value
/// stack: each is a defined instruction whose value is the corresponding
/// stack entry.
pub open spec fn handles_match(handles: Seq<usize>, vals: Seq<u64>, stk: Seq<u64>, n: int) -> bool {
    &&& handles.len() == stk.len()
    &&& forall|k: int|
        0 <= k < handles.len() ==> (#[trigger] handles[k]) < n && vals[handles[k] as int] == stk[k]
}

/// The emitted commits mirror, position for position, the interpreter's
/// deferred `(slot, value)` commits.
pub open spec fn commits_match(
    commits: Seq<Commit>,
    vals: Seq<u64>,
    cms: Seq<(usize, u64)>,
    n: int,
) -> bool {
    &&& commits.len() == cms.len()
    &&& forall|k: int|
        0 <= k < commits.len() ==> {
            let c = #[trigger] commits[k];
            c.src < n && c.slot == cms[k].0 && vals[c.src as int] == cms[k].1
        }
}

/// The compilation of the span `[cur, hi)` of range `[lo, hi)` into `comps`
/// reproduces the interpreter exactly, for every activation, input vector and
/// entry state: the interpretation succeeds, the handle stack names its value
/// stack, and the commits emitted for this pass (`new_commits`) mirror its
/// commit list.
pub open spec fn span_compiled(
    genome: Seq<Gene>,
    info: Seq<NeuronInfo>,
    table: Seq<usize>,
    width: NumericType,
    lo: int,
    cur: int,
    hi: int,
    update: bool,
    suppress: bool,
    fuel: nat,
    comps: Seq<Instruction>,
    new_commits: Seq<Commit>,
    handles: Seq<usize>,
) -> bool {
    forall|ctx: InterpCtx|
        ctx_fixed(ctx, genome, info, table, width) ==> match #[trigger] interp_part(
            ctx,
            lo,
            cur,
            hi,
            update,
            suppress,
            fuel,
        ) {
            Some(sc) => {
                let vals = instr_values(comps, width, ctx.act, ctx.inputs, ctx.state);
                &&& handles_match(handles, vals, sc.0, comps.len() as int)
                &&& commits_match(new_commits, vals, sc.1, comps.len() as int)
            },
            None => false,
        }
}

/// The interpretation of the span `[cur, hi)` of range `[lo, hi)` fails — the
/// genome is corrupt there — whatever the activation, inputs and entry state.
pub open spec fn span_fails(
    genome: Seq<Gene>,
    info: Seq<NeuronInfo>,
    table: Seq<usize>,
    width: NumericType,
    lo: int,
    cur: int,
    hi: int,
    update: bool,
    suppress: bool,
    fuel: nat,
) -> bool {
    forall|ctx: InterpCtx|
        ctx_fixed(ctx, genome, info, table, width) ==> #[trigger] interp_part(
            ctx,
            lo,
            cur,
            hi,
            update,
            suppress,
            fuel,
        ) is None
}

/// Every `Input` gene in the genome reads an input slot below `input_count`.
pub open spec fn inputs_bounded(genome: Seq<Gene>, input_count: usize) -> bool {
    forall|k: int|
        0 <= k < genome.len() ==> ((#[trigger] genome[k]) matches Gene::Input { input_id, .. }
            ==> input_id < input_count)
}

/// Every subtree range in the map lies within the genome.
pub open spec fn info_bounded(info: Seq<NeuronInfo>, genome_len: int) -> bool {
    forall|k: int| 0 <= k < info.len() ==> (#[trigger] info[k]).start < info[k].end <= genome_len
}

/// A prefix of a prefix is a prefix.
proof fn lemma_prefix_trans<T>(a: Seq<T>, b: Seq<T>, c: Seq<T>)
    requires
        a.len() <= b.len() <= c.len(),
        b.subrange(0, a.len() as int) == a,
        c.subrange(0, b.len() as int) == b,
    ensures
        c.subrange(0, a.len() as int) == a,
{
    assert forall|i: int| 0 <= i < a.len() implies c.subrange(0, a.len() as int)[i] == a[i] by {
        assert(b.subrange(0, a.len() as int)[i] == b[i]);
        assert(c.subrange(0, b.len() as int)[i] == c[i]);
    }
    assert(c.subrange(0, a.len() as int) =~= a);
}

/// Compiling a leaf gene — an input, a bias or a recurrent read — appends one
/// instruction whose value is what the interpreter pushes for that gene.
proof fn lemma_leaf_step(
    genome: Seq<Gene>,
    info: Seq<NeuronInfo>,
    table: Seq<usize>,
    width: NumericType,
    lo: int,
    idx0: int,
    hi: int,
    update: bool,
    suppress: bool,
    fuel: nat,
    comp0: Seq<Instruction>,
    cmts0: Seq<Commit>,
    stk0: Seq<usize>,
    instr: Instruction,
    h: usize,
)
    requires
        lo < idx0 <= hi <= genome.len(),
        table.len() <= usize::MAX,
        span_compiled(
            genome,
            info,
            table,
            width,
            lo,
            idx0,
            hi,
            update,
            suppress,
            fuel,
            comp0,
            cmts0,
            stk0,
        ),
        h as int == comp0.len(),
        match genome[idx0 - 1] {
            Gene::Input { weight, input_id } => instr == (Instruction::WeightedInput {
                weight: width.spec_conversion(weight),
                input_id,
            }),
            Gene::Bias { weight } => instr == (Instruction::Constant {
                value: width.spec_conversion(weight),
            }),
            Gene::RecurrentJumper { weight, source_id } => spec_table_lookup(table, source_id)
                is Some && instr == (Instruction::ReadState {
                weight: width.spec_conversion(weight),
                slot: (spec_table_lookup(table, source_id)->Some_0) as usize,
            }),
            _ => false,
        },
    ensures
        span_compiled(
            genome,
            info,
            table,
            width,
            lo,
            idx0 - 1,
            hi,
            update,
            suppress,
            fuel,
            comp0.push(instr),
            cmts0,
            stk0.push(h),
        ),
{
    broadcast use lemma_instr_values_len;

    let g = idx0 - 1;
    let comp1 = comp0.push(instr);
    assert forall|ctx: InterpCtx| ctx_fixed(ctx, genome, info, table, width) implies match
        interp_part(ctx, lo, g, hi, update, suppress, fuel) {
        Some(sc) => {
            let vals = instr_values(comp1, width, ctx.act, ctx.inputs, ctx.state);
            &&& handles_match(stk0.push(h), vals, sc.0, comp1.len() as int)
            &&& commits_match(cmts0, vals, sc.1, comp1.len() as int)
        },
        None => false,
    } by {
        let res0 = interp_part(ctx, lo, idx0, hi, update, suppress, fuel);
        let vals0 = instr_values(comp0, width, ctx.act, ctx.inputs, ctx.state);
        let vals1 = instr_values(comp1, width, ctx.act, ctx.inputs, ctx.state);
        assert(comp1.subrange(0, comp0.len() as int) =~= comp0);
        lemma_instr_values_prefix(comp0, comp1, width, ctx.act, ctx.inputs, ctx.state);
        assert(comp1.drop_last() =~= comp0);
        let (stk, cms) = res0->Some_0;
        match genome[g] {
            Gene::Input { weight, input_id } => {
                let v = sem_mul(
                    ctx.width,
                    ctx.width.spec_conversion(weight),
                    ctx.inputs[input_id as int],
                );
                assert(interp_gene(ctx, g, lo, update, suppress, stk, cms, fuel) == Some(
                    (stk.push(v), cms),
                ));
                assert(vals1[h as int] == v);
            },
            Gene::Bias { weight } => {
                let v = ctx.width.spec_conversion(weight);
                assert(interp_gene(ctx, g, lo, update, suppress, stk, cms, fuel) == Some(
                    (stk.push(v), cms),
                ));
                assert(vals1[h as int] == v);
            },
            Gene::RecurrentJumper { weight, source_id } => {
                let slot = spec_table_lookup(table, source_id)->Some_0;
                lemma_table_lookup(table, source_id);
                assert((slot as usize) as int == slot);
                let v = sem_mul(ctx.width, ctx.width.spec_conversion(weight), ctx.state[slot]);
                assert(interp_gene(ctx, g, lo, update, suppress, stk, cms, fuel) == Some(
                    (stk.push(v), cms),
                ));
                assert(vals1[h as int] == v);
            },
            _ => {
                assert(false);
            },
        }
    }
}

/// Compiling a neuron pops its operands, appends the activated sum — and,
/// unless it is a suppressed range root, a weighting instruction — and
/// commits the unweighted value when asked to; all exactly as the interpreter
/// computes them.
proof fn lemma_neuron_step(
    genome: Seq<Gene>,
    info: Seq<NeuronInfo>,
    table: Seq<usize>,
    width: NumericType,
    lo: int,
    idx0: int,
    hi: int,
    update: bool,
    suppress: bool,
    fuel: nat,
    comp0: Seq<Instruction>,
    cmts0: Seq<Commit>,
    stk0: Seq<usize>,
    weight: u64,
    neuron_id: usize,
    arity: usize,
    sum_instr: Instruction,
    operand_handles: Seq<usize>,
    h: usize,
    h2: usize,
    committed: bool,
    slot: usize,
    comp2: Seq<Instruction>,
    cmts2: Seq<Commit>,
    stk2: Seq<usize>,
)
    requires
        lo < idx0 <= hi <= genome.len(),
        genome[idx0 - 1] == (Gene::Neuron { weight, neuron_id, arity }),
        1 <= arity <= stk0.len(),
        span_compiled(
            genome,
            info,
            table,
            width,
            lo,
            idx0,
            hi,
            update,
            suppress,
            fuel,
            comp0,
            cmts0,
            stk0,
        ),
        h as int == comp0.len(),
        !(suppress && idx0 - 1 == lo) ==> h2 as int == comp0.len() + 1,
        sum_instr matches Instruction::NeuronSum { operands } && operands@ == operand_handles,
        operand_handles.len() == arity,
        forall|t: int| 0 <= t < arity ==> operand_handles[t] == stk0[stk0.len() - arity + t],
        committed == (update && spec_table_lookup(table, neuron_id) is Some),
        committed ==> spec_table_lookup(table, neuron_id) == Some(slot as int),
        cmts2 == if committed {
            cmts0.push(Commit { slot, src: h })
        } else {
            cmts0
        },
        comp2 == if suppress && idx0 - 1 == lo {
            comp0.push(sum_instr)
        } else {
            comp0.push(sum_instr).push(
                Instruction::WeightHandle { src: h, weight: width.spec_conversion(weight) },
            )
        },
        stk2 == stk0.take(stk0.len() - arity).push(
            if suppress && idx0 - 1 == lo {
                h
            } else {
                h2
            },
        ),
    ensures
        span_compiled(
            genome,
            info,
            table,
            width,
            lo,
            idx0 - 1,
            hi,
            update,
            suppress,
            fuel,
            comp2,
            cmts2,
            stk2,
        ),
{
    broadcast use lemma_instr_values_len;

    let g = idx0 - 1;
    let suppressed = suppress && g == lo;
    let comp1 = comp0.push(sum_instr);
    assert forall|ctx: InterpCtx| ctx_fixed(ctx, genome, info, table, width) implies match
        interp_part(ctx, lo, g, hi, update, suppress, fuel) {
        Some(sc) => {
            let vals = instr_values(comp2, width, ctx.act, ctx.inputs, ctx.state);
            &&& handles_match(stk2, vals, sc.0, comp2.len() as int)
            &&& commits_match(cmts2, vals, sc.1, comp2.len() as int)
        },
        None => false,
    } by {
        let res0 = interp_part(ctx, lo, idx0, hi, update, suppress, fuel);
        let vals0 = instr_values(comp0, width, ctx.act, ctx.inputs, ctx.state);
        let vals1 = instr_values(comp1, width, ctx.act, ctx.inputs, ctx.state);
        let vals2 = instr_values(comp2, width, ctx.act, ctx.inputs, ctx.state);
        assert(comp1.subrange(0, comp0.len() as int) =~= comp0);
        assert(comp2.subrange(0, comp1.len() as int) =~= comp1);
        lemma_instr_values_prefix(comp0, comp1, width, ctx.act, ctx.inputs, ctx.state);
        lemma_instr_values_prefix(comp1, comp2, width, ctx.act, ctx.inputs, ctx.state);
        assert(comp1.drop_last() =~= comp0);
        let (stk, cms) = res0->Some_0;
        assert(stk.len() == stk0.len());
        let interp_operands = stk.subrange(stk.len() - arity, stk.len() as int);
        assert(operand_values(operand_handles, vals0) =~= interp_operands) by {
            assert forall|t: int| 0 <= t < arity implies operand_values(operand_handles, vals0)[t]
                == interp_operands[t] by {
                assert(operand_handles[t] == stk0[stk0.len() - arity + t]);
                assert(vals0[operand_handles[t] as int] == stk[stk0.len() - arity + t]);
            }
        }
        let v = sem_activation(ctx.width, ctx.act, sum_fold(ctx.width, interp_operands));
        assert(vals1[h as int] == v);
        let cms_i = if update && spec_table_lookup(ctx.table, neuron_id) is Some {
            cms.push(((spec_table_lookup(ctx.table, neuron_id)->Some_0) as usize, v))
        } else {
            cms
        };
        let pushed = if !suppress || g != lo {
            sem_mul(ctx.width, v, ctx.width.spec_conversion(weight))
        } else {
            v
        };
        assert(interp_gene(ctx, g, lo, update, suppress, stk, cms, fuel) == Some(
            (stk.take(stk.len() - arity).push(pushed), cms_i),
        ));
        assert(interp_part(ctx, lo, g, hi, update, suppress, fuel) == Some(
            (stk.take(stk.len() - arity).push(pushed), cms_i),
        ));
        if !suppressed {
            assert(comp2.drop_last() =~= comp1);
            assert(vals2[h2 as int] == sem_mul(ctx.width, vals1[h as int],
                ctx.width.spec_conversion(weight)));
            assert(vals2[h as int] == vals1[h as int]);
        }
        assert forall|k: int| 0 <= k < stk2.len() implies (#[trigger] stk2[k]) < comp2.len()
            && vals2[stk2[k] as int] == stk.take(stk.len() - arity).push(pushed)[k] by {
            if k < stk2.len() - 1 {
                assert(stk2[k] == stk0[k]);
                assert(vals0[stk0[k] as int] == stk[k]);
            }
        }
        assert forall|k: int| 0 <= k < cmts2.len() implies {
            let c = #[trigger] cmts2[k];
            c.src < comp2.len() && c.slot == cms_i[k].0 && vals2[c.src as int] == cms_i[k].1
        } by {
            if k < cmts0.len() {
                assert(cmts2[k] == cmts0[k]);
            } else {
                assert(committed);
                assert(cmts2[k] == (Commit { slot, src: h }));
                assert(spec_table_lookup(ctx.table, neuron_id) == Some(slot as int));
            }
        }
    }
}

/// Compiling a forward jumper splices in the compiled target subtree and
/// appends one instruction weighting the subtree's last handle — the
/// subtree's root value — exactly as the interpreter computes it.
proof fn lemma_forward_step(
    genome: Seq<Gene>,
    info: Seq<NeuronInfo>,
    table: Seq<usize>,
    width: NumericType,
    lo: int,
    idx0: int,
    hi: int,
    update: bool,
    suppress: bool,
    fuel: nat,
    comp0: Seq<Instruction>,
    cmts0: Seq<Commit>,
    stk0: Seq<usize>,
    weight: u64,
    source_id: usize,
    ni: NeuronInfo,
    comp_mid: Seq<Instruction>,
    sub_commits: Seq<Commit>,
    sub_handles: Seq<usize>,
    h: usize,
    comp2: Seq<Instruction>,
    cmts2: Seq<Commit>,
)
    requires
        lo < idx0 <= hi <= genome.len(),
        genome[idx0 - 1] == (Gene::ForwardJumper { weight, source_id }),
        fuel > 0,
        spec_info_lookup(info, source_id) == Some(ni),
        span_compiled(
            genome,
            info,
            table,
            width,
            lo,
            idx0,
            hi,
            update,
            suppress,
            fuel,
            comp0,
            cmts0,
            stk0,
        ),
        comp_mid.len() >= comp0.len(),
        comp_mid.subrange(0, comp0.len() as int) == comp0,
        span_compiled(
            genome,
            info,
            table,
            width,
            ni.start as int,
            ni.start as int,
            ni.end as int,
            false,
            true,
            (fuel - 1) as nat,
            comp_mid,
            sub_commits,
            sub_handles,
        ),
        sub_handles.len() > 0,
        h as int == comp_mid.len(),
        comp2 == comp_mid.push(
            Instruction::WeightHandle {
                src: sub_handles.last(),
                weight: width.spec_conversion(weight),
            },
        ),
        cmts2 == cmts0 + sub_commits,
    ensures
        span_compiled(
            genome,
            info,
            table,
            width,
            lo,
            idx0 - 1,
            hi,
            update,
            suppress,
            fuel,
            comp2,
            cmts2,
            stk0.push(h),
        ),
{
    broadcast use lemma_instr_values_len;

    let g = idx0 - 1;
    assert forall|ctx: InterpCtx| ctx_fixed(ctx, genome, info, table, width) implies match
        interp_part(ctx, lo, g, hi, update, suppress, fuel) {
        Some(sc) => {
            let vals = instr_values(comp2, width, ctx.act, ctx.inputs, ctx.state);
            &&& handles_match(stk0.push(h), vals, sc.0, comp2.len() as int)
            &&& commits_match(cmts2, vals, sc.1, comp2.len() as int)
        },
        None => false,
    } by {
        let res0 = interp_part(ctx, lo, idx0, hi, update, suppress, fuel);
        let vals0 = instr_values(comp0, width, ctx.act, ctx.inputs, ctx.state);
        let vals_mid = instr_values(comp_mid, width, ctx.act, ctx.inputs, ctx.state);
        let vals2 = instr_values(comp2, width, ctx.act, ctx.inputs, ctx.state);
        assert(comp2.subrange(0, comp_mid.len() as int) =~= comp_mid);
        lemma_prefix_trans(comp0, comp_mid, comp2);
        lemma_instr_values_prefix(comp0, comp2, width, ctx.act, ctx.inputs, ctx.state);
        lemma_instr_values_prefix(comp_mid, comp2, width, ctx.act, ctx.inputs, ctx.state);
        assert(comp2.drop_last() =~= comp_mid);
        let (stk, cms) = res0->Some_0;
        let subres = interp_part(ctx, ni.start as int, ni.start as int, ni.end as int, false,
            true, (fuel - 1) as nat);
        let (sstk, scms) = subres->Some_0;
        assert(sstk.len() == sub_handles.len());
        assert(vals_mid[sub_handles.last() as int] == sstk.last());
        let v = sem_mul(ctx.width, sstk.last(), ctx.width.spec_conversion(weight));
        assert(interp_gene(ctx, g, lo, update, suppress, stk, cms, fuel) == Some(
            (stk.push(v), cms + scms),
        ));
        assert(interp_part(ctx, lo, g, hi, update, suppress, fuel) == Some(
            (stk.push(v), cms + scms),
        ));
        assert(vals2[h as int] == v);
        assert forall|k: int| 0 <= k < stk0.push(h).len() implies (#[trigger] stk0.push(h)[k])
            < comp2.len() && vals2[stk0.push(h)[k] as int] == stk.push(v)[k] by {
            if k < stk0.len() {
                assert(stk0.push(h)[k] == stk0[k]);
                assert(vals0[stk0[k] as int] == stk[k]);
            }
        }
        assert forall|k: int| 0 <= k < cmts2.len() implies {
            let c = #[trigger] cmts2[k];
            c.src < comp2.len() && c.slot == (cms + scms)[k].0 && vals2[c.src as int] == (cms
                + scms)[k].1
        } by {
            if k < cmts0.len() {
                assert(cmts2[k] == cmts0[k]);
                assert((cms + scms)[k] == cms[k]);
            } else {
                assert(cmts2[k] == sub_commits[k - cmts0.len()]);
                assert((cms + scms)[k] == scms[k - cms.len()]);
            }
        }
    }
}

/// When a gene cannot be interpreted — a dangling reference, a neuron without
/// its operands, or an exhausted forward-jump budget — the whole range's
/// interpretation fails.
proof fn lemma_gene_fails(
    genome: Seq<Gene>,
    info: Seq<NeuronInfo>,
    table: Seq<usize>,
    width: NumericType,
    lo: int,
    idx0: int,
    hi: int,
    update: bool,
    suppress: bool,
    fuel: nat,
    comp0: Seq<Instruction>,
    cmts0: Seq<Commit>,
    stk0: Seq<usize>,
)
    requires
        lo < idx0 <= hi <= genome.len(),
        span_compiled(
            genome,
            info,
            table,
            width,
            lo,
            idx0,
            hi,
            update,
            suppress,
            fuel,
            comp0,
            cmts0,
            stk0,
        ),
        match genome[idx0 - 1] {
            Gene::RecurrentJumper { source_id, .. } => spec_table_lookup(table, source_id)
                is None,
            Gene::Neuron { arity, .. } => arity == 0 || arity > stk0.len(),
            Gene::ForwardJumper { source_id, .. } => fuel == 0 || spec_info_lookup(
                info,
                source_id,
            ) is None,
            _ => false,
        },
    ensures
        span_fails(genome, info, table, width, lo, lo, hi, update, suppress, fuel),
{
    let g = idx0 - 1;
    assert forall|ctx: InterpCtx| ctx_fixed(ctx, genome, info, table, width) implies interp_part(
        ctx,
        lo,
        lo,
        hi,
        update,
        suppress,
        fuel,
    ) is None by {
        let res0 = interp_part(ctx, lo, idx0, hi, update, suppress, fuel);
        let (stk, cms) = res0->Some_0;
        assert(stk.len() == stk0.len());
        assert(interp_gene(ctx, g, lo, update, suppress, stk, cms, fuel) is None);
        assert(interp_part(ctx, lo, g, hi, update, suppress, fuel) is None);
        lemma_interp_none_propagates(ctx, lo, lo, g, hi, update, suppress, fuel);
    }
}

/// When a forward jumper's target subtree fails to interpret, or interprets
/// to an empty stack, the whole range's interpretation fails.
proof fn lemma_forward_sub_fails(
    genome: Seq<Gene>,
    info: Seq<NeuronInfo>,
    table: Seq<usize>,
    width: NumericType,
    lo: int,
    idx0: int,
    hi: int,
    update: bool,
    suppress: bool,
    fuel: nat,
    comp0: Seq<Instruction>,
    cmts0: Seq<Commit>,
    stk0: Seq<usize>,
    source_id: usize,
    ni: NeuronInfo,
    sub_empty: bool,
    comp_mid: Seq<Instruction>,
    sub_commits: Seq<Commit>,
    sub_handles: Seq<usize>,
)
    requires
        lo < idx0 <= hi <= genome.len(),
        genome[idx0 - 1] matches Gene::ForwardJumper { source_id: s, .. } && s == source_id,
        fuel > 0,
        spec_info_lookup(info, source_id) == Some(ni),
        span_compiled(
            genome,
            info,
            table,
            width,
            lo,
            idx0,
            hi,
            update,
            suppress,
            fuel,
            comp0,
            cmts0,
            stk0,
        ),
        !sub_empty ==> span_fails(
            genome,
            info,
            table,
            width,
            ni.start as int,
            ni.start as int,
            ni.end as int,
            false,
            true,
            (fuel - 1) as nat,
        ),
        sub_empty ==> span_compiled(
            genome,
            info,
            table,
            width,
            ni.start as int,
            ni.start as int,
            ni.end as int,
            false,
            true,
            (fuel - 1) as nat,
            comp_mid,
            sub_commits,
            sub_handles,
        ) && sub_handles.len() == 0,
    ensures
        span_fails(genome, info, table, width, lo, lo, hi, update, suppress, fuel),
{
    let g = idx0 - 1;
    assert forall|ctx: InterpCtx| ctx_fixed(ctx, genome, info, table, width) implies interp_part(
        ctx,
        lo,
        lo,
        hi,
        update,
        suppress,
        fuel,
    ) is None by {
        let res0 = interp_part(ctx, lo, idx0, hi, update, suppress, fuel);
        let (stk, cms) = res0->Some_0;
        let subres = interp_part(ctx, ni.start as int, ni.start as int, ni.end as int, false,
            true, (fuel - 1) as nat);
        if sub_empty {
            assert(subres matches Some(sc) && sc.0.len() == sub_handles.len());
        } else {
            assert(subres is None);
        }
        assert(interp_gene(ctx, g, lo, update, suppress, stk, cms, fuel) is None);
        assert(interp_part(ctx, lo, g, hi, update, suppress, fuel) is None);
        lemma_interp_none_propagates(ctx, lo, lo, g, hi, update, suppress, fuel);
    }
}

/// Generate the list of low-level scalar operations for the gene range
/// `[lo, hi)`.
///
/// * `neuron_update` — whether neurons in this range commit their values to
///   the persistence array (true only for the top-level pass);
/// * `suppress_root` — whether the neuron at index `lo` keeps its own weight
///   off the result (true when compiling on behalf of a forward jumper, which
///   supplies its own edge weight);
/// * `depth` — the remaining forward-jump nesting budget; exhausting it marks
///   the genome corrupt, which only a cyclic chain of forward references can
///   cause.
///
/// On success the returned handles are the residual stack, bottom first, and
/// the instructions appended to `computations` (plus the deferred commits
/// appended to `computations_end`) compute exactly what the reference
/// interpretation of the range computes, for every activation, input vector
/// and entry state. On failure the reference interpretation fails the same
/// way.
#[verifier::rlimit(100)]
pub fn evaluate(
    genome: &Vec<Gene>,
    neuron_info: &Vec<NeuronInfo>,
    lo: usize,
    hi: usize,
    neuron_update: bool,
    suppress_root: bool,
    computations: &mut Vec<Instruction>,
    computations_end: &mut Vec<Commit>,
    result_names: &mut ResultNames,
    recurrence_table: &RecurrenceTable,
    numeric_type: NumericType,
    input_count: usize,
    depth: usize,
) -> (r: Result<Vec<usize>, CompileError>)
    requires
        lo <= hi <= genome@.len(),
        inputs_bounded(genome@, input_count),
        info_bounded(neuron_info@, genome@.len() as int),
        old(result_names).index == old(computations)@.len(),
    ensures
        final(result_names).index == final(computations)@.len(),
        final(computations)@.len() >= old(computations)@.len(),
        final(computations)@.subrange(0, old(computations)@.len() as int) == old(computations)@,
        final(computations_end)@.len() >= old(computations_end)@.len(),
        final(computations_end)@.subrange(0, old(computations_end)@.len() as int)
            == old(computations_end)@,
        forall|k: int|
            old(computations)@.len() <= k < final(computations)@.len() ==> instr_wf(
                #[trigger] final(computations)@[k],
                k,
                input_count,
                recurrence_table.ids@.len() as usize,
            ),
        forall|k: int|
            old(computations_end)@.len() <= k < final(computations_end)@.len() ==> ((
            #[trigger] final(computations_end)@[k]).src < final(computations)@.len()
                && final(computations_end)@[k].slot < recurrence_table.ids@.len()),
        match r {
            Ok(handles) => (forall|k: int|
                0 <= k < handles@.len() ==> (#[trigger] handles@[k])
                    < final(computations)@.len()) && span_compiled(
                genome@,
                neuron_info@,
                recurrence_table.ids@,
                numeric_type,
                lo as int,
                lo as int,
                hi as int,
                neuron_update,
                suppress_root,
                depth as nat,
                final(computations)@,
                final(computations_end)@.skip(old(computations_end)@.len() as int),
                handles@,
            ),
            Err(e) => {
                &&& span_fails(
                    genome@,
                    neuron_info@,
                    recurrence_table.ids@,
                    numeric_type,
                    lo as int,
                    lo as int,
                    hi as int,
                    neuron_update,
                    suppress_root,
                    depth as nat,
                )
                &&& error_describes_genome(e, genome@)
                &&& !(e matches CompileError::InvalidInputId { .. })
            },
        },
    decreases depth,
{
    let ghost c0 = old(computations)@;
    let ghost e0 = old(computations_end)@;
    let ghost table = recurrence_table.ids@;
    // Reading the table's length once records that it fits in a usize.
    let _table_len = recurrence_table.len();
    let mut stack: Stack<usize> = Stack::new();
    let mut idx: usize = hi;
    proof {
        assert(computations_end@.skip(e0.len() as int) =~= Seq::<Commit>::empty());
        assert(computations@.subrange(0, c0.len() as int) =~= c0);
        assert(computations_end@.subrange(0, e0.len() as int) =~= e0);
    }
    while idx > lo
        invariant
            lo <= idx <= hi <= genome@.len(),
            c0 == old(computations)@,
            e0 == old(computations_end)@,
            inputs_bounded(genome@, input_count),
            info_bounded(neuron_info@, genome@.len() as int),
            table == recurrence_table.ids@,
            table.len() <= usize::MAX,
            result_names.index == computations@.len(),
            computations@.len() >= c0.len(),
            computations@.subrange(0, c0.len() as int) == c0,
            computations_end@.len() >= e0.len(),
            computations_end@.subrange(0, e0.len() as int) == e0,
            forall|k: int|
                0 <= k < stack.data@.len() ==> (#[trigger] stack.data@[k]) < computations@.len(),
            forall|k: int|
                c0.len() <= k < computations@.len() ==> instr_wf(
                    #[trigger] computations@[k],
                    k,
                    input_count,
                    table.len() as usize,
                ),
            forall|k: int|
                e0.len() <= k < computations_end@.len() ==> ((
                #[trigger] computations_end@[k]).src < computations@.len()
                    && computations_end@[k].slot < table.len()),
            span_compiled(
                genome@,
                neuron_info@,
                table,
                numeric_type,
                lo as int,
                idx as int,
                hi as int,
                neuron_update,
                suppress_root,
                depth as nat,
                computations@,
                computations_end@.skip(e0.len() as int),
                stack.data@,
            ),
        decreases idx,
    {
        let g = idx - 1;
        let ghost idx0 = idx as int;
        let ghost comp0 = computations@;
        let ghost cmts0 = computations_end@.skip(e0.len() as int);
        let ghost stk0 = stack.data@;
        match genome[g] {
            Gene::Input { weight, input_id } => {
                let w_bits = numeric_type.naive_conversion(weight);
                computations.push(Instruction::WeightedInput { weight: w_bits, input_id });
                // Reading the length bounds the handle counter below usize::MAX.
                let _emitted = computations.len();
                let h = result_names.advance();
                stack.push(h);
                proof {
                    assert(computations@.subrange(0, comp0.len() as int) =~= comp0);
                    lemma_prefix_trans(c0, comp0, computations@);
                    lemma_leaf_step(genome@, neuron_info@, table, numeric_type, lo as int, idx0,
                        hi as int, neuron_update, suppress_root, depth as nat, comp0, cmts0, stk0,
                        Instruction::WeightedInput { weight: w_bits, input_id }, h);
                }
            },
            Gene::Bias { weight } => {
                let w_bits = numeric_type.naive_conversion(weight);
                computations.push(Instruction::Constant { value: w_bits });
                // Reading the length bounds the handle counter below usize::MAX.
                let _emitted = computations.len();
                let h = result_names.advance();
                stack.push(h);
                proof {
                    assert(computations@.subrange(0, comp0.len() as int) =~= comp0);
                    lemma_prefix_trans(c0, comp0, computations@);
                    lemma_leaf_step(genome@, neuron_info@, table, numeric_type, lo as int, idx0,
                        hi as int, neuron_update, suppress_root, depth as nat, comp0, cmts0, stk0,
                        Instruction::Constant { value: w_bits }, h);
                }
            },
            Gene::RecurrentJumper { weight, source_id } => {
                let slot = match recurrence_table.lookup(source_id) {
                    Some(slot) => slot,
                    None => {
                        proof {
                            lemma_gene_fails(genome@, neuron_info@, table, numeric_type,
                                lo as int, idx0, hi as int, neuron_update, suppress_root,
                                depth as nat, comp0, cmts0, stk0);
                        }
                        return Err(
                            CompileError::DanglingRecurrentJumper { gene_index: g, source_id },
                        );
                    },
                };
                proof {
                    lemma_table_lookup(table, source_id);
                }
                let w_bits = numeric_type.naive_conversion(weight);
                computations.push(Instruction::ReadState { weight: w_bits, slot });
                // Reading the length bounds the handle counter below usize::MAX.
                let _emitted = computations.len();
                let h = result_names.advance();
                stack.push(h);
                proof {
                    assert(computations@.subrange(0, comp0.len() as int) =~= comp0);
                    lemma_prefix_trans(c0, comp0, computations@);
                    lemma_leaf_step(genome@, neuron_info@, table, numeric_type, lo as int, idx0,
                        hi as int, neuron_update, suppress_root, depth as nat, comp0, cmts0, stk0,
                        Instruction::ReadState { weight: w_bits, slot }, h);
                }
            },
            Gene::Neuron { weight, neuron_id, arity } => {
                let available = stack.data.len();
                if arity == 0 || arity > available {
                    proof {
                        lemma_gene_fails(genome@, neuron_info@, table, numeric_type, lo as int,
                            idx0, hi as int, neuron_update, suppress_root, depth as nat, comp0,
                            cmts0, stk0);
                    }
                    if arity == 0 {
                        return Err(CompileError::ZeroArityNeuron { gene_index: g, neuron_id });
                    }
                    return Err(
                        CompileError::InsufficientOperands {
                            gene_index: g,
                            neuron_id,
                            expected: arity,
                            available,
                        },
                    );
                }
                let popped = stack.pop(arity).unwrap();
                // Reverse the pop order, restoring left-to-right connection order.
                let mut operands: Vec<usize> = Vec::new();
                let mut q: usize = 0;
                while q < arity
                    invariant
                        q <= arity,
                        popped@.len() == arity,
                        operands@.len() == q,
                        forall|t: int| 0 <= t < q ==> operands@[t] == popped@[arity - 1 - t],
                    decreases arity - q,
                {
                    operands.push(popped[arity - 1 - q]);
                    q = q + 1;
                }
                proof {
                    assert forall|t: int| 0 <= t < arity implies operands@[t] == stk0[stk0.len()
                        - arity + t] by {
                        assert(operands@[t] == popped@[arity - 1 - t]);
                        assert(popped@[arity - 1 - t] == stk0[stk0.len() - 1 - (arity - 1 - t)]);
                    }
                }
                let ghost operand_handles = operands@;
                computations.push(Instruction::NeuronSum { operands });
                // Reading the length bounds the handle counter below usize::MAX.
                let _emitted = computations.len();
                let h = result_names.advance();
                let ghost comp1 = computations@;
                let ghost sum_instr = comp1.last();
                let mut slot: usize = 0;
                let mut committed: bool = false;
                if neuron_update {
                    match recurrence_table.lookup(neuron_id) {
                        Some(s) => {
                            proof {
                                lemma_table_lookup(table, neuron_id);
                            }
                            computations_end.push(Commit { slot: s, src: h });
                            slot = s;
                            committed = true;
                        },
                        None => {},
                    }
                }
                let suppressed = suppress_root && g == lo;
                let h2 = if !suppressed {
                    let w_bits = numeric_type.naive_conversion(weight);
                    computations.push(Instruction::WeightHandle { src: h, weight: w_bits });
                    let _emitted = computations.len();
                    let h2 = result_names.advance();
                    stack.push(h2);
                    h2
                } else {
                    stack.push(h);
                    h
                };
                proof {
                    assert(comp1.subrange(0, comp0.len() as int) =~= comp0);
                    assert(computations@.subrange(0, comp1.len() as int) =~= comp1);
                    lemma_prefix_trans(comp0, comp1, computations@);
                    lemma_prefix_trans(c0, comp0, computations@);
                    if committed {
                        assert(computations_end@.skip(e0.len() as int) =~= cmts0.push(
                            Commit { slot, src: h },
                        ));
                    } else {
                        assert(computations_end@.skip(e0.len() as int) == cmts0);
                    }
                    assert(stack.data@ =~= stk0.take(stk0.len() - arity).push(
                        if suppress_root && idx0 - 1 == lo as int {
                            h
                        } else {
                            h2
                        },
                    ));
                    lemma_neuron_step(genome@, neuron_info@, table, numeric_type, lo as int, idx0,
                        hi as int, neuron_update, suppress_root, depth as nat, comp0, cmts0, stk0,
                        weight, neuron_id, arity, sum_instr, operand_handles, h, h2, committed,
                        slot, computations@, computations_end@.skip(e0.len() as int),
                        stack.data@);
                }
            },
            Gene::ForwardJumper { weight, source_id } => {
                if depth == 0 {
                    proof {
                        lemma_gene_fails(genome@, neuron_info@, table, numeric_type, lo as int,
                            idx0, hi as int, neuron_update, suppress_root, depth as nat, comp0,
                            cmts0, stk0);
                    }
                    return Err(CompileError::DepthLimitExceeded { gene_index: g, source_id });
                }
                let ni = match info_find(neuron_info, source_id) {
                    Some(ni) => ni,
                    None => {
                        proof {
                            lemma_gene_fails(genome@, neuron_info@, table, numeric_type,
                                lo as int, idx0, hi as int, neuron_update, suppress_root,
                                depth as nat, comp0, cmts0, stk0);
                        }
                        return Err(
                            CompileError::DanglingForwardJumper { gene_index: g, source_id },
                        );
                    },
                };
                proof {
                    lemma_info_lookup(neuron_info@, source_id);
                    let k = choose|k: int| 0 <= k < neuron_info@.len() && neuron_info@[k] == ni;
                    assert(neuron_info@[k].start < neuron_info@[k].end <= genome@.len());
                }
                let ghost end_pre = computations_end@;
                let sub = evaluate(
                    genome,
                    neuron_info,
                    ni.start,
                    ni.end,
                    false,
                    true,
                    computations,
                    computations_end,
                    result_names,
                    recurrence_table,
                    numeric_type,
                    input_count,
                    depth - 1,
                );
                let ghost comp_mid = computations@;
                let ghost sub_commits = computations_end@.skip(end_pre.len() as int);
                proof {
                    lemma_prefix_trans(c0, comp0, comp_mid);
                    lemma_prefix_trans(e0, end_pre, computations_end@);
                    // Well-formedness of everything emitted since entry, stitched
                    // across the recursive call.
                    assert forall|k: int| c0.len() <= k < comp_mid.len() implies instr_wf(
                        #[trigger] comp_mid[k],
                        k,
                        input_count,
                        table.len() as usize,
                    ) by {
                        if k < comp0.len() {
                            assert(comp_mid.subrange(0, comp0.len() as int)[k] == comp_mid[k]);
                            assert(comp0[k] == comp_mid[k]);
                        }
                    }
                    assert forall|k: int| e0.len() <= k < computations_end@.len() implies ((
                    #[trigger] computations_end@[k]).src < comp_mid.len()
                        && computations_end@[k].slot < table.len()) by {
                        if k < end_pre.len() {
                            assert(computations_end@.subrange(0, end_pre.len() as int)[k]
                                == computations_end@[k]);
                            assert(end_pre[k] == computations_end@[k]);
                        }
                    }
                    assert(computations_end@.skip(e0.len() as int) =~= cmts0 + sub_commits) by {
                        assert forall|k: int| 0 <= k < cmts0.len() implies computations_end@.skip(
                            e0.len() as int,
                        )[k] == cmts0[k] by {
                            assert(computations_end@.subrange(0, end_pre.len() as int)[e0.len()
                                + k] == computations_end@[e0.len() + k]);
                            assert(end_pre[e0.len() + k] == cmts0[k]);
                        }
                    }
                }
                let sub_handles = match sub {
                    Ok(hs) => hs,
                    Err(e) => {
                        proof {
                            lemma_forward_sub_fails(genome@, neuron_info@, table, numeric_type,
                                lo as int, idx0, hi as int, neuron_update, suppress_root,
                                depth as nat, comp0, cmts0, stk0, source_id, ni, false, comp_mid,
                                sub_commits, Seq::empty());
                        }
                        return Err(e);
                    },
                };
                if sub_handles.len() == 0 {
                    proof {
                        lemma_forward_sub_fails(genome@, neuron_info@, table, numeric_type,
                            lo as int, idx0, hi as int, neuron_update, suppress_root,
                            depth as nat, comp0, cmts0, stk0, source_id, ni, true, comp_mid,
                            sub_commits, sub_handles@);
                    }
                    return Err(CompileError::EmptySubnetwork { gene_index: g, source_id });
                }
                let last_handle = sub_handles[sub_handles.len() - 1];
                let w_bits = numeric_type.naive_conversion(weight);
                computations.push(Instruction::WeightHandle { src: last_handle, weight: w_bits });
                // Reading the length bounds the handle counter below usize::MAX.
                let _emitted = computations.len();
                let h = result_names.advance();
                stack.push(h);
                proof {
                    assert(computations@.subrange(0, comp_mid.len() as int) =~= comp_mid);
                    lemma_prefix_trans(comp0, comp_mid, computations@);
                    lemma_prefix_trans(c0, comp0, computations@);
                    assert(last_handle == sub_handles@.last());
                    lemma_forward_step(genome@, neuron_info@, table, numeric_type, lo as int,
                        idx0, hi as int, neuron_update, suppress_root, depth as nat, comp0, cmts0,
                        stk0, weight, source_id, ni, comp_mid, sub_commits, sub_handles@, h,
                        computations@, computations_end@.skip(e0.len() as int));
                }
            },
        }
        idx = g;
        proof {
            assert(computations@.subrange(0, c0.len() as int) =~= c0);
            assert(computations_end@.subrange(0, e0.len() as int) =~= e0);
        }
    }
    Ok(stack.data)
}

} // verus!
