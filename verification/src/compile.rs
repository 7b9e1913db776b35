//! The compile interface: turn a genome into an `OperationProgram`.
//!
//! Compilation builds the recurrence table and the subtree map, counts the
//! distinct input ids, flattens the whole genome with state updates on, and
//! assembles the residual stack into the output slots, in push order. The
//! central contract, `program_matches_genome`, states that the compiled
//! program computes — for every input vector, entry state and matching
//! activation — bit for bit what the naive tree-walking interpretation of the
//! genome computes: the same outputs and the same deferred state commits.

use vstd::prelude::*;
use crate::activations::Activation;
use crate::evaluator::ResultNames;
use crate::evaluator::evaluate;
use crate::evaluator::inputs_bounded;
use crate::evaluator::span_compiled;
use crate::evaluator::span_fails;
use crate::gene::CompileError;
use crate::gene::Gene;
use crate::gene::error_describes_genome;
use crate::numeric::NumericType;
use crate::program::Commit;
use crate::program::Instruction;
use crate::program::OperationProgram;
use crate::program::lemma_instr_values_len;
use crate::ranges::build_neuron_info;
use crate::ranges::spec_neuron_info;
use crate::recurrence::identify_recurrence;
use crate::recurrence::spec_recurrent_ids;
use crate::semantics::InterpCtx;
use crate::semantics::ctx_fixed;
use crate::semantics::interp_part;

verus! {

/// The distinct input ids of the genome's input genes, in order of first
/// encounter; the network's declared input count is this sequence's length.
pub open spec fn spec_input_ids(g: Seq<Gene>) -> Seq<usize>
    decreases g.len(),
{
    if g.len() == 0 {
        Seq::empty()
    } else {
        let prev = spec_input_ids(g.drop_last());
        match g.last() {
            Gene::Input { input_id, .. } => if prev.contains(input_id) {
                prev
            } else {
                prev.push(input_id)
            },
            _ => prev,
        }
    }
}

/// Every input gene's slot index lies below the number of distinct input ids
/// — equivalently, the ids are exactly `0..count`. A genome that fails this
/// would index past the end of its own declared input vector.
pub open spec fn inputs_dense(genome: Seq<Gene>) -> bool {
    forall|k: int|
        0 <= k < genome.len() ==> ((#[trigger] genome[k]) matches Gene::Input { input_id, .. }
            ==> (input_id as int) < spec_input_ids(genome).len())
}

/// Whether every interpretation context for this genome at this width — any
/// activation, inputs and entry state — interprets successfully and leaves at
/// least one output on the stack.
pub open spec fn genome_interp_ok(genome: Seq<Gene>, width: NumericType) -> bool {
    forall|ctx: InterpCtx|
        ctx_fixed(
            ctx,
            genome,
            spec_neuron_info(genome)->Some_0,
            spec_recurrent_ids(genome),
            width,
        ) ==> match #[trigger] interp_part(
            ctx,
            0,
            0,
            genome.len() as int,
            true,
            false,
            genome.len() as nat,
        ) {
            Some(sc) => sc.0.len() > 0,
            None => false,
        }
}

/// Exactly when compilation succeeds: the subtree map builds, the input ids
/// are dense, and the genome interprets to at least one output.
pub open spec fn compilable(genome: Seq<Gene>, width: NumericType) -> bool {
    &&& spec_neuron_info(genome) is Some
    &&& inputs_dense(genome)
    &&& genome_interp_ok(genome, width)
}

/// The compiled program reproduces the genome's naive tree-walking
/// interpretation bit for bit, for every input vector, entry state and
/// matching activation: the program's outputs are the interpreter's residual
/// stack in push order, and the program's deferred commit effects are the
/// interpreter's commit list.
pub open spec fn program_matches_genome(program: OperationProgram, genome: Seq<Gene>) -> bool {
    forall|ctx: InterpCtx|
        ctx_fixed(
            ctx,
            genome,
            spec_neuron_info(genome)->Some_0,
            spec_recurrent_ids(genome),
            program.numeric_type,
        ) && ctx.act == program.activation ==> match #[trigger] interp_part(
            ctx,
            0,
            0,
            genome.len() as int,
            true,
            false,
            genome.len() as nat,
        ) {
            Some(sc) => {
                &&& program.spec_outputs(ctx.inputs, ctx.state) == sc.0
                &&& program.spec_commit_effects(ctx.inputs, ctx.state) == sc.1
            },
            None => false,
        }
}

/// Collect the distinct input ids in order of first encounter.
fn collect_input_ids(genome: &Vec<Gene>) -> (ids: Vec<usize>)
    ensures
        ids@ == spec_input_ids(genome@),
{
    let mut ids: Vec<usize> = Vec::new();
    let n = genome.len();
    let mut i: usize = 0;
    while i < n
        invariant
            i <= n,
            n == genome@.len(),
            ids@ == spec_input_ids(genome@.take(i as int)),
        decreases n - i,
    {
        let ghost prefix = genome@.take(i as int);
        match genome[i] {
            Gene::Input { input_id, .. } => {
                let mut seen: bool = false;
                let m = ids.len();
                let mut j: usize = 0;
                while j < m
                    invariant
                        j <= m,
                        m == ids@.len(),
                        seen == exists|q: int| 0 <= q < j && ids@[q] == input_id,
                    decreases m - j,
                {
                    if ids[j] == input_id {
                        seen = true;
                    }
                    j = j + 1;
                }
                if !seen {
                    ids.push(input_id);
                }
            },
            _ => {},
        }
        i = i + 1;
        proof {
            assert(genome@.take(i as int).drop_last() =~= prefix);
            assert(genome@.take(i as int).last() == genome@[i - 1]);
        }
    }
    proof {
        assert(genome@.take(n as int) =~= genome@);
    }
    ids
}

/// Compile a genome into an immutable straight-line program at the chosen
/// numeric width, for the chosen activation.
///
/// Succeeds exactly when the genome is not corrupt: every neuron finds its
/// declared operands, neuron ids are unique, jumper targets resolve, forward
/// references do not form a cycle, input ids are dense, and a full top-level
/// pass leaves at least one output. On success the program is well-formed,
/// its input count is the number of distinct input ids, its persistence size
/// is the number of distinct recurrently-referenced neuron ids, and it
/// matches the genome's interpretation exactly. Each error identifies the
/// offending gene position and id where one exists.
pub fn compile(genome: &Vec<Gene>, numeric_type: NumericType, activation: Activation) -> (r:
    Result<OperationProgram, CompileError>)
    ensures
        match r {
            Ok(program) => {
                &&& compilable(genome@, numeric_type)
                &&& program.wf()
                &&& program.numeric_type == numeric_type
                &&& program.activation == activation
                &&& program.input_count == spec_input_ids(genome@).len()
                &&& program.persistence_size == spec_recurrent_ids(genome@).len()
                &&& program.output_count >= 1
                &&& program_matches_genome(program, genome@)
            },
            Err(e) => {
                &&& !compilable(genome@, numeric_type)
                &&& error_describes_genome(e, genome@)
                &&& (e matches CompileError::InvalidInputId { input_id, .. } ==> (
                input_id as int) >= spec_input_ids(genome@).len())
            },
        },
{
    broadcast use lemma_instr_values_len;

    let recurrence_table = identify_recurrence(genome);
    let neuron_info = match build_neuron_info(genome) {
        Ok(info) => info,
        Err(e) => {
            return Err(e);
        },
    };
    let input_ids = collect_input_ids(genome);
    let input_count = input_ids.len();
    let n = genome.len();
    let mut i: usize = 0;
    while i < n
        invariant
            i <= n,
            n == genome@.len(),
            input_count as int == spec_input_ids(genome@).len(),
            forall|k: int|
                0 <= k < i ==> ((#[trigger] genome@[k]) matches Gene::Input { input_id, .. }
                    ==> input_id < input_count),
        decreases n - i,
    {
        match genome[i] {
            Gene::Input { input_id, .. } => {
                if input_id >= input_count {
                    proof {
                        assert(!inputs_dense(genome@));
                    }
                    return Err(CompileError::InvalidInputId { gene_index: i, input_id });
                }
            },
            _ => {},
        }
        i = i + 1;
    }
    assert(inputs_bounded(genome@, input_count));
    assert(inputs_dense(genome@));
    let mut computations: Vec<Instruction> = Vec::new();
    let mut computations_end: Vec<Commit> = Vec::new();
    let mut result_names = ResultNames::new();
    let ghost table = recurrence_table.ids@;
    let outputs = match evaluate(
        genome,
        &neuron_info,
        0,
        n,
        true,
        false,
        &mut computations,
        &mut computations_end,
        &mut result_names,
        &recurrence_table,
        numeric_type,
        input_count,
        n,
    ) {
        Ok(handles) => handles,
        Err(e) => {
            proof {
                lemma_not_interp_ok_of_fails(genome@, numeric_type, table, neuron_info@);
            }
            return Err(e);
        },
    };
    let output_count = outputs.len();
    if output_count == 0 {
        proof {
            assert(computations_end@.skip(0) =~= computations_end@);
            lemma_not_interp_ok_of_empty(
                genome@,
                numeric_type,
                table,
                neuron_info@,
                computations@,
                computations_end@,
                outputs@,
            );
        }
        return Err(CompileError::NoOutputs);
    }
    let persistence_size = recurrence_table.len();
    let program = OperationProgram {
        instructions: computations,
        commits: computations_end,
        outputs,
        input_count,
        output_count,
        persistence_size,
        numeric_type,
        activation,
    };
    proof {
        assert(program.commits@.skip(0) =~= program.commits@);
        assert forall|ctx: InterpCtx|
            ctx_fixed(
                ctx,
                genome@,
                spec_neuron_info(genome@)->Some_0,
                spec_recurrent_ids(genome@),
                numeric_type,
            ) implies match interp_part(ctx, 0, 0, genome@.len() as int, true, false,
            genome@.len() as nat) {
            Some(sc) => {
                &&& sc.0.len() > 0
                &&& (ctx.act == activation ==> program.spec_outputs(ctx.inputs, ctx.state) == sc.0
                    && program.spec_commit_effects(ctx.inputs, ctx.state) == sc.1)
            },
            None => false,
        } by {
            let res = interp_part(ctx, 0, 0, genome@.len() as int, true, false,
                genome@.len() as nat);
            let (stk, cms) = res->Some_0;
            let vals = instr_values_of(program, ctx);
            if ctx.act == activation {
                assert(program.spec_outputs(ctx.inputs, ctx.state) =~= stk);
                assert(program.spec_commit_effects(ctx.inputs, ctx.state) =~= cms);
            }
        }
    }
    Ok(program)
}

/// The handle values of a program under a context — shorthand used in proofs.
pub open spec fn instr_values_of(program: OperationProgram, ctx: InterpCtx) -> Seq<u64> {
    crate::program::instr_values(
        program.instructions@,
        program.numeric_type,
        ctx.act,
        ctx.inputs,
        ctx.state,
    )
}

/// A failed flattening refutes `genome_interp_ok` — witnessed by any one
/// context.
proof fn lemma_not_interp_ok_of_fails(
    genome: Seq<Gene>,
    width: NumericType,
    table: Seq<usize>,
    info: Seq<crate::ranges::NeuronInfo>,
)
    requires
        table == spec_recurrent_ids(genome),
        spec_neuron_info(genome) == Some(info),
        span_fails(genome, info, table, width, 0, 0, genome.len() as int, true, false,
            genome.len() as nat),
    ensures
        !genome_interp_ok(genome, width),
{
    let ctx0 = InterpCtx {
        genome,
        info,
        table,
        width,
        act: Activation::Linear,
        inputs: Seq::empty(),
        state: Seq::empty(),
    };
    assert(interp_part(ctx0, 0, 0, genome.len() as int, true, false, genome.len() as nat)
        is None);
}

/// A flattening that leaves nothing on the stack refutes `genome_interp_ok` —
/// witnessed by any one context.
proof fn lemma_not_interp_ok_of_empty(
    genome: Seq<Gene>,
    width: NumericType,
    table: Seq<usize>,
    info: Seq<crate::ranges::NeuronInfo>,
    comps: Seq<Instruction>,
    commits: Seq<Commit>,
    handles: Seq<usize>,
)
    requires
        table == spec_recurrent_ids(genome),
        spec_neuron_info(genome) == Some(info),
        handles.len() == 0,
        span_compiled(genome, info, table, width, 0, 0, genome.len() as int, true, false,
            genome.len() as nat, comps, commits, handles),
    ensures
        !genome_interp_ok(genome, width),
{
    let ctx0 = InterpCtx {
        genome,
        info,
        table,
        width,
        act: Activation::Linear,
        inputs: Seq::empty(),
        state: Seq::empty(),
    };
    assert(interp_part(ctx0, 0, 0, genome.len() as int, true, false, genome.len() as nat)
        matches Some(sc) && sc.0.len() == 0);
}

/// Differential equivalence: a compiled program and the naive tree-walking
/// interpretation of its genome produce bit-identical outputs and end in
/// bit-identical recurrent state, for every input vector and entry state the
/// context carries.
pub proof fn lemma_differential_equivalence(
    program: OperationProgram,
    genome: Seq<Gene>,
    ctx: InterpCtx,
)
    requires
        program.wf(),
        program_matches_genome(program, genome),
        ctx_fixed(
            ctx,
            genome,
            spec_neuron_info(genome)->Some_0,
            spec_recurrent_ids(genome),
            program.numeric_type,
        ),
        ctx.act == program.activation,
    ensures
        interp_part(ctx, 0, 0, genome.len() as int, true, false, genome.len() as nat)
            matches Some(sc) && program.spec_outputs(ctx.inputs, ctx.state) == sc.0
            && program.spec_final_state(ctx.inputs, ctx.state) == crate::program::apply_effects(
            sc.1,
            ctx.state,
        ),
{
    let res = interp_part(ctx, 0, 0, genome.len() as int, true, false, genome.len() as nat);
    let (stk, cms) = res->Some_0;
    assert(program.spec_commit_effects(ctx.inputs, ctx.state) == cms);
}

/// Output-count invariant: a compiled program declares exactly as many
/// outputs as the interpreter leaves on its residual stack after a full
/// top-level pass.
pub proof fn lemma_output_count_is_residual_stack(
    program: OperationProgram,
    genome: Seq<Gene>,
    ctx: InterpCtx,
)
    requires
        program.wf(),
        program_matches_genome(program, genome),
        ctx_fixed(
            ctx,
            genome,
            spec_neuron_info(genome)->Some_0,
            spec_recurrent_ids(genome),
            program.numeric_type,
        ),
        ctx.act == program.activation,
    ensures
        interp_part(ctx, 0, 0, genome.len() as int, true, false, genome.len() as nat)
            matches Some(sc) && sc.0.len() == program.output_count,
{
    let res = interp_part(ctx, 0, 0, genome.len() as int, true, false, genome.len() as nat);
    let (stk, cms) = res->Some_0;
    assert(program.spec_outputs(ctx.inputs, ctx.state) == stk);
    assert(program.spec_outputs(ctx.inputs, ctx.state).len() == program.outputs@.len());
}

} // verus!
