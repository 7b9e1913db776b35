//! The compiled program: a straight-line list of scalar operations plus a
//! deferred list of state commits, and the executor that runs it.
//!
//! Every ordinary instruction defines exactly one fresh handle — its own
//! position in the list — over handles defined earlier, the input vector and
//! the persistent state read at entry. The deferred commits run strictly
//! after all ordinary instructions, so a recurrent read within a pass always
//! observes the previous pass's value.

use vstd::prelude::*;
use crate::activations::Activation;
use crate::activations::apply_activation;
use crate::activations::sem_activation;
use crate::numeric::NumericType;
use crate::numeric::num_add;
use crate::numeric::num_mul;
use crate::numeric::sem_add;
use crate::numeric::sem_mul;

verus! {

/// One straight-line operation. The handle it defines is its position in the
/// instruction list.
#[derive(Clone, Debug)]
pub enum Instruction {
    /// `h = weight × inputs[input_id]`
    WeightedInput { weight: u64, input_id: usize },
    /// `h = activation(operands[0] + operands[1] + …)`, summed left to right.
    NeuronSum { operands: Vec<usize> },
    /// `h = handles[src] × weight`
    WeightHandle { src: usize, weight: u64 },
    /// `h = weight × persistence[slot]`
    ReadState { weight: u64, slot: usize },
    /// `h = value`
    Constant { value: u64 },
}

/// A deferred state commit: `persistence[slot] = handles[src]`, executed
/// strictly after all ordinary instructions.
#[derive(Clone, Copy, Debug, PartialEq, Eq, Structural)]
pub struct Commit {
    pub slot: usize,
    pub src: usize,
}

/// The left-to-right sum of a nonempty value sequence:
/// `((v0 + v1) + v2) + …` at width `w`.
pub open spec fn sum_fold(w: NumericType, vals: Seq<u64>) -> u64
    recommends
        vals.len() >= 1,
    decreases vals.len(),
{
    if vals.len() <= 1 {
        vals[0]
    } else {
        sem_add(w, sum_fold(w, vals.drop_last()), vals.last())
    }
}

/// The values the given handles select from the handle list.
pub open spec fn operand_values(operands: Seq<usize>, prior: Seq<u64>) -> Seq<u64> {
    operands.map_values(|h: usize| prior[h as int])
}

/// The scalar an instruction defines, given the values `prior` of all earlier
/// handles.
pub open spec fn instr_value(
    ins: Instruction,
    prior: Seq<u64>,
    w: NumericType,
    act: Activation,
    inputs: Seq<u64>,
    state: Seq<u64>,
) -> u64 {
    match ins {
        Instruction::WeightedInput { weight, input_id } => sem_mul(
            w,
            weight,
            inputs[input_id as int],
        ),
        Instruction::NeuronSum { operands } => sem_activation(
            w,
            act,
            sum_fold(w, operand_values(operands@, prior)),
        ),
        Instruction::WeightHandle { src, weight } => sem_mul(w, prior[src as int], weight),
        Instruction::ReadState { weight, slot } => sem_mul(w, weight, state[slot as int]),
        Instruction::Constant { value } => value,
    }
}

/// The value of every handle an instruction list defines, in order.
pub open spec fn instr_values(
    instrs: Seq<Instruction>,
    w: NumericType,
    act: Activation,
    inputs: Seq<u64>,
    state: Seq<u64>,
) -> Seq<u64>
    decreases instrs.len(),
{
    if instrs.len() == 0 {
        Seq::empty()
    } else {
        let prior = instr_values(instrs.drop_last(), w, act, inputs, state);
        prior.push(instr_value(instrs.last(), prior, w, act, inputs, state))
    }
}

pub broadcast proof fn lemma_instr_values_len(
    instrs: Seq<Instruction>,
    w: NumericType,
    act: Activation,
    inputs: Seq<u64>,
    state: Seq<u64>,
)
    ensures
        #[trigger] instr_values(instrs, w, act, inputs, state).len() == instrs.len(),
    decreases instrs.len(),
{
    if instrs.len() > 0 {
        lemma_instr_values_len(instrs.drop_last(), w, act, inputs, state);
    }
}

/// Handle values are stable under appending instructions: a handle defined by
/// a prefix keeps its value in any extension.
pub proof fn lemma_instr_values_prefix(
    s1: Seq<Instruction>,
    s2: Seq<Instruction>,
    w: NumericType,
    act: Activation,
    inputs: Seq<u64>,
    state: Seq<u64>,
)
    requires
        s1.len() <= s2.len(),
        s2.subrange(0, s1.len() as int) == s1,
    ensures
        forall|k: int|
            0 <= k < s1.len() ==> instr_values(s2, w, act, inputs, state)[k] == instr_values(
                s1,
                w,
                act,
                inputs,
                state,
            )[k],
    decreases s2.len(),
{
    broadcast use lemma_instr_values_len;

    if s2.len() > s1.len() {
        assert(s2.drop_last().subrange(0, s1.len() as int) =~= s1);
        lemma_instr_values_prefix(s1, s2.drop_last(), w, act, inputs, state);
    } else {
        assert(s1 =~= s2);
    }
}

/// Whether the instruction at `position` only reaches earlier handles, valid
/// input slots and valid persistence slots.
pub open spec fn instr_wf(
    ins: Instruction,
    position: int,
    input_count: usize,
    persistence_size: usize,
) -> bool {
    match ins {
        Instruction::WeightedInput { input_id, .. } => input_id < input_count,
        Instruction::NeuronSum { operands } => operands@.len() >= 1 && forall|k: int|
            0 <= k < operands@.len() ==> operands@[k] < position,
        Instruction::WeightHandle { src, .. } => src < position,
        Instruction::ReadState { slot, .. } => slot < persistence_size,
        Instruction::Constant { .. } => true,
    }
}

/// The result of a sequence of commit effects `(slot, value)` applied in
/// order to an initial state.
pub open spec fn apply_effects(effects: Seq<(usize, u64)>, state: Seq<u64>) -> Seq<u64>
    decreases effects.len(),
{
    if effects.len() == 0 {
        state
    } else if effects.last().0 < state.len() {
        apply_effects(effects.drop_last(), state).update(
            effects.last().0 as int,
            effects.last().1,
        )
    } else {
        apply_effects(effects.drop_last(), state)
    }
}

pub broadcast proof fn lemma_apply_effects_len(effects: Seq<(usize, u64)>, state: Seq<u64>)
    ensures
        #[trigger] apply_effects(effects, state).len() == state.len(),
    decreases effects.len(),
{
    if effects.len() > 0 {
        lemma_apply_effects_len(effects.drop_last(), state);
    }
}

/// An immutable compiled network: ordinary instructions, deferred commits,
/// the handles feeding each output slot, the declared counts, the numeric
/// width and the activation identifier.
#[derive(Clone, Debug)]
pub struct OperationProgram {
    pub instructions: Vec<Instruction>,
    pub commits: Vec<Commit>,
    pub outputs: Vec<usize>,
    pub input_count: usize,
    pub output_count: usize,
    pub persistence_size: usize,
    pub numeric_type: NumericType,
    pub activation: Activation,
}

impl OperationProgram {
    /// Every reference in the program is in bounds: instructions reach only
    /// earlier handles, declared inputs and declared persistence slots, and
    /// the output list matches the declared output count.
    pub open spec fn wf(self) -> bool {
        &&& forall|k: int|
            0 <= k < self.instructions@.len() ==> instr_wf(
                #[trigger] self.instructions@[k],
                k,
                self.input_count,
                self.persistence_size,
            )
        &&& forall|k: int|
            0 <= k < self.commits@.len() ==> ((#[trigger] self.commits@[k]).src
                < self.instructions@.len() && self.commits@[k].slot < self.persistence_size)
        &&& forall|k: int|
            0 <= k < self.outputs@.len() ==> #[trigger] self.outputs@[k]
                < self.instructions@.len()
        &&& self.output_count == self.outputs@.len()
    }

    /// The value of every handle, for the given inputs and entry state.
    pub open spec fn spec_values(self, inputs: Seq<u64>, state: Seq<u64>) -> Seq<u64> {
        instr_values(self.instructions@, self.numeric_type, self.activation, inputs, state)
    }

    /// The output vector: one handle value per output slot, in slot order.
    pub open spec fn spec_outputs(self, inputs: Seq<u64>, state: Seq<u64>) -> Seq<u64> {
        self.outputs@.map_values(|h: usize| self.spec_values(inputs, state)[h as int])
    }

    /// The deferred commits as `(slot, value)` effects, in commit order.
    pub open spec fn spec_commit_effects(self, inputs: Seq<u64>, state: Seq<u64>) -> Seq<
        (usize, u64),
    > {
        self.commits@.map_values(
            |c: Commit| (c.slot, self.spec_values(inputs, state)[c.src as int]),
        )
    }

    /// The persistent state after one pass: the entry state with every commit
    /// applied in order.
    pub open spec fn spec_final_state(self, inputs: Seq<u64>, state: Seq<u64>) -> Seq<u64> {
        apply_effects(self.spec_commit_effects(inputs, state), state)
    }
}

/// Run a compiled program against an input vector and a persistent state
/// vector: compute every handle in order, then apply the deferred commits,
/// then gather the outputs.
///
/// Execution is total and pure — no failure is possible — whenever the
/// program's activation is one the executor can evaluate over bit patterns;
/// for the three activations that need the platform's transcendental
/// functions the executor declines and leaves the state untouched.
pub fn execute(program: &OperationProgram, inputs: &Vec<u64>, state: &mut Vec<u64>) -> (r: Option<
    Vec<u64>,
>)
    requires
        program.wf(),
        inputs@.len() == program.input_count,
        old(state)@.len() == program.persistence_size,
    ensures
        final(state)@.len() == program.persistence_size,
        match r {
            Some(outputs) => program.activation.spec_executable() && outputs@
                == program.spec_outputs(inputs@, old(state)@) && final(state)@
                == program.spec_final_state(inputs@, old(state)@),
            None => !program.activation.spec_executable() && final(state)@ == old(state)@,
        },
{
    broadcast use lemma_instr_values_len;
    broadcast use lemma_apply_effects_len;

    let w = program.numeric_type;
    let act = program.activation;
    if !act.executable() {
        return None;
    }
    let n = program.instructions.len();
    let ghost all_values = program.spec_values(inputs@, old(state)@);
    let mut values: Vec<u64> = Vec::new();
    let mut i: usize = 0;
    while i < n
        invariant
            i <= n,
            n == program.instructions@.len(),
            program.wf(),
            act == program.activation,
            w == program.numeric_type,
            act.spec_executable(),
            inputs@.len() == program.input_count,
            state@ == old(state)@,
            state@.len() == program.persistence_size,
            values@ == instr_values(
                program.instructions@.take(i as int),
                w,
                act,
                inputs@,
                state@,
            ),
            values@.len() == i,
        decreases n - i,
    {
        let ghost prefix = program.instructions@.take(i as int);
        assert(instr_wf(program.instructions@[i as int], i as int, program.input_count,
            program.persistence_size));
        let v: u64 = match &program.instructions[i] {
            Instruction::WeightedInput { weight, input_id } => num_mul(
                w,
                *weight,
                inputs[*input_id],
            ),
            Instruction::NeuronSum { operands } => {
                let m = operands.len();
                let ghost opvals = operand_values(operands@, values@);
                let mut acc: u64 = values[operands[0]];
                let mut k: usize = 1;
                while k < m
                    invariant
                        1 <= k <= m,
                        m == operands@.len(),
                        values@.len() == i,
                        forall|q: int| 0 <= q < m ==> operands@[q] < i,
                        opvals == operand_values(operands@, values@),
                        acc == sum_fold(w, opvals.take(k as int)),
                    decreases m - k,
                {
                    let next = values[operands[k]];
                    proof {
                        assert(opvals.take(k + 1).drop_last() =~= opvals.take(k as int));
                        assert(opvals.take(k + 1).last() == opvals[k as int]);
                        assert(opvals[k as int] == values@[operands@[k as int] as int]);
                    }
                    acc = num_add(w, acc, next);
                    k = k + 1;
                }
                proof {
                    assert(opvals.take(m as int) =~= opvals);
                }
                apply_activation(w, act, acc)
            },
            Instruction::WeightHandle { src, weight } => num_mul(w, values[*src], *weight),
            Instruction::ReadState { weight, slot } => num_mul(w, *weight, state[*slot]),
            Instruction::Constant { value } => *value,
        };
        values.push(v);
        i = i + 1;
        proof {
            let taken = program.instructions@.take(i as int);
            assert(taken.drop_last() =~= prefix);
            assert(taken.last() == program.instructions@[i - 1]);
            assert(v == instr_value(taken.last(), instr_values(prefix, w, act, inputs@, state@),
                w, act, inputs@, state@));
        }
    }
    proof {
        assert(program.instructions@.take(n as int) =~= program.instructions@);
        assert(values@ == all_values);
    }
    // Deferred state commits, strictly after all ordinary instructions.
    let ghost effects = program.spec_commit_effects(inputs@, old(state)@);
    let cn = program.commits.len();
    let mut c: usize = 0;
    while c < cn
        invariant
            c <= cn,
            cn == program.commits@.len(),
            program.wf(),
            values@ == all_values,
            all_values == program.spec_values(inputs@, old(state)@),
            all_values.len() == program.instructions@.len(),
            effects == program.spec_commit_effects(inputs@, old(state)@),
            state@ == apply_effects(effects.take(c as int), old(state)@),
            state@.len() == program.persistence_size,
            old(state)@.len() == program.persistence_size,
        decreases cn - c,
    {
        let commit = program.commits[c];
        let cv = values[commit.src];
        proof {
            assert(effects[c as int] == (commit.slot, all_values[commit.src as int]));
            assert(effects.take(c + 1).drop_last() =~= effects.take(c as int));
            assert(effects.take(c + 1).last() == effects[c as int]);
        }
        state[commit.slot] = cv;
        c = c + 1;
    }
    proof {
        assert(effects.take(cn as int) =~= effects);
    }
    // Gather the outputs from the residual handles, in slot order.
    let on = program.outputs.len();
    let mut outputs: Vec<u64> = Vec::new();
    let mut o: usize = 0;
    while o < on
        invariant
            o <= on,
            on == program.outputs@.len(),
            program.wf(),
            values@ == all_values,
            all_values == program.spec_values(inputs@, old(state)@),
            all_values.len() == program.instructions@.len(),
            outputs@ == program.spec_outputs(inputs@, old(state)@).take(o as int),
        decreases on - o,
    {
        let h = program.outputs[o];
        outputs.push(values[h]);
        o = o + 1;
        proof {
            let so = program.spec_outputs(inputs@, old(state)@);
            assert(so.take(o as int).drop_last() =~= so.take(o - 1));
            assert(so[o - 1] == all_values[program.outputs@[o - 1] as int]);
        }
    }
    proof {
        assert(program.spec_outputs(inputs@, old(state)@).take(on as int) =~= program.spec_outputs(
            inputs@,
            old(state)@,
        ));
    }
    Some(outputs)
}

/// When no instruction reads the persistent state, handle values do not
/// depend on it.
proof fn lemma_values_state_independent(
    instrs: Seq<Instruction>,
    w: NumericType,
    act: Activation,
    inputs: Seq<u64>,
    state1: Seq<u64>,
    state2: Seq<u64>,
)
    requires
        forall|k: int|
            0 <= k < instrs.len() ==> !((#[trigger] instrs[k]) matches Instruction::ReadState {
                ..
            }),
    ensures
        instr_values(instrs, w, act, inputs, state1) == instr_values(
            instrs,
            w,
            act,
            inputs,
            state2,
        ),
    decreases instrs.len(),
{
    if instrs.len() > 0 {
        lemma_values_state_independent(instrs.drop_last(), w, act, inputs, state1, state2);
        assert(!(instrs[instrs.len() - 1] matches Instruction::ReadState { .. }));
    }
}

/// Determinism and purity of non-recurrent execution: a well-formed program
/// with persistence size zero can hold no state read and no state commit, so
/// its outputs are a function of the inputs alone — identical for any two
/// entry states — and execution never changes the state.
pub proof fn lemma_execute_deterministic(
    program: OperationProgram,
    inputs: Seq<u64>,
    state1: Seq<u64>,
    state2: Seq<u64>,
)
    requires
        program.wf(),
        program.persistence_size == 0,
    ensures
        program.spec_outputs(inputs, state1) == program.spec_outputs(inputs, state2),
        program.spec_final_state(inputs, state1) == state1,
{
    assert forall|k: int| 0 <= k < program.instructions@.len() implies !((
    #[trigger] program.instructions@[k]) matches Instruction::ReadState { .. }) by {
        assert(instr_wf(program.instructions@[k], k, program.input_count,
            program.persistence_size));
    }
    lemma_values_state_independent(
        program.instructions@,
        program.numeric_type,
        program.activation,
        inputs,
        state1,
        state2,
    );
    assert(program.spec_outputs(inputs, state1) =~= program.spec_outputs(inputs, state2));
    // No commit can target a slot below zero, so the commit list is empty and
    // the state survives untouched.
    assert(program.commits@.len() == 0) by {
        if program.commits@.len() > 0 {
            assert(program.commits@[0].slot < program.persistence_size);
        }
    }
    assert(program.spec_commit_effects(inputs, state1) =~= Seq::<(usize, u64)>::empty());
}

} // verus!
