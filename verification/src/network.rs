//! A compiled network instance: an immutable program paired with this
//! instance's own persistent state vector.
//!
//! Distinct instances compiled from the same program own physically distinct
//! persistence vectors, so they may run on separate threads with no
//! coordination. The state can be read, overwritten and cleared as an opaque
//! block, to save and restore recurrent memory between runs.

use vstd::prelude::*;
use crate::program::OperationProgram;
use crate::program::execute;

verus! {

pub struct CompiledNetwork {
    pub program: OperationProgram,
    pub persistence: Vec<u64>,
}

impl CompiledNetwork {
    /// A well-formed program whose instance state has exactly the declared
    /// persistence size.
    pub open spec fn wf(self) -> bool {
        &&& self.program.wf()
        &&& self.persistence@.len() == self.program.persistence_size
    }

    /// Create an instance with all recurrent state cleared to positive zero.
    pub fn new(program: OperationProgram) -> (s: Self)
        requires
            program.wf(),
        ensures
            s.wf(),
            s.program == program,
            s.persistence@ == Seq::new(program.persistence_size as nat, |i: int| 0u64),
    {
        let mut persistence: Vec<u64> = Vec::new();
        let target = program.persistence_size;
        while persistence.len() < target
            invariant
                persistence@.len() <= target,
                persistence@ == Seq::new(persistence@.len(), |i: int| 0u64),
            decreases target - persistence@.len(),
        {
            persistence.push(0);
            proof {
                assert(persistence@ =~= Seq::new(persistence@.len(), |i: int| 0u64));
            }
        }
        Self { program, persistence }
    }

    /// Create an instance with the given internal recurrent state — restoring
    /// a snapshot of the network's recurrent memory.
    pub fn with_recurrent_state(program: OperationProgram, persistence: Vec<u64>) -> (s: Self)
        requires
            program.wf(),
            persistence@.len() == program.persistence_size,
        ensures
            s.wf(),
            s.program == program,
            s.persistence == persistence,
    {
        Self { program, persistence }
    }

    /// Overwrite the network's recurrent state with the given one.
    pub fn set_recurrent_state(&mut self, persistence: Vec<u64>)
        requires
            persistence@.len() == old(self).program.persistence_size,
        ensures
            final(self).program == old(self).program,
            final(self).persistence == persistence,
    {
        self.persistence = persistence;
    }

    /// Read the internal recurrent state.
    pub fn recurrent_state(&self) -> (r: &Vec<u64>)
        ensures
            r == &self.persistence,
    {
        &self.persistence
    }

    /// Clear the recurrent state to positive zero, as a fresh instance has it.
    pub fn clear_state(&mut self)
        ensures
            final(self).program == old(self).program,
            final(self).persistence@ == Seq::new(
                old(self).persistence@.len(),
                |i: int| 0u64,
            ),
    {
        let n = self.persistence.len();
        let mut i: usize = 0;
        while i < n
            invariant
                i <= n,
                n == self.persistence@.len(),
                self.program == old(self).program,
                forall|k: int| 0 <= k < i ==> self.persistence@[k] == 0u64,
                forall|k: int|
                    i <= k < n ==> self.persistence@[k] == old(self).persistence@[k],
            decreases n - i,
        {
            self.persistence[i] = 0;
            i = i + 1;
        }
        proof {
            assert(self.persistence@ =~= Seq::new(old(self).persistence@.len(), |k: int| 0u64));
        }
    }

    /// Evaluate the network for a single input vector: run the program against
    /// the inputs and this instance's state, committing the recurrent updates
    /// for the next call. Returns `None`, leaving the state untouched, only
    /// when the program's activation is one the executor cannot evaluate over
    /// bit patterns.
    pub fn evaluate(&mut self, inputs: &Vec<u64>) -> (r: Option<Vec<u64>>)
        requires
            old(self).wf(),
            inputs@.len() == old(self).program.input_count,
        ensures
            final(self).wf(),
            final(self).program == old(self).program,
            match r {
                Some(outputs) => old(self).program.activation.spec_executable() && outputs@
                    == old(self).program.spec_outputs(inputs@, old(self).persistence@)
                    && final(self).persistence@ == old(self).program.spec_final_state(
                    inputs@,
                    old(self).persistence@,
                ),
                None => !old(self).program.activation.spec_executable() && final(self).persistence@
                    == old(self).persistence@,
            },
    {
        execute(&self.program, inputs, &mut self.persistence)
    }
}

} // verus!
