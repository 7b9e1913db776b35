//! The explicit operand stack used while flattening a gene range.

use vstd::prelude::*;

verus! {

/// A stack of operand handles (or any other payload).
pub struct Stack<T> {
    pub data: Vec<T>,
}

impl<T> Stack<T> {
    pub fn new() -> (s: Self)
        ensures
            s.data@ == Seq::<T>::empty(),
    {
        Self { data: Vec::new() }
    }

    /// Pop `count` values, most recently pushed first. Returns `None`, and
    /// leaves the stack unchanged, when fewer than `count` are held.
    pub fn pop(&mut self, count: usize) -> (r: Option<Vec<T>>)
        ensures
            match r {
                None => count > old(self).data@.len() && final(self).data@ == old(self).data@,
                Some(popped) => {
                    &&& count <= old(self).data@.len()
                    &&& final(self).data@ == old(self).data@.take(old(self).data@.len() - count)
                    &&& popped@.len() == count
                    &&& forall|i: int|
                        0 <= i < count ==> popped@[i] == old(self).data@[old(self).data@.len() - 1
                            - i]
                },
            },
    {
        if count > self.data.len() {
            return None;
        }
        let mut result: Vec<T> = Vec::new();
        let mut taken: usize = 0;
        while taken < count
            invariant
                taken <= count,
                count <= old(self).data@.len(),
                self.data@ == old(self).data@.take(old(self).data@.len() - taken),
                result@.len() == taken,
                forall|i: int|
                    0 <= i < taken ==> result@[i] == old(self).data@[old(self).data@.len() - 1 - i],
            decreases count - taken,
        {
            let v = self.data.pop().unwrap();
            result.push(v);
            taken = taken + 1;
            proof {
                assert(self.data@ =~= old(self).data@.take(old(self).data@.len() - taken));
            }
        }
        Some(result)
    }

    pub fn push(&mut self, value: T)
        ensures
            final(self).data@ == old(self).data@.push(value),
    {
        self.data.push(value);
    }
}

} // verus!
