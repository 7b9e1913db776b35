//! The recurrence table: a dense, injective numbering of every neuron id that
//! some recurrent jumper references.
//!
//! The table's length is the network's persistence size — the number of
//! scalars of state carried between evaluations. Slot indices are assigned in
//! order of first encounter during a single pass over the genome.

use vstd::prelude::*;
use vstd::seq_lib::*;
use crate::gene::Gene;

verus! {

/// A constraint a caller may place on the recurrency of a compiled network.
#[derive(Clone, Copy, Debug, PartialEq, Eq, Structural)]
pub enum RecurrencyConstraint {
    Required,
    Forbidden,
    DontCare,
}

impl RecurrencyConstraint {
    /// Whether a network with `persistence_size` state slots satisfies this
    /// constraint: `Required` demands at least one, `Forbidden` demands none.
    pub fn permits(&self, persistence_size: usize) -> (r: bool)
        ensures
            r == match *self {
                RecurrencyConstraint::Required => persistence_size > 0,
                RecurrencyConstraint::Forbidden => persistence_size == 0,
                RecurrencyConstraint::DontCare => true,
            },
    {
        match self {
            RecurrencyConstraint::Required => persistence_size > 0,
            RecurrencyConstraint::Forbidden => persistence_size == 0,
            RecurrencyConstraint::DontCare => true,
        }
    }
}

/// The distinct source ids of the genome's recurrent jumpers, in order of
/// first encounter.
pub open spec fn spec_recurrent_ids(g: Seq<Gene>) -> Seq<usize>
    decreases g.len(),
{
    if g.len() == 0 {
        Seq::empty()
    } else {
        let prev = spec_recurrent_ids(g.drop_last());
        match g.last() {
            Gene::RecurrentJumper { source_id, .. } => if prev.contains(source_id) {
                prev
            } else {
                prev.push(source_id)
            },
            _ => prev,
        }
    }
}

/// Whether `gene` is a recurrent jumper referencing `id`.
pub open spec fn is_recurrent_ref(gene: Gene, id: usize) -> bool {
    gene matches Gene::RecurrentJumper { source_id, .. } && source_id == id
}

/// The set of neuron ids referenced by any recurrent jumper in the genome.
pub open spec fn spec_recurrent_source_set(g: Seq<Gene>) -> Set<usize> {
    Set::new(|id: usize| exists|j: int| 0 <= j < g.len() && #[trigger] is_recurrent_ref(g[j], id))
}

/// The slot of the first occurrence of `id`, if any.
pub open spec fn spec_table_lookup(table: Seq<usize>, id: usize) -> Option<int>
    decreases table.len(),
{
    if table.len() == 0 {
        None
    } else if table[0] == id {
        Some(0int)
    } else {
        match spec_table_lookup(table.drop_first(), id) {
            Some(k) => Some(k + 1),
            None => None,
        }
    }
}

/// A found slot is in bounds, holds `id`, and exists exactly when the table
/// contains `id`.
pub proof fn lemma_table_lookup(table: Seq<usize>, id: usize)
    ensures
        match spec_table_lookup(table, id) {
            Some(k) => 0 <= k < table.len() && table[k] == id,
            None => !table.contains(id),
        },
    decreases table.len(),
{
    if table.len() > 0 && table[0] != id {
        lemma_table_lookup(table.drop_first(), id);
        if spec_table_lookup(table.drop_first(), id) is None {
            assert forall|j: int| 0 <= j < table.len() implies table[j] != id by {
                if j > 0 {
                    assert(table.drop_first()[j - 1] == table[j]);
                }
            }
        }
    }
}

/// The injective mapping from referenced neuron id to persistence slot:
/// slot `k` belongs to `ids[k]`.
pub struct RecurrenceTable {
    pub ids: Vec<usize>,
}

impl RecurrenceTable {
    /// The persistence size: one slot per distinct referenced neuron id.
    pub fn len(&self) -> (r: usize)
        ensures
            r == self.ids@.len(),
    {
        self.ids.len()
    }

    /// The persistence slot assigned to `id`, if any recurrent jumper
    /// references it.
    pub fn lookup(&self, id: usize) -> (r: Option<usize>)
        ensures
            match r {
                Some(slot) => spec_table_lookup(self.ids@, id) == Some(slot as int),
                None => spec_table_lookup(self.ids@, id) is None,
            },
    {
        let n = self.ids.len();
        let mut i: usize = 0;
        while i < n
            invariant
                i <= n,
                n == self.ids@.len(),
                forall|j: int| 0 <= j < i ==> self.ids@[j] != id,
            decreases n - i,
        {
            if self.ids[i] == id {
                proof {
                    lemma_lookup_of_prefix_hit(self.ids@, id, i as int);
                }
                return Some(i);
            }
            i = i + 1;
        }
        proof {
            lemma_table_lookup(self.ids@, id);
            if self.ids@.contains(id) {
                let k = choose|k: int| 0 <= k < self.ids@.len() && self.ids@[k] == id;
                assert(self.ids@[k] == id);
            }
        }
        None
    }

    /// Whether `id` has a slot.
    pub fn contains(&self, id: usize) -> (r: bool)
        ensures
            r == self.ids@.contains(id),
    {
        proof {
            lemma_table_lookup(self.ids@, id);
        }
        match self.lookup(id) {
            Some(_) => true,
            None => false,
        }
    }
}

/// Whether `ids` holds `id` — a plain linear scan.
fn ids_contain(ids: &Vec<usize>, id: usize) -> (r: bool)
    ensures
        r == ids@.contains(id),
{
    let n = ids.len();
    let mut i: usize = 0;
    while i < n
        invariant
            i <= n,
            n == ids@.len(),
            forall|j: int| 0 <= j < i ==> ids@[j] != id,
        decreases n - i,
    {
        if ids[i] == id {
            return true;
        }
        i = i + 1;
    }
    false
}

/// When every entry before `k` differs from `id` and entry `k` is `id`, the
/// first occurrence is at `k`.
proof fn lemma_lookup_of_prefix_hit(table: Seq<usize>, id: usize, k: int)
    requires
        0 <= k < table.len(),
        table[k] == id,
        forall|j: int| 0 <= j < k ==> table[j] != id,
    ensures
        spec_table_lookup(table, id) == Some(k),
    decreases k,
{
    if k > 0 {
        lemma_lookup_of_prefix_hit(table.drop_first(), id, k - 1);
    }
}

/// Scan the genome once and assign each distinct neuron id referenced by a
/// recurrent jumper a dense persistence slot, in order of first encounter.
/// A genome without recurrent jumpers yields an empty table: a valid
/// zero-state network.
pub fn identify_recurrence(genome: &Vec<Gene>) -> (table: RecurrenceTable)
    ensures
        table.ids@ == spec_recurrent_ids(genome@),
{
    let mut ids: Vec<usize> = Vec::new();
    let n = genome.len();
    let mut i: usize = 0;
    while i < n
        invariant
            i <= n,
            n == genome@.len(),
            ids@ == spec_recurrent_ids(genome@.take(i as int)),
        decreases n - i,
    {
        let ghost prefix = genome@.take(i as int);
        match genome[i] {
            Gene::RecurrentJumper { source_id, .. } => {
                if !ids_contain(&ids, source_id) {
                    ids.push(source_id);
                }
            },
            _ => {},
        }
        i = i + 1;
        proof {
            assert(genome@.take(i as int).drop_last() =~= prefix);
            assert(genome@.take(i as int).last() == genome@[i - 1]);
        }
    }
    proof {
        assert(genome@.take(n as int) =~= genome@);
    }
    RecurrenceTable { ids }
}

/// The recurrence table is minimal: it has no duplicate entries, and its
/// entries are exactly the neuron ids that recurrent jumpers reference, so its
/// length — the persistence size — equals the number of distinct referenced
/// ids, however many jumpers share a target.
pub proof fn lemma_recurrence_table_minimal(g: Seq<Gene>)
    ensures
        spec_recurrent_ids(g).no_duplicates(),
        spec_recurrent_ids(g).to_set() == spec_recurrent_source_set(g),
        spec_recurrent_ids(g).len() == spec_recurrent_source_set(g).len(),
    decreases g.len(),
{
    let ids = spec_recurrent_ids(g);
    if g.len() == 0 {
        assert(ids.to_set() =~= spec_recurrent_source_set(g));
    } else {
        let prefix = g.drop_last();
        lemma_recurrence_table_minimal(prefix);
        let prev = spec_recurrent_ids(prefix);
        // The prefix's jumpers are the whole genome's jumpers except perhaps the last gene.
        assert forall|id: usize| prev.contains(id) implies ids.contains(id) by {
            if ids != prev {
                let w = choose|w: int| 0 <= w < prev.len() && prev[w] == id;
                assert(ids[w] == id);
            }
        }
        // no_duplicates is preserved: an id is only pushed when absent.
        assert(ids.no_duplicates()) by {
            if ids != prev {
                match g.last() {
                    Gene::RecurrentJumper { source_id, .. } => {
                        assert(ids == prev.push(source_id));
                        assert(!prev.contains(source_id));
                        assert forall|x: int, y: int|
                            0 <= x < ids.len() && 0 <= y < ids.len() && x != y implies ids[x]
                            != ids[y] by {
                            if x < prev.len() && y < prev.len() {
                                assert(prev[x] == ids[x] && prev[y] == ids[y]);
                            } else if x < prev.len() {
                                assert(prev[x] == ids[x] && ids[y] == source_id);
                            } else {
                                assert(prev[y] == ids[y] && ids[x] == source_id);
                            }
                        }
                    },
                    _ => {},
                }
            }
        }
        assert forall|id: usize| ids.contains(id) implies spec_recurrent_source_set(g).contains(
            id,
        ) by {
            if prev.contains(id) {
                assert(spec_recurrent_source_set(prefix).contains(id));
                let j = choose|j: int|
                    0 <= j < prefix.len() && #[trigger] is_recurrent_ref(prefix[j], id);
                assert(is_recurrent_ref(g[j], id));
            } else {
                // The only new entry is the last gene's source id.
                let w = choose|w: int| 0 <= w < ids.len() && ids[w] == id;
                assert(ids != prev);
                assert(w == prev.len());
                assert(is_recurrent_ref(g[g.len() - 1], id));
            }
        }
        assert forall|id: usize| spec_recurrent_source_set(g).contains(id) implies ids.contains(
            id,
        ) by {
            let j = choose|j: int| 0 <= j < g.len() && #[trigger] is_recurrent_ref(g[j], id);
            if j < g.len() - 1 {
                assert(is_recurrent_ref(prefix[j], id));
                assert(spec_recurrent_source_set(prefix).contains(id));
                assert(prev.contains(id));
            } else {
                if prev.contains(id) {
                } else {
                    assert(ids == prev.push(id));
                    assert(ids.last() == id);
                }
            }
        }
        assert(ids.to_set() =~= spec_recurrent_source_set(g));
    }
    ids.unique_seq_to_set();
}

} // verus!
