//! The subnetwork range resolver: for every neuron id, the contiguous index
//! range of the genes forming that neuron's expression subtree.
//!
//! The map is precomputed by one right-to-left scan over the genome with a
//! range stack, exactly the discipline the compiler itself uses: every leaf
//! gene is its own one-gene subtree, and a neuron's subtree spans from the
//! neuron to the end of the last of its `arity` operand subtrees. Forward
//! jumpers resolve their targets through this map as a pure lookup.

use vstd::prelude::*;
use crate::gene::CompileError;
use crate::gene::Gene;
use crate::gene::error_describes_genome;
use crate::gene::is_neuron_with_id;
use crate::stack::Stack;

verus! {

/// A neuron's subtree: the half-open gene index range `[start, end)`,
/// beginning at the neuron's own gene.
#[derive(Clone, Copy, Debug, PartialEq, Eq, Structural)]
pub struct NeuronInfo {
    pub id: usize,
    pub start: usize,
    pub end: usize,
}

/// The first entry for `id`, if any.
pub open spec fn spec_info_lookup(info: Seq<NeuronInfo>, id: usize) -> Option<NeuronInfo>
    decreases info.len(),
{
    if info.len() == 0 {
        None
    } else if info[0].id == id {
        Some(info[0])
    } else {
        spec_info_lookup(info.drop_first(), id)
    }
}

/// A found entry is an element of the map.
pub proof fn lemma_info_lookup(info: Seq<NeuronInfo>, id: usize)
    ensures
        match spec_info_lookup(info, id) {
            Some(ni) => ni.id == id && exists|k: int| 0 <= k < info.len() && info[k] == ni,
            None => forall|k: int| 0 <= k < info.len() ==> info[k].id != id,
        },
    decreases info.len(),
{
    if info.len() > 0 && info[0].id != id {
        lemma_info_lookup(info.drop_first(), id);
        match spec_info_lookup(info.drop_first(), id) {
            Some(ni) => {
                let k = choose|k: int|
                    0 <= k < info.drop_first().len() && info.drop_first()[k] == ni;
                assert(info[k + 1] == ni);
            },
            None => {
                assert forall|k: int| 0 <= k < info.len() implies info[k].id != id by {
                    if k > 0 {
                        assert(info.drop_first()[k - 1] == info[k]);
                    }
                }
            },
        }
    }
}

/// One step of the range scan at gene index `g`, given the range stack and
/// the map accumulated over indices above `g`. `None` marks a corrupt genome.
pub open spec fn range_scan_step(
    genome: Seq<Gene>,
    g: int,
    ranges: Seq<(usize, usize)>,
    info: Seq<NeuronInfo>,
) -> Option<(Seq<(usize, usize)>, Seq<NeuronInfo>)> {
    match genome[g] {
        Gene::Neuron { neuron_id, arity, .. } => {
            if arity == 0 || ranges.len() < arity || spec_info_lookup(info, neuron_id) is Some {
                None
            } else {
                let end = ranges[ranges.len() - arity].1;
                let entry = NeuronInfo { id: neuron_id, start: g as usize, end };
                Some(
                    (
                        ranges.take(ranges.len() - arity).push((g as usize, end)),
                        info.push(entry),
                    ),
                )
            }
        },
        _ => Some((ranges.push((g as usize, (g + 1) as usize)), info)),
    }
}

/// The range scan over the gene suffix `[i, len)`, processed from the high
/// index down: the pending range stack and the finished subtree map.
pub open spec fn spec_range_scan(genome: Seq<Gene>, i: int) -> Option<
    (Seq<(usize, usize)>, Seq<NeuronInfo>),
>
    decreases genome.len() - i,
{
    if i >= genome.len() {
        Some((Seq::empty(), Seq::empty()))
    } else {
        match spec_range_scan(genome, i + 1) {
            None => None,
            Some((ranges, info)) => range_scan_step(genome, i, ranges, info),
        }
    }
}

/// The subtree map of a whole genome, when no corruption stops the scan.
pub open spec fn spec_neuron_info(genome: Seq<Gene>) -> Option<Seq<NeuronInfo>> {
    match spec_range_scan(genome, 0) {
        None => None,
        Some((ranges, info)) => Some(info),
    }
}

/// Once the scan fails, it fails from every earlier start as well.
pub proof fn lemma_range_scan_none_propagates(genome: Seq<Gene>, a: int, b: int)
    requires
        a <= b,
        spec_range_scan(genome, b) is None,
    ensures
        spec_range_scan(genome, a) is None,
    decreases b - a,
{
    if a < b {
        lemma_range_scan_none_propagates(genome, a + 1, b);
    }
}

/// Every range the scan produces lies within the scanned suffix — it starts
/// at or after `i` and ends within the genome — and every finished map entry
/// records a neuron gene standing at its range's start, under its id.
pub proof fn lemma_range_scan_bounds(genome: Seq<Gene>, i: int)
    requires
        0 <= i,
        genome.len() <= usize::MAX,
        spec_range_scan(genome, i) is Some,
    ensures
        ({
            let (ranges, info) = spec_range_scan(genome, i)->Some_0;
            &&& forall|k: int|
                0 <= k < ranges.len() ==> i <= (#[trigger] ranges[k]).0 < ranges[k].1
                    <= genome.len()
            &&& forall|k: int|
                0 <= k < info.len() ==> i <= (#[trigger] info[k]).start < info[k].end
                    <= genome.len()
            &&& forall|k: int|
                0 <= k < info.len() ==> is_neuron_with_id(
                    genome[(#[trigger] info[k]).start as int],
                    info[k].id,
                )
        }),
    decreases genome.len() - i,
{
    if i < genome.len() {
        lemma_range_scan_bounds(genome, i + 1);
        let (pranges, pinfo) = spec_range_scan(genome, i + 1)->Some_0;
        assert(spec_range_scan(genome, i) == range_scan_step(genome, i, pranges, pinfo));
        let (ranges, info) = spec_range_scan(genome, i)->Some_0;
        match genome[i] {
            Gene::Neuron { neuron_id, arity, .. } => {
                let end = pranges[pranges.len() - arity].1;
                assert(ranges == pranges.take(pranges.len() - arity).push(
                    (i as usize, end),
                ));
                assert(i + 1 <= pranges[pranges.len() - arity].0 < end <= genome.len());
                assert forall|k: int| 0 <= k < ranges.len() implies i <= (#[trigger] ranges[k]).0
                    < ranges[k].1 <= genome.len() by {
                    if k < pranges.len() - arity {
                        assert(ranges[k] == pranges[k]);
                    } else {
                        assert(ranges[k] == (i as usize, end));
                    }
                }
                assert forall|k: int| 0 <= k < info.len() implies i <= (#[trigger] info[k]).start
                    < info[k].end <= genome.len() && is_neuron_with_id(
                    genome[info[k].start as int],
                    info[k].id,
                ) by {
                    if k < pinfo.len() {
                        assert(info[k] == pinfo[k]);
                    } else {
                        assert(info[k] == NeuronInfo { id: neuron_id, start: i as usize, end });
                    }
                }
            },
            _ => {
                assert(ranges == pranges.push((i as usize, (i + 1) as usize)));
                assert forall|k: int| 0 <= k < ranges.len() implies i <= (#[trigger] ranges[k]).0
                    < ranges[k].1 <= genome.len() by {
                    if k < pranges.len() {
                        assert(ranges[k] == pranges[k]);
                    }
                }
            },
        }
    }
}

/// Find the subtree range recorded for `id`.
pub fn info_find(info: &Vec<NeuronInfo>, id: usize) -> (r: Option<NeuronInfo>)
    ensures
        r == spec_info_lookup(info@, id),
{
    let n = info.len();
    proof {
        assert(info@.skip(0) =~= info@);
    }
    let mut k: usize = 0;
    while k < n
        invariant
            k <= n,
            n == info@.len(),
            forall|q: int| 0 <= q < k ==> info@[q].id != id,
            spec_info_lookup(info@, id) == spec_info_lookup(info@.skip(k as int), id),
        decreases n - k,
    {
        let ghost before = info@.skip(k as int);
        if info[k].id == id {
            proof {
                assert(before[0] == info@[k as int]);
            }
            return Some(info[k]);
        }
        k = k + 1;
        proof {
            assert(before[0] == info@[k - 1]);
            assert(before.drop_first() =~= info@.skip(k as int));
        }
    }
    proof {
        assert(info@.skip(n as int) =~= Seq::<NeuronInfo>::empty());
    }
    None
}

/// Build the subtree map by one right-to-left scan over the genome. Fails —
/// as corrupt — on a neuron with zero declared operands, a neuron with more
/// declared operands than subtrees available, and a duplicated neuron id.
pub fn build_neuron_info(genome: &Vec<Gene>) -> (r: Result<Vec<NeuronInfo>, CompileError>)
    ensures
        match r {
            Ok(info) => {
                &&& spec_neuron_info(genome@) == Some(info@)
                &&& forall|k: int|
                    0 <= k < info@.len() ==> (#[trigger] info@[k]).start < info@[k].end
                        <= genome@.len()
            },
            Err(e) => {
                &&& spec_neuron_info(genome@) is None
                &&& error_describes_genome(e, genome@)
                &&& !(e matches CompileError::InvalidInputId { .. })
            },
        },
{
    let n = genome.len();
    let mut ranges: Stack<(usize, usize)> = Stack::new();
    let mut info: Vec<NeuronInfo> = Vec::new();
    let mut i: usize = n;
    while i > 0
        invariant
            i <= n,
            n == genome@.len(),
            spec_range_scan(genome@, i as int) == Some((ranges.data@, info@)),
        decreases i,
    {
        let g = i - 1;
        let ghost prev_ranges = ranges.data@;
        let ghost prev_info = info@;
        match genome[g] {
            Gene::Neuron { neuron_id, arity, .. } => {
                if arity == 0 {
                    proof {
                        lemma_range_scan_none_propagates(genome@, 0, g as int);
                    }
                    return Err(CompileError::ZeroArityNeuron { gene_index: g, neuron_id });
                }
                let available = ranges.data.len();
                let popped = match ranges.pop(arity) {
                    Some(popped) => popped,
                    None => {
                        proof {
                            lemma_range_scan_none_propagates(genome@, 0, g as int);
                        }
                        return Err(
                            CompileError::InsufficientOperands {
                                gene_index: g,
                                neuron_id,
                                expected: arity,
                                available,
                            },
                        );
                    },
                };
                if let Some(found) = info_find(&info, neuron_id) {
                    proof {
                        lemma_range_scan_none_propagates(genome@, 0, g as int);
                        // The map already holds a neuron gene above `g` with this id.
                        lemma_range_scan_bounds(genome@, i as int);
                        lemma_info_lookup(prev_info, neuron_id);
                        let k = choose|k: int| 0 <= k < prev_info.len() && prev_info[k] == found;
                        assert(is_neuron_with_id(genome@[found.start as int], neuron_id));
                        assert(g < found.start && (found.start as int) < genome@.len());
                    }
                    return Err(CompileError::DuplicateNeuronId { gene_index: g, neuron_id });
                }
                let end = popped[arity - 1].1;
                proof {
                    assert(popped@[arity - 1] == prev_ranges[prev_ranges.len() - arity]);
                }
                info.push(NeuronInfo { id: neuron_id, start: g, end });
                ranges.push((g, end));
            },
            _ => {
                ranges.push((g, g + 1));
            },
        }
        i = g;
        proof {
            assert(spec_range_scan(genome@, i as int) == range_scan_step(genome@, i as int,
                prev_ranges, prev_info));
        }
    }
    proof {
        lemma_range_scan_bounds(genome@, 0);
    }
    Ok(info)
}

} // verus!
