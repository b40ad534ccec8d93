//! The genotype: node genes, link genes, and the genome that owns them.
use vstd::prelude::*;

verus! {

/// The role a node plays in the network.
#[derive(Clone, Copy, PartialEq, Eq, Structural, Debug)]
pub enum NeuronType {
    Input,
    Bias,
    Hidden,
    Output,
}

/// One evolvable node: its identifier, role, and sigmoid curvature
/// (a binary64 bit pattern).
#[derive(Clone, Copy, Debug)]
pub struct NodeGene {
    pub id: u32,
    pub role: NeuronType,
    pub response: u64,
}

/// One evolvable connection.  A disabled link is retained rather than
/// deleted, so that crossover can re-enable it later.
#[derive(Clone, Copy, Debug)]
pub struct LinkGene {
    pub from: u32,
    pub to: u32,
    /// connection weight, binary64 bits
    pub weight: u64,
    pub enabled: bool,
    pub recurrent: bool,
    /// global identifier of the structural mutation that created this link
    pub innovation: u64,
}

/// The unit of selection: a list of node genes and a list of link genes,
/// together with the input/output arity it was built for.
pub struct Genome {
    pub num_inputs: usize,
    pub num_outputs: usize,
    pub nodes: Vec<NodeGene>,
    pub links: Vec<LinkGene>,
}

/// Node roles stand in a fixed layout: the input nodes first, then the single
/// bias node, then the output nodes, then any hidden nodes.
pub open spec fn node_layout_ok(g: Genome) -> bool {
    &&& 1 <= g.num_inputs
    &&& 1 <= g.num_outputs
    &&& g.num_inputs + 1 + g.num_outputs <= g.nodes@.len()
    &&& forall|i: int| 0 <= i < g.num_inputs ==> g.nodes@[i].role == NeuronType::Input
    &&& g.nodes@[g.num_inputs as int].role == NeuronType::Bias
    &&& forall|i: int|
        g.num_inputs + 1 <= i < g.num_inputs + 1 + g.num_outputs ==> g.nodes@[i].role
            == NeuronType::Output
    &&& forall|i: int|
        g.num_inputs + 1 + g.num_outputs <= i < g.nodes@.len() ==> g.nodes@[i].role
            == NeuronType::Hidden
}

/// Node identifiers are unique within a genome.
pub open spec fn node_ids_unique(g: Genome) -> bool {
    forall|i: int, j: int|
        0 <= i < j < g.nodes@.len() ==> g.nodes@[i].id != g.nodes@[j].id
}

/// Some node of `g` carries identifier `id`.
pub open spec fn has_node_id(g: Genome, id: u32) -> bool {
    exists|i: int| 0 <= i < g.nodes@.len() && g.nodes@[i].id == id
}

/// Some node of `g` carries identifier `id` and a role a link may target
/// (hidden or output; links never point into inputs or the bias).
pub open spec fn has_target_node_id(g: Genome, id: u32) -> bool {
    exists|i: int|
        0 <= i < g.nodes@.len() && g.nodes@[i].id == id && (g.nodes@[i].role == NeuronType::Hidden
            || g.nodes@[i].role == NeuronType::Output)
}

/// Every link references existing nodes, and its target is a hidden or
/// output node.
pub open spec fn links_reference_nodes(g: Genome) -> bool {
    forall|k: int|
        0 <= k < g.links@.len() ==> has_node_id(g, #[trigger] g.links@[k].from)
            && has_target_node_id(g, g.links@[k].to)
}

/// Link genes are kept strictly sorted by innovation id, so two genomes can
/// be aligned gene-by-gene in one pass.
pub open spec fn links_sorted(g: Genome) -> bool {
    forall|i: int, j: int|
        0 <= i < j < g.links@.len() ==> g.links@[i].innovation < g.links@[j].innovation
}

/// Well-formedness of a genome: all of the structural invariants together.
pub open spec fn genome_wf(g: Genome) -> bool {
    &&& node_layout_ok(g)
    &&& node_ids_unique(g)
    &&& links_reference_nodes(g)
    &&& links_sorted(g)
}

impl Genome {
    /// An exact copy, field for field.
    pub fn duplicate(&self) -> (r: Genome)
        ensures
            r.num_inputs == self.num_inputs,
            r.num_outputs == self.num_outputs,
            r.nodes@ == self.nodes@,
            r.links@ == self.links@,
    {
        let mut nodes: Vec<NodeGene> = Vec::new();
        let mut i: usize = 0;
        while i < self.nodes.len()
            invariant
                i <= self.nodes@.len(),
                nodes@ == self.nodes@.take(i as int),
            decreases self.nodes@.len() - i,
        {
            nodes.push(self.nodes[i]);
            proof {
                assert(nodes@ == self.nodes@.take(i + 1 as int));
            }
            i = i + 1;
        }
        let mut links: Vec<LinkGene> = Vec::new();
        let mut k: usize = 0;
        while k < self.links.len()
            invariant
                k <= self.links@.len(),
                links@ == self.links@.take(k as int),
            decreases self.links@.len() - k,
        {
            links.push(self.links[k]);
            proof {
                assert(links@ == self.links@.take(k + 1 as int));
            }
            k = k + 1;
        }
        proof {
            assert(nodes@ == self.nodes@.take(self.nodes@.len() as int));
            assert(self.nodes@.take(self.nodes@.len() as int) == self.nodes@);
            assert(links@ == self.links@.take(self.links@.len() as int));
            assert(self.links@.take(self.links@.len() as int) == self.links@);
        }
        Genome { num_inputs: self.num_inputs, num_outputs: self.num_outputs, nodes, links }
    }

    /// The index of the node carrying `id`, if any.
    pub fn find_node(&self, id: u32) -> (r: Option<usize>)
        ensures
            match r {
                Some(i) => i < self.nodes@.len() && self.nodes@[i as int].id == id,
                None => !has_node_id(*self, id),
            },
    {
        let mut i: usize = 0;
        while i < self.nodes.len()
            invariant
                i <= self.nodes@.len(),
                forall|j: int| 0 <= j < i ==> self.nodes@[j].id != id,
            decreases self.nodes@.len() - i,
        {
            if self.nodes[i].id == id {
                return Some(i);
            }
            i = i + 1;
        }
        None
    }

    /// Whether some link (enabled or not) already connects `from` to `to`.
    pub fn has_link(&self, from: u32, to: u32) -> (r: bool)
        ensures
            r == exists|k: int|
                0 <= k < self.links@.len() && self.links@[k].from == from && (
                #[trigger] self.links@[k]).to == to,
    {
        let mut k: usize = 0;
        while k < self.links.len()
            invariant
                k <= self.links@.len(),
                forall|j: int|
                    0 <= j < k ==> !(self.links@[j].from == from && (#[trigger] self.links@[j]).to
                        == to),
            decreases self.links@.len() - k,
        {
            if self.links[k].from == from && self.links[k].to == to {
                return true;
            }
            k = k + 1;
        }
        false
    }
}

/// Inserts a link gene into a list kept strictly sorted by innovation id.
/// The new gene's innovation must not already be present.
pub fn insert_link_sorted(links: &mut Vec<LinkGene>, l: LinkGene) -> (pos: usize)
    requires
        forall|i: int, j: int|
            0 <= i < j < old(links)@.len() ==> old(links)@[i].innovation < old(
                links,
            )@[j].innovation,
        forall|k: int| 0 <= k < old(links)@.len() ==> old(links)@[k].innovation != l.innovation,
    ensures
        pos <= old(links)@.len(),
        final(links)@ == old(links)@.insert(pos as int, l),
        forall|i: int, j: int|
            0 <= i < j < final(links)@.len() ==> final(links)@[i].innovation < final(links)@[j].innovation,
{
    let mut p: usize = 0;
    while p < links.len() && links[p].innovation < l.innovation
        invariant
            p <= links@.len(),
            forall|i: int| 0 <= i < p ==> links@[i].innovation < l.innovation,
        decreases links@.len() - p,
    {
        p = p + 1;
    }
    proof {
        assert(forall|i: int|
            p <= i < links@.len() ==> links@[i].innovation > l.innovation) by {
            assert forall|i: int| p <= i < links@.len() implies links@[i].innovation
                > l.innovation by {
                if i > p {
                    assert(links@[p as int].innovation < links@[i].innovation);
                }
            }
        }
    }
    links.insert(p, l);
    p
}

} // verus!
