//! Crossover: one offspring genome from two parents aligned by innovation id.
use vstd::prelude::*;
use crate::genes::{Genome, LinkGene, NodeGene, NeuronType, genome_wf};
use crate::params::{HALF_GATE, INHERIT_DISABLED_GATE};
use crate::utils::Rng;

verus! {

/// Node identifiers are canonical: the fixed input/bias/output prefix uses
/// its own indices as identifiers, and every hidden node's identifier lies
/// past that prefix.  The whole population keeps this shape, which is what
/// lets crossover take the prefix from either parent.
pub open spec fn canonical_ids(g: Genome) -> bool {
    let k = g.num_inputs + 1 + g.num_outputs;
    &&& forall|i: int| 0 <= i < k && i < g.nodes@.len() ==> (#[trigger] g.nodes@[i].id) == i
    &&& forall|i: int| k <= i < g.nodes@.len() ==> (#[trigger] g.nodes@[i].id) >= k
}

/// What both parents must share for crossover: the same arity and the
/// canonical node-identifier shape.
pub open spec fn parents_compatible(p1: Genome, p2: Genome) -> bool {
    &&& genome_wf(p1)
    &&& genome_wf(p2)
    &&& canonical_ids(p1)
    &&& canonical_ids(p2)
    &&& p1.num_inputs == p2.num_inputs
    &&& p1.num_outputs == p2.num_outputs
}

/// Merges the two parents' link genes under the given draws.  Each alignment
/// step consumes exactly two draws (a selection coin and a disable roll), so
/// the selection is reproducible from the draws alone.  Matching genes come
/// from either parent on an even coin and are forced disabled on the second
/// roll if either parent carries them disabled; disjoint and excess genes
/// come from the primary (first, fitter) parent, or from an even coin per
/// gene when the parents' fitnesses are equal.
#[verifier::spinoff_prover]
#[verifier::loop_isolation(false)]
fn merge_links(p1: &Genome, p2: &Genome, eq: bool, draws: &Vec<u64>) -> (links: Vec<LinkGene>)
    requires
        crate::genes::links_sorted(*p1),
        crate::genes::links_sorted(*p2),
        p1.links@.len() + p2.links@.len() < 0x1000_0000,
        draws@.len() >= 2 * (p1.links@.len() + p2.links@.len()),
    ensures
        forall|t1: int, t2: int|
            0 <= t1 < t2 < links@.len() ==> links@[t1].innovation < links@[t2].innovation,
{
    let n1 = p1.links.len();
    let n2 = p2.links.len();
    let mut links: Vec<LinkGene> = Vec::new();
    let mut i: usize = 0;
    let mut j: usize = 0;
    let mut di: usize = 0;
    while i < n1 || j < n2
        invariant
            i <= n1,
            j <= n2,
            di <= 2 * (i + j),
            forall|t1: int, t2: int|
                0 <= t1 < t2 < links@.len() ==> links@[t1].innovation < links@[t2].innovation,
            i < n1 ==> forall|t: int|
                0 <= t < links@.len() ==> (#[trigger] links@[t]).innovation < p1.links@[i as int].innovation,
            j < n2 ==> forall|t: int|
                0 <= t < links@.len() ==> (#[trigger] links@[t]).innovation < p2.links@[j as int].innovation,
        decreases n1 + n2 - i - j,
    {
        if i >= n1 {
            let take = eq && draws[di] < HALF_GATE;
            if take {
                links.push(p2.links[j]);
            }
            j = j + 1;
        } else if j >= n2 {
            let take = !eq || draws[di] < HALF_GATE;
            if take {
                links.push(p1.links[i]);
            }
            i = i + 1;
        } else if p1.links[i].innovation == p2.links[j].innovation {
            let a = p1.links[i];
            let b = p2.links[j];
            let base = if draws[di] < HALF_GATE {
                a
            } else {
                b
            };
            let force_off = (!a.enabled || !b.enabled) && draws[di + 1] < INHERIT_DISABLED_GATE;
            let gene = LinkGene {
                from: base.from,
                to: base.to,
                weight: base.weight,
                enabled: base.enabled && !force_off,
                recurrent: base.recurrent,
                innovation: base.innovation,
            };
            links.push(gene);
            i = i + 1;
            j = j + 1;
        } else if p1.links[i].innovation < p2.links[j].innovation {
            let take = !eq || draws[di] < HALF_GATE;
            if take {
                links.push(p1.links[i]);
            }
            i = i + 1;
        } else {
            let take = eq && draws[di] < HALF_GATE;
            if take {
                links.push(p2.links[j]);
            }
            j = j + 1;
        }
        di = di + 2;
    }
    links
}

/// Gathers the offspring's node genes: the primary parent's fixed prefix,
/// then the hidden nodes of both parents, each identifier at most once.
#[verifier::spinoff_prover]
#[verifier::loop_isolation(false)]
fn collect_nodes(p1: &Genome, p2: &Genome) -> (nodes: Vec<NodeGene>)
    requires
        parents_compatible(*p1, *p2),
    ensures
        ({
            let k = p1.num_inputs + 1 + p1.num_outputs;
            &&& nodes@.len() >= k
            &&& forall|x: int| 0 <= x < k ==> nodes@[x] == p1.nodes@[x]
            &&& forall|x: int|
                k <= x < nodes@.len() ==> (#[trigger] nodes@[x]).id >= k && nodes@[x].role
                    == NeuronType::Hidden
            &&& forall|x1: int, x2: int|
                0 <= x1 < x2 < nodes@.len() ==> nodes@[x1].id != nodes@[x2].id
        }),
{
    let total_nodes = p1.nodes.len();
    proof {
        assert(crate::genes::node_layout_ok(*p1));
        assert(p1.num_inputs + 1 + p1.num_outputs <= total_nodes);
    }
    let k = p1.num_inputs + 1 + p1.num_outputs;
    let mut nodes: Vec<NodeGene> = Vec::new();
    let mut t: usize = 0;
    while t < k
        invariant
            t <= k,
            nodes@ == p1.nodes@.take(t as int),
        decreases k - t,
    {
        nodes.push(p1.nodes[t]);
        proof {
            assert(nodes@ =~= p1.nodes@.take(t + 1 as int));
        }
        t = t + 1;
    }
    proof {
        assert(forall|x: int| 0 <= x < k ==> nodes@[x] == p1.nodes@[x]);
    }
    let mut src: usize = 0;
    while src < 2
        invariant
            src <= 2,
            nodes@.len() >= k,
            forall|x: int| 0 <= x < k ==> nodes@[x] == p1.nodes@[x],
            forall|x: int|
                k <= x < nodes@.len() ==> (#[trigger] nodes@[x]).id >= k && nodes@[x].role
                    == NeuronType::Hidden,
            forall|x1: int, x2: int|
                0 <= x1 < x2 < nodes@.len() ==> nodes@[x1].id != nodes@[x2].id,
        decreases 2 - src,
    {
        let parent: &Genome = if src == 0 {
            p1
        } else {
            p2
        };
        proof {
            assert(crate::genes::node_layout_ok(*parent));
        }
        let mut h: usize = parent.num_inputs + 1 + parent.num_outputs;
        while h < parent.nodes.len()
            invariant
                h >= k,
                nodes@.len() >= k,
                forall|x: int| 0 <= x < k ==> nodes@[x] == p1.nodes@[x],
                forall|x: int|
                    k <= x < nodes@.len() ==> (#[trigger] nodes@[x]).id >= k && nodes@[x].role
                        == NeuronType::Hidden,
                forall|x1: int, x2: int|
                    0 <= x1 < x2 < nodes@.len() ==> nodes@[x1].id != nodes@[x2].id,
            decreases parent.nodes@.len() - h,
        {
            let cand = parent.nodes[h];
            proof {
                assert(parent.nodes@[h as int].role == NeuronType::Hidden);
                assert(parent.nodes@[h as int].id >= k);
            }
            let mut seen = false;
            let mut y: usize = 0;
            while y < nodes.len()
                invariant
                    y <= nodes@.len(),
                    seen == exists|z: int| 0 <= z < y && (#[trigger] nodes@[z]).id == cand.id,
                decreases nodes@.len() - y,
            {
                if nodes[y].id == cand.id {
                    seen = true;
                    proof {
                        assert((#[trigger] nodes@[y as int]).id == cand.id);
                    }
                }
                y = y + 1;
            }
            if !seen {
                nodes.push(cand);
            }
            h = h + 1;
        }
        src = src + 1;
    }
    nodes
}

/// Some node in the list carries identifier `id`.
pub open spec fn node_present(nodes: Seq<NodeGene>, id: u32) -> bool {
    exists|x: int| 0 <= x < nodes.len() && (#[trigger] nodes[x]).id == id
}

/// Some hidden or output node in the list carries identifier `id`.
pub open spec fn target_present(nodes: Seq<NodeGene>, id: u32) -> bool {
    exists|x: int|
        0 <= x < nodes.len() && (#[trigger] nodes[x]).id == id && (nodes[x].role
            == NeuronType::Hidden || nodes[x].role == NeuronType::Output)
}

/// Keeps the merged genes whose endpoints the offspring's node list carries
/// (with a hidden or output target) — which, for genes inherited from well
/// formed parents over the shared node prefix, is all of them.  The check
/// makes the offspring's well-formedness self-evident.
#[verifier::spinoff_prover]
#[verifier::loop_isolation(false)]
pub(crate) fn keep_supported(nodes: &Vec<NodeGene>, links: &Vec<LinkGene>) -> (kept: Vec<LinkGene>)
    requires
        forall|t1: int, t2: int|
            0 <= t1 < t2 < links@.len() ==> links@[t1].innovation < links@[t2].innovation,
    ensures
        forall|t1: int, t2: int|
            0 <= t1 < t2 < kept@.len() ==> kept@[t1].innovation < kept@[t2].innovation,
        forall|t: int|
            0 <= t < kept@.len() ==> node_present(nodes@, (#[trigger] kept@[t]).from)
                && target_present(nodes@, kept@[t].to),
        forall|t: int|
            0 <= t < links@.len() && node_present(nodes@, (#[trigger] links@[t]).from)
                && target_present(nodes@, links@[t].to) ==> exists|q: int|
                0 <= q < kept@.len() && kept@[q] == links@[t],
{
    let mut kept: Vec<LinkGene> = Vec::new();
    let mut t: usize = 0;
    while t < links.len()
        invariant
            t <= links@.len(),
            forall|t1: int, t2: int|
                0 <= t1 < t2 < kept@.len() ==> kept@[t1].innovation < kept@[t2].innovation,
            t < links@.len() ==> forall|q: int|
                0 <= q < kept@.len() ==> (#[trigger] kept@[q]).innovation < links@[t as int].innovation,
            forall|q: int|
                0 <= q < kept@.len() ==> node_present(nodes@, (#[trigger] kept@[q]).from)
                    && target_present(nodes@, kept@[q].to),
            forall|t2: int|
                0 <= t2 < t && node_present(nodes@, (#[trigger] links@[t2]).from)
                    && target_present(nodes@, links@[t2].to) ==> exists|q: int|
                    0 <= q < kept@.len() && kept@[q] == links@[t2],
        decreases links@.len() - t,
    {
        let l = links[t];
        let mut from_ok = false;
        let mut to_ok = false;
        let mut x: usize = 0;
        while x < nodes.len()
            invariant
                x <= nodes@.len(),
                from_ok == exists|z: int| 0 <= z < x && (#[trigger] nodes@[z]).id == l.from,
                to_ok == exists|z: int|
                    0 <= z < x && (#[trigger] nodes@[z]).id == l.to && (nodes@[z].role
                        == NeuronType::Hidden || nodes@[z].role == NeuronType::Output),
            decreases nodes@.len() - x,
        {
            let nd = nodes[x];
            if nd.id == l.from {
                from_ok = true;
                proof {
                    assert((#[trigger] nodes@[x as int]).id == l.from);
                }
            }
            if nd.id == l.to && (matches!(nd.role, NeuronType::Hidden) || matches!(
                nd.role,
                NeuronType::Output,
            )) {
                to_ok = true;
                proof {
                    assert((#[trigger] nodes@[x as int]).id == l.to);
                }
            }
            x = x + 1;
        }
        let ghost kept_before = kept@;
        if from_ok && to_ok {
            proof {
                assert(node_present(nodes@, l.from));
                assert(target_present(nodes@, l.to));
            }
            kept.push(l);
        }
        proof {
            assert forall|t2: int|
                0 <= t2 < t + 1 && node_present(nodes@, (#[trigger] links@[t2]).from)
                    && target_present(nodes@, links@[t2].to) implies exists|q: int|
                0 <= q < kept@.len() && kept@[q] == links@[t2] by {
                if t2 == t {
                    assert(kept@[kept@.len() - 1] == l);
                } else {
                    let q0 = choose|q: int| 0 <= q < kept_before.len() && kept_before[q] == links@[t2];
                    assert(kept@[q0] == links@[t2]);
                }
            }
        }
        t = t + 1;
    }
    kept
}

/// Produces one offspring from two parents and a fixed sequence of draws:
/// `merge_links` selects the genes (reproducibly from the draws), the node
/// genes are the fixed prefix plus the parents' hidden nodes, and only genes
/// both endpoints of which the offspring carries are kept.
#[verifier::spinoff_prover]
pub fn crossover_with_draws(p1: &Genome, p2: &Genome, eq: bool, draws: &Vec<u64>) -> (child: Genome)
    requires
        parents_compatible(*p1, *p2),
        p1.links@.len() + p2.links@.len() < 0x1000_0000,
        draws@.len() >= 2 * (p1.links@.len() + p2.links@.len()),
    ensures
        genome_wf(child),
        canonical_ids(child),
        child.num_inputs == p1.num_inputs,
        child.num_outputs == p1.num_outputs,
{
    let merged = merge_links(p1, p2, eq, draws);
    let nodes = collect_nodes(p1, p2);
    let links = keep_supported(&nodes, &merged);
    let child = Genome { num_inputs: p1.num_inputs, num_outputs: p1.num_outputs, nodes, links };
    proof {
        assert(crate::genes::node_layout_ok(child)) by {
            assert(crate::genes::node_layout_ok(*p1));
            let k = p1.num_inputs + 1 + p1.num_outputs;
            assert(forall|i: int| 0 <= i < k ==> child.nodes@[i].role == p1.nodes@[i].role);
        }
        assert forall|t: int| 0 <= t < child.links@.len() implies crate::genes::has_node_id(
            child,
            #[trigger] child.links@[t].from,
        ) && crate::genes::has_target_node_id(child, child.links@[t].to) by {
            assert(node_present(child.nodes@, child.links@[t].from));
            assert(target_present(child.nodes@, child.links@[t].to));
            let x1 = choose|x: int|
                0 <= x < child.nodes@.len() && (#[trigger] child.nodes@[x]).id
                    == child.links@[t].from;
            let x2 = choose|x: int|
                0 <= x < child.nodes@.len() && (#[trigger] child.nodes@[x]).id
                    == child.links@[t].to && (child.nodes@[x].role == NeuronType::Hidden
                    || child.nodes@[x].role == NeuronType::Output);
            assert(child.nodes@[x1].id == child.links@[t].from);
            assert(child.nodes@[x2].id == child.links@[t].to);
        }
        assert(crate::genes::links_reference_nodes(child));
    }
    child
}

/// Produces one offspring from two parents, drawing the randomness from the
/// injected source: two draws per alignment step, as `merge_links` consumes
/// them.
pub fn crossover(p1: &Genome, p2: &Genome, eq: bool, rng: &mut Rng) -> (child: Genome)
    requires
        parents_compatible(*p1, *p2),
        p1.links@.len() + p2.links@.len() < 0x1000_0000,
    ensures
        genome_wf(child),
        canonical_ids(child),
        child.num_inputs == p1.num_inputs,
        child.num_outputs == p1.num_outputs,
{
    let need = 2 * (p1.links.len() + p2.links.len());
    let mut draws: Vec<u64> = Vec::new();
    let mut t: usize = 0;
    while t < need
        invariant
            t <= need,
            draws@.len() == t,
        decreases need - t,
    {
        let d = rng.next_u64();
        draws.push(d);
        t = t + 1;
    }
    crossover_with_draws(p1, p2, eq, &draws)
}

} // verus!
