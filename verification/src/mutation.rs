//! Mutation: weight perturbation and the two structural mutations.
use vstd::prelude::*;
use crate::genes::{Genome, LinkGene, NodeGene, NeuronType, genome_wf, insert_link_sorted};
use crate::crossover::canonical_ids;
use crate::innovation::{Innovations, innovations_wf};
use crate::numeric::{add_bits, desc_before, mul_bits, sub_bits, unit_bits, ONE_BITS};
use crate::utils::{draw_of, next_state};
use crate::params;
use crate::utils::{rand_usize, Rng};

verus! {

/// The tracker counters stay far from their bounds for the life of a run.
pub open spec fn tracker_roomy(t: Innovations) -> bool {
    &&& innovations_wf(t)
    &&& t.next_innovation < 0xFFFF_FFFF_0000_0000
    &&& t.next_node_id < 0xFFFF_0000
}

/// The random-source state after the weight pass has handled the first `t`
/// links, starting from state `s0`: a disabled link draws nothing; an
/// enabled one draws its mutation coin, and three more draws when that
/// coin fires.
pub open spec fn weights_rng_state(links: Seq<LinkGene>, s0: u64, t: int) -> u64
    decreases t,
{
    if t <= 0 {
        s0
    } else {
        let s = weights_rng_state(links, s0, t - 1);
        let l = links[t - 1];
        if !l.enabled {
            s
        } else {
            let s1 = next_state(s);
            if draw_of(s) < params::MUTATION_RATE_GATE {
                next_state(next_state(next_state(s1)))
            } else {
                s1
            }
        }
    }
}

/// The weight an enabled link whose gate fired ends up with, given the
/// random-source state `s` before its gate draw: a fresh value from `(-1,1)`
/// when the replace roll fires, else the old weight perturbed by the scaled
/// fresh value; either way capped to `[-8, 8]`.
pub open spec fn mutated_weight(w: u64, s: u64) -> u64 {
    let s1 = next_state(s);
    let fresh = sub_bits(unit_bits(draw_of(s1)), unit_bits(draw_of(next_state(s1))));
    let s3 = next_state(next_state(s1));
    let cand = if draw_of(s3) < params::WEIGHT_REPLACE_GATE {
        fresh
    } else {
        add_bits(w, mul_bits(fresh, params::MAX_PERTURBATION))
    };
    if desc_before(cand, params::WEIGHT_CAP) {
        params::WEIGHT_CAP
    } else if desc_before(params::WEIGHT_CAP_NEG, cand) {
        params::WEIGHT_CAP_NEG
    } else {
        cand
    }
}

/// The whole weight pass as a relation: every link keeps its endpoints,
/// flags and innovation id; its weight is unchanged unless it is enabled and
/// its mutation coin fires, in which case it becomes `mutated_weight` of the
/// pinned draws.
pub open spec fn weights_pass_post(pre: Genome, post: Genome, s0: u64) -> bool {
    &&& post.num_inputs == pre.num_inputs
    &&& post.num_outputs == pre.num_outputs
    &&& post.nodes@ == pre.nodes@
    &&& post.links@.len() == pre.links@.len()
    &&& forall|t: int|
        0 <= t < post.links@.len() ==> {
            let a = #[trigger] post.links@[t];
            let b = pre.links@[t];
            &&& a.from == b.from
            &&& a.to == b.to
            &&& a.enabled == b.enabled
            &&& a.recurrent == b.recurrent
            &&& a.innovation == b.innovation
            &&& a.weight == {
                let s = weights_rng_state(pre.links@, s0, t);
                if b.enabled && draw_of(s) < params::MUTATION_RATE_GATE {
                    mutated_weight(b.weight, s)
                } else {
                    b.weight
                }
            }
        }
}

/// With probability `MUTATION_RATE_GATE` per enabled link, either replaces
/// the weight with a fresh draw from `(-1, 1)` (probability
/// `WEIGHT_REPLACE_GATE`) or perturbs it by a draw scaled to
/// `MAX_PERTURBATION`; the magnitude is then capped at 8 so the sigmoid
/// cannot saturate irrecoverably.  Structure, enabled flags and innovation
/// ids are untouched; every final weight is pinned by `weights_pass_post`
/// from the genome and the random-source state alone.
#[verifier::loop_isolation(false)]
pub fn mutate_weights(g: &mut Genome, rng: &mut Rng)
    requires
        genome_wf(*old(g)),
    ensures
        genome_wf(*final(g)),
        weights_pass_post(*old(g), *final(g), old(rng).state),
        final(rng).state == weights_rng_state(
            old(g).links@,
            old(rng).state,
            old(g).links@.len() as int,
        ),
{
    let n = g.links.len();
    let mut t: usize = 0;
    while t < n
        invariant
            t <= n,
            n == g.links@.len(),
            g.num_inputs == old(g).num_inputs,
            g.num_outputs == old(g).num_outputs,
            g.nodes@ == old(g).nodes@,
            rng.state == weights_rng_state(old(g).links@, old(rng).state, t as int),
            forall|q: int|
                0 <= q < n ==> {
                    let a = #[trigger] g.links@[q];
                    let b = old(g).links@[q];
                    a.from == b.from && a.to == b.to && a.enabled == b.enabled && a.recurrent
                        == b.recurrent && a.innovation == b.innovation
                },
            forall|q: int|
                0 <= q < t ==> (#[trigger] g.links@[q]).weight == {
                    let s = weights_rng_state(old(g).links@, old(rng).state, q);
                    let b = old(g).links@[q];
                    if b.enabled && draw_of(s) < params::MUTATION_RATE_GATE {
                        mutated_weight(b.weight, s)
                    } else {
                        b.weight
                    }
                },
            forall|q: int| t <= q < n ==> (#[trigger] g.links@[q]).weight == old(g).links@[q].weight,
        decreases n - t,
    {
        let ghost s_here = rng.state;
        if g.links[t].enabled {
            if rng.next_u64() < params::MUTATION_RATE_GATE {
                let fresh = crate::utils::random_clamped(rng);
                let new_w: u64;
                if rng.next_u64() < params::WEIGHT_REPLACE_GATE {
                    new_w = fresh;
                } else {
                    let step = crate::numeric::f64_mul(fresh, params::MAX_PERTURBATION);
                    new_w = crate::numeric::f64_add(g.links[t].weight, step);
                }
                // cap the magnitude at 8.0 either way
                let capped: u64 = if crate::numeric::scalar_gt(new_w, params::WEIGHT_CAP) {
                    params::WEIGHT_CAP
                } else if crate::numeric::scalar_gt(params::WEIGHT_CAP_NEG, new_w) {
                    params::WEIGHT_CAP_NEG
                } else {
                    new_w
                };
                g.links[t].weight = capped;
                proof {
                    assert(g.links@[t as int].weight == mutated_weight(
                        old(g).links@[t as int].weight,
                        s_here,
                    ));
                }
            }
        }
        t = t + 1;
    }
    proof {
        assert(crate::genes::links_reference_nodes(*g)) by {
            assert forall|q: int|
                0 <= q < g.links@.len() implies crate::genes::has_node_id(
                *g,
                #[trigger] g.links@[q].from,
            ) && crate::genes::has_target_node_id(*g, g.links@[q].to) by {
                assert(g.links@[q].from == old(g).links@[q].from);
                assert(g.links@[q].to == old(g).links@[q].to);
                assert(crate::genes::has_node_id(*old(g), g.links@[q].from));
                assert(crate::genes::has_target_node_id(*old(g), g.links@[q].to));
            }
        }
    }
}

/// The shape of a completed split: the genome gains the registered hidden
/// node, and its gene list holds the disabled original link, the incoming
/// half (weight 1, non-recurrent) and the outgoing half (the original
/// weight and recurrent flag), under the registration's innovation ids.
pub open spec fn split_applied(
    pre: Genome,
    post: Genome,
    pick: int,
    reg: crate::innovation::SplitRecord,
) -> bool {
    &&& post.nodes@ == pre.nodes@.push(
        NodeGene { id: reg.node_id, role: NeuronType::Hidden, response: ONE_BITS },
    )
    &&& exists|t: int|
        0 <= t < post.links@.len() && (#[trigger] post.links@[t]) == (LinkGene {
            from: pre.links@[pick].from,
            to: reg.node_id,
            weight: ONE_BITS,
            enabled: true,
            recurrent: false,
            innovation: reg.in_innovation,
        })
    &&& exists|t: int|
        0 <= t < post.links@.len() && (#[trigger] post.links@[t]) == (LinkGene {
            from: reg.node_id,
            to: pre.links@[pick].to,
            weight: pre.links@[pick].weight,
            enabled: true,
            recurrent: pre.links@[pick].recurrent,
            innovation: reg.out_innovation,
        })
    &&& exists|t: int|
        0 <= t < post.links@.len() && (#[trigger] post.links@[t]) == (LinkGene {
            enabled: false,
            ..pre.links@[pick]
        })
}

/// What one add-node call does: either nothing at all, or the tracker served
/// one split registration for some enabled link, and the genome is unchanged
/// (the no-op guards) or carries the completed split.
pub open spec fn add_node_post(
    pre: Genome,
    post: Genome,
    pre_t: Innovations,
    post_t: Innovations,
) -> bool {
    ||| (post == pre && post_t == pre_t)
    ||| (exists|pick: int, reg: crate::innovation::SplitRecord|
        0 <= pick < pre.links@.len() && pre.links@[pick].enabled && (
        #[trigger] crate::innovation::get_or_create_split_post(
            pre_t,
            post_t,
            pre.links@[pick].innovation,
            reg,
        )) && (post == pre || split_applied(pre, post, pick, reg)))
}

/// What one add-link call does: either the genome is unchanged (no valid
/// pair found), or exactly one fresh enabled gene between two previously
/// unconnected nodes of the genome was inserted, carrying a tracker-issued
/// innovation id.  The tracker's counter never moves backwards.
pub open spec fn link_added_post(
    pre: Genome,
    post: Genome,
    pre_t: Innovations,
    post_t: Innovations,
) -> bool {
    &&& post_t.next_innovation >= pre_t.next_innovation
    &&& (post == pre || exists|pos: int, gene: LinkGene|
        {
            &&& 0 <= pos <= pre.links@.len()
            &&& post.nodes@ == pre.nodes@
            &&& post.links@ == #[trigger] pre.links@.insert(pos, gene)
            &&& gene.enabled
            &&& !(exists|z: int|
                0 <= z < pre.links@.len() && pre.links@[z].from == gene.from && (
                #[trigger] pre.links@[z]).to == gene.to)
            &&& crate::genes::has_node_id(pre, gene.from)
            &&& crate::genes::has_target_node_id(pre, gene.to)
            &&& gene.innovation < post_t.next_innovation
        })
}

/// Splits a random enabled link: the link is disabled and a new hidden node
/// is inserted, connected by a link of weight 1 from the old source and a
/// link carrying the old weight to the old target.  Both new links and the
/// node identifier come from the innovation tracker, so the same split made
/// independently in the same generation resolves to the same identifiers.
/// Silently does nothing when the genome has no enabled link, when the
/// tracker's node id already appears in this genome, or when either new
/// innovation id is already present (a genome can meet an id created by an
/// earlier split it already inherited).
#[verifier::loop_isolation(false)]
#[verifier::spinoff_prover]
#[verifier::rlimit(100)]
pub fn add_node(g: &mut Genome, innovations: &mut Innovations, rng: &mut Rng)
    requires
        genome_wf(*old(g)),
        canonical_ids(*old(g)),
        tracker_roomy(*old(innovations)),
        old(g).nodes@.len() < 0xFFFF_FFFF,
        old(g).links@.len() < 0xFFFF_FFFF,
    ensures
        genome_wf(*final(g)),
        canonical_ids(*final(g)),
        crate::innovation::innovations_wf(*final(innovations)),
        final(g).num_inputs == old(g).num_inputs,
        final(g).num_outputs == old(g).num_outputs,
        add_node_post(*old(g), *final(g), *old(innovations), *final(innovations)),
{
    // pick a random enabled link
    let n = g.links.len();
    let mut enabled: Vec<usize> = Vec::new();
    let mut t: usize = 0;
    while t < n
        invariant
            t <= n,
            n == g.links@.len(),
            forall|q: int|
                0 <= q < enabled@.len() ==> (#[trigger] enabled@[q]) < n
                    && g.links@[enabled@[q] as int].enabled,
        decreases n - t,
    {
        if g.links[t].enabled {
            enabled.push(t);
        }
        t = t + 1;
    }
    if enabled.len() == 0 {
        return ;
    }
    let pick = enabled[rng.below(enabled.len())];
    let old_link = g.links[pick];
    proof {
        assert(g.links@[pick as int].enabled);
    }
    let reg = innovations.get_or_create_split(old_link.innovation);
    proof {
        assert(crate::innovation::get_or_create_split_post(
            *old(innovations),
            *innovations,
            old(g).links@[pick as int].innovation,
            reg,
        ));
    }
    proof {
        assert(crate::genes::node_layout_ok(*g));
    }
    let k = g.num_inputs + 1 + g.num_outputs;
    if (reg.node_id as usize) < k {
        proof {
            assert(add_node_post(*old(g), *g, *old(innovations), *innovations));
        }
        return ;
    }
    match g.find_node(reg.node_id) {
        Some(_) => {
            proof {
                assert(add_node_post(*old(g), *g, *old(innovations), *innovations));
            }
            return ;
        },
        None => {},
    }
    let mut dup = false;
    let mut q: usize = 0;
    while q < g.links.len()
        invariant
            q <= g.links@.len(),
            dup == exists|z: int|
                0 <= z < q && ((#[trigger] g.links@[z]).innovation == reg.in_innovation
                    || g.links@[z].innovation == reg.out_innovation),
        decreases g.links@.len() - q,
    {
        if g.links[q].innovation == reg.in_innovation || g.links[q].innovation
            == reg.out_innovation {
            dup = true;
            proof {
                assert((#[trigger] g.links@[q as int]).innovation == reg.in_innovation
                    || g.links@[q as int].innovation == reg.out_innovation);
            }
        }
        q = q + 1;
    }
    if dup || reg.in_innovation == reg.out_innovation {
        proof {
            assert(add_node_post(*old(g), *g, *old(innovations), *innovations));
        }
        return ;
    }
    // disable the split link, add the hidden node and the two new links
    g.links[pick].enabled = false;
    proof {
        assert(crate::genes::links_sorted(*g));
        assert forall|z: int| 0 <= z < g.links@.len() implies (#[trigger] g.links@[z]).innovation
            != reg.in_innovation && g.links@[z].innovation != reg.out_innovation by {
            assert(g.links@[z].innovation == old(g).links@[z].innovation);
        }
    }
    let ghost before_nodes = g.nodes@;
    g.nodes.push(
        NodeGene { id: reg.node_id, role: NeuronType::Hidden, response: ONE_BITS },
    );
    proof {
        assert(forall|x: int| 0 <= x < before_nodes.len() ==> g.nodes@[x] == before_nodes[x]);
        assert(crate::genes::node_layout_ok(*g));
        assert(crate::genes::node_ids_unique(*g)) by {
            assert forall|i1: int, i2: int|
                0 <= i1 < i2 < g.nodes@.len() implies g.nodes@[i1].id != g.nodes@[i2].id by {
                if i2 == g.nodes@.len() - 1 {
                    if g.nodes@[i1].id == reg.node_id {
                        assert(old(g).nodes@[i1].id == reg.node_id);
                        assert(crate::genes::has_node_id(*old(g), reg.node_id));
                    }
                } else {
                    assert(old(g).nodes@[i1].id != old(g).nodes@[i2].id);
                }
            }
        }
    }
    let in_gene = LinkGene {
        from: old_link.from,
        to: reg.node_id,
        weight: ONE_BITS,
        enabled: true,
        recurrent: false,
        innovation: reg.in_innovation,
    };
    let out_gene = LinkGene {
        from: reg.node_id,
        to: old_link.to,
        weight: old_link.weight,
        enabled: true,
        recurrent: old_link.recurrent,
        innovation: reg.out_innovation,
    };
    let mut cand: Vec<LinkGene> = Vec::new();
    let mut z: usize = 0;
    while z < g.links.len()
        invariant
            z <= g.links@.len(),
            cand@ == g.links@.take(z as int),
        decreases g.links@.len() - z,
    {
        cand.push(g.links[z]);
        proof {
            assert(cand@ =~= g.links@.take(z + 1 as int));
        }
        z = z + 1;
    }
    proof {
        assert(g.links@.take(g.links@.len() as int) =~= g.links@);
    }
    let ghost l0 = cand@;
    let pos1 = crate::genes::insert_link_sorted(&mut cand, in_gene);
    let ghost l1 = cand@;
    let pos2 = crate::genes::insert_link_sorted(&mut cand, out_gene);
    let ghost l2 = cand@;
    proof {
        // where the three genes of interest stand in the candidate list
        assert(l1[pos1 as int] == in_gene);
        let in_at: int = if pos1 < pos2 { pos1 as int } else { pos1 as int + 1 };
        assert(l2[in_at] == in_gene);
        assert(l2[pos2 as int] == out_gene);
        let d = LinkGene { enabled: false, ..old(g).links@[pick as int] };
        assert(l0[pick as int] == d);
        let d1: int = if pick < pos1 { pick as int } else { pick as int + 1 };
        assert(l1[d1] == d);
        let d2: int = if d1 < pos2 { d1 } else { d1 + 1 };
        assert(l2[d2] == d);
        // the endpoints of all three are carried by the extended node list
        let wf_from = choose|x: int|
            0 <= x < old(g).nodes@.len() && (#[trigger] old(g).nodes@[x]).id == old_link.from;
        assert(g.nodes@[wf_from].id == old_link.from);
        assert(crate::crossover::node_present(g.nodes@, old_link.from));
        let wf_to = choose|x: int|
            0 <= x < old(g).nodes@.len() && (#[trigger] old(g).nodes@[x]).id == old_link.to && (
            old(g).nodes@[x].role == NeuronType::Hidden || old(g).nodes@[x].role
                == NeuronType::Output);
        assert(g.nodes@[wf_to].id == old_link.to);
        assert(crate::crossover::target_present(g.nodes@, old_link.to));
        assert(g.nodes@[g.nodes@.len() - 1].id == reg.node_id);
        assert(crate::crossover::node_present(g.nodes@, reg.node_id));
        assert(crate::crossover::target_present(g.nodes@, reg.node_id));
    }
    let kept = crate::crossover::keep_supported(&g.nodes, &cand);
    g.links = kept;
    proof {
        assert forall|t: int| 0 <= t < g.links@.len() implies crate::genes::has_node_id(
            *g,
            #[trigger] g.links@[t].from,
        ) && crate::genes::has_target_node_id(*g, g.links@[t].to) by {
            assert(crate::crossover::node_present(g.nodes@, g.links@[t].from));
            assert(crate::crossover::target_present(g.nodes@, g.links@[t].to));
            let x1 = choose|x: int|
                0 <= x < g.nodes@.len() && (#[trigger] g.nodes@[x]).id == g.links@[t].from;
            let x2 = choose|x: int|
                0 <= x < g.nodes@.len() && (#[trigger] g.nodes@[x]).id == g.links@[t].to && (
                g.nodes@[x].role == NeuronType::Hidden || g.nodes@[x].role == NeuronType::Output);
            assert(g.nodes@[x1].id == g.links@[t].from);
            assert(g.nodes@[x2].id == g.links@[t].to);
        }
        assert(crate::genes::links_reference_nodes(*g));
        assert(canonical_ids(*g));
        // the completed split is visible in the kept gene list
        let in_at: int = if pos1 < pos2 { pos1 as int } else { pos1 as int + 1 };
        assert(exists|q: int| 0 <= q < g.links@.len() && g.links@[q] == l2[in_at]);
        assert(exists|q: int| 0 <= q < g.links@.len() && g.links@[q] == l2[pos2 as int]);
        let d1: int = if pick < pos1 { pick as int } else { pick as int + 1 };
        let d2: int = if d1 < pos2 { d1 } else { d1 + 1 };
        assert(exists|q: int| 0 <= q < g.links@.len() && g.links@[q] == l2[d2]);
        assert(split_applied(*old(g), *g, pick as int, reg));
        assert(add_node_post(*old(g), *g, *old(innovations), *innovations));
    }
}

/// Tries up to `ADD_LINK_RETRIES` times to connect two currently unconnected
/// nodes with a fresh link.  The target is never an input or the bias.  The
/// new link is marked recurrent when its target can already reach its source
/// along the enabled non-recurrent links (or when it loops a node to
/// itself), so a cycle is never closed by a non-recurrent link.  Gives up
/// silently when no valid pair is found (not an error) or when the tracker
/// hands back an innovation id the genome already carries.
#[verifier::loop_isolation(false)]
pub fn add_link(g: &mut Genome, innovations: &mut Innovations, rng: &mut Rng)
    requires
        genome_wf(*old(g)),
        canonical_ids(*old(g)),
        tracker_roomy(*old(innovations)),
        old(g).links@.len() < 0xFFFF_FFFF,
    ensures
        genome_wf(*final(g)),
        canonical_ids(*final(g)),
        crate::innovation::innovations_wf(*final(innovations)),
        final(g).num_inputs == old(g).num_inputs,
        final(g).num_outputs == old(g).num_outputs,
        final(g).nodes@ == old(g).nodes@,
        link_added_post(*old(g), *final(g), *old(innovations), *final(innovations)),
{
    let n_nodes = g.nodes.len();
    let k = g.num_inputs + 1;
    proof {
        assert(crate::genes::node_layout_ok(*g));
    }
    let mut tries: usize = 0;
    while tries < params::ADD_LINK_RETRIES
        invariant
            *g == *old(g),
            crate::innovation::innovations_wf(*innovations),
            innovations.next_innovation >= old(innovations).next_innovation,
            n_nodes == g.nodes@.len(),
            k == g.num_inputs + 1,
        decreases params::ADD_LINK_RETRIES - tries,
    {
        let src = rand_usize(rng, 0, n_nodes - 1);
        let dst = rand_usize(rng, k, n_nodes - 1);
        let from_id = g.nodes[src].id;
        let to_id = g.nodes[dst].id;
        if !g.has_link(from_id, to_id) && innovations.next_innovation < 0xFFFF_0000_0000_0000 {
            proof {
                assert(crate::genes::node_layout_ok(*g));
            }
            let innov = innovations.get_or_create(from_id, to_id);
            let mut dup = false;
            let mut q: usize = 0;
            while q < g.links.len()
                invariant
                    q <= g.links@.len(),
                    dup == exists|z: int|
                        0 <= z < q && (#[trigger] g.links@[z]).innovation == innov,
                decreases g.links@.len() - q,
            {
                if g.links[q].innovation == innov {
                    dup = true;
                    proof {
                        assert((#[trigger] g.links@[q as int]).innovation == innov);
                    }
                }
                q = q + 1;
            }
            if !dup {
                let recurrent = src == dst || reaches(g, to_id, from_id);
                let weight = crate::utils::random_clamped(rng);
                let gene = LinkGene {
                    from: from_id,
                    to: to_id,
                    weight,
                    enabled: true,
                    recurrent,
                    innovation: innov,
                };
                proof {
                    assert(crate::genes::has_node_id(*g, from_id));
                    assert(g.nodes@[dst as int].role == NeuronType::Output || g.nodes@[dst as int].role
                        == NeuronType::Hidden);
                    assert(crate::genes::has_target_node_id(*g, to_id));
                }
                let pos = insert_link_sorted(&mut g.links, gene);
                proof {
                    assert forall|z: int|
                        0 <= z < g.links@.len() implies crate::genes::has_node_id(
                        *g,
                        #[trigger] g.links@[z].from,
                    ) && crate::genes::has_target_node_id(*g, g.links@[z].to) by {
                    }
                    assert(crate::genes::links_reference_nodes(*g));
                    assert(g.links@ == old(g).links@.insert(pos as int, gene));
                    assert(gene.innovation < innovations.next_innovation);
                    assert(link_added_post(*old(g), *g, *old(innovations), *innovations));
                }
                return ;
            }
        }
        tries = tries + 1;
    }
}

/// Whether `goal_id` can be reached from `start_id` along the currently
/// enabled, non-recurrent links, by bounded relaxation (as many rounds as
/// there are nodes).  Used to decide whether a candidate link closes a cycle
/// and must be marked recurrent.
#[verifier::loop_isolation(false)]
fn reaches(g: &Genome, start_id: u32, goal_id: u32) -> (r: bool)
    requires
        genome_wf(*g),
{
    let n = g.nodes.len();
    let mut reach: Vec<bool> = Vec::new();
    let mut t: usize = 0;
    while t < n
        invariant
            t <= n,
            reach@.len() == t,
        decreases n - t,
    {
        reach.push(g.nodes[t].id == start_id);
        t = t + 1;
    }
    let mut round: usize = 0;
    while round < n
        invariant
            reach@.len() == n,
            n == g.nodes@.len(),
        decreases n - round,
    {
        let mut q: usize = 0;
        while q < g.links.len()
            invariant
                q <= g.links@.len(),
                reach@.len() == n,
                n == g.nodes@.len(),
            decreases g.links@.len() - q,
        {
            let l = g.links[q];
            if l.enabled && !l.recurrent {
                let si = g.find_node(l.from);
                let di = g.find_node(l.to);
                match (si, di) {
                    (Some(a), Some(b)) => {
                        if reach[a] && !reach[b] {
                            reach[b] = true;
                        }
                    },
                    _ => {},
                }
            }
            q = q + 1;
        }
        round = round + 1;
    }
    let mut found = false;
    let mut x: usize = 0;
    while x < n
        invariant
            x <= n,
            reach@.len() == n,
            n == g.nodes@.len(),
        decreases n - x,
    {
        if g.nodes[x].id == goal_id && reach[x] {
            found = true;
        }
        x = x + 1;
    }
    found
}

/// One mutation pass over a genome: the weight pass runs on its own gates,
/// then one draw decides whether an add-node, an add-link, or no structural
/// mutation fires.  Every step is pinned from the genome and the random
/// source state: the weight pass by `weights_pass_post`, the structural step
/// by `add_node_post` or `link_added_post` under the gating draw.
pub fn mutate(g: &mut Genome, innovations: &mut Innovations, rng: &mut Rng)
    requires
        genome_wf(*old(g)),
        canonical_ids(*old(g)),
        tracker_roomy(*old(innovations)),
        old(g).nodes@.len() < 0xFFFF_FFFF,
        old(g).links@.len() < 0xFFFF_FFFF,
    ensures
        genome_wf(*final(g)),
        canonical_ids(*final(g)),
        crate::innovation::innovations_wf(*final(innovations)),
        final(g).num_inputs == old(g).num_inputs,
        final(g).num_outputs == old(g).num_outputs,
        exists|mid: Genome|
            {
                &&& #[trigger] weights_pass_post(*old(g), mid, old(rng).state)
                &&& {
                    let roll = draw_of(
                        weights_rng_state(
                            old(g).links@,
                            old(rng).state,
                            old(g).links@.len() as int,
                        ),
                    );
                    if roll < params::ADD_NODE_GATE {
                        add_node_post(mid, *final(g), *old(innovations), *final(innovations))
                    } else if roll < params::ADD_NODE_GATE + params::ADD_LINK_GATE {
                        link_added_post(mid, *final(g), *old(innovations), *final(innovations))
                    } else {
                        *final(g) == mid && *final(innovations) == *old(innovations)
                    }
                }
            },
{
    mutate_weights(g, rng);
    let ghost mid = *g;
    proof {
        assert(canonical_ids(*g));
    }
    let roll = rng.next_u64();
    if roll < params::ADD_NODE_GATE {
        add_node(g, innovations, rng);
    } else if roll < params::ADD_NODE_GATE + params::ADD_LINK_GATE {
        add_link(g, innovations, rng);
    }
    proof {
        assert(weights_pass_post(*old(g), mid, old(rng).state));
    }
}

} // verus!
