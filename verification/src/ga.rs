//! The population orchestrator: owns the genomes, the species and the
//! fitness channel, and drives the per-generation transition.
use vstd::prelude::*;
use crate::crossover::{canonical_ids, crossover, parents_compatible};
use crate::genes::{Genome, LinkGene, NodeGene, NeuronType, genome_wf};
use crate::innovation::Innovations;
use crate::mutation::{mutate, tracker_roomy};
use crate::numeric::{order_key, ZERO_BITS, ONE_BITS};
use crate::params;
use crate::phenotype::{compile, compiled_from, forward_ordered, net_wf, NeuralNet};
use crate::species::{compatibility_distance, Species};
use crate::utils::Rng;

verus! {

/// A genome the engine may hold: well formed, canonically numbered, of the
/// given arity, and of bounded size.
pub open spec fn genome_ok(g: Genome, n_in: usize, n_out: usize) -> bool {
    &&& genome_wf(g)
    &&& canonical_ids(g)
    &&& g.num_inputs == n_in
    &&& g.num_outputs == n_out
    &&& g.nodes@.len() < 0x10_0000
    &&& g.links@.len() < 0x10_0000
}

/// A genome the population may hold.
pub open spec fn pop_genome_ok(ga: GA, g: Genome) -> bool {
    genome_ok(g, ga.num_inputs, ga.num_outputs)
}

/// The orchestrator's invariant.
pub open spec fn ga_wf(ga: GA) -> bool {
    &&& ga.pop_size >= 1
    &&& ga.num_inputs >= 1
    &&& ga.num_outputs >= 1
    &&& ga.num_inputs + 1 + ga.num_outputs < 0x1_0000
    &&& ga.genomes@.len() == ga.pop_size
    &&& ga.fitness@.len() == ga.pop_size
    &&& forall|i: int| 0 <= i < ga.genomes@.len() ==> pop_genome_ok(ga, #[trigger] ga.genomes@[i])
    &&& crate::innovation::innovations_wf(ga.innovations)
    &&& forall|s: int| 0 <= s < ga.species@.len() ==> pop_genome_ok(ga, (#[trigger] ga.species@[s]).representative)
}

/// The genetic-algorithm driver: population, species, fitness channel,
/// innovation tracker and the injected random source.
pub struct GA {
    pub genomes: Vec<Genome>,
    pub species: Vec<Species>,
    pub generation: u64,
    /// raw per-individual fitness, binary64 bits, written by the caller
    pub fitness: Vec<u64>,
    /// the fitness vector as it stood just before the last epoch
    pub prev_fitness: Vec<u64>,
    pub innovations: Innovations,
    pub rng: Rng,
    /// current compatibility threshold, binary64 bits
    pub threshold: u64,
    pub pop_size: usize,
    pub num_inputs: usize,
    pub num_outputs: usize,
    pub next_species_id: u32,
}

/// The minimal initial topology: exactly the input, bias and output nodes
/// (identified by their indices, with unit sigmoid response), and links that
/// run only from inputs or the bias to outputs, all enabled, none recurrent.
pub open spec fn minimal_topology(g: Genome) -> bool {
    &&& g.nodes@.len() == g.num_inputs + 1 + g.num_outputs
    &&& forall|x: int|
        0 <= x < g.nodes@.len() ==> (#[trigger] g.nodes@[x]).id == x && g.nodes@[x].response
            == ONE_BITS
    &&& forall|t: int|
        0 <= t < g.links@.len() ==> (#[trigger] g.links@[t]).enabled && !g.links@[t].recurrent
            && g.links@[t].from <= g.num_inputs && g.num_inputs < g.links@[t].to
            < g.nodes@.len()
}

/// `a` ranks strictly before `b` under the fitness keys `f`: a greater key,
/// or an equal key and a smaller index.  For the non-negative fitness values
/// this engine stores, the key order is the numeric order, so this is
/// descending fitness with ties broken by ascending index.
pub open spec fn ranked_before(f: Seq<u64>, a: int, b: int) -> bool {
    order_key(f[a]) > order_key(f[b]) || (order_key(f[a]) == order_key(f[b]) && a < b)
}

/// Builds one minimal genome: the inputs and the bias each connected to
/// every output, with the given weights list supplying one weight per link
/// in innovation order.
#[verifier::loop_isolation(false)]
#[verifier::spinoff_prover]
fn minimal_genome(
    num_inputs: usize,
    num_outputs: usize,
    innovations: &mut Innovations,
    rng: &mut Rng,
) -> (g: Genome)
    requires
        1 <= num_inputs,
        1 <= num_outputs,
        num_inputs + 1 + num_outputs < 0x1_0000,
        crate::innovation::innovations_wf(*old(innovations)),
    ensures
        genome_wf(g),
        canonical_ids(g),
        g.num_inputs == num_inputs,
        g.num_outputs == num_outputs,
        g.nodes@.len() == num_inputs + 1 + num_outputs,
        g.links@.len() <= (num_inputs + 1) * num_outputs,
        minimal_topology(g),
        crate::innovation::innovations_wf(*final(innovations)),
{
    let k = num_inputs + 1 + num_outputs;
    let mut nodes: Vec<NodeGene> = Vec::new();
    let mut i: usize = 0;
    while i < k
        invariant
            i <= k,
            nodes@.len() == i,
            forall|x: int|
                0 <= x < i ==> (#[trigger] nodes@[x]).id == x && nodes@[x].response == ONE_BITS,
            forall|x: int|
                0 <= x < i ==> (#[trigger] nodes@[x]).role == (if x < num_inputs {
                    NeuronType::Input
                } else if x == num_inputs {
                    NeuronType::Bias
                } else {
                    NeuronType::Output
                }),
        decreases k - i,
    {
        let role = if i < num_inputs {
            NeuronType::Input
        } else if i == num_inputs {
            NeuronType::Bias
        } else {
            NeuronType::Output
        };
        nodes.push(NodeGene { id: i as u32, role, response: ONE_BITS });
        i = i + 1;
    }
    let mut links: Vec<LinkGene> = Vec::new();
    let mut src: usize = 0;
    while src <= num_inputs
        invariant
            src <= num_inputs + 1,
            links@.len() <= src * num_outputs,
            forall|t1: int, t2: int|
                0 <= t1 < t2 < links@.len() ==> links@[t1].innovation < links@[t2].innovation,
            forall|t: int|
                0 <= t < links@.len() ==> (#[trigger] links@[t]).from <= num_inputs && num_inputs
                    < links@[t].to < k && links@[t].enabled && !links@[t].recurrent,
            crate::innovation::innovations_wf(*innovations),
        decreases num_inputs + 1 - src,
    {
        let mut o: usize = 0;
        while o < num_outputs
            invariant
                o <= num_outputs,
                links@.len() <= src * num_outputs + o,
                forall|t1: int, t2: int|
                    0 <= t1 < t2 < links@.len() ==> links@[t1].innovation < links@[t2].innovation,
                forall|t: int|
                    0 <= t < links@.len() ==> (#[trigger] links@[t]).from <= num_inputs
                        && num_inputs < links@[t].to < k && links@[t].enabled
                        && !links@[t].recurrent,
                crate::innovation::innovations_wf(*innovations),
            decreases num_outputs - o,
        {
            let to = (num_inputs + 1 + o) as u32;
            if innovations.next_innovation < 0xFFFF_FFFF_0000_0000 {
                let innov = innovations.get_or_create(src as u32, to);
                let mut dup = false;
                let mut q: usize = 0;
                while q < links.len()
                    invariant
                        q <= links@.len(),
                        dup == exists|z: int|
                            0 <= z < q && (#[trigger] links@[z]).innovation == innov,
                    decreases links@.len() - q,
                {
                    if links[q].innovation == innov {
                        dup = true;
                        proof {
                            assert((#[trigger] links@[q as int]).innovation == innov);
                        }
                    }
                    q = q + 1;
                }
                if !dup {
                    let w = crate::utils::random_clamped(rng);
                    let gene = LinkGene {
                        from: src as u32,
                        to,
                        weight: w,
                        enabled: true,
                        recurrent: false,
                        innovation: innov,
                    };
                    crate::genes::insert_link_sorted(&mut links, gene);
                }
            }
            o = o + 1;
        }
        proof {
            assert(links@.len() <= src * num_outputs + num_outputs);
            assert(src * num_outputs + num_outputs == (src + 1) * num_outputs) by (nonlinear_arith);
        }
        src = src + 1;
    }
    let g = Genome { num_inputs, num_outputs, nodes, links };
    proof {
        assert(crate::genes::node_layout_ok(g));
        assert(crate::genes::node_ids_unique(g));
        assert(crate::genes::links_reference_nodes(g)) by {
            assert forall|t: int|
                0 <= t < g.links@.len() implies crate::genes::has_node_id(
                g,
                #[trigger] g.links@[t].from,
            ) && crate::genes::has_target_node_id(g, g.links@[t].to) by {
                let f = g.links@[t].from as int;
                assert(g.nodes@[f].id == g.links@[t].from);
                let to = g.links@[t].to as int;
                assert(g.nodes@[to].id == g.links@[t].to);
                assert(g.nodes@[to].role == NeuronType::Output);
            }
        }
        assert(canonical_ids(g));
    }
    g
}

impl GA {
    /// Builds `pop_size` minimal genomes of the given arity, one trivial
    /// initial species, and a fresh innovation tracker.  The random source
    /// starts from the given seed, so a whole run is reproducible.
    #[verifier::loop_isolation(false)]
    pub fn with_seed(pop_size: usize, num_inputs: usize, num_outputs: usize, seed: u64) -> (ga: GA)
        requires
            1 <= pop_size,
            1 <= num_inputs,
            1 <= num_outputs,
            num_inputs + 1 + num_outputs < 0x1_0000,
            (num_inputs + 1) * num_outputs < 0x10_0000,
        ensures
            ga_wf(ga),
            ga.pop_size == pop_size,
            ga.num_inputs == num_inputs,
            ga.num_outputs == num_outputs,
            ga.generation == 0,
            ga.fitness@ == Seq::new(pop_size as nat, |i: int| ZERO_BITS),
            forall|i: int|
                0 <= i < ga.genomes@.len() ==> minimal_topology(#[trigger] ga.genomes@[i]),
    {
        let mut rng = Rng::new(seed);
        let first_node_id = (num_inputs + 1 + num_outputs) as u32;
        let mut innovations = Innovations::new(0, first_node_id);
        let mut genomes: Vec<Genome> = Vec::new();
        let mut p: usize = 0;
        while p < pop_size
            invariant
                p <= pop_size,
                genomes@.len() == p,
                crate::innovation::innovations_wf(innovations),
                forall|i: int|
                    0 <= i < p ==> {
                        let g = #[trigger] genomes@[i];
                        &&& genome_wf(g)
                        &&& canonical_ids(g)
                        &&& g.num_inputs == num_inputs
                        &&& g.num_outputs == num_outputs
                        &&& g.nodes@.len() < 0x10_0000
                        &&& g.links@.len() < 0x10_0000
                        &&& minimal_topology(g)
                    },
            decreases pop_size - p,
        {
            let g = minimal_genome(num_inputs, num_outputs, &mut innovations, &mut rng);
            genomes.push(g);
            p = p + 1;
        }
        let rep = genomes[0].duplicate();
        let mut species: Vec<Species> = Vec::new();
        species.push(
            Species {
                id: 0,
                representative: rep,
                members: Vec::new(),
                best_fitness: ZERO_BITS,
                stagnation: 0,
            },
        );
        let mut fitness: Vec<u64> = Vec::new();
        let mut prev_fitness: Vec<u64> = Vec::new();
        let mut q: usize = 0;
        while q < pop_size
            invariant
                q <= pop_size,
                fitness@ == Seq::new(q as nat, |i: int| ZERO_BITS),
                prev_fitness@ == Seq::new(q as nat, |i: int| ZERO_BITS),
            decreases pop_size - q,
        {
            fitness.push(ZERO_BITS);
            prev_fitness.push(ZERO_BITS);
            proof {
                assert(fitness@ =~= Seq::new((q + 1) as nat, |i: int| ZERO_BITS));
                assert(prev_fitness@ =~= Seq::new((q + 1) as nat, |i: int| ZERO_BITS));
            }
            q = q + 1;
        }
        GA {
            genomes,
            species,
            generation: 0,
            fitness,
            prev_fitness,
            innovations,
            rng,
            threshold: params::COMPAT_THRESHOLD,
            pop_size,
            num_inputs,
            num_outputs,
            next_species_id: 1,
        }
    }

    /// As `with_seed`, but seeded from machine entropy.
    pub fn new(pop_size: usize, num_inputs: usize, num_outputs: usize) -> (ga: GA)
        requires
            1 <= pop_size,
            1 <= num_inputs,
            1 <= num_outputs,
            num_inputs + 1 + num_outputs < 0x1_0000,
            (num_inputs + 1) * num_outputs < 0x10_0000,
        ensures
            ga_wf(ga),
            ga.pop_size == pop_size,
            ga.num_inputs == num_inputs,
            ga.num_outputs == num_outputs,
            ga.generation == 0,
            forall|i: int|
                0 <= i < ga.genomes@.len() ==> minimal_topology(#[trigger] ga.genomes@[i]),
    {
        let seed = crate::utils::entropy_seed();
        GA::with_seed(pop_size, num_inputs, num_outputs, seed)
    }

    /// Compiles genome `index` into an executable network.
    pub fn get_phenotype(&self, index: usize) -> (net: NeuralNet)
        requires
            ga_wf(*self),
            index < self.pop_size,
        ensures
            net_wf(net),
            forward_ordered(net),
            net.num_inputs == self.num_inputs,
            compiled_from(self.genomes@[index as int], net),
    {
        compile(&self.genomes[index])
    }

    /// The per-individual fitness vector as the caller last wrote it.
    pub fn fitness_scores(&self) -> (r: Vec<u64>)
        ensures
            r@ == self.fitness@,
    {
        let mut r: Vec<u64> = Vec::new();
        let mut i: usize = 0;
        while i < self.fitness.len()
            invariant
                i <= self.fitness@.len(),
                r@ == self.fitness@.take(i as int),
            decreases self.fitness@.len() - i,
        {
            r.push(self.fitness[i]);
            proof {
                assert(r@ =~= self.fitness@.take(i + 1 as int));
            }
            i = i + 1;
        }
        proof {
            assert(self.fitness@.take(self.fitness@.len() as int) =~= self.fitness@);
        }
        r
    }

    /// Writes one individual's raw fitness (binary64 bits).
    pub fn set_fitness(&mut self, index: usize, value: u64)
        requires
            ga_wf(*old(self)),
            index < old(self).pop_size,
        ensures
            ga_wf(*final(self)),
            final(self).fitness@ == old(self).fitness@.update(index as int, value),
            final(self).genomes@ == old(self).genomes@,
            final(self).prev_fitness@ == old(self).prev_fitness@,
            final(self).generation == old(self).generation,
            final(self).pop_size == old(self).pop_size,
    {
        self.fitness[index] = value;
        proof {
            assert(self.fitness@ =~= old(self).fitness@.update(index as int, value));
            assert forall|i: int| 0 <= i < self.genomes@.len() implies pop_genome_ok(
                *self,
                #[trigger] self.genomes@[i],
            ) by {
                assert(pop_genome_ok(*old(self), old(self).genomes@[i]));
            }
            assert forall|s: int| 0 <= s < self.species@.len() implies pop_genome_ok(
                *self,
                (#[trigger] self.species@[s]).representative,
            ) by {
                assert(pop_genome_ok(*old(self), old(self).species@[s].representative));
            }
        }
    }

    /// Indices of the population as it stood immediately before the most
    /// recent epoch, sorted by descending recorded fitness with ties broken
    /// by ascending index.
    #[verifier::loop_isolation(false)]
    #[verifier::spinoff_prover]
    pub fn get_best_phenotypes_from_last_generation(&self) -> (r: Vec<usize>)
        ensures
            r@.len() == self.prev_fitness@.len(),
            forall|t: int| 0 <= t < r@.len() ==> (#[trigger] r@[t]) < self.prev_fitness@.len(),
            forall|t1: int, t2: int| 0 <= t1 < t2 < r@.len() ==> r@[t1] != r@[t2],
            forall|t1: int, t2: int|
                0 <= t1 < t2 < r@.len() ==> ranked_before(
                    self.prev_fitness@,
                    r@[t1] as int,
                    r@[t2] as int,
                ),
    {
        let n = self.prev_fitness.len();
        let mut used: Vec<bool> = Vec::new();
        while used.len() < n
            invariant
                used@.len() <= n,
                forall|x: int| 0 <= x < used@.len() ==> !(#[trigger] used@[x]),
            decreases n - used@.len(),
        {
            used.push(false);
        }
        let mut r: Vec<usize> = Vec::new();
        let mut round: usize = 0;
        while round < n
            invariant
                round <= n,
                r@.len() == round,
                used@.len() == n,
                forall|t: int| 0 <= t < r@.len() ==> (#[trigger] r@[t]) < n,
                forall|t: int| 0 <= t < r@.len() ==> used@[r@[t] as int],
                forall|x: int|
                    0 <= x < n && (#[trigger] used@[x]) ==> exists|t: int|
                        0 <= t < r@.len() && r@[t] == x,
                forall|t1: int, t2: int| 0 <= t1 < t2 < r@.len() ==> r@[t1] != r@[t2],
                forall|t1: int, t2: int|
                    0 <= t1 < t2 < r@.len() ==> ranked_before(
                        self.prev_fitness@,
                        r@[t1] as int,
                        r@[t2] as int,
                    ),
                forall|t: int, x: int|
                    0 <= t < r@.len() && 0 <= x < n && !(#[trigger] used@[x]) ==> ranked_before(
                        self.prev_fitness@,
                        (#[trigger] r@[t]) as int,
                        x,
                    ),
            decreases n - round,
        {
            // the best not yet taken: the greatest key, smallest index first
            let mut best: usize = 0;
            let mut have = false;
            let mut x: usize = 0;
            while x < n
                invariant
                    x <= n,
                    used@.len() == n,
                    have ==> best < n && best < x && !used@[best as int],
                    have ==> forall|y: int|
                        0 <= y < x && !(#[trigger] used@[y]) && y != best ==> ranked_before(
                            self.prev_fitness@,
                            best as int,
                            y,
                        ),
                    !have ==> forall|y: int| 0 <= y < x ==> (#[trigger] used@[y]),
                decreases n - x,
            {
                if !used[x] {
                    if !have {
                        best = x;
                        have = true;
                    } else {
                        let kx = crate::numeric::exec_order_key(self.prev_fitness[x]);
                        let kb = crate::numeric::exec_order_key(self.prev_fitness[best]);
                        if kx > kb {
                            best = x;
                        }
                    }
                }
                x = x + 1;
            }
            proof {
                if !have {
                    // every index is used, yet only `round < n` were taken
                    assert(forall|y: int| 0 <= y < n ==> (#[trigger] used@[y]));
                    lemma_all_used_contradiction(r@, used@, n as int);
                }
            }
            let ghost used_before = used@;
            let ghost r_before = r@;
            used[best] = true;
            r.push(best);
            proof {
                assert forall|x: int|
                    0 <= x < n && (#[trigger] used@[x]) implies exists|t: int|
                    0 <= t < r@.len() && r@[t] == x by {
                    if x == best {
                        assert(r@[r@.len() - 1] == best);
                    } else {
                        assert(used_before[x]);
                        let t0 = choose|t: int| 0 <= t < r_before.len() && r_before[t] == x;
                        assert(r@[t0] == x);
                    }
                }
            }
            round = round + 1;
        }
        r
    }
}

/// If every one of `n` slots is marked used and each marked slot is hit by
/// the list `r`, the injective list `r` has at least `n` entries.
proof fn lemma_all_used_contradiction(r: Seq<usize>, used: Seq<bool>, n: int)
    requires
        n >= 0,
        used.len() == n,
        forall|x: int| 0 <= x < n ==> (#[trigger] used[x]),
        forall|x: int|
            0 <= x < n && (#[trigger] used[x]) ==> exists|t: int| 0 <= t < r.len() && r[t] == x,
        forall|t: int| 0 <= t < r.len() ==> (#[trigger] r[t]) < n,
        forall|t1: int, t2: int| 0 <= t1 < t2 < r.len() ==> r[t1] != r[t2],
    ensures
        r.len() >= n,
{
    assert forall|x: int| 0 <= x < n implies #[trigger] crate::phenotype::seq_hits(r, x) by {
        assert(used[x]);
        let t = choose|t: int| 0 <= t < r.len() && (#[trigger] r[t]) == x;
        assert(r[t] == x);
    }
    crate::phenotype::lemma_injective_image_size(r, n);
}


/// The species list after speciation: every species holds at least one
/// member index into the current population, and a well-formed
/// representative of the population's arity.
pub open spec fn species_ready(species: Seq<Species>, n_genomes: int, n_in: usize, n_out: usize) -> bool {
    &&& species.len() >= 1
    &&& forall|s: int|
        0 <= s < species.len() ==> genome_ok((#[trigger] species[s]).representative, n_in, n_out)
    &&& forall|s: int| 0 <= s < species.len() ==> (#[trigger] species[s]).members@.len() >= 1
    &&& forall|s: int, m: int|
        0 <= s < species.len() && 0 <= m < species[s].members@.len() ==> (
        #[trigger] species[s].members@[m]) < n_genomes
}

/// Clusters the population into species and updates the stagnation books.
///
/// Every genome joins the first species whose representative lies within the
/// compatibility threshold, else it founds a new species with itself as
/// representative.  Each species then records its best member fitness; a
/// generation without improvement raises its stagnation counter.  Species
/// with no members, and species stagnant beyond the configured limit (the
/// best-scoring species excepted), are removed.  If removal would leave
/// nothing — full extinction, which the configuration is meant to avoid — a
/// fresh species seeded from the first genome takes their place.
#[verifier::loop_isolation(false)]
#[verifier::spinoff_prover]
fn run_speciation(
    species: &mut Vec<Species>,
    genomes: &Vec<Genome>,
    fitness: &Vec<u64>,
    threshold: u64,
    next_species_id: &mut u32,
    n_in: usize,
    n_out: usize,
)
    requires
        genomes@.len() >= 1,
        fitness@.len() == genomes@.len(),
        forall|i: int| 0 <= i < genomes@.len() ==> genome_ok(#[trigger] genomes@[i], n_in, n_out),
        forall|s: int|
            0 <= s < old(species)@.len() ==> genome_ok(
                (#[trigger] old(species)@[s]).representative,
                n_in,
                n_out,
            ),
    ensures
        species_ready(final(species)@, genomes@.len() as int, n_in, n_out),
{
    // assign every genome to the first compatible species, founding new ones
    let mut assign: Vec<usize> = Vec::new();
    let mut i: usize = 0;
    while i < genomes.len()
        invariant
            i <= genomes@.len(),
            assign@.len() == i,
            forall|q: int| 0 <= q < i ==> (#[trigger] assign@[q]) < species@.len(),
            forall|s: int|
                0 <= s < species@.len() ==> genome_ok(
                    (#[trigger] species@[s]).representative,
                    n_in,
                    n_out,
                ),
        decreases genomes@.len() - i,
    {
        let mut s: usize = 0;
        let mut placed = false;
        let mut chosen: usize = 0;
        while s < species.len() && !placed
            invariant
                s <= species@.len(),
                placed ==> chosen < species@.len(),
            decreases species@.len() - s, (if placed { 0int } else { 1int }),
        {
            let d = compatibility_distance(
                &species[s].representative,
                &genomes[i],
                params::EXCESS_COEFF,
                params::DISJOINT_COEFF,
                params::WEIGHT_COEFF,
            );
            if crate::numeric::scalar_gt(threshold, d) {
                placed = true;
                chosen = s;
            } else {
                s = s + 1;
            }
        }
        if !placed {
            chosen = species.len();
            let sid = *next_species_id;
            if sid < 0xFFFF_FFFF {
                *next_species_id = sid + 1;
            }
            species.push(
                Species {
                    id: sid,
                    representative: genomes[i].duplicate(),
                    members: Vec::new(),
                    best_fitness: fitness[i],
                    stagnation: 0,
                },
            );
        }
        assign.push(chosen);
        i = i + 1;
    }

    // rebuild the member lists and update best fitness / stagnation
    let mut s: usize = 0;
    while s < species.len()
        invariant
            s <= species@.len(),
            assign@.len() == genomes@.len(),
            forall|q: int| 0 <= q < assign@.len() ==> (#[trigger] assign@[q]) < species@.len(),
            forall|s2: int|
                0 <= s2 < species@.len() ==> genome_ok(
                    (#[trigger] species@[s2]).representative,
                    n_in,
                    n_out,
                ),
            forall|s2: int, m: int|
                0 <= s2 < s && 0 <= m < species@[s2].members@.len() ==> (
                #[trigger] species@[s2].members@[m]) < genomes@.len(),
        decreases species@.len() - s,
    {
        let mut mem: Vec<usize> = Vec::new();
        let mut q: usize = 0;
        while q < assign.len()
            invariant
                q <= assign@.len(),
                forall|m: int| 0 <= m < mem@.len() ==> (#[trigger] mem@[m]) < assign@.len(),
            decreases assign@.len() - q,
        {
            if assign[q] == s {
                mem.push(q);
            }
            q = q + 1;
        }
        species[s].members = mem;
        if species[s].members.len() >= 1 {
            let first = species[s].members[0];
            let mut bf: u64 = fitness[first];
            let mut m: usize = 1;
            while m < species[s].members.len()
                invariant
                    m <= species@[s as int].members@.len(),
                decreases species@[s as int].members@.len() - m,
            {
                let idx = species[s].members[m];
                let f = fitness[idx];
                if crate::numeric::scalar_gt(f, bf) {
                    bf = f;
                }
                m = m + 1;
            }
            if crate::numeric::scalar_gt(bf, species[s].best_fitness) {
                species[s].best_fitness = bf;
                species[s].stagnation = 0;
            } else {
                if species[s].stagnation < 0xFFFF_FFFF {
                    species[s].stagnation = species[s].stagnation + 1;
                }
            }
        }
        s = s + 1;
    }

    // the best-scoring populated species is protected from removal
    let mut gbest: usize = 0;
    let mut have = false;
    let mut s2: usize = 0;
    while s2 < species.len()
        invariant
            s2 <= species@.len(),
            have ==> gbest < species@.len(),
        decreases species@.len() - s2,
    {
        if species[s2].members.len() >= 1 {
            if !have {
                gbest = s2;
                have = true;
            } else {
                let ks = crate::numeric::exec_order_key(species[s2].best_fitness);
                let kb = crate::numeric::exec_order_key(species[gbest].best_fitness);
                if ks > kb {
                    gbest = s2;
                }
            }
        }
        s2 = s2 + 1;
    }

    // remove empty and over-stagnant species (the best one protected)
    let mut survivors: Vec<Species> = Vec::new();
    while species.len() > 0
        invariant
            forall|s3: int|
                0 <= s3 < species@.len() ==> genome_ok(
                    (#[trigger] species@[s3]).representative,
                    n_in,
                    n_out,
                ),
            forall|s3: int, m: int|
                0 <= s3 < species@.len() && 0 <= m < species@[s3].members@.len() ==> (
                #[trigger] species@[s3].members@[m]) < genomes@.len(),
            forall|s3: int|
                0 <= s3 < survivors@.len() ==> genome_ok(
                    (#[trigger] survivors@[s3]).representative,
                    n_in,
                    n_out,
                ) && survivors@[s3].members@.len() >= 1,
            forall|s3: int, m: int|
                0 <= s3 < survivors@.len() && 0 <= m < survivors@[s3].members@.len() ==> (
                #[trigger] survivors@[s3].members@[m]) < genomes@.len(),
        decreases species@.len(),
    {
        let idx = species.len() - 1;
        if let Some(sp) = species.pop() {
            if sp.members.len() >= 1 && (sp.stagnation <= params::STAGNATION_LIMIT || idx
                == gbest) {
                survivors.push(sp);
            }
        }
    }
    while survivors.len() > 0
        invariant
            forall|s3: int|
                0 <= s3 < survivors@.len() ==> genome_ok(
                    (#[trigger] survivors@[s3]).representative,
                    n_in,
                    n_out,
                ) && survivors@[s3].members@.len() >= 1,
            forall|s3: int, m: int|
                0 <= s3 < survivors@.len() && 0 <= m < survivors@[s3].members@.len() ==> (
                #[trigger] survivors@[s3].members@[m]) < genomes@.len(),
            forall|s3: int|
                0 <= s3 < species@.len() ==> genome_ok(
                    (#[trigger] species@[s3]).representative,
                    n_in,
                    n_out,
                ) && species@[s3].members@.len() >= 1,
            forall|s3: int, m: int|
                0 <= s3 < species@.len() && 0 <= m < species@[s3].members@.len() ==> (
                #[trigger] species@[s3].members@[m]) < genomes@.len(),
        decreases survivors@.len(),
    {
        if let Some(sp) = survivors.pop() {
            species.push(sp);
        }
    }
    if species.len() == 0 {
        let sid = *next_species_id;
        if sid < 0xFFFF_FFFF {
            *next_species_id = sid + 1;
        }
        let mut mem: Vec<usize> = Vec::new();
        mem.push(0);
        species.push(
            Species {
                id: sid,
                representative: genomes[0].duplicate(),
                members: mem,
                best_fitness: fitness[0],
                stagnation: 0,
            },
        );
    }
}

/// One offspring for species `s`: with probability `CROSSOVER_RATE_GATE` a
/// crossover of two members (the fitter parent primary, equal keys treated
/// as equal fitness), otherwise a clone of one member; a mutation pass is
/// applied when the genome and the tracker have room left.
#[verifier::loop_isolation(false)]
#[verifier::spinoff_prover]
fn spawn_child(
    genomes: &Vec<Genome>,
    species: &Vec<Species>,
    fitness: &Vec<u64>,
    s: usize,
    innovations: &mut Innovations,
    rng: &mut Rng,
    n_in: usize,
    n_out: usize,
) -> (child: Genome)
    requires
        species_ready(species@, genomes@.len() as int, n_in, n_out),
        s < species@.len(),
        fitness@.len() == genomes@.len(),
        forall|i: int| 0 <= i < genomes@.len() ==> genome_ok(#[trigger] genomes@[i], n_in, n_out),
        crate::innovation::innovations_wf(*old(innovations)),
    ensures
        genome_ok(child, n_in, n_out),
        crate::innovation::innovations_wf(*final(innovations)),
{
    let n_mem = species[s].members.len();
    let ra = rng.below(n_mem);
    let a_idx = species[s].members[ra];
    let rb = rng.below(n_mem);
    let b_idx = species[s].members[rb];
    let cross_roll = rng.next_u64();
    let mut child: Genome;
    if cross_roll < params::CROSSOVER_RATE_GATE && a_idx != b_idx {
        let ka = crate::numeric::exec_order_key(fitness[a_idx]);
        let kb = crate::numeric::exec_order_key(fitness[b_idx]);
        let eq = ka == kb;
        if ka >= kb {
            child = crossover(&genomes[a_idx], &genomes[b_idx], eq, rng);
        } else {
            child = crossover(&genomes[b_idx], &genomes[a_idx], eq, rng);
        }
    } else {
        child = genomes[a_idx].duplicate();
    }
    if child.nodes.len() < 0xF_0000 && child.links.len() < 0xF_0000
        && innovations.next_innovation < 0xFFFF_FFFF_0000_0000 && innovations.next_node_id
        < 0xFFFF_0000 {
        mutate(&mut child, innovations, rng);
    }
    if child.nodes.len() < 0x10_0000 && child.links.len() < 0x10_0000 {
        child
    } else {
        genomes[a_idx].duplicate()
    }
}

/// Builds the next generation: each species above the minimum size keeps its
/// best member unmutated (the elite), then each species receives an
/// offspring quota proportional to its share of the population's adjusted
/// fitness (raw fitness divided by species size — fitness sharing), and any
/// remaining slots are filled round-robin over the surviving species.
#[verifier::loop_isolation(false)]
#[verifier::spinoff_prover]
fn make_offspring(
    genomes: &Vec<Genome>,
    species: &Vec<Species>,
    fitness: &Vec<u64>,
    innovations: &mut Innovations,
    rng: &mut Rng,
    pop_size: usize,
    n_in: usize,
    n_out: usize,
) -> (out: Vec<Genome>)
    requires
        pop_size >= 1,
        species_ready(species@, genomes@.len() as int, n_in, n_out),
        fitness@.len() == genomes@.len(),
        forall|i: int| 0 <= i < genomes@.len() ==> genome_ok(#[trigger] genomes@[i], n_in, n_out),
        crate::innovation::innovations_wf(*old(innovations)),
    ensures
        out@.len() == pop_size,
        forall|i: int| 0 <= i < out@.len() ==> genome_ok(#[trigger] out@[i], n_in, n_out),
        crate::innovation::innovations_wf(*final(innovations)),
{
    // adjusted fitness per species: the members' raw fitness shared by the
    // species size, summed
    let n_species = species.len();
    let mut adj: Vec<u64> = Vec::new();
    let mut s: usize = 0;
    while s < n_species
        invariant
            s <= n_species,
            n_species == species@.len(),
            adj@.len() == s,
        decreases n_species - s,
    {
        let size_bits = crate::numeric::f64_from_u64(species[s].members.len() as u64);
        let mut sum: u64 = ZERO_BITS;
        let mut m: usize = 0;
        while m < species[s].members.len()
            invariant
                m <= species@[s as int].members@.len(),
            decreases species@[s as int].members@.len() - m,
        {
            let idx = species[s].members[m];
            sum = crate::numeric::f64_add(sum, crate::numeric::f64_div(fitness[idx], size_bits));
            m = m + 1;
        }
        adj.push(sum);
        s = s + 1;
    }
    let mut total: u64 = ZERO_BITS;
    let mut s2: usize = 0;
    while s2 < n_species
        invariant
            s2 <= n_species,
            adj@.len() == n_species,
        decreases n_species - s2,
    {
        total = crate::numeric::f64_add(total, adj[s2]);
        s2 = s2 + 1;
    }

    let mut out: Vec<Genome> = Vec::new();
    // elites: species above the minimum size keep their best member as is
    let mut s3: usize = 0;
    while s3 < n_species
        invariant
            s3 <= n_species,
            out@.len() <= pop_size,
            forall|i: int| 0 <= i < out@.len() ==> genome_ok(#[trigger] out@[i], n_in, n_out),
        decreases n_species - s3,
    {
        if species[s3].members.len() >= params::ELITE_MIN_SIZE && out.len() < pop_size {
            let mut bm = species[s3].members[0];
            let mut m: usize = 1;
            while m < species[s3].members.len()
                invariant
                    m <= species@[s3 as int].members@.len(),
                    bm < genomes@.len(),
                decreases species@[s3 as int].members@.len() - m,
            {
                let idx = species[s3].members[m];
                if crate::numeric::scalar_gt(fitness[idx], fitness[bm]) {
                    bm = idx;
                }
                m = m + 1;
            }
            out.push(genomes[bm].duplicate());
        }
        s3 = s3 + 1;
    }
    // proportional quota per species
    let mut s4: usize = 0;
    while s4 < n_species
        invariant
            s4 <= n_species,
            adj@.len() == n_species,
            out@.len() <= pop_size,
            forall|i: int| 0 <= i < out@.len() ==> genome_ok(#[trigger] out@[i], n_in, n_out),
            crate::innovation::innovations_wf(*innovations),
        decreases n_species - s4,
    {
        let q_bits = crate::numeric::f64_div(
            crate::numeric::f64_mul(adj[s4], crate::numeric::f64_from_u64(pop_size as u64)),
            total,
        );
        let q64 = crate::numeric::f64_to_u64(q_bits);
        let quota: usize = if q64 > pop_size as u64 {
            pop_size
        } else {
            q64 as usize
        };
        let mut c: usize = 0;
        while c < quota && out.len() < pop_size
            invariant
                c <= quota,
                out@.len() <= pop_size,
                forall|i: int| 0 <= i < out@.len() ==> genome_ok(#[trigger] out@[i], n_in, n_out),
                crate::innovation::innovations_wf(*innovations),
            decreases quota - c,
        {
            let child = spawn_child(genomes, species, fitness, s4, innovations, rng, n_in, n_out);
            out.push(child);
            c = c + 1;
        }
        s4 = s4 + 1;
    }
    // fill any remainder round-robin over the species
    let mut rr: usize = 0;
    while out.len() < pop_size
        invariant
            out@.len() <= pop_size,
            forall|i: int| 0 <= i < out@.len() ==> genome_ok(#[trigger] out@[i], n_in, n_out),
            crate::innovation::innovations_wf(*innovations),
        decreases pop_size - out@.len(),
    {
        let sp = rr % n_species;
        let child = spawn_child(genomes, species, fitness, sp, innovations, rng, n_in, n_out);
        out.push(child);
        rr = if rr < 0xFFFF_FFFF {
            rr + 1
        } else {
            0
        };
    }
    out
}

/// Promotes a random surviving member of each species as its new
/// representative for the next generation's compatibility tests.
#[verifier::loop_isolation(false)]
#[verifier::spinoff_prover]
fn promote_representatives(
    species: &mut Vec<Species>,
    genomes: &Vec<Genome>,
    rng: &mut Rng,
    n_in: usize,
    n_out: usize,
)
    requires
        species_ready(old(species)@, genomes@.len() as int, n_in, n_out),
        forall|i: int| 0 <= i < genomes@.len() ==> genome_ok(#[trigger] genomes@[i], n_in, n_out),
    ensures
        final(species)@.len() == old(species)@.len(),
        forall|s: int|
            0 <= s < final(species)@.len() ==> genome_ok(
                (#[trigger] final(species)@[s]).representative,
                n_in,
                n_out,
            ),
{
    let n = species.len();
    let mut s: usize = 0;
    while s < n
        invariant
            s <= n,
            n == species@.len(),
            forall|s2: int| 0 <= s2 < species@.len() ==> (#[trigger] species@[s2]).members@.len()
                >= 1,
            forall|s2: int, m: int|
                0 <= s2 < species@.len() && 0 <= m < species@[s2].members@.len() ==> (
                #[trigger] species@[s2].members@[m]) < genomes@.len(),
            forall|s2: int|
                0 <= s2 < species@.len() ==> genome_ok(
                    (#[trigger] species@[s2]).representative,
                    n_in,
                    n_out,
                ),
        decreases n - s,
    {
        let r = rng.below(species[s].members.len());
        let pick = species[s].members[r];
        species[s].representative = genomes[pick].duplicate();
        s = s + 1;
    }
}

impl GA {
    /// One generational transition: records the fitness vector, runs the
    /// speciation cycle (clustering, fitness sharing, stagnation removal
    /// with the best species protected), builds the next population from
    /// elites, proportional offspring quotas and a round-robin remainder,
    /// promotes new representatives, nudges the compatibility threshold
    /// toward the target species count, resets the fitness channel and
    /// advances the generation counter.  Previously issued phenotypes do not
    /// reflect the new population.
    #[verifier::loop_isolation(false)]
    pub fn epoch(&mut self)
        requires
            ga_wf(*old(self)),
            old(self).generation < 0xFFFF_FFFF_FFFF_FFFF,
        ensures
            ga_wf(*final(self)),
            final(self).generation == old(self).generation + 1,
            final(self).prev_fitness@ == old(self).fitness@,
            final(self).genomes@.len() == old(self).pop_size,
            final(self).pop_size == old(self).pop_size,
            final(self).num_inputs == old(self).num_inputs,
            final(self).num_outputs == old(self).num_outputs,
            final(self).fitness@ == Seq::new(old(self).pop_size as nat, |i: int| ZERO_BITS),
            final(self).species@.len() >= 1,
    {
        self.prev_fitness = self.fitness_scores();
        run_speciation(
            &mut self.species,
            &self.genomes,
            &self.fitness,
            self.threshold,
            &mut self.next_species_id,
            self.num_inputs,
            self.num_outputs,
        );
        let offspring = make_offspring(
            &self.genomes,
            &self.species,
            &self.fitness,
            &mut self.innovations,
            &mut self.rng,
            self.pop_size,
            self.num_inputs,
            self.num_outputs,
        );
        promote_representatives(
            &mut self.species,
            &self.genomes,
            &mut self.rng,
            self.num_inputs,
            self.num_outputs,
        );
        // keep the species count near the target band
        if self.species.len() > params::TARGET_SPECIES {
            self.threshold = crate::numeric::f64_add(self.threshold, params::THRESHOLD_STEP);
        } else if self.species.len() < params::TARGET_SPECIES {
            self.threshold = crate::numeric::f64_sub(self.threshold, params::THRESHOLD_STEP);
        }
        self.genomes = offspring;
        let mut f: Vec<u64> = Vec::new();
        while f.len() < self.pop_size
            invariant
                f@ == Seq::new(f@.len(), |i: int| ZERO_BITS),
                f@.len() <= self.pop_size,
            decreases self.pop_size - f@.len(),
        {
            f.push(ZERO_BITS);
            proof {
                assert(f@ =~= Seq::new(f@.len(), |i: int| ZERO_BITS));
            }
        }
        self.fitness = f;
        self.generation = self.generation + 1;
        proof {
            assert(self.fitness@ =~= Seq::new(old(self).pop_size as nat, |i: int| ZERO_BITS));
        }
    }
}

} // verus!
