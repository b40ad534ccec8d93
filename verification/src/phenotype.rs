//! The phenotype: a compiled, executable network, and its evaluator.
//!
//! Neurons are held in an arena ordered so that inputs come first, the bias
//! next, and every remaining neuron follows all of its non-recurrent
//! predecessors.  Links address neurons by arena index, which lets recurrent
//! links form cycles without owning references.
use vstd::prelude::*;
use crate::genes::NeuronType;
use crate::numeric::{
    add_bits, mul_bits, sigmoid_bits, ONE_BITS, ZERO_BITS,
};

verus! {

/// A compiled connection between two neurons, by arena index.
#[derive(Clone, Copy, Debug)]
pub struct Link {
    pub _in: usize,
    pub out: usize,
    /// connection weight, binary64 bits
    pub weight: u64,
    pub recurrent: bool,
}

impl Link {
    pub fn new(w: u64, in_idx: usize, out_idx: usize, rec: bool) -> (r: Link)
        ensures
            r == (Link { _in: in_idx, out: out_idx, weight: w, recurrent: rec }),
    {
        Link { weight: w, _in: in_idx, out: out_idx, recurrent: rec }
    }
}

/// A compiled neuron: its incoming and outgoing links, its running output,
/// role, identifier, sigmoid curvature, and the layout split coordinates the
/// rendering collaborator reads.
#[derive(Clone, Debug)]
pub struct Neuron {
    pub links_in: Vec<Link>,
    pub links_out: Vec<Link>,
    pub sum_activation: u64,
    pub output: u64,
    pub neuron_type: NeuronType,
    pub neuron_id: u32,
    pub activation_response: u64,
    /// the node's depth in the compiled order (layout and diagnostics)
    pub depth_level: u32,
    pub split_x: u64,
    pub split_y: u64,
}

impl Neuron {
    pub fn new(tp: NeuronType, id: u32, y: u64, x: u64, act_response: u64) -> (r: Neuron)
        ensures
            r.links_in@.len() == 0,
            r.links_out@.len() == 0,
            r.sum_activation == ZERO_BITS,
            r.output == ZERO_BITS,
            r.neuron_type == tp,
            r.neuron_id == id,
            r.activation_response == act_response,
            r.depth_level == 0,
            r.split_x == x,
            r.split_y == y,
    {
        Neuron {
            neuron_type: tp,
            neuron_id: id,
            sum_activation: ZERO_BITS,
            output: ZERO_BITS,
            depth_level: 0,
            split_y: y,
            split_x: x,
            activation_response: act_response,
            links_in: Vec::new(),
            links_out: Vec::new(),
        }
    }

    pub fn links_out(&self) -> (r: &Vec<Link>)
        ensures
            r == &self.links_out,
    {
        &self.links_out
    }

    pub fn links_in(&self) -> (r: &Vec<Link>)
        ensures
            r == &self.links_in,
    {
        &self.links_in
    }

    pub fn neuron_type(&self) -> (r: &NeuronType)
        ensures
            r == &self.neuron_type,
    {
        &self.neuron_type
    }
}

/// The compiled network: the neuron arena and the network depth, which is
/// also the snapshot-mode iteration count.
pub struct NeuralNet {
    pub neurons: Vec<Neuron>,
    pub depth: u32,
    pub num_inputs: usize,
}

/// Which timing semantics an update call uses: `Snapshot` iterates the whole
/// network `depth` times and resets it afterwards; `Active` performs exactly
/// one pass per call and lets neuron outputs persist.
#[derive(Clone, Copy, PartialEq, Eq, Structural, Debug)]
pub enum RunType {
    Snapshot,
    Active,
}

/// The sequence of all neuron outputs, by arena index.
pub open spec fn net_outputs(net: NeuralNet) -> Seq<u64> {
    Seq::new(net.neurons@.len() as nat, |i: int| net.neurons@[i].output)
}

/// Arena layout: inputs first and contiguous, the bias immediately after,
/// and no input or bias neuron anywhere else; every link index in range.
pub open spec fn net_wf(net: NeuralNet) -> bool {
    &&& net.num_inputs + 1 <= net.neurons@.len()
    &&& forall|i: int| 0 <= i < net.num_inputs ==> net.neurons@[i].neuron_type == NeuronType::Input
    &&& net.neurons@[net.num_inputs as int].neuron_type == NeuronType::Bias
    &&& forall|i: int|
        net.num_inputs < i < net.neurons@.len() ==> net.neurons@[i].neuron_type
            != NeuronType::Input && net.neurons@[i].neuron_type != NeuronType::Bias
    &&& forall|p: int, k: int|
        0 <= p < net.neurons@.len() && 0 <= k < net.neurons@[p].links_in@.len() ==> (
        #[trigger] net.neurons@[p].links_in@[k])._in < net.neurons@.len()
}

/// Evaluation-order invariant: in a single pass every non-recurrent incoming
/// link reads a neuron that stands earlier in the arena, so its value for
/// this pass is already written; recurrent links are exempt and read the
/// value the source currently holds.
pub open spec fn forward_ordered(net: NeuralNet) -> bool {
    forall|p: int, k: int|
        0 <= p < net.neurons@.len() && 0 <= k < net.neurons@[p].links_in@.len() && !(
        #[trigger] net.neurons@[p].links_in@[k]).recurrent ==> net.neurons@[p].links_in@[k]._in < p
}

/// Two networks agree on everything except possibly the neuron outputs.
pub open spec fn same_but_outputs(a: NeuralNet, b: NeuralNet) -> bool {
    &&& a.depth == b.depth
    &&& a.num_inputs == b.num_inputs
    &&& a.neurons@.len() == b.neurons@.len()
    &&& forall|p: int|
        0 <= p < a.neurons@.len() ==> {
            let x = #[trigger] a.neurons@[p];
            let y = b.neurons@[p];
            &&& x.links_in@ == y.links_in@
            &&& x.links_out@ == y.links_out@
            &&& x.sum_activation == y.sum_activation
            &&& x.neuron_type == y.neuron_type
            &&& x.neuron_id == y.neuron_id
            &&& x.activation_response == y.activation_response
            &&& x.depth_level == y.depth_level
            &&& x.split_x == y.split_x
            &&& x.split_y == y.split_y
        }
}

/// The left-fold of `weight * source_output` over a neuron's incoming links,
/// starting from +0.0, exactly as the evaluator accumulates it.
pub open spec fn weighted_sum(state: Seq<u64>, links: Seq<Link>) -> u64
    decreases links.len(),
{
    if links.len() == 0 {
        ZERO_BITS
    } else {
        add_bits(
            weighted_sum(state, links.drop_last()),
            mul_bits(links.last().weight, state[links.last()._in as int]),
        )
    }
}

/// The value neuron `j` takes during a pass, given the arena state `prev` at
/// the moment it is evaluated.
pub open spec fn neuron_value(net: NeuralNet, prev: Seq<u64>, inputs: Seq<u64>, j: int) -> u64 {
    let nr = net.neurons@[j];
    if nr.neuron_type == NeuronType::Input {
        inputs[j]
    } else if nr.neuron_type == NeuronType::Bias {
        ONE_BITS
    } else {
        sigmoid_bits(weighted_sum(prev, nr.links_in@), nr.activation_response)
    }
}

/// The arena state after the first `i` neurons of one pass have been
/// evaluated, starting from state `s0`.
pub open spec fn pass_state(net: NeuralNet, inputs: Seq<u64>, s0: Seq<u64>, i: nat) -> Seq<u64>
    decreases i,
{
    if i == 0 {
        s0
    } else {
        let prev = pass_state(net, inputs, s0, (i - 1) as nat);
        prev.update(i - 1, neuron_value(net, prev, inputs, i - 1))
    }
}

/// The arena state after `n` complete passes.
pub open spec fn passes_state(net: NeuralNet, inputs: Seq<u64>, s0: Seq<u64>, n: nat) -> Seq<u64>
    decreases n,
{
    if n == 0 {
        s0
    } else {
        pass_state(
            net,
            inputs,
            passes_state(net, inputs, s0, (n - 1) as nat),
            net.neurons@.len() as nat,
        )
    }
}

/// The outputs collected from the first `i` neurons of state `state`: the
/// values of the output-role neurons, in arena order.
pub open spec fn outputs_upto(net: NeuralNet, state: Seq<u64>, i: nat) -> Seq<u64>
    decreases i,
{
    if i == 0 {
        Seq::empty()
    } else {
        let pre = outputs_upto(net, state, (i - 1) as nat);
        if net.neurons@[i - 1].neuron_type == NeuronType::Output {
            pre.push(state[i - 1])
        } else {
            pre
        }
    }
}

/// What one `update` call returns: the outputs collected in the final pass
/// (none at all when snapshot mode runs zero passes on a depth-0 network).
pub open spec fn update_result(net: NeuralNet, inputs: Seq<u64>, run_type: RunType) -> Seq<u64> {
    let n: nat = if run_type == RunType::Snapshot {
        net.depth as nat
    } else {
        1
    };
    if n == 0 {
        Seq::empty()
    } else {
        outputs_upto(
            net,
            passes_state(net, inputs, net_outputs(net), n),
            net.neurons@.len() as nat,
        )
    }
}

/// Collected outputs only depend on the state below `i`.
pub proof fn lemma_outputs_upto_agree(net: NeuralNet, s1: Seq<u64>, s2: Seq<u64>, i: nat)
    requires
        forall|idx: int| 0 <= idx < i ==> s1[idx] == s2[idx],
    ensures
        outputs_upto(net, s1, i) == outputs_upto(net, s2, i),
    decreases i,
{
    if i > 0 {
        lemma_outputs_upto_agree(net, s1, s2, (i - 1) as nat);
    }
}

/// Evaluation is a function of the network structure and the starting state:
/// two networks that agree on everything but their current outputs evolve
/// identically from a common starting state.
pub proof fn lemma_pass_structural(
    a: NeuralNet,
    b: NeuralNet,
    inputs: Seq<u64>,
    s0: Seq<u64>,
    i: nat,
)
    requires
        same_but_outputs(a, b),
        i <= a.neurons@.len(),
    ensures
        pass_state(a, inputs, s0, i) == pass_state(b, inputs, s0, i),
    decreases i,
{
    if i > 0 {
        lemma_pass_structural(a, b, inputs, s0, (i - 1) as nat);
        let prev = pass_state(a, inputs, s0, (i - 1) as nat);
        assert(a.neurons@[i - 1].links_in@ == b.neurons@[i - 1].links_in@);
        assert(neuron_value(a, prev, inputs, i - 1) == neuron_value(b, prev, inputs, i - 1));
    }
}

/// Multi-pass evaluation is likewise structural.
pub proof fn lemma_passes_structural(
    a: NeuralNet,
    b: NeuralNet,
    inputs: Seq<u64>,
    s0: Seq<u64>,
    n: nat,
)
    requires
        same_but_outputs(a, b),
    ensures
        passes_state(a, inputs, s0, n) == passes_state(b, inputs, s0, n),
    decreases n,
{
    if n > 0 {
        lemma_passes_structural(a, b, inputs, s0, (n - 1) as nat);
        lemma_pass_structural(a, b, inputs, passes_state(a, inputs, s0, (n - 1) as nat), a.neurons@.len() as nat);
    }
}

/// Snapshot mode leaks no state between calls: a snapshot run on a network
/// whose outputs have been reset (as every snapshot call leaves them, and as
/// compilation creates them) returns exactly what the same run returns on a
/// freshly built network of the same structure.
pub proof fn lemma_snapshot_no_leakage(a: NeuralNet, b: NeuralNet, inputs: Seq<u64>)
    requires
        same_but_outputs(a, b),
        net_outputs(a) == net_outputs(b),
    ensures
        update_result(a, inputs, RunType::Snapshot) == update_result(b, inputs, RunType::Snapshot),
{
    if a.depth > 0 {
        lemma_passes_structural(a, b, inputs, net_outputs(a), a.depth as nat);
        let end = passes_state(a, inputs, net_outputs(a), a.depth as nat);
        lemma_outputs_upto_agree_types(a, b, end, a.neurons@.len() as nat);
    }
}

/// Collected outputs also agree across structurally equal networks.
proof fn lemma_outputs_upto_agree_types(a: NeuralNet, b: NeuralNet, state: Seq<u64>, i: nat)
    requires
        same_but_outputs(a, b),
        i <= a.neurons@.len(),
    ensures
        outputs_upto(a, state, i) == outputs_upto(b, state, i),
    decreases i,
{
    if i > 0 {
        lemma_outputs_upto_agree_types(a, b, state, (i - 1) as nat);
    }
}

/// Well-formedness only depends on structure.
pub proof fn lemma_wf_structural(a: NeuralNet, b: NeuralNet)
    requires
        same_but_outputs(a, b),
        net_wf(b),
    ensures
        net_wf(a),
{
    assert forall|p: int, k: int|
        0 <= p < a.neurons@.len() && 0 <= k < a.neurons@[p].links_in@.len() implies (
    #[trigger] a.neurons@[p].links_in@[k])._in < a.neurons@.len() by {
        assert(a.neurons@[p].links_in@ == b.neurons@[p].links_in@);
        assert(b.neurons@[p].links_in@[k]._in < b.neurons@.len());
    }
}

impl NeuralNet {
    /// A network with no neurons at all.
    pub fn empty() -> (r: NeuralNet)
        ensures
            r.neurons@.len() == 0,
            r.depth == 0,
            r.num_inputs == 0,
    {
        NeuralNet { neurons: Vec::new(), depth: 0, num_inputs: 0 }
    }

    /// Wraps an already ordered arena.
    pub fn new(neurons: Vec<Neuron>, depth: u32, num_inputs: usize) -> (r: NeuralNet)
        ensures
            r.neurons@ == neurons@,
            r.depth == depth,
            r.num_inputs == num_inputs,
    {
        NeuralNet { neurons, depth, num_inputs }
    }

    /// Read access to the arena.
    pub fn neurons(&self) -> (r: &Vec<Neuron>)
        ensures
            r == &self.neurons,
    {
        &self.neurons
    }

    /// Runs forward propagation and returns the collected outputs.
    ///
    /// In `Active` mode this is a single pass in arena order; neuron outputs
    /// persist across calls.  In `Snapshot` mode the pass repeats `depth`
    /// times (outputs carrying over between passes so recurrent effects can
    /// settle), and afterwards every neuron output is reset to +0.0 so the
    /// next call starts from a clean slate.
    #[verifier::loop_isolation(false)]
    pub fn update(&mut self, inputs: &Vec<u64>, run_type: RunType) -> (outputs: Vec<u64>)
        requires
            net_wf(*old(self)),
            inputs@.len() == old(self).num_inputs,
        ensures
            same_but_outputs(*final(self), *old(self)),
            net_wf(*final(self)),
            outputs@ == update_result(*old(self), inputs@, run_type),
            run_type == RunType::Snapshot ==> net_outputs(*final(self)) == Seq::new(
                old(self).neurons@.len() as nat,
                |i: int| ZERO_BITS,
            ),
            run_type == RunType::Active ==> net_outputs(*final(self)) == passes_state(
                *old(self),
                inputs@,
                net_outputs(*old(self)),
                1,
            ),
    {
        let len = self.neurons.len();
        let flush_count: u32 = if run_type == RunType::Snapshot {
            self.depth
        } else {
            1
        };
        let mut outputs: Vec<u64> = Vec::new();
        let mut pass: u32 = 0;
        while pass < flush_count
            invariant
                pass <= flush_count,
                same_but_outputs(*self, *old(self)),
                net_outputs(*self) == passes_state(
                    *old(self),
                    inputs@,
                    net_outputs(*old(self)),
                    pass as nat,
                ),
                pass == 0 ==> outputs@ == Seq::<u64>::empty(),
                pass > 0 ==> outputs@ == outputs_upto(*old(self), net_outputs(*self), len as nat),
            decreases flush_count - pass,
        {
            outputs = Vec::new();
            let ghost s_start = net_outputs(*self);
            let mut j: usize = 0;
            while j < len
                invariant
                    j <= len,
                    same_but_outputs(*self, *old(self)),
                    net_outputs(*self) == pass_state(*old(self), inputs@, s_start, j as nat),
                    outputs@ == outputs_upto(*old(self), net_outputs(*self), j as nat),
                decreases len - j,
            {
                let ghost st = net_outputs(*self);
                let ntype = self.neurons[j].neuron_type;
                proof {
                    assert(st.len() == len);
                    assert(ntype == old(self).neurons@[j as int].neuron_type);
                }
                let v: u64;
                if ntype == NeuronType::Input {
                    proof {
                        assert(j < old(self).num_inputs);
                    }
                    v = inputs[j];
                } else if ntype == NeuronType::Bias {
                    v = ONE_BITS;
                } else {
                    let nlinks = self.neurons[j].links_in.len();
                    let mut sum: u64 = ZERO_BITS;
                    let mut k: usize = 0;
                    proof {
                        assert(self.neurons@[j as int].links_in@ == old(
                            self,
                        ).neurons@[j as int].links_in@);
                    }
                    while k < nlinks
                        invariant
                            k <= nlinks,
                            nlinks == self.neurons@[j as int].links_in@.len(),
                            j < len,
                            net_outputs(*self) == st,
                            same_but_outputs(*self, *old(self)),
                            sum == weighted_sum(
                                st,
                                self.neurons@[j as int].links_in@.take(k as int),
                            ),
                        decreases nlinks - k,
                    {
                        let lnk = self.neurons[j].links_in[k];
                        proof {
                            assert(lnk == old(self).neurons@[j as int].links_in@[k as int]);
                            assert(lnk._in < len);
                        }
                        let src_out = self.neurons[lnk._in].output;
                        proof {
                            assert(src_out == st[lnk._in as int]);
                        }
                        sum = crate::numeric::f64_add(
                            sum,
                            crate::numeric::f64_mul(lnk.weight, src_out),
                        );
                        proof {
                            let links = self.neurons@[j as int].links_in@;
                            assert(links.take(k + 1 as int).drop_last() =~= links.take(k as int));
                            assert(links.take(k + 1 as int).last() == lnk);
                        }
                        k = k + 1;
                    }
                    proof {
                        let links = self.neurons@[j as int].links_in@;
                        assert(links.take(nlinks as int) =~= links);
                    }
                    v = crate::numeric::sigmoid(sum, self.neurons[j].activation_response);
                    proof {
                        assert(v == neuron_value(*old(self), st, inputs@, j as int));
                    }
                }
                proof {
                    assert(v == neuron_value(*old(self), st, inputs@, j as int));
                }
                self.neurons[j].output = v;
                proof {
                    assert(net_outputs(*self) =~= st.update(j as int, v));
                    assert(net_outputs(*self) == pass_state(
                        *old(self),
                        inputs@,
                        s_start,
                        (j + 1) as nat,
                    ));
                    assert(same_but_outputs(*self, *old(self)));
                    lemma_outputs_upto_agree(*old(self), st, net_outputs(*self), j as nat);
                }
                if ntype == NeuronType::Output {
                    let ov = self.neurons[j].output;
                    outputs.push(ov);
                    proof {
                        assert(outputs@ == outputs_upto(
                            *old(self),
                            net_outputs(*self),
                            (j + 1) as nat,
                        ));
                    }
                } else {
                    proof {
                        assert(outputs@ == outputs_upto(
                            *old(self),
                            net_outputs(*self),
                            (j + 1) as nat,
                        ));
                    }
                }
                j = j + 1;
            }
            pass = pass + 1;
        }
        if run_type == RunType::Snapshot {
            let mut q: usize = 0;
            while q < len
                invariant
                    q <= len,
                    same_but_outputs(*self, *old(self)),
                    forall|i: int| 0 <= i < q ==> net_outputs(*self)[i] == ZERO_BITS,
                decreases len - q,
            {
                let ghost before = *self;
                self.neurons[q].output = ZERO_BITS;
                proof {
                    assert forall|i: int| 0 <= i < q + 1 implies net_outputs(*self)[i]
                        == ZERO_BITS by {
                        if i < q {
                            assert(self.neurons@[i] == before.neurons@[i]);
                            assert(net_outputs(before)[i] == ZERO_BITS);
                        }
                    }
                }
                q = q + 1;
            }
            proof {
                assert(net_outputs(*self) =~= Seq::new(
                    old(self).neurons@.len() as nat,
                    |i: int| ZERO_BITS,
                ));
            }
        }
        proof {
            lemma_wf_structural(*self, *old(self));
        }
        outputs
    }
}

/// The link `l` carries the weight of some enabled gene of `g`, and is
/// recurrent whenever that gene is.
pub open spec fn from_enabled_gene(g: crate::genes::Genome, l: Link) -> bool {
    exists|q: int|
        0 <= q < g.links@.len() && (#[trigger] g.links@[q]).enabled && g.links@[q].weight
            == l.weight && (g.links@[q].recurrent ==> l.recurrent)
}

/// What compilation of genome `g` guarantees of the network: the arena is
/// well formed and forward ordered, one neuron per node gene with all
/// outputs reset; every compiled link (incoming and outgoing alike) stays in
/// range, sits on the neuron that owns its list, and stems from an enabled
/// link gene whose weight it carries; the arena tail is sorted by
/// non-decreasing node depth and the network depth is the maximum node
/// depth.
pub open spec fn compiled_from(g: crate::genes::Genome, net: NeuralNet) -> bool {
    &&& net_wf(net)
    &&& forward_ordered(net)
    &&& net.num_inputs == g.num_inputs
    &&& net.neurons@.len() == g.nodes@.len()
    &&& net_outputs(net) == Seq::new(g.nodes@.len() as nat, |i: int| ZERO_BITS)
    &&& forall|p: int, k: int|
        0 <= p < net.neurons@.len() && 0 <= k < net.neurons@[p].links_in@.len() ==> (
        #[trigger] net.neurons@[p].links_in@[k]).out == p && from_enabled_gene(
            g,
            net.neurons@[p].links_in@[k],
        )
    &&& forall|p: int, k: int|
        0 <= p < net.neurons@.len() && 0 <= k < net.neurons@[p].links_out@.len() ==> (
        #[trigger] net.neurons@[p].links_out@[k])._in == p && net.neurons@[p].links_out@[k].out
            < net.neurons@.len() && from_enabled_gene(g, net.neurons@[p].links_out@[k])
    &&& forall|p: int, q: int|
        net.num_inputs < p < q < net.neurons@.len() ==> (#[trigger] net.neurons@[p]).depth_level
            <= (#[trigger] net.neurons@[q]).depth_level
    &&& forall|p: int|
        0 <= p < net.neurons@.len() ==> (#[trigger] net.neurons@[p]).depth_level <= net.depth
    &&& (net.neurons@.len() > 0 ==> exists|p: int|
        0 <= p < net.neurons@.len() && (#[trigger] net.neurons@[p]).depth_level == net.depth)
}

/// Compiles a genome into an executable network.
///
/// Node depths are computed by bounded relaxation over the enabled
/// non-recurrent links (`depth = 1 + max(depth of predecessor)`, zero for
/// nodes with no non-recurrent predecessor, capped at the node count so a
/// stray cycle cannot diverge).  Neurons are laid out inputs first (in
/// declaration order), then the bias, then the remaining nodes by
/// non-decreasing depth with ties in declaration order.  Links whose source
/// does not stand at a strictly smaller depth than their target are treated
/// as recurrent, which breaks any cycle left among the non-recurrent links.
/// The network depth is the maximum node depth.
#[verifier::loop_isolation(false)]
#[verifier::spinoff_prover]
#[verifier::rlimit(100)]
pub fn compile(g: &crate::genes::Genome) -> (net: NeuralNet)
    requires
        crate::genes::genome_wf(*g),
        g.nodes@.len() < 0xFFFF_FFFF,
    ensures
        net_wf(net),
        forward_ordered(net),
        net.num_inputs == g.num_inputs,
        net.neurons@.len() == g.nodes@.len(),
        net_outputs(net) == Seq::new(g.nodes@.len() as nat, |i: int| ZERO_BITS),
        compiled_from(*g, net),
{
    let n = g.nodes.len();
    let n_in = g.num_inputs;
    let nlinks = g.links.len();

    // Resolve each link gene's endpoints to node indices once.
    let mut ends: Vec<(usize, usize)> = Vec::new();
    let mut k: usize = 0;
    while k < nlinks
        invariant
            k <= nlinks,
            ends@.len() == k,
            forall|t: int|
                0 <= t < k ==> (#[trigger] ends@[t]).0 < n && ends@[t].1 < n && n_in < ends@[t].1
                    && g.nodes@[ends@[t].0 as int].id == g.links@[t].from
                    && g.nodes@[ends@[t].1 as int].id == g.links@[t].to,
        decreases nlinks - k,
    {
        let l = g.links[k];
        let si = match g.find_node(l.from) {
            Some(i) => i,
            None => {
                proof {
                    assert(crate::genes::has_node_id(*g, l.from));
                    assert(false);
                }
                0
            },
        };
        let di = match g.find_node(l.to) {
            Some(i) => i,
            None => {
                proof {
                    assert(crate::genes::has_target_node_id(*g, l.to));
                    assert(crate::genes::has_node_id(*g, l.to));
                    assert(false);
                }
                0
            },
        };
        proof {
            // The target node's id also belongs to some hidden/output node;
            // ids are unique, so `di` is that node, which lies past the bias.
            let w = choose|i: int|
                0 <= i < g.nodes@.len() && g.nodes@[i].id == l.to && (g.nodes@[i].role
                    == NeuronType::Hidden || g.nodes@[i].role == NeuronType::Output);
            if w != di {
                if w < di {
                    assert(g.nodes@[w].id != g.nodes@[di as int].id);
                } else {
                    assert(g.nodes@[di as int].id != g.nodes@[w].id);
                }
            }
            if di <= n_in {
                assert(g.nodes@[di as int].role == NeuronType::Input || g.nodes@[di as int].role
                    == NeuronType::Bias);
            }
        }
        ends.push((si, di));
        k = k + 1;
    }

    // Node depths by bounded relaxation.
    let mut depths: Vec<u32> = Vec::new();
    while depths.len() < n
        invariant
            depths@.len() <= n,
            forall|i: int| 0 <= i < depths@.len() ==> depths@[i] == 0,
        decreases n - depths@.len(),
    {
        depths.push(0);
    }
    let mut round: usize = 0;
    while round < n
        invariant
            depths@.len() == n,
            forall|i: int| 0 <= i < n ==> depths@[i] <= n,
            forall|i: int| 0 <= i <= n_in && i < n ==> depths@[i] == 0,
        decreases n - round,
    {
        let mut t: usize = 0;
        while t < nlinks
            invariant
                t <= nlinks,
                depths@.len() == n,
                forall|i: int| 0 <= i < n ==> depths@[i] <= n,
                forall|i: int| 0 <= i <= n_in && i < n ==> depths@[i] == 0,
            decreases nlinks - t,
        {
            let l = g.links[t];
            if l.enabled && !l.recurrent {
                let (si, di) = ends[t];
                let cand = depths[si] + 1;
                if cand <= n as u32 && cand > depths[di] {
                    depths[di] = cand;
                }
            }
            t = t + 1;
        }
        round = round + 1;
    }

    // The network depth: the maximum node depth.
    let mut maxd: u32 = 0;
    let ghost mut imax: int = 0;
    let mut i: usize = 0;
    proof {
        assert(depths@[0] == 0);
    }
    while i < n
        invariant
            i <= n,
            maxd <= n,
            0 <= imax < n,
            depths@[imax] == maxd,
            forall|i2: int| 0 <= i2 < i ==> depths@[i2] <= maxd,
        decreases n - i,
    {
        if depths[i] > maxd {
            maxd = depths[i];
            proof {
                imax = i as int;
            }
        }
        i = i + 1;
    }

    // Evaluation order: inputs, bias, then the tail by non-decreasing depth,
    // ties in declaration order.
    let mut order: Vec<usize> = Vec::new();
    let mut p: usize = 0;
    while p <= n_in
        invariant
            p <= n_in + 1,
            order@.len() == p,
            forall|q: int| 0 <= q < p ==> order@[q] == q,
        decreases n_in + 1 - p,
    {
        order.push(p);
        p = p + 1;
    }
    let mut d: usize = 0;
    while d <= n
        invariant
            d <= n + 1,
            order@.len() >= n_in + 1,
            forall|q: int| 0 <= q <= n_in ==> order@[q] == q,
            forall|q: int| n_in < q < order@.len() ==> n_in < (#[trigger] order@[q]) < n,
            forall|q: int| n_in < q < order@.len() ==> depths@[order@[q] as int] < d,
            forall|q1: int, q2: int|
                n_in < q1 < q2 < order@.len() ==> depths@[order@[q1] as int] <= depths@[order@[q2] as int],
            forall|x: int|
                n_in < x < n && depths@[x] < d ==> exists|q: int|
                    n_in < q < order@.len() && order@[q] == x,
            forall|q1: int, q2: int| 0 <= q1 < q2 < order@.len() ==> order@[q1] != order@[q2],
        decreases n + 1 - d,
    {
        let mut idx: usize = n_in + 1;
        while idx < n
            invariant
                n_in + 1 <= idx <= n,
                order@.len() >= n_in + 1,
                forall|q: int| 0 <= q <= n_in ==> order@[q] == q,
                forall|q: int| n_in < q < order@.len() ==> n_in < (#[trigger] order@[q]) < n,
                forall|q: int|
                    n_in < q < order@.len() ==> depths@[order@[q] as int] < d || (
                    depths@[order@[q] as int] == d && order@[q] < idx),
                forall|q1: int, q2: int|
                    n_in < q1 < q2 < order@.len() ==> depths@[order@[q1] as int]
                        <= depths@[order@[q2] as int],
                forall|x: int|
                    n_in < x < n && (depths@[x] < d || (depths@[x] == d && x < idx)) ==> exists|
                        q: int,
                    | n_in < q < order@.len() && order@[q] == x,
                forall|q1: int, q2: int| 0 <= q1 < q2 < order@.len() ==> order@[q1] != order@[q2],
            decreases n - idx,
        {
            let ghost prev_order = order@;
            if depths[idx] as usize == d {
                order.push(idx);
                proof {
                    assert(order@ == prev_order.push(idx as usize));
                    assert forall|x: int|
                        n_in < x < n && (depths@[x] < d || (depths@[x] == d && x <= idx)) implies exists|
                        q: int,
                    | n_in < q < order@.len() && order@[q] == x by {
                        if x == idx {
                            assert(order@[order@.len() - 1] == idx);
                        } else {
                            let q0 = choose|q2: int|
                                n_in < q2 < prev_order.len() && prev_order[q2] == x;
                            assert(order@[q0] == x);
                        }
                    }
                }
            }
            idx = idx + 1;
        }
        d = d + 1;
    }
    proof {
        assert forall|x: int| 0 <= x < n implies #[trigger] seq_hits(order@, x) by {
            if x <= n_in {
                assert(order@[x] == x);
            } else {
                assert(depths@[x] <= n);
                assert(depths@[x] < d);
                let qq = choose|q: int| n_in < q < order@.len() && order@[q] == x;
                assert(order@[qq] == x);
            }
        }
        assert forall|q: int| 0 <= q < order@.len() implies (#[trigger] order@[q]) < n by {
            if q <= n_in {
                assert(order@[q] == q);
            }
        }
        lemma_injective_image_size(order@, n as int);
        assert(order@.len() == n);
    }

    // The inverse permutation.
    let mut pos: Vec<usize> = Vec::new();
    while pos.len() < n
        invariant
            pos@.len() <= n,
            forall|i2: int| 0 <= i2 < pos@.len() ==> pos@[i2] == 0,
        decreases n - pos@.len(),
    {
        pos.push(0);
    }
    let mut q: usize = 0;
    while q < n
        invariant
            q <= n,
            pos@.len() == n,
            forall|t: int| 0 <= t < q ==> pos@[order@[t] as int] == t,
            forall|i2: int| 0 <= i2 < n ==> pos@[i2] < n,
        decreases n - q,
    {
        let node_idx = order[q];
        pos[node_idx] = q;
        proof {
            assert(forall|t: int|
                0 <= t < q ==> order@[t] != order@[q as int]);
        }
        q = q + 1;
    }

    // Per-gene phenotype links, with cycle-residual links forced recurrent.
    let mut plinks: Vec<Link> = Vec::new();
    let mut t: usize = 0;
    while t < nlinks
        invariant
            t <= nlinks,
            forall|e: int|
                0 <= e < plinks@.len() ==> (#[trigger] plinks@[e])._in < n && plinks@[e].out < n
                    && (!plinks@[e].recurrent ==> plinks@[e]._in < plinks@[e].out)
                    && from_enabled_gene(*g, plinks@[e]),
        decreases nlinks - t,
    {
        let l = g.links[t];
        if l.enabled {
            let (si, di) = ends[t];
            let ps = pos[si];
            let pd = pos[di];
            let rec = l.recurrent || !(depths[si] < depths[di]);
            proof {
                // position of the target: di > n_in, so di was placed in the
                // tail and order[pos[di]] == di
                assert(depths@[di as int] <= n);
                assert(n_in < di < n);
                assert(exists|qq: int| n_in < qq < order@.len() && order@[qq] == di);
                let qd = choose|qq: int| n_in < qq < order@.len() && order@[qq] == di;
                assert(pos@[di as int] == qd);
                if !rec {
                    if si <= n_in {
                        assert(order@[si as int] == si);
                        assert(pos@[si as int] == si);
                    } else {
                        assert(depths@[si as int] <= n);
                        assert(exists|qq: int| n_in < qq < order@.len() && order@[qq] == si);
                        let qs = choose|qq: int| n_in < qq < order@.len() && order@[qq] == si;
                        assert(pos@[si as int] == qs);
                        if qs == qd {
                            assert(si == di);
                        } else if qd < qs {
                            assert(depths@[order@[qd] as int] <= depths@[order@[qs] as int]);
                        }
                    }
                }
            }
            let newlink = Link { _in: ps, out: pd, weight: l.weight, recurrent: rec };
            proof {
                assert((#[trigger] g.links@[t as int]).enabled && g.links@[t as int].weight
                    == newlink.weight && (g.links@[t as int].recurrent ==> newlink.recurrent));
                assert(from_enabled_gene(*g, newlink));
            }
            plinks.push(newlink);
        }
        t = t + 1;
    }

    // Assemble the neurons in evaluation order.
    let denom: u64 = if maxd == 0 {
        1
    } else {
        maxd as u64
    };
    let denom_bits = crate::numeric::f64_from_u64(denom);
    let mut neurons: Vec<Neuron> = Vec::new();
    let mut pp: usize = 0;
    while pp < n
        invariant
            pp <= n,
            neurons@.len() == pp,
            forall|q2: int|
                0 <= q2 < pp ==> (#[trigger] neurons@[q2]).neuron_type == g.nodes@[order@[q2] as int].role
                    && neurons@[q2].output == ZERO_BITS && neurons@[q2].depth_level
                    == depths@[order@[q2] as int],
            forall|q2: int, k2: int|
                0 <= q2 < pp && 0 <= k2 < neurons@[q2].links_in@.len() ==> (
                #[trigger] neurons@[q2].links_in@[k2])._in < n && (!neurons@[q2].links_in@[k2].recurrent
                    ==> neurons@[q2].links_in@[k2]._in < q2) && neurons@[q2].links_in@[k2].out
                    == q2 && from_enabled_gene(*g, neurons@[q2].links_in@[k2]),
            forall|q2: int, k2: int|
                0 <= q2 < pp && 0 <= k2 < neurons@[q2].links_out@.len() ==> (
                #[trigger] neurons@[q2].links_out@[k2])._in == q2
                    && neurons@[q2].links_out@[k2].out < n && from_enabled_gene(
                    *g,
                    neurons@[q2].links_out@[k2],
                ),
        decreases n - pp,
    {
        let node_idx = order[pp];
        let node = g.nodes[node_idx];
        let split_y = crate::numeric::f64_div(
            crate::numeric::f64_from_u64(depths[node_idx] as u64),
            denom_bits,
        );
        let mut nr = Neuron::new(node.role, node.id, split_y, ZERO_BITS, node.response);
        nr.depth_level = depths[node_idx];
        let mut e: usize = 0;
        while e < plinks.len()
            invariant
                e <= plinks@.len(),
                nr.neuron_type == node.role,
                nr.output == ZERO_BITS,
                nr.depth_level == depths@[node_idx as int],
                forall|k2: int|
                    0 <= k2 < nr.links_in@.len() ==> (#[trigger] nr.links_in@[k2])._in < n && (
                    !nr.links_in@[k2].recurrent ==> nr.links_in@[k2]._in < pp)
                        && nr.links_in@[k2].out == pp && from_enabled_gene(*g, nr.links_in@[k2]),
                forall|k2: int|
                    0 <= k2 < nr.links_out@.len() ==> (#[trigger] nr.links_out@[k2])._in == pp
                        && nr.links_out@[k2].out < n && from_enabled_gene(*g, nr.links_out@[k2]),
            decreases plinks@.len() - e,
        {
            let lnk = plinks[e];
            proof {
                assert(lnk == plinks@[e as int]);
                assert(from_enabled_gene(*g, plinks@[e as int]));
            }
            if lnk.out == pp {
                nr.links_in.push(lnk);
            }
            if lnk._in == pp {
                nr.links_out.push(lnk);
            }
            e = e + 1;
        }
        neurons.push(nr);
        proof {
            assert(neurons@[pp as int] == nr);
            assert forall|q2: int, k2: int|
                0 <= q2 < pp + 1 && 0 <= k2 < neurons@[q2].links_in@.len() implies (
            #[trigger] neurons@[q2].links_in@[k2])._in < n && (!neurons@[q2].links_in@[k2].recurrent
                ==> neurons@[q2].links_in@[k2]._in < q2) && neurons@[q2].links_in@[k2].out == q2
                && from_enabled_gene(*g, neurons@[q2].links_in@[k2]) by {
                if q2 == pp {
                    assert(neurons@[q2].links_in@ == nr.links_in@);
                    assert(nr.links_in@[k2].out == pp);
                    assert(from_enabled_gene(*g, nr.links_in@[k2]));
                }
            }
        }
        pp = pp + 1;
    }
    let net = NeuralNet { neurons, depth: maxd, num_inputs: n_in };
    proof {
        assert(net_outputs(net) =~= Seq::new(g.nodes@.len() as nat, |i2: int| ZERO_BITS));
        assert forall|i2: int| 0 <= i2 < n_in implies net.neurons@[i2].neuron_type
            == NeuronType::Input by {
            assert(order@[i2] == i2);
        }
        assert(net.neurons@[n_in as int].neuron_type == NeuronType::Bias) by {
            assert(order@[n_in as int] == n_in);
        }
        assert forall|i2: int| n_in < i2 < n implies net.neurons@[i2].neuron_type
            != NeuronType::Input && net.neurons@[i2].neuron_type != NeuronType::Bias by {
            assert(n_in < order@[i2] < n);
            assert(g.nodes@[order@[i2] as int].role == NeuronType::Output || g.nodes@[order@[i2] as int].role
                == NeuronType::Hidden);
        }
        // the arena tail is sorted by node depth
        assert forall|p2: int, q2: int|
            net.num_inputs < p2 < q2 < net.neurons@.len() implies (
        #[trigger] net.neurons@[p2]).depth_level <= (#[trigger] net.neurons@[q2]).depth_level by {
            assert(depths@[order@[p2] as int] <= depths@[order@[q2] as int]);
        }
        // the network depth is the maximum node depth
        assert forall|p2: int| 0 <= p2 < net.neurons@.len() implies (
        #[trigger] net.neurons@[p2]).depth_level <= net.depth by {
            assert(net.neurons@[p2].depth_level == depths@[order@[p2] as int]);
        }
        assert(seq_hits(order@, imax));
        let qmax = choose|q2: int| 0 <= q2 < order@.len() && order@[q2] as int == imax;
        assert(net.neurons@[qmax].depth_level == depths@[imax]);
        assert(exists|p2: int|
            0 <= p2 < net.neurons@.len() && (#[trigger] net.neurons@[p2]).depth_level
                == net.depth);
        assert(compiled_from(*g, net));
    }
    net
}

/// `s` holds the value `x` somewhere.
pub open spec fn seq_hits(s: Seq<usize>, x: int) -> bool {
    exists|q: int| 0 <= q < s.len() && s[q] == x
}

/// Pigeonhole: an injective sequence over `0..n` that hits every value of
/// `0..n` has length exactly `n`.
pub proof fn lemma_injective_image_size(s: Seq<usize>, n: int)
    requires
        forall|q1: int, q2: int| 0 <= q1 < q2 < s.len() ==> s[q1] != s[q2],
        forall|q: int| 0 <= q < s.len() ==> (#[trigger] s[q]) < n,
        forall|x: int| 0 <= x < n ==> #[trigger] seq_hits(s, x),
        n >= 0,
    ensures
        s.len() == n,
    decreases n,
{
    if n == 0 {
        if s.len() > 0 {
            assert(s[0] < 0);
        }
    } else {
        assert(seq_hits(s, n - 1));
        let qn = choose|q: int| 0 <= q < s.len() && s[q] == n - 1;
        let s2 = s.remove(qn);
        assert forall|x: int| 0 <= x < n - 1 implies #[trigger] seq_hits(s2, x) by {
            assert(seq_hits(s, x));
            let q0 = choose|q: int| 0 <= q < s.len() && s[q] == x;
            if q0 < qn {
                assert(s2[q0] == s[q0]);
            } else {
                assert(q0 != qn);
                assert(s2[q0 - 1] == s[q0]);
            }
        }
        assert forall|q: int| 0 <= q < s2.len() implies (#[trigger] s2[q]) < n - 1 by {
            if q < qn {
                assert(s2[q] == s[q]);
                assert(s[q] != n - 1);
            } else {
                assert(s2[q] == s[q + 1]);
                assert(s[q + 1] != n - 1);
            }
        }
        assert forall|q1: int, q2: int| 0 <= q1 < q2 < s2.len() implies s2[q1] != s2[q2] by {
            if q2 < qn {
            } else if q1 < qn {
                assert(s2[q2] == s[q2 + 1]);
            } else {
                assert(s2[q1] == s[q1 + 1]);
                assert(s2[q2] == s[q2 + 1]);
            }
        }
        lemma_injective_image_size(s2, n - 1);
    }
}

} // verus!
