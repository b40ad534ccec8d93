//! The innovation tracker: process-wide, append-only bookkeeping that gives
//! every distinct structural mutation a stable identifier, so genomes of
//! different shapes can be aligned gene-by-gene during crossover.
use vstd::prelude::*;

verus! {

/// A registered add-link mutation: the connected pair and the innovation id
/// it was given.
#[derive(Clone, Copy, Debug)]
pub struct LinkRecord {
    pub from: u32,
    pub to: u32,
    pub innovation: u64,
}

/// A registered add-node mutation: the split link's innovation id, the new
/// node's identifier, and the two link innovation ids created by the split.
#[derive(Clone, Copy, Debug)]
pub struct SplitRecord {
    pub split_innovation: u64,
    pub node_id: u32,
    pub in_innovation: u64,
    pub out_innovation: u64,
}

/// The tracker itself.  It lives for one evolutionary run, never forgets and
/// never reuses an identifier.
pub struct Innovations {
    pub next_innovation: u64,
    pub next_node_id: u32,
    pub link_records: Vec<LinkRecord>,
    pub split_records: Vec<SplitRecord>,
}

/// A link record for `(from, to)` is present.
pub open spec fn link_registered(t: Innovations, from: u32, to: u32) -> bool {
    exists|k: int|
        0 <= k < t.link_records@.len() && t.link_records@[k].from == from && (
        #[trigger] t.link_records@[k]).to == to
}

/// A split record for `split_innovation` is present.
pub open spec fn split_registered(t: Innovations, split_innovation: u64) -> bool {
    exists|k: int|
        0 <= k < t.split_records@.len() && (#[trigger] t.split_records@[k]).split_innovation
            == split_innovation
}

/// Tracker invariant: every issued identifier is below the next counter
/// value, and no key was registered twice.
pub open spec fn innovations_wf(t: Innovations) -> bool {
    &&& forall|k: int|
        0 <= k < t.link_records@.len() ==> (#[trigger] t.link_records@[k]).innovation
            < t.next_innovation
    &&& forall|k: int|
        0 <= k < t.split_records@.len() ==> (#[trigger] t.split_records@[k]).in_innovation
            < t.next_innovation && t.split_records@[k].out_innovation < t.next_innovation
            && t.split_records@[k].node_id < t.next_node_id
    &&& forall|i: int, j: int|
        0 <= i < j < t.link_records@.len() ==> !(t.link_records@[i].from
            == t.link_records@[j].from && t.link_records@[i].to == t.link_records@[j].to)
    &&& forall|i: int, j: int|
        0 <= i < j < t.split_records@.len() ==> t.split_records@[i].split_innovation
            != t.split_records@[j].split_innovation
}

/// What one `get_or_create` call does: either the pair was already
/// registered and the existing identifier comes back with the tracker
/// untouched, or a fresh identifier equal to the old counter is issued and
/// recorded, and the counter moves up by one.
pub open spec fn get_or_create_post(
    pre: Innovations,
    post: Innovations,
    from: u32,
    to: u32,
    r: u64,
) -> bool {
    if link_registered(pre, from, to) {
        &&& post == pre
        &&& exists|k: int|
            0 <= k < pre.link_records@.len() && pre.link_records@[k].from == from && (
            #[trigger] pre.link_records@[k]).to == to && pre.link_records@[k].innovation == r
    } else {
        &&& r == pre.next_innovation
        &&& post.next_innovation == pre.next_innovation + 1
        &&& post.next_node_id == pre.next_node_id
        &&& post.link_records@ == pre.link_records@.push(LinkRecord { from, to, innovation: r })
        &&& post.split_records@ == pre.split_records@
    }
}

/// What one `get_or_create_split` call does, in the same style: the key is
/// the split link's innovation id; a fresh registration takes one node id
/// and two consecutive innovation ids.
pub open spec fn get_or_create_split_post(
    pre: Innovations,
    post: Innovations,
    split_innovation: u64,
    r: SplitRecord,
) -> bool {
    r.split_innovation == split_innovation && if split_registered(pre, split_innovation) {
        &&& post == pre
        &&& exists|k: int|
            0 <= k < pre.split_records@.len() && (#[trigger] pre.split_records@[k])
                == r
    } else {
        &&& r.node_id == pre.next_node_id
        &&& r.in_innovation == pre.next_innovation
        &&& r.out_innovation == pre.next_innovation + 1
        &&& post.next_innovation == pre.next_innovation + 2
        &&& post.next_node_id == pre.next_node_id + 1
        &&& post.split_records@ == pre.split_records@.push(r)
        &&& post.link_records@ == pre.link_records@
    }
}

impl Innovations {
    /// A fresh tracker whose counters start above every identifier used by
    /// the caller's initial genomes.
    pub fn new(first_innovation: u64, first_node_id: u32) -> (r: Innovations)
        ensures
            innovations_wf(r),
            r.next_innovation == first_innovation,
            r.next_node_id == first_node_id,
            r.link_records@.len() == 0,
            r.split_records@.len() == 0,
    {
        Innovations {
            next_innovation: first_innovation,
            next_node_id: first_node_id,
            link_records: Vec::new(),
            split_records: Vec::new(),
        }
    }

    /// Returns the innovation id for the add-link mutation `(from, to)`,
    /// registering it first if this exact structural change was never seen —
    /// even by a different genome in the same generation.
    pub fn get_or_create(&mut self, from: u32, to: u32) -> (r: u64)
        requires
            innovations_wf(*old(self)),
            old(self).next_innovation < 0xFFFF_FFFF_FFFF_0000,
        ensures
            innovations_wf(*final(self)),
            get_or_create_post(*old(self), *final(self), from, to, r),
            r < final(self).next_innovation,
            final(self).next_innovation >= old(self).next_innovation,
    {
        let n = self.link_records.len();
        let mut k: usize = 0;
        while k < n
            invariant
                *self == *old(self),
                innovations_wf(*old(self)),
                old(self).next_innovation < 0xFFFF_FFFF_FFFF_0000,
                n == self.link_records@.len(),
                k <= n,
                forall|j: int|
                    0 <= j < k ==> !(self.link_records@[j].from == from && (
                    #[trigger] self.link_records@[j]).to == to),
            decreases n - k,
        {
            let rec = self.link_records[k];
            if rec.from == from && rec.to == to {
                proof {
                    let kk = k as int;
                    assert(self.link_records@[kk].from == from && (
                    #[trigger] self.link_records@[kk]).to == to && self.link_records@[kk].innovation
                        == rec.innovation);
                    assert(link_registered(*self, from, to));
                }
                return rec.innovation;
            }
            k = k + 1;
        }
        let r = self.next_innovation;
        self.link_records.push(LinkRecord { from, to, innovation: r });
        self.next_innovation = r + 1;
        r
    }

    /// Returns the registration for splitting the link with innovation id
    /// `split_innovation`: the hidden node's identifier and the two new link
    /// innovation ids.  Identical splits made independently in the same
    /// generation resolve to the same registration.
    pub fn get_or_create_split(&mut self, split_innovation: u64) -> (r: SplitRecord)
        requires
            innovations_wf(*old(self)),
            old(self).next_innovation < 0xFFFF_FFFF_FFFF_0000,
            old(self).next_node_id < 0xFFFF_0000,
        ensures
            innovations_wf(*final(self)),
            get_or_create_split_post(*old(self), *final(self), split_innovation, r),
            r.in_innovation < final(self).next_innovation,
            r.out_innovation < final(self).next_innovation,
            r.node_id < final(self).next_node_id,
            final(self).next_innovation >= old(self).next_innovation,
            final(self).next_node_id >= old(self).next_node_id,
    {
        let n = self.split_records.len();
        let mut k: usize = 0;
        while k < n
            invariant
                *self == *old(self),
                innovations_wf(*old(self)),
                old(self).next_innovation < 0xFFFF_FFFF_FFFF_0000,
                old(self).next_node_id < 0xFFFF_0000,
                n == self.split_records@.len(),
                k <= n,
                forall|j: int|
                    0 <= j < k ==> (#[trigger] self.split_records@[j]).split_innovation
                        != split_innovation,
            decreases n - k,
        {
            let rec = self.split_records[k];
            if rec.split_innovation == split_innovation {
                proof {
                    let kk = k as int;
                    assert((#[trigger] self.split_records@[kk]).split_innovation
                        == split_innovation);
                    assert(split_registered(*self, split_innovation));
                }
                return rec;
            }
            k = k + 1;
        }
        let r = SplitRecord {
            split_innovation,
            node_id: self.next_node_id,
            in_innovation: self.next_innovation,
            out_innovation: self.next_innovation + 1,
        };
        self.split_records.push(r);
        self.next_innovation = self.next_innovation + 2;
        self.next_node_id = self.next_node_id + 1;
        r
    }
}

/// Two independent registrations of the same `(from, to)` add-link, one made
/// right after the other, hand out the same innovation id.
pub proof fn lemma_same_mutation_same_id(
    pre: Innovations,
    mid: Innovations,
    post: Innovations,
    from: u32,
    to: u32,
    r1: u64,
    r2: u64,
)
    requires
        innovations_wf(pre),
        get_or_create_post(pre, mid, from, to, r1),
        get_or_create_post(mid, post, from, to, r2),
    ensures
        r2 == r1,
        post == mid,
{
    if link_registered(pre, from, to) {
        assert(mid == pre);
        let k1 = choose|k: int|
            0 <= k < pre.link_records@.len() && pre.link_records@[k].from == from && (
            #[trigger] pre.link_records@[k]).to == to && pre.link_records@[k].innovation == r1;
        let k2 = choose|k: int|
            0 <= k < mid.link_records@.len() && mid.link_records@[k].from == from && (
            #[trigger] mid.link_records@[k]).to == to && mid.link_records@[k].innovation == r2;
        if k1 != k2 {
            if k1 < k2 {
                assert(!(pre.link_records@[k1].from == pre.link_records@[k2].from
                    && pre.link_records@[k1].to == pre.link_records@[k2].to));
            } else {
                assert(!(pre.link_records@[k2].from == pre.link_records@[k1].from
                    && pre.link_records@[k2].to == pre.link_records@[k1].to));
            }
        }
    } else {
        assert(link_registered(mid, from, to)) by {
            assert(mid.link_records@[mid.link_records@.len() - 1].from == from);
            assert(mid.link_records@[mid.link_records@.len() - 1].to == to);
        }
        let k2 = choose|k: int|
            0 <= k < mid.link_records@.len() && mid.link_records@[k].from == from && (
            #[trigger] mid.link_records@[k]).to == to && mid.link_records@[k].innovation == r2;
        if k2 < mid.link_records@.len() - 1 {
            assert(pre.link_records@[k2].from == from && pre.link_records@[k2].to == to);
            assert(link_registered(pre, from, to));
        }
        assert(r2 == mid.link_records@[mid.link_records@.len() - 1].innovation);
    }
}

/// A mutation with a key never seen before receives an id strictly greater
/// than every previously issued link id.
pub proof fn lemma_fresh_mutation_greater_id(
    pre: Innovations,
    post: Innovations,
    from: u32,
    to: u32,
    r: u64,
)
    requires
        innovations_wf(pre),
        !link_registered(pre, from, to),
        get_or_create_post(pre, post, from, to, r),
    ensures
        forall|k: int|
            0 <= k < pre.link_records@.len() ==> (#[trigger] pre.link_records@[k]).innovation < r,
{
}

} // verus!
