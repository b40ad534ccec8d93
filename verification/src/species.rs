//! Speciation: compatibility distance and the species record.
use vstd::prelude::*;
use crate::genes::{Genome, LinkGene};
use crate::numeric::{add_bits, div_bits, double_of_u64, mul_bits, ZERO_BITS};

verus! {

/// A cluster of compatible genomes: its identifier, the representative used
/// for compatibility testing, its member indices into the population, and
/// its stagnation bookkeeping.
pub struct Species {
    pub id: u32,
    pub representative: Genome,
    pub members: Vec<usize>,
    /// best raw fitness the species ever reached, binary64 bits
    pub best_fitness: u64,
    pub stagnation: u32,
}

/// `|a - b|` on binary64 bit patterns: the difference of the pair ordered by
/// raw bits, with the sign bit cleared.  Clearing the sign bit is exactly
/// IEEE 754 `abs`, so this equals the absolute weight difference whichever
/// way the operands arrive.
pub open spec fn weight_diff_bits(a: u64, b: u64) -> u64 {
    let lo = if a <= b {
        a
    } else {
        b
    };
    let hi = if a <= b {
        b
    } else {
        a
    };
    sub_abs(hi, lo)
}

/// The subtraction with the sign bit cleared.
pub open spec fn sub_abs(hi: u64, lo: u64) -> u64 {
    crate::numeric::sub_bits(hi, lo) & 0x7FFF_FFFF_FFFF_FFFF
}

/// One alignment walk over two innovation-sorted gene lists, carried as a
/// tail recursion that mirrors the executable loop: `(excess, disjoint,
/// matching, weight-difference sum)` accumulated from positions `i` and `j`.
/// Genes present in only one list count as disjoint while both lists still
/// have genes ahead, and as excess once the other list is exhausted.
/// Matching genes with bit-equal weights contribute nothing to the sum.
pub open spec fn align_from(
    l1: Seq<LinkGene>,
    l2: Seq<LinkGene>,
    i: int,
    j: int,
    e: int,
    d: int,
    m: int,
    w: u64,
) -> (int, int, int, u64)
    decreases l1.len() + l2.len() - i - j,
    when 0 <= i && 0 <= j
{
    if i >= l1.len() && j >= l2.len() {
        (e, d, m, w)
    } else if i >= l1.len() {
        (e + (l2.len() - j), d, m, w)
    } else if j >= l2.len() {
        (e + (l1.len() - i), d, m, w)
    } else if l1[i].innovation == l2[j].innovation {
        let w2 = if l1[i].weight == l2[j].weight {
            w
        } else {
            add_bits(w, weight_diff_bits(l1[i].weight, l2[j].weight))
        };
        align_from(l1, l2, i + 1, j + 1, e, d, m + 1, w2)
    } else if l1[i].innovation < l2[j].innovation {
        align_from(l1, l2, i + 1, j, e, d + 1, m, w)
    } else {
        align_from(l1, l2, i, j + 1, e, d + 1, m, w)
    }
}

/// The compatibility distance between two gene lists: the weighted sum of
/// the excess count, the disjoint count and the mean weight difference over
/// matching genes, the counts normalized by the larger list's length unless
/// both lists are small.  Two lists that align with no excess, no disjoint
/// genes and bit-equal weights are at distance exactly +0.0.
pub open spec fn distance_spec(l1: Seq<LinkGene>, l2: Seq<LinkGene>, ce: u64, cd: u64, cw: u64) -> u64 {
    let t = align_from(l1, l2, 0, 0, 0, 0, 0, ZERO_BITS);
    if t.0 == 0 && t.1 == 0 && t.3 == ZERO_BITS {
        ZERO_BITS
    } else {
        let longest: int = if l1.len() >= l2.len() {
            l1.len() as int
        } else {
            l2.len() as int
        };
        let nrm: u64 = if longest >= crate::params::SMALL_GENOME_LIMIT {
            longest as u64
        } else {
            1
        };
        let avg: u64 = if t.2 == 0 {
            ZERO_BITS
        } else {
            div_bits(t.3, double_of_u64(t.2 as u64))
        };
        add_bits(
            add_bits(
                mul_bits(ce, div_bits(double_of_u64(t.0 as u64), double_of_u64(nrm))),
                mul_bits(cd, div_bits(double_of_u64(t.1 as u64), double_of_u64(nrm))),
            ),
            mul_bits(cw, avg),
        )
    }
}

/// The alignment walk is symmetric in its two gene lists.
pub proof fn lemma_align_symmetric(
    l1: Seq<LinkGene>,
    l2: Seq<LinkGene>,
    i: int,
    j: int,
    e: int,
    d: int,
    m: int,
    w: u64,
)
    requires
        0 <= i,
        0 <= j,
    ensures
        align_from(l1, l2, i, j, e, d, m, w) == align_from(l2, l1, j, i, e, d, m, w),
    decreases l1.len() + l2.len() - i - j,
{
    if i >= l1.len() && j >= l2.len() {
    } else if i >= l1.len() {
    } else if j >= l2.len() {
    } else if l1[i].innovation == l2[j].innovation {
        assert(weight_diff_bits(l1[i].weight, l2[j].weight) == weight_diff_bits(
            l2[j].weight,
            l1[i].weight,
        ));
        lemma_align_symmetric(
            l1,
            l2,
            i + 1,
            j + 1,
            e,
            d,
            m + 1,
            if l1[i].weight == l2[j].weight {
                w
            } else {
                add_bits(w, weight_diff_bits(l1[i].weight, l2[j].weight))
            },
        );
    } else if l1[i].innovation < l2[j].innovation {
        lemma_align_symmetric(l1, l2, i + 1, j, e, d + 1, m, w);
    } else {
        lemma_align_symmetric(l1, l2, i, j + 1, e, d + 1, m, w);
    }
}

/// Aligning a gene list against itself matches every remaining gene and adds
/// nothing to the weight sum.
pub proof fn lemma_align_self(l: Seq<LinkGene>, i: int, e: int, d: int, m: int, w: u64)
    requires
        0 <= i,
    ensures
        align_from(l, l, i, i, e, d, m, w) == (e, d, m + if i <= l.len() {
            l.len() - i
        } else {
            0
        }, w),
    decreases l.len() - i,
{
    if i < l.len() {
        lemma_align_self(l, i + 1, e, d, m + 1, w);
    }
}

/// Compatibility distance is symmetric.
pub proof fn lemma_distance_symmetric(l1: Seq<LinkGene>, l2: Seq<LinkGene>, ce: u64, cd: u64, cw: u64)
    ensures
        distance_spec(l1, l2, ce, cd, cw) == distance_spec(l2, l1, ce, cd, cw),
{
    lemma_align_symmetric(l1, l2, 0, 0, 0, 0, 0, ZERO_BITS);
}

/// The distance of a genome to itself is exactly +0.0.
pub proof fn lemma_distance_self_zero(l: Seq<LinkGene>, ce: u64, cd: u64, cw: u64)
    ensures
        distance_spec(l, l, ce, cd, cw) == ZERO_BITS,
{
    lemma_align_self(l, 0, 0, 0, 0, ZERO_BITS);
}

/// Computes the compatibility distance between two genomes, exactly as
/// `distance_spec` states it.
#[verifier::loop_isolation(false)]
pub fn compatibility_distance(g1: &Genome, g2: &Genome, ce: u64, cd: u64, cw: u64) -> (r: u64)
    requires
        g1.links@.len() + g2.links@.len() < usize::MAX,
    ensures
        r == distance_spec(g1.links@, g2.links@, ce, cd, cw),
{
    let n1 = g1.links.len();
    let n2 = g2.links.len();
    let mut i: usize = 0;
    let mut j: usize = 0;
    let mut e: usize = 0;
    let mut d: usize = 0;
    let mut m: usize = 0;
    let mut w: u64 = ZERO_BITS;
    while i < n1 && j < n2
        invariant
            i <= n1,
            j <= n2,
            e <= i + j,
            d <= i + j,
            m <= i,
            m <= j,
            align_from(g1.links@, g2.links@, 0, 0, 0, 0, 0, ZERO_BITS) == align_from(
                g1.links@,
                g2.links@,
                i as int,
                j as int,
                e as int,
                d as int,
                m as int,
                w,
            ),
        decreases n1 + n2 - i - j,
    {
        let a = g1.links[i];
        let b = g2.links[j];
        if a.innovation == b.innovation {
            if a.weight != b.weight {
                let lo = if a.weight <= b.weight {
                    a.weight
                } else {
                    b.weight
                };
                let hi = if a.weight <= b.weight {
                    b.weight
                } else {
                    a.weight
                };
                let diff = crate::numeric::f64_sub(hi, lo) & 0x7FFF_FFFF_FFFF_FFFF;
                w = crate::numeric::f64_add(w, diff);
            }
            m = m + 1;
            i = i + 1;
            j = j + 1;
        } else if a.innovation < b.innovation {
            d = d + 1;
            i = i + 1;
        } else {
            d = d + 1;
            j = j + 1;
        }
    }
    if i < n1 {
        e = e + (n1 - i);
        i = n1;
    } else if j < n2 {
        e = e + (n2 - j);
        j = n2;
    }
    proof {
        assert(align_from(g1.links@, g2.links@, 0, 0, 0, 0, 0, ZERO_BITS) == (
            e as int,
            d as int,
            m as int,
            w,
        ));
    }
    if e == 0 && d == 0 && w == ZERO_BITS {
        return ZERO_BITS;
    }
    let longest = if n1 >= n2 {
        n1
    } else {
        n2
    };
    let nrm: u64 = if longest >= crate::params::SMALL_GENOME_LIMIT {
        longest as u64
    } else {
        1
    };
    let nrm_bits = crate::numeric::f64_from_u64(nrm);
    let avg: u64 = if m == 0 {
        ZERO_BITS
    } else {
        crate::numeric::f64_div(w, crate::numeric::f64_from_u64(m as u64))
    };
    let te = crate::numeric::f64_mul(
        ce,
        crate::numeric::f64_div(crate::numeric::f64_from_u64(e as u64), nrm_bits),
    );
    let td = crate::numeric::f64_mul(
        cd,
        crate::numeric::f64_div(crate::numeric::f64_from_u64(d as u64), nrm_bits),
    );
    let tw = crate::numeric::f64_mul(cw, avg);
    crate::numeric::f64_add(crate::numeric::f64_add(te, td), tw)
}

} // verus!
