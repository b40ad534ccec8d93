use vstd::prelude::*;

pub mod crossover;
pub mod ga;
pub mod mutation;
pub mod genes;
pub mod innovation;
pub mod numeric;
pub mod params;
pub mod phenotype;
pub mod species;
pub mod utils;

verus! {

/// Integer square root: the largest `r` with `r * r <= *val`.
pub fn sqrt_usize(val: &usize) -> (r: usize)
    ensures
        r * r <= *val,
        *val < (r + 1) * (r + 1),
{
    let v: usize = *val;
    let mut r: usize = 0;
    loop
        invariant
            r * r <= v,
            r <= v,
            r <= 0x1_0000_0000,
        ensures
            r * r <= v,
            v < (r + 1) * (r + 1),
        decreases v - r,
    {
        let a: u128 = r as u128 + 1;
        proof {
            assert(a * a <= 0x1_0000_0001u128 * 0x1_0000_0001u128) by (nonlinear_arith)
                requires
                    a <= 0x1_0000_0001u128,
            ;
        }
        if !(a * a <= v as u128) {
            break ;
        }
        proof {
            assert((r + 1) * (r + 1) <= v);
            assert(r + 1 <= v && r + 1 <= 0x1_0000_0000) by (nonlinear_arith)
                requires
                    (r + 1) * (r + 1) <= v,
                    v < 0x1_0000_0000_0000_0000,
            ;
        }
        r = r + 1;
    }
    r
}

} // verus!
