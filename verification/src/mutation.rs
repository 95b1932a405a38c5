//! The mutation operator: a geometrically distributed burst of swaps.

use vstd::prelude::*;
use crate::layout::Layout;
use crate::rng::{rand_below, rand_u32};

verus! {

/// A perturbed copy of `parent`. Starting from certainty, each round swaps
/// the positions of two randomly chosen letters and then keeps going with
/// three quarters of the previous probability, so at least one swap always
/// happens and the swap count is geometrically distributed. Every swap is a
/// transposition, so the child is again a bijection.
pub fn mutate_layout(parent: &Layout, rng: &mut rand::rngs::StdRng) -> (child: Layout)
    requires
        parent.wf(),
    ensures
        child.wf(),
{
    let mut child = parent.duplicate();
    // Acceptance threshold for a 32-bit draw, in 1 / 2^32 units: starts at
    // certainty and decays by a factor of 3/4 each round.
    let mut threshold: u64 = 0x1_0000_0000;
    loop
        invariant
            child.wf(),
        ensures
            child.wf(),
        decreases threshold,
    {
        let draw = rand_u32(rng);
        if (draw as u64) < threshold {
            let a = rand_below(rng, 26);
            let b = rand_below(rng, 26);
            let ghost s0 = child.keys@;
            let pa = child.keys[a];
            let pb = child.keys[b];
            child.keys[a] = pb;
            child.keys[b] = pa;
            proof {
                let s = child.keys@;
                assert(s == s0.update(a as int, s0[b as int]).update(b as int, s0[a as int]));
                assert forall|i: int, j: int| 0 <= i < j < 26 implies s[i] != s[j] by {
                    assert(s[i] == (if i == b as int { s0[a as int] } else if i == a as int { s0[b as int] } else { s0[i] }));
                    assert(s[j] == (if j == b as int { s0[a as int] } else if j == a as int { s0[b as int] } else { s0[j] }));
                }
            }
        } else {
            return child;
        }
        threshold = threshold / 4 * 3;
    }
}

} // verus!
