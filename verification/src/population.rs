//! The population: scored layouts ordered best-first.

use vstd::prelude::*;
use crate::evaluate::EvaluationResult;

verus! {

broadcast use vstd::seq_lib::group_to_multiset_ensures;

/// The score of a population member, as a mathematical integer.
pub open spec fn fitness_of(r: EvaluationResult) -> int {
    r.fitness_milli as int
}

/// Best first: fitness never increases along the sequence.
pub open spec fn sorted_desc(s: Seq<EvaluationResult>) -> bool {
    forall|i: int, j: int|
        0 <= i <= j < s.len() ==> #[trigger] fitness_of(s[i]) >= #[trigger] fitness_of(s[j])
}

/// Every member carries a well-formed layout.
pub open spec fn all_wf(s: Seq<EvaluationResult>) -> bool {
    forall|k: int| 0 <= k < s.len() ==> (#[trigger] s[k]).layout.wf()
}

/// Sorts the population best-first by repeatedly extracting a best member:
/// the same collection of scored layouts, ordered by non-increasing fitness,
/// with the head at least as fit as every member of the input.
pub fn sort_by_fitness_desc(v: &mut Vec<EvaluationResult>)
    ensures
        sorted_desc(final(v)@),
        final(v)@.to_multiset() == old(v)@.to_multiset(),
        final(v)@.len() == old(v)@.len(),
        all_wf(old(v)@) ==> all_wf(final(v)@),
        forall|k: int|
            0 <= k < old(v)@.len() ==> fitness_of(final(v)@[0]) >= fitness_of(old(v)@[k]),
{
    let ghost orig = v@;
    let mut out: Vec<EvaluationResult> = Vec::new();
    while v.len() > 0
        invariant
            out@.to_multiset().add(v@.to_multiset()) == orig.to_multiset(),
            out@.len() + v@.len() == orig.len(),
            sorted_desc(out@),
            all_wf(orig) ==> all_wf(out@) && all_wf(v@),
            forall|a: int, b: int|
                0 <= a < out@.len() && 0 <= b < v@.len() ==> fitness_of(out@[a]) >= fitness_of(
                    v@[b],
                ),
        decreases v@.len(),
    {
        let mut best: usize = 0;
        let mut k: usize = 1;
        while k < v.len()
            invariant
                v@.len() > 0,
                best < v@.len(),
                k <= v@.len(),
                forall|t: int| 0 <= t < k ==> fitness_of(v@[best as int]) >= fitness_of(v@[t]),
            decreases v@.len() - k,
        {
            if v[k].fitness_milli > v[best].fitness_milli {
                best = k;
            }
            k = k + 1;
        }
        let ghost vs = v@;
        let ghost outs = out@;
        let item = v.remove(best);
        out.push(item);
        proof {
            assert(vs.contains(vs[best as int]));
            assert(v@.to_multiset() == vs.to_multiset().remove(item));
            assert(out@.to_multiset() == outs.to_multiset().insert(item));
            assert(out@.to_multiset().add(v@.to_multiset()) =~= orig.to_multiset());
        }
    }
    proof {
        assert(out@.to_multiset() =~= orig.to_multiset());
        assert forall|k: int|
            0 <= k < orig.len() implies out@.len() > 0 && fitness_of(out@[0]) >= fitness_of(
            orig[k],
        ) by {
            assert(orig.contains(orig[k]));
            assert(orig.to_multiset().count(orig[k]) > 0);
            assert(out@.to_multiset().count(orig[k]) > 0);
            assert(out@.contains(orig[k]));
            let j = choose|j: int| 0 <= j < out@.len() && out@[j] == orig[k];
            assert(fitness_of(out@[0]) >= fitness_of(out@[j]));
        }
        assert forall|k: int| 0 <= k < out@.len() && all_wf(orig) implies (
        #[trigger] out@[k]).layout.wf() by {}
    }
    *v = out;
}

} // verus!
