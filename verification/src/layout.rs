//! Layouts: bijective mappings from the 26-letter alphabet to key positions.

use vstd::prelude::*;
use crate::errors::OptError;
use crate::rng::shuffle_bytes;

verus! {

/// A keyboard layout. `keys[l]` is the key position of letter `l`
/// (`l == 0` for `a`), and the mapping is a bijection: 26 letters onto
/// 26 distinct positions.
pub struct Layout {
    pub keys: Vec<u8>,
}

/// The 26 positions in order: the identity assignment.
pub open spec fn ident26() -> Seq<u8> {
    Seq::new(26, |i: int| i as u8)
}

impl Layout {
    /// The layout invariant: every letter has a position inside the grid,
    /// and no two letters share one.
    pub open spec fn wf(self) -> bool {
        &&& self.keys@.len() == 26
        &&& forall|i: int| 0 <= i < 26 ==> self.keys@[i] < 26
        &&& forall|i: int, j: int| 0 <= i < j < 26 ==> self.keys@[i] != self.keys@[j]
    }

    /// An owned copy with the same letter-to-position mapping.
    pub fn duplicate(&self) -> (r: Layout)
        ensures
            r.keys@ == self.keys@,
    {
        let n = self.keys.len();
        let mut keys: Vec<u8> = Vec::new();
        for i in 0..n
            invariant
                n == self.keys@.len(),
                keys@.len() == i,
                forall|k: int| 0 <= k < i ==> keys@[k] == self.keys@[k],
        {
            keys.push(self.keys[i]);
        }
        proof {
            assert(keys@ =~= self.keys@);
        }
        Layout { keys }
    }

    /// The inverse mapping, for display: entry `p` is the letter placed on
    /// position `p`, as an index into the alphabet.
    pub fn inverse(&self) -> (inv: Vec<u8>)
        requires
            self.wf(),
        ensures
            inv@.len() == 26,
            forall|l: int| 0 <= l < 26 ==> inv@[#[trigger] self.keys@[l] as int] == l as u8,
    {
        let mut inv: Vec<u8> = Vec::new();
        for p in 0..26usize
            invariant
                inv@.len() == p,
        {
            inv.push(0);
        }
        for l in 0..26usize
            invariant
                self.wf(),
                inv@.len() == 26,
                forall|k: int| 0 <= k < l ==> inv@[#[trigger] self.keys@[k] as int] == k as u8,
        {
            let p = self.keys[l] as usize;
            inv[p] = l as u8;
        }
        inv
    }

    /// A uniformly random layout: the identity assignment shuffled in place.
    pub fn random(rng: &mut rand::rngs::StdRng) -> (l: Layout)
        ensures
            l.wf(),
    {
        let mut keys: Vec<u8> = Vec::new();
        for i in 0..26usize
            invariant
                keys@.len() == i,
                forall|k: int| 0 <= k < i ==> keys@[k] == k as u8,
        {
            keys.push(i as u8);
        }
        proof {
            assert(keys@ =~= ident26());
        }
        shuffle_bytes(&mut keys, rng);
        proof {
            lemma_rearranged_ident_is_bijection(keys@);
        }
        Layout { keys }
    }
}

/// The byte `v` occurs somewhere in the first 26 entries of `s`.
pub open spec fn appears(s: Seq<u8>, v: u8) -> bool {
    exists|j: int| 0 <= j < 26 && s[j] == v
}

/// A description of a fixed layout is usable exactly when it lists each
/// letter of the alphabet once: 26 bytes, and every letter at exactly one
/// index.
pub open spec fn valid_fixed_mapping(s: Seq<u8>) -> bool {
    &&& s.len() == 26
    &&& forall|v: u8| 97 <= v <= 122 ==> #[trigger] appears(s, v)
    &&& forall|j1: int, j2: int|
        0 <= j1 < 26 && 0 <= j2 < 26 && s[j1] == s[j2] && 97 <= s[j1] <= 122 ==> j1 == j2
}

impl Layout {
    /// Builds a layout from an explicit letter ordering: `letters[p]` is the
    /// lower-case letter placed on position `p`. Fails unless the ordering is
    /// a full bijection over the alphabet.
    pub fn from_fixed_mapping(letters: &Vec<u8>) -> (r: Result<Layout, OptError>)
        ensures
            (r is Ok) <==> valid_fixed_mapping(letters@),
            r is Err ==> r->Err_0 == OptError::ConfigurationError,
            r is Ok ==> r->Ok_0.wf(),
            r is Ok ==> forall|l: int|
                0 <= l < 26 ==> letters@[#[trigger] r->Ok_0.keys@[l] as int] == l + 97,
    {
        if letters.len() != 26 {
            return Err(OptError::ConfigurationError);
        }
        let mut keys: Vec<u8> = Vec::new();
        for l in 0..26usize
            invariant
                letters@.len() == 26,
                keys@.len() == l,
                forall|k: int| 0 <= k < l ==> keys@[k] < 26,
                forall|k: int| 0 <= k < l ==> letters@[#[trigger] keys@[k] as int] == k + 97,
                forall|v: u8| 97 <= v < 97 + l ==> #[trigger] appears(letters@, v),
                forall|j1: int, j2: int|
                    0 <= j1 < 26 && 0 <= j2 < 26 && letters@[j1] == letters@[j2]
                        && 97 <= letters@[j1] < 97 + l ==> j1 == j2,
        {
            let target: u8 = (l as u8) + 97;
            let mut found: usize = 26;
            for j in 0..26usize
                invariant
                    letters@.len() == 26,
                    target == l + 97,
                    l < 26,
                    found == 26 || (found < j && letters@[found as int] == target),
                    found == 26 ==> forall|k: int| 0 <= k < j ==> letters@[k] != target,
                    found < 26 ==> forall|k: int|
                        0 <= k < j && letters@[k] == target ==> k == found,
            {
                if letters[j] == target {
                    if found != 26 {
                        proof {
                            assert(letters@[found as int] == target);
                            assert(letters@[j as int] == target);
                            assert(found != j);
                        }
                        return Err(OptError::ConfigurationError);
                    }
                    found = j;
                }
            }
            if found == 26 {
                proof {
                    if valid_fixed_mapping(letters@) {
                        assert(appears(letters@, target));
                        let w = choose|w: int| 0 <= w < 26 && letters@[w] == target;
                        assert(false);
                    }
                }
                return Err(OptError::ConfigurationError);
            }
            keys.push(found as u8);
        }
        let l = Layout { keys };
        proof {
            assert forall|i: int, j: int| 0 <= i < j < 26 implies l.keys@[i] != l.keys@[j] by {
                assert(letters@[l.keys@[i] as int] == i + 97);
                assert(letters@[l.keys@[j] as int] == j + 97);
            }
        }
        Ok(l)
    }
}

/// The letters of a shuffled identity assignment still cover each position
/// exactly once: any rearrangement of `0..26` is a bijection.
pub proof fn lemma_rearranged_ident_is_bijection(s: Seq<u8>)
    requires
        s.to_multiset() == ident26().to_multiset(),
    ensures
        s.len() == 26,
        forall|i: int| 0 <= i < 26 ==> s[i] < 26,
        forall|i: int, j: int| 0 <= i < j < 26 ==> s[i] != s[j],
{
    let id = ident26();
    id.to_multiset_ensures();
    s.to_multiset_ensures();
    assert(id.no_duplicates());
    id.lemma_multiset_has_no_duplicates();
    assert(s.len() == s.to_multiset().len());
    assert(id.len() == id.to_multiset().len());
    assert forall|i: int| 0 <= i < 26 implies s[i] < 26 by {
        assert(s.contains(s[i]));
        assert(s.to_multiset().count(s[i]) > 0);
        assert(id.contains(s[i]));
        let w = choose|w: int| 0 <= w < id.len() && id[w] == s[i];
        assert(id[w] == w as u8);
    }
    assert forall|x: u8| s.to_multiset().contains(x) implies s.to_multiset().count(x) == 1 by {
        assert(id.to_multiset().contains(x));
        assert(id.contains(x));
    }
    s.lemma_multiset_has_no_duplicates_conv();
}

} // verus!
