//! Indices that wrap round a ring.

use vstd::arithmetic::div_mod::*;
use vstd::prelude::*;

verus! {

/// The place in a ring of `n` places that a signed index lands on.
pub open spec fn wrap(idx: int, n: int) -> int {
    ((idx % n) + n) % n
}

/// A wrapped index is a place of the ring, and indices that differ by the
/// ring's size land on the same place.
pub proof fn wrap_is_a_place(idx: int, n: int)
    requires
        n > 0,
    ensures
        0 <= wrap(idx, n) < n,
        wrap(idx, n) == idx % n,
        wrap(idx + n, n) == wrap(idx, n),
        0 <= idx < n ==> wrap(idx, n) == idx,
{
    lemma_mod_bound(idx, n);
    lemma_mod_add_multiples_vanish(idx % n, n);
    lemma_mod_twice(idx, n);
    lemma_mod_add_multiples_vanish(idx, n);
    lemma_mod_bound(idx + n, n);
    lemma_mod_add_multiples_vanish((idx + n) % n, n);
    lemma_mod_twice(idx + n, n);
    if 0 <= idx < n {
        lemma_small_mod(idx as nat, n as nat);
    }
}

/// In a ring of `n` places, index `n` lands where index 0 does, and index -1
/// lands on the last place.
pub proof fn wrap_at_the_seam(n: int)
    requires
        n > 0,
    ensures
        wrap(n, n) == wrap(0, n),
        wrap(0, n) == 0,
        wrap(-1, n) == n - 1,
{
    wrap_is_a_place(0, n);
    wrap_is_a_place(-1, n);
    assert(-1 + n == n - 1);
    wrap_is_a_place(n - 1, n);
}

/// Circular access: the element of `vec` that `idx` lands on when the vector
/// is read as a ring.
pub fn wraparound_get<T>(vec: &Vec<T>, idx: isize) -> (r: &T)
    requires
        vec.len() > 0,
    ensures
        *r == vec@[wrap(idx as int, vec.len() as int)],
{
    let at: usize = wraparound_index(vec.len(), idx);
    &vec[at]
}

/// The place of a ring of `n` places that `idx` lands on.
pub fn wraparound_index(n: usize, idx: isize) -> (at: usize)
    requires
        n > 0,
    ensures
        at == wrap(idx as int, n as int),
        at < n,
{
    proof {
        wrap_is_a_place(idx as int, n as int);
    }
    if idx >= 0 {
        (idx as usize) % n
    } else {
        let back: usize = ((-(idx + 1)) as usize) % n;
        proof {
            let m: int = -(idx + 1);
            lemma_fundamental_div_mod(m, n as int);
            let q: int = -(m / (n as int)) - 1;
            assert(idx == q * n + (n - 1 - back)) by (nonlinear_arith)
                requires
                    m == n * (m / (n as int)) + back,
                    idx == -(m + 1),
                    q == -(m / (n as int)) - 1,
            ;
            lemma_fundamental_div_mod_converse_mod(idx as int, n as int, q, n - 1 - back);
        }
        n - 1 - back
    }
}

} // verus!
