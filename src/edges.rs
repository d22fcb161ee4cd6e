use vstd::prelude::*;

verus! {

/// The edges of a closed polygon with `n` vertices, as index pairs:
/// `(i, i + 1)` for every vertex but the last, then the closing pair `(n - 1, 0)`.
pub open spec fn edge_seq(n: nat) -> Seq<(usize, usize)> {
    Seq::new(n, |i: int| (i as usize, ((i + 1) % (n as int)) as usize))
}

/// Lists the edges of a closed polygon with `n` vertices, closing pair last.
pub fn edge_pairs(n: usize) -> (r: Vec<(usize, usize)>)
    ensures
        r@ == edge_seq(n as nat),
{
    let mut r: Vec<(usize, usize)> = Vec::new();
    let mut i: usize = 0;
    while i < n
        invariant
            i <= n,
            r@ == edge_seq(n as nat).take(i as int),
        decreases n - i,
    {
        let j: usize = if i + 1 == n { 0 } else { i + 1 };
        r.push((i, j));
        proof {
            assert(r@ =~= edge_seq(n as nat).take(i as int + 1)) by {
                assert(j as int == (i as int + 1) % (n as int)) by {
                    if i + 1 < n {
                        vstd::arithmetic::div_mod::lemma_small_mod((i + 1) as nat, n as nat);
                    }
                }
            }
        }
        i = i + 1;
    }
    assert(r@ =~= edge_seq(n as nat));
    r
}

} // verus!
