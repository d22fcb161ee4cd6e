use std::cmp::Ordering;
use vstd::prelude::*;

verus! {

/// What the near-plane clip does to one vertex of a camera-space polygon.
///
/// The sign of a vertex's depth is given as its comparison with zero:
/// `Less` lies behind the camera, `Equal` on the near plane, `Greater` ahead.
#[derive(Clone, Copy, Debug, PartialEq, Eq, Structural)]
pub enum Correction {
    /// The vertex stays as it is.
    Keep,
    /// The vertex keeps its lateral coordinate and its depth becomes zero.
    Clamp,
    /// The vertex moves to where the edge joining it to the given vertex
    /// crosses depth zero; both endpoints are taken as they were before the clip.
    Intersect(usize),
}

/// The correction that the clip applies to vertex `i`.
///
/// A vertex that is not behind the camera is kept. A vertex behind it is moved
/// onto the first edge, in the order in which the clip visits the edges (the
/// closing edge first, then the others by increasing index), that joins it to a
/// vertex ahead of the camera. A vertex behind with no neighbour ahead is clamped.
pub open spec fn correction_of(d: Seq<Ordering>, i: int) -> Correction {
    let n = d.len() as int;
    if d[i] != Ordering::Less {
        Correction::Keep
    } else if i == n - 1 && d[0] == Ordering::Greater {
        Correction::Intersect(0)
    } else if i == 0 && d[n - 1] == Ordering::Greater {
        Correction::Intersect((n - 1) as usize)
    } else if i > 0 && d[i - 1] == Ordering::Greater {
        Correction::Intersect((i - 1) as usize)
    } else if i < n - 1 && d[i + 1] == Ordering::Greater {
        Correction::Intersect((i + 1) as usize)
    } else {
        Correction::Clamp
    }
}

/// The corrections of all vertices, in order.
pub open spec fn clip_spec(d: Seq<Ordering>) -> Seq<Correction> {
    Seq::new(d.len(), |i: int| correction_of(d, i))
}

/// The sign of vertex `i`'s depth once the clip has been applied.
pub open spec fn clipped_sign(d: Seq<Ordering>, i: int) -> Ordering {
    if correction_of(d, i) == Correction::Keep {
        d[i]
    } else {
        Ordering::Equal
    }
}

/// The signs of all depths once the clip has been applied.
pub open spec fn clipped_signs(d: Seq<Ordering>) -> Seq<Ordering> {
    Seq::new(d.len(), |i: int| clipped_sign(d, i))
}

/// Whether the clip has already corrected vertex `k` after the closing edge and
/// the edges `(j, j + 1)` with `j < i` have been visited.
spec fn settled(d: Seq<Ordering>, k: int, i: int) -> bool {
    let n = d.len() as int;
    &&& d[k] == Ordering::Less
    &&& {
        ||| k < i
        ||| (k == i && i > 0 && d[i - 1] == Ordering::Greater)
        ||| (k == n - 1 && d[0] == Ordering::Greater)
        ||| (k == 0 && d[n - 1] == Ordering::Greater)
    }
}

/// The state of the clip after the closing edge and the edges `(j, j + 1)`
/// with `j < i`: corrected vertices lie on the near plane, the others are
/// as they were.
spec fn scan_state(d: Seq<Ordering>, sides: Seq<Ordering>, plan: Seq<Correction>, i: int) -> bool {
    &&& sides.len() == d.len()
    &&& plan.len() == d.len()
    &&& forall|k: int|
        0 <= k < d.len() ==> if settled(d, k, i) {
            plan[k] == correction_of(d, k) && sides[k] == Ordering::Equal
        } else {
            plan[k] == Correction::Keep && sides[k] == d[k]
        }
}

fn is_less(o: Ordering) -> (r: bool)
    ensures
        r == (o == Ordering::Less),
{
    match o {
        Ordering::Less => true,
        _ => false,
    }
}

fn is_greater(o: Ordering) -> (r: bool)
    ensures
        r == (o == Ordering::Greater),
{
    match o {
        Ordering::Greater => true,
        _ => false,
    }
}

/// Plans the near-plane clip of a closed camera-space polygon, given the sign of
/// each vertex's depth.
///
/// The closing edge `(n - 1, 0)` is visited first: where one end lies behind the
/// camera and the other ahead, the end behind is moved onto the crossing with
/// depth zero. Then the edges `(i, i + 1)` by increasing `i`: a vertex `i` behind
/// the camera is moved onto the crossing when `i + 1` is ahead and clamped to
/// depth zero otherwise, and a vertex `i + 1` behind is moved onto the crossing
/// when `i` is ahead. An edge whose first end lies on the near plane changes
/// nothing, and a corrected vertex lies on the near plane, so no vertex is
/// corrected twice. A last vertex still behind the camera after all edges is
/// clamped, so that no depth is negative after the clip. The polygon keeps all
/// its vertices.
#[verifier::spinoff_prover]
#[verifier::rlimit(40)]
pub fn clip_plan(depth_signs: &Vec<Ordering>) -> (r: Vec<Correction>)
    requires
        depth_signs@.len() >= 3,
    ensures
        r@ == clip_spec(depth_signs@),
{
    let ghost d = depth_signs@;
    let n = depth_signs.len();
    let mut sides: Vec<Ordering> = Vec::new();
    let mut plan: Vec<Correction> = Vec::new();
    let mut k: usize = 0;
    while k < n
        invariant
            k <= n,
            d == depth_signs@,
            n == d.len(),
            sides@ == d.take(k as int),
            plan@.len() == k,
            forall|j: int| 0 <= j < k ==> plan@[j] == Correction::Keep,
        decreases n - k,
    {
        sides.push(depth_signs[k]);
        plan.push(Correction::Keep);
        k = k + 1;
        assert(sides@ =~= d.take(k as int));
    }
    assert(sides@ =~= d);

    // the closing edge
    let first = sides[0];
    let last = sides[n - 1];
    if is_less(last) && is_greater(first) {
        plan.set(n - 1, Correction::Intersect(0));
        sides.set(n - 1, Ordering::Equal);
    } else if is_greater(last) && is_less(first) {
        plan.set(0, Correction::Intersect(n - 1));
        sides.set(0, Ordering::Equal);
    }
    assert(scan_state(d, sides@, plan@, 0));

    // the other edges, in order
    let mut i: usize = 0;
    while i < n - 1
        invariant
            n == d.len(),
            n >= 3,
            i <= n - 1,
            scan_state(d, sides@, plan@, i as int),
        decreases n - 1 - i,
    {
        let ghost sides0 = sides@;
        let ghost plan0 = plan@;
        let v = sides[i];
        let u = sides[i + 1];
        proof {
            assert(settled(d, i as int, i as int) ==> plan0[i as int] == correction_of(d, i as int));
            assert(!settled(d, i as int + 1, i as int) ==> u == d[i + 1]);
        }
        if is_less(v) {
            if is_greater(u) {
                plan.set(i, Correction::Intersect(i + 1));
            } else {
                plan.set(i, Correction::Clamp);
            }
            sides.set(i, Ordering::Equal);
        } else if is_greater(v) && is_less(u) {
            plan.set(i + 1, Correction::Intersect(i));
            sides.set(i + 1, Ordering::Equal);
        }
        proof {
            assert forall|k: int| 0 <= k < n implies (if settled(d, k, i + 1) {
                plan@[k] == correction_of(d, k) && sides@[k] == Ordering::Equal
            } else {
                plan@[k] == Correction::Keep && sides@[k] == d[k]
            }) by {
                if k != i && k != i + 1 {
                    assert(settled(d, k, i + 1) == settled(d, k, i as int));
                    assert(plan@[k] == plan0[k] && sides@[k] == sides0[k]);
                }
            }
        }
        i = i + 1;
    }

    // a last vertex left behind the camera
    if is_less(sides[n - 1]) {
        plan.set(n - 1, Correction::Clamp);
    }
    assert(plan@ =~= clip_spec(d));
    plan
}

/// A polygon that lies wholly ahead of the camera comes out of the clip unchanged.
pub proof fn lemma_ahead_unchanged(d: Seq<Ordering>)
    requires
        d.len() >= 3,
        forall|i: int| 0 <= i < d.len() ==> d[i] == Ordering::Greater,
    ensures
        forall|i: int| 0 <= i < d.len() ==> correction_of(d, i) == Correction::Keep,
        clipped_signs(d) == d,
{
    assert(clipped_signs(d) =~= d);
}

/// A polygon that lies wholly behind the camera has every vertex clamped to
/// depth zero, and none of them is left ahead of the camera.
pub proof fn lemma_behind_clamped(d: Seq<Ordering>)
    requires
        d.len() >= 3,
        forall|i: int| 0 <= i < d.len() ==> d[i] == Ordering::Less,
    ensures
        forall|i: int| 0 <= i < d.len() ==> correction_of(d, i) == Correction::Clamp,
        forall|i: int| 0 <= i < d.len() ==> clipped_sign(d, i) == Ordering::Equal,
{
}

/// A vertex is only ever moved onto an edge that crosses the near plane: it lies
/// behind the camera, and the other end of the edge is a neighbour ahead of it.
pub proof fn lemma_intersect_straddles(d: Seq<Ordering>, i: int, j: usize)
    requires
        3 <= d.len() <= usize::MAX,
        0 <= i < d.len(),
        correction_of(d, i) == Correction::Intersect(j),
    ensures
        j < d.len(),
        j as int == (i + 1) % (d.len() as int) || i == (j + 1) % (d.len() as int),
        d[i] == Ordering::Less,
        d[j as int] == Ordering::Greater,
{
    let n = d.len() as int;
    vstd::arithmetic::div_mod::lemma_mod_self_0(n);
    if i == n - 1 && d[0] == Ordering::Greater {
        assert(j == 0);
    } else if i == 0 && d[n - 1] == Ordering::Greater {
        assert(j as int == n - 1);
    } else if i > 0 && d[i - 1] == Ordering::Greater {
        assert(j as int == i - 1);
        vstd::arithmetic::div_mod::lemma_small_mod(i as nat, n as nat);
    } else {
        assert(j as int == i + 1);
        vstd::arithmetic::div_mod::lemma_small_mod((i + 1) as nat, n as nat);
    }
}

/// After the clip no vertex lies behind the camera, and the vertices ahead of it
/// are exactly those that were ahead before.
pub proof fn lemma_clip_leaves_nothing_behind(d: Seq<Ordering>)
    requires
        d.len() >= 3,
    ensures
        forall|i: int| 0 <= i < d.len() ==> clipped_sign(d, i) != Ordering::Less,
        forall|i: int|
            0 <= i < d.len() ==> (clipped_sign(d, i) == Ordering::Greater <==> d[i]
                == Ordering::Greater),
{
}

proof fn lemma_kept_unless_behind(s: Seq<Ordering>, i: int)
    requires
        0 <= i < s.len(),
        s[i] != Ordering::Less,
    ensures
        correction_of(s, i) == Correction::Keep,
        clipped_sign(s, i) == s[i],
{
}

proof fn lemma_not_behind_after_clip(d: Seq<Ordering>, i: int)
    requires
        0 <= i < d.len(),
    ensures
        clipped_signs(d)[i] != Ordering::Less,
{
}

/// Clipping a polygon that has already been clipped changes nothing.
#[verifier::spinoff_prover]
pub proof fn lemma_clip_idempotent(d: Seq<Ordering>)
    requires
        d.len() >= 3,
    ensures
        forall|i: int|
            0 <= i < d.len() ==> correction_of(clipped_signs(d), i) == Correction::Keep,
        clipped_signs(clipped_signs(d)) == clipped_signs(d),
{
    let c = clipped_signs(d);
    assert forall|i: int| 0 <= i < c.len() implies correction_of(c, i) == Correction::Keep by {
        lemma_not_behind_after_clip(d, i);
        lemma_kept_unless_behind(c, i);
    }
    assert forall|i: int| 0 <= i < c.len() implies clipped_signs(c)[i] == c[i] by {
        lemma_not_behind_after_clip(d, i);
        lemma_kept_unless_behind(c, i);
    }
    assert(clipped_signs(c) =~= c);
}

} // verus!
