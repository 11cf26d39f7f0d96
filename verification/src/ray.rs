//! Rays and what they meet.

pub mod intersection;

use vstd::prelude::*;
use crate::scalar::Scalar;
use crate::ray::intersection::{Intersection, Intersections, ascending, at_distance, lies_at};

verus! {

/// The two intersections in the order of their distances, the first before
/// the second where the distances are equal.
pub open spec fn in_order<'a, T>(a: Intersection<'a, T>, b: Intersection<'a, T>) -> Seq<Intersection<'a, T>> {
    if b.t.below(a.t) {
        seq![b, a]
    } else {
        seq![a, b]
    }
}

/// What a ray meets of a sphere, given the discriminant of the quadratic
/// equation for the distances and its two roots `t1` and `t2`.  With a
/// negative discriminant the ray misses the sphere.  Otherwise it meets
/// `sphere` at both roots, which are one distance twice where the ray only
/// touches; they must be numbers then.
pub fn intersect_sphere<'a, T>(discriminant: Scalar, t1: Scalar, t2: Scalar, sphere: &'a T) -> (r: Option<
    Intersections<'a, T>,
>)
    requires
        !discriminant.below_zero() ==> !t1.nan() && !t2.nan(),
    ensures
        r.is_none() <==> discriminant.below_zero(),
        r matches Some(xs) ==> xs@ == in_order(
            (Intersection { t: t1, obj: sphere }),
            (Intersection { t: t2, obj: sphere }),
        ),
{
    if discriminant.lt(Scalar::zero()) {
        return None;
    }
    let a = Intersection::new(t1, sphere);
    let b = Intersection::new(t2, sphere);
    let mut v = Vec::new();
    v.push(a);
    v.push(b);
    assert(v@ =~= seq![a, b]);
    let xs = Intersections::new(v);
    proof {
        lemma_pair_in_order(a, b, xs@);
    }
    Some(xs)
}

/// Two intersections can be sorted in one way only.
proof fn lemma_pair_in_order<'a, T>(a: Intersection<'a, T>, b: Intersection<'a, T>, r: Seq<Intersection<'a, T>>)
    requires
        !a.t.nan(),
        !b.t.nan(),
        r.len() == 2,
        r.to_multiset() == seq![a, b].to_multiset(),
        ascending(r),
        forall|v: int| at_distance(r, v) == at_distance(seq![a, b], v),
    ensures
        r == in_order(a, b),
{
    let given = seq![a, b];
    r.to_multiset_ensures();
    given.to_multiset_ensures();
    assert(given.contains(a)) by {
        assert(given[0] == a);
    }
    assert(given.contains(b)) by {
        assert(given[1] == b);
    }
    assert(r.contains(a) && r.contains(b)) by {
        assert(given.to_multiset().count(a) > 0);
        assert(given.to_multiset().count(b) > 0);
    }
    assert(given.contains(r[0]) && given.contains(r[1])) by {
        assert(r.contains(r[0]));
        assert(r.contains(r[1]));
        assert(r.to_multiset().count(r[0]) > 0);
        assert(r.to_multiset().count(r[1]) > 0);
    }
    assert(r[0].t.at_most(r[1].t));
    if r[0] == a && r[1] == b {
        assert(r =~= seq![a, b]);
    } else if r[0] == b && r[1] == a {
        assert(r =~= seq![b, a]);
        if !b.t.below(a.t) {
            let v = a.t.value();
            reveal_with_fuel(Seq::filter, 3);
            assert(at_distance(r, v) == at_distance(given, v));
            assert(given.drop_last() =~= seq![a]);
            assert(given.drop_last().drop_last() =~= Seq::<Intersection<'a, T>>::empty());
            assert(r.drop_last() =~= seq![b]);
            assert(r.drop_last().drop_last() =~= Seq::<Intersection<'a, T>>::empty());
            assert(lies_at::<T>(v)(a) && lies_at::<T>(v)(b));
            assert(at_distance(given, v) =~= seq![a, b]);
            assert(at_distance(r, v) =~= seq![b, a]);
            assert(seq![a, b][0] == seq![b, a][0]);
        }
    } else {
        // both entries are the same one, so the other is one too
        assert(r[0] == r[1]);
        if r[0] == a {
            assert(r.contains(b));
        } else {
            assert(r.contains(a));
        }
        assert(a == b);
        assert(r =~= seq![a, b]);
    }
}

} // verus!
