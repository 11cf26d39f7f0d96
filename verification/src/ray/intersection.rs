//! Intersections of a ray with objects, ordered along the ray.

use vstd::prelude::*;
use crate::scalar::Scalar;

verus! {

/// One intersection: the distance `t` along the ray, where
/// `origin + t * direction` meets the object, and the object that is met.
#[derive(Debug, PartialEq, Clone, Copy)]
pub struct Intersection<'a, T> {
    pub t: Scalar,
    pub obj: &'a T,
}

impl<'a, T> Intersection<'a, T> {
    /// The intersection with `obj` at distance `t`.
    pub fn new(t: Scalar, obj: &'a T) -> (r: Self)
        ensures
            r.t == t,
            r.obj == obj,
    {
        Self { t, obj }
    }

    /// The distance along the ray.
    pub fn t(&self) -> (r: Scalar)
        ensures
            r == self.t,
    {
        self.t
    }

    /// The object that was met.
    pub fn obj(&self) -> (r: &'a T)
        ensures
            r == self.obj,
    {
        self.obj
    }

    /// Whether the intersection lies on the ray itself, at a distance of zero
    /// or more, and not behind its origin.
    pub open spec fn visible(self) -> bool {
        self.t.at_least_zero()
    }
}

/// Whether the distances never decrease from one entry to the next.
pub open spec fn ascending<'a, T>(s: Seq<Intersection<'a, T>>) -> bool {
    forall|i: int, j: int| 0 <= i < j < s.len() ==> (#[trigger] s[i]).t.at_most((#[trigger] s[j]).t)
}

/// The test whether an entry lies at the distance `v`.
pub open spec fn lies_at<'a, T>(v: int) -> spec_fn(Intersection<'a, T>) -> bool {
    |e: Intersection<'a, T>| e.t.value() == v
}

/// The entries at the distance `v`, in the order in which they stand.
pub open spec fn at_distance<'a, T>(s: Seq<Intersection<'a, T>>, v: int) -> Seq<Intersection<'a, T>> {
    s.filter(lies_at(v))
}

/// Whether `i` is the place of the first visible entry.
pub open spec fn first_visible<'a, T>(s: Seq<Intersection<'a, T>>, i: int) -> bool {
    &&& 0 <= i < s.len()
    &&& s[i].visible()
    &&& forall|j: int| 0 <= j < i ==> !(#[trigger] s[j]).visible()
}

/// Of one entry alone, the entries at a distance are that entry or none.
proof fn lemma_one_at_distance<'a, T>(x: Intersection<'a, T>, d: int)
    ensures
        at_distance(seq![x], d) == if x.t.value() == d {
            seq![x]
        } else {
            Seq::<Intersection<'a, T>>::empty()
        },
{
    reveal(Seq::filter);
    assert(seq![x].drop_last() == Seq::<Intersection<'a, T>>::empty());
    assert(Seq::<Intersection<'a, T>>::empty().filter(lies_at::<T>(d)) == Seq::<Intersection<'a, T>>::empty());
    assert(Seq::<Intersection<'a, T>>::empty().push(x) == seq![x]);
}

/// Where no entry lies at a distance, the entries at that distance are none.
proof fn lemma_none_at_distance<'a, T>(s: Seq<Intersection<'a, T>>, d: int)
    requires
        forall|k: int| 0 <= k < s.len() ==> (#[trigger] s[k]).t.value() != d,
    ensures
        at_distance(s, d) == Seq::<Intersection<'a, T>>::empty(),
    decreases s.len(),
{
    reveal(Seq::filter);
    if s.len() > 0 {
        assert(s.last() == s[s.len() - 1]);
        lemma_none_at_distance(s.drop_last(), d);
    }
}

/// A collection of intersections in ascending order of distance.
#[derive(Debug, PartialEq)]
pub struct Intersections<'a, T> {
    v: Vec<Intersection<'a, T>>,
}

impl<'a, T> View for Intersections<'a, T> {
    type V = Seq<Intersection<'a, T>>;

    /// The intersections, from the lowest distance to the highest.
    closed spec fn view(&self) -> Seq<Intersection<'a, T>> {
        self.v@
    }
}

impl<'a, T> Intersections<'a, T> {
    #[verifier::type_invariant]
    spec fn ordered(&self) -> bool {
        ascending(self.v@)
    }

    /// Collects the intersections, sorted by distance.  Entries at the same
    /// distance keep the order in which they were given.  Two or more entries
    /// can only be ordered if none of their distances is a NaN.
    pub fn new(args: Vec<Intersection<'a, T>>) -> (r: Self)
        requires
            args.len() >= 2 ==> forall|i: int| 0 <= i < args.len() ==> !(#[trigger] args[i]).t.nan(),
        ensures
            r@.len() == args@.len(),
            r@.to_multiset() == args@.to_multiset(),
            ascending(r@),
            forall|v: int| at_distance(r@, v) == at_distance(args@, v),
    {
        let ghost given = args@;
        let mut v = args;
        let n = v.len();
        if n < 2 {
            return Intersections { v };
        }
        let mut i: usize = 1;
        proof {
            assert(v@.subrange(0, 1) == given.subrange(0, 1));
        }
        while i < n
            invariant
                1 <= i <= n,
                n == v.len(),
                n == given.len(),
                forall|k: int| 0 <= k < n ==> !(#[trigger] v[k]).t.nan(),
                v@.subrange(i as int, n as int) == given.subrange(i as int, n as int),
                v@.to_multiset() == given.to_multiset(),
                ascending(v@.subrange(0, i as int)),
                forall|d: int| at_distance(v@.subrange(0, i as int), d) == at_distance(given.subrange(0, i as int), d),
            decreases n - i,
        {
            let ghost before = v@;
            let x = v.remove(i);
            let ghost rest = v@;
            let mut p: usize = i;
            while p > 0 && x.t.lt(v[p - 1].t)
                invariant
                    p <= i,
                    i < n,
                    v@ == rest,
                    rest.len() == n - 1,
                    forall|k: int| p <= k < i ==> x.t.below((#[trigger] rest[k]).t),
                decreases p,
            {
                p = p - 1;
            }
            v.insert(p, x);
            proof {
                let head = before.subrange(0, i as int);
                let low = head.subrange(0, p as int);
                let high = head.subrange(p as int, i as int);
                let grown = v@.subrange(0, i + 1);
                assert(head == low + high);
                assert(grown == low + seq![x] + high);
                assert(forall|k: int| 0 <= k < high.len() ==> #[trigger] high[k] == rest[p + k]);
                let tail = v@.subrange(i + 1, n as int);
                let given_tail = given.subrange(i + 1, n as int);
                assert(tail == given_tail) by {
                    assert forall|k: int| 0 <= k < tail.len() implies #[trigger] tail[k] == given_tail[k] by {
                        assert(before.subrange(i as int, n as int)[k + 1] == given.subrange(i as int, n as int)[k + 1]);
                    }
                }
                assert(given.subrange(0, i + 1) == given.subrange(0, i as int).push(x)) by {
                    assert(before.subrange(i as int, n as int)[0] == given.subrange(i as int, n as int)[0]);
                }
                assert forall|k: int| 0 <= k < n implies !(#[trigger] v@[k]).t.nan() by {
                    if k < p {
                        assert(v@[k] == before[k]);
                    } else if k == p {
                        assert(v@[k] == before[i as int]);
                    } else if k <= i {
                        assert(v@[k] == before[k - 1]);
                    } else {
                        assert(v@[k] == before[k]);
                    }
                }
                // the same entries
                broadcast use vstd::seq_lib::group_to_multiset_ensures;
                assert(rest == before.remove(i as int));
                assert(v@ == rest.insert(p as int, x));
                assert(before.to_multiset() =~= rest.to_multiset().insert(x)) by {
                    assert(before.to_multiset().count(x) > 0) by {
                        assert(before.contains(x)) by {
                            assert(before[i as int] == x);
                        }
                    }
                    assert(rest.to_multiset() =~= before.to_multiset().remove(x));
                }
                assert(v@.to_multiset() =~= rest.to_multiset().insert(x)) by {
                    let front = rest.subrange(0, p as int);
                    let back = rest.subrange(p as int, rest.len() as int);
                    assert(v@ == front.push(x) + back);
                    assert(rest == front + back);
                    vstd::seq_lib::lemma_multiset_commutative(front.push(x), back);
                    vstd::seq_lib::lemma_multiset_commutative(front, back);
                }
                // in ascending order
                assert(ascending(grown)) by {
                    assert forall|a: int, b: int| 0 <= a < b < grown.len() implies (#[trigger] grown[a]).t.at_most(
                        (#[trigger] grown[b]).t,
                    ) by {
                        let ha = if a < p { a } else { a - 1 };
                        let hb = if b < p { b } else { b - 1 };
                        if a != p && b != p {
                            assert(head[ha].t.at_most(head[hb].t));
                        } else if a == p {
                            assert(x.t.below(rest[hb].t));
                        } else {
                            assert(!x.t.below(rest[p - 1].t));
                            assert(!x.t.nan()) by {
                                assert(before[i as int] == x);
                            }
                            assert(!rest[p - 1].t.nan()) by {
                                assert(rest[p - 1] == before[p - 1]);
                            }
                            if a < p - 1 {
                                assert(head[a].t.at_most(head[p - 1].t));
                            }
                        }
                    }
                }
                // each distance keeps its entries in their order
                assert forall|d: int| at_distance(grown, d) == at_distance(given.subrange(0, i + 1), d) by {
                    let pred = lies_at::<T>(d);
                    lemma_one_at_distance(x, d);
                    Seq::filter_distributes_over_add(low, high, pred);
                    Seq::filter_distributes_over_add(low + seq![x], high, pred);
                    Seq::filter_distributes_over_add(low, seq![x], pred);
                    Seq::filter_distributes_over_add(given.subrange(0, i as int), seq![x], pred);
                    assert(given.subrange(0, i as int).push(x) == given.subrange(0, i as int) + seq![x]);
                    assert(at_distance(head, d) == at_distance(given.subrange(0, i as int), d));
                    if x.t.value() == d {
                        assert forall|k: int| 0 <= k < high.len() implies (#[trigger] high[k]).t.value() != d by {
                            assert(x.t.below(rest[p + k].t));
                        }
                        lemma_none_at_distance(high, d);
                    }
                }
            }
            i = i + 1;
        }
        proof {
            assert(v@.subrange(0, n as int) == v@);
            assert(given.subrange(0, n as int) == given);
        }
        Intersections { v }
    }

    /// The number of intersections, which stand in ascending order.
    pub fn len(&self) -> (r: usize)
        ensures
            r == self@.len(),
            ascending(self@),
    {
        proof {
            use_type_invariant(self);
        }
        self.v.len()
    }

    /// The intersection at place `i`, counted from the nearest.
    pub fn index(&self, i: usize) -> (r: &Intersection<'a, T>)
        requires
            i < self@.len(),
        ensures
            *r == self@[i as int],
    {
        &self.v[i]
    }

    /// The hit: the first intersection that is visible, which is the one with
    /// the lowest distance that is not negative.  None if every intersection
    /// lies behind the origin of the ray.
    pub fn hit(&self) -> (r: Option<&Intersection<'a, T>>)
        ensures
            match r {
                Some(h) => {
                    &&& exists|i: int| first_visible(self@, i) && *h == self@[i]
                    &&& forall|j: int| 0 <= j < self@.len() && (#[trigger] self@[j]).visible() ==> h.t.at_most(self@[j].t)
                },
                None => forall|j: int| 0 <= j < self@.len() ==> !(#[trigger] self@[j]).visible(),
            },
    {
        proof {
            use_type_invariant(self);
        }
        let zero = Scalar::zero();
        let mut i: usize = 0;
        while i < self.v.len()
            invariant
                i <= self.v.len(),
                zero.bits == 0,
                ascending(self.v@),
                forall|j: int| 0 <= j < i ==> !(#[trigger] self.v@[j]).visible(),
            decreases self.v.len() - i,
        {
            if zero.le(self.v[i].t) {
                proof {
                    assert(first_visible(self@, i as int));
                    assert forall|j: int| 0 <= j < self@.len() && (#[trigger] self@[j]).visible() implies self.v@[i as int].t.at_most(self@[j].t) by {
                        if j > i {
                            assert(self.v@[i as int].t.at_most(self.v@[j].t));
                        }
                    }
                }
                return Some(&self.v[i]);
            }
            i = i + 1;
        }
        None
    }
}

} // verus!
