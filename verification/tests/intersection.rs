use sugar_ray::ray::intersection::{Intersection, Intersections};
use sugar_ray::scalar::Scalar;

/// What is intersected in these tests.
#[derive(Debug, PartialEq)]
struct Sphere {
    id: usize,
}

impl Sphere {
    fn new() -> Self {
        Sphere { id: 0 }
    }
}

fn s(x: f64) -> Scalar {
    Scalar::from_bits(x.to_bits())
}

fn f(x: Scalar) -> f64 {
    f64::from_bits(x.to_bits())
}

#[test]
fn the_hit_when_some_intersections_have_negative_t() {
    let sphere = Sphere::new();
    let i1 = Intersection::new(s(-1.0), &sphere);
    let i2 = Intersection::new(s(1.0), &sphere);
    let xs = Intersections::new(vec![i1, i2]);

    assert_eq!(Intersection::new(s(1.0), &sphere), *xs.hit().unwrap());
}

#[test]
fn the_hit_is_always_the_lowest_nonnegative_intersection() {
    let sphere = Sphere::new();
    let i1 = Intersection::new(s(5.0), &sphere);
    let i2 = Intersection::new(s(7.0), &sphere);
    let i3 = Intersection::new(s(-3.0), &sphere);
    let i4 = Intersection::new(s(2.0), &sphere);
    let xs = Intersections::new(vec![i1, i2, i3, i4]);

    assert_eq!(Intersection::new(s(2.0), &sphere), *xs.hit().unwrap());
}

#[test]
fn an_intersection_encapsulates_t_and_object() {
    let sphere = Sphere::new();
    let i = Intersection::new(s(3.5), &sphere);

    assert_eq!(3.5, f(i.t()));
    assert_eq!(sphere, *i.obj());
    assert!(std::ptr::eq(&sphere, i.obj()));
}

#[test]
fn aggregating_intersections_sorts_them() {
    let sphere = Sphere::new();
    let i1 = Intersection::new(s(2.0), &sphere);
    let i2 = Intersection::new(s(1.0), &sphere);

    let xs = Intersections::new(vec![i1, i2]);
    assert_eq!(2, xs.len());
    assert_eq!(1.0, f(xs.index(0).t()));
    assert_eq!(2.0, f(xs.index(1).t()));
}

#[test]
fn the_hit_when_all_intersections_have_positive_t() {
    let sphere = Sphere::new();
    let i1 = Intersection::new(s(1.0), &sphere);
    let i2 = Intersection::new(s(2.0), &sphere);
    let xs = Intersections::new(vec![i1, i2]);

    assert_eq!(Intersection::new(s(1.0), &sphere), *xs.hit().unwrap());
}

#[test]
fn the_hit_when_all_intersections_have_negative_t() {
    let sphere = Sphere::new();
    let i1 = Intersection::new(s(-2.0), &sphere);
    let i2 = Intersection::new(s(-1.0), &sphere);
    let xs = Intersections::new(vec![i1, i2]);

    assert_eq!(true, xs.hit().is_none());
}

#[test]
fn the_hit_of_no_intersections_is_none() {
    let xs: Intersections<'_, Sphere> = Intersections::new(vec![]);
    assert_eq!(0, xs.len());
    assert!(xs.hit().is_none());
}

#[test]
fn a_distance_of_zero_is_visible_whatever_its_sign() {
    let sphere = Sphere::new();
    let xs = Intersections::new(vec![Intersection::new(s(3.0), &sphere), Intersection::new(s(0.0), &sphere)]);
    assert_eq!(0.0, f(xs.hit().unwrap().t()));

    let xs = Intersections::new(vec![Intersection::new(s(3.0), &sphere), Intersection::new(s(-0.0), &sphere)]);
    assert_eq!((-0.0f64).to_bits(), xs.hit().unwrap().t().to_bits());
}

#[test]
fn one_intersection_that_is_no_number_is_never_the_hit() {
    let sphere = Sphere::new();
    let xs = Intersections::new(vec![Intersection::new(s(f64::NAN), &sphere)]);
    assert_eq!(1, xs.len());
    assert!(xs.hit().is_none());
}

#[test]
fn sorting_keeps_every_entry() {
    let sphere = Sphere::new();
    let given = [4.0, -1.5, 9.0, 0.0, -7.25, 4.0, f64::INFINITY, 1e-300, f64::NEG_INFINITY];
    let xs = Intersections::new(given.iter().map(|t| Intersection::new(s(*t), &sphere)).collect());

    let mut expected = given.to_vec();
    expected.sort_by(|a, b| a.partial_cmp(b).unwrap());
    assert_eq!(expected.len(), xs.len());
    for i in 0..expected.len() {
        assert_eq!(expected[i], f(xs.index(i).t()));
    }
    assert_eq!(0.0, f(xs.hit().unwrap().t()));
}

#[test]
fn entries_at_the_same_distance_keep_their_order() {
    let spheres: Vec<Sphere> = (0..6).map(|id| Sphere { id }).collect();
    let distances = [2.0, 1.0, 2.0, 0.0, -0.0, 1.0];
    let given: Vec<Intersection<'_, Sphere>> =
        distances.iter().zip(spheres.iter()).map(|(t, sphere)| Intersection::new(s(*t), sphere)).collect();
    let xs = Intersections::new(given);

    let ids: Vec<usize> = (0..xs.len()).map(|i| xs.index(i).obj().id).collect();
    assert_eq!(vec![3, 4, 1, 5, 0, 2], ids);
}
