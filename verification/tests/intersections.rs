use raytracer::distance::{at_least, is_nan_bits, less_than};
use raytracer::intersections::{Intersection, Intersections};

const SPHERE: usize = 0;

fn at(distance: f64, object: usize) -> Intersection {
    Intersection::new(distance.to_bits(), object)
}

#[test]
fn intersections_hit_when_all_intersections_positive() {
    let mut intersections = Intersections::new();
    let intersection_1 = at(1.0, SPHERE);
    let intersection_2 = at(2.0, SPHERE);
    intersections.add(intersection_1);
    intersections.add(intersection_2);
    assert_eq!(intersections.hit().unwrap(), &intersection_1);
}

#[test]
fn intersections_hit_when_some_intersections_negative() {
    let mut intersections = Intersections::new();
    let intersection_1 = at(-1.0, SPHERE);
    let intersection_2 = at(1.0, SPHERE);
    intersections.add(intersection_1);
    intersections.add(intersection_2);
    assert_eq!(intersections.hit().unwrap(), &intersection_2);
}

#[test]
fn intersections_hit_when_all_intersections_negative() {
    let mut intersections = Intersections::new();
    let intersection_1 = at(-2.0, SPHERE);
    let intersection_2 = at(-1.0, SPHERE);
    intersections.add(intersection_1);
    intersections.add(intersection_2);
    assert_eq!(intersections.hit(), None);
}

#[test]
fn intersections_hit_always_lowest_non_negative() {
    let mut intersections = Intersections::new();
    let intersection_1 = at(5.0, SPHERE);
    let intersection_2 = at(7.0, SPHERE);
    let intersection_3 = at(-3.0, SPHERE);
    let intersection_4 = at(2.0, SPHERE);
    intersections.add(intersection_1);
    intersections.add(intersection_2);
    intersections.add(intersection_3);
    intersections.add(intersection_4);
    assert_eq!(intersections.hit().unwrap(), &intersection_4);
}

#[test]
fn finding_n1_and_n2() {
    // three glass spheres with refractive indices 1.5, 2.0 and 2.5
    let refractive_indices = [1.5, 2.0, 2.5];
    let (a, b, c) = (0, 1, 2);
    let mut intersections = Intersections::new();
    intersections.add(at(2.0, a));
    intersections.add(at(2.75, b));
    intersections.add(at(3.25, c));
    intersections.add(at(4.75, b));
    intersections.add(at(5.25, c));
    intersections.add(at(6.00, a));
    let index_of = |side: Option<usize>| side.map_or(1.0, |object| refractive_indices[object]);

    let n1s = [1.0, 1.5, 2.0, 2.5, 2.5, 1.5];
    let n2s = [1.5, 2.0, 2.5, 2.5, 1.5, 1.0];
    for (hit, (n1, n2)) in n1s.iter().zip(n2s.iter()).enumerate() {
        let (before, after) = intersections.refraction_boundary(hit);
        assert_eq!(index_of(before), *n1);
        assert_eq!(index_of(after), *n2);
    }
}

#[test]
fn refraction_boundary_past_the_end_is_empty() {
    let mut intersections = Intersections::new();
    intersections.add(at(1.0, 3));
    assert_eq!(intersections.refraction_boundary(1), (None, None));
    assert_eq!(intersections.refraction_boundary(0), (None, Some(3)));
}

#[test]
fn hit_prefers_the_first_of_equal_distances() {
    let mut intersections = Intersections::new();
    intersections.add(at(-0.0, 1));
    intersections.add(at(0.0, 2));
    assert_eq!(intersections.hit_index(), Some(0));
}

#[test]
fn hit_skips_nan_infinity_and_the_largest_double() {
    let mut intersections = Intersections::new();
    intersections.add(at(f64::NAN, 1));
    intersections.add(at(f64::INFINITY, 2));
    intersections.add(at(f64::MAX, 3));
    assert_eq!(intersections.hit(), None);
    intersections.add(at(1.0e300, 4));
    assert_eq!(intersections.hit_index(), Some(3));
}

#[test]
fn sorting_orders_by_distance_and_keeps_ties_in_order() {
    let mut intersections = Intersections::from_vec(vec![
        at(6.0, 0),
        at(4.5, 1),
        at(-1.0, 2),
        at(4.5, 3),
        at(0.0, 4),
        at(-0.0, 5),
    ]);
    intersections.sort_by_distance();
    let order: Vec<usize> = intersections.intersections.iter().map(|i| i.object).collect();
    assert_eq!(order, vec![2, 4, 5, 1, 3, 0]);
}

#[test]
fn sorting_one_or_no_intersection() {
    let mut none = Intersections::new();
    none.sort_by_distance();
    assert!(none.is_empty());
    let mut one = Intersections::from_vec(vec![at(f64::NAN, 7)]);
    one.sort_by_distance();
    assert_eq!(one.len(), 1);
}

#[test]
fn add_all_appends_in_order() {
    let mut first = Intersections::from_vec(vec![at(1.0, 0)]);
    let second = Intersections::from_vec(vec![at(3.0, 1), at(2.0, 2)]);
    first.add_all(second);
    assert_eq!(first.get(2), at(2.0, 2));
    assert_eq!(first.len(), 3);
}

#[test]
fn empty_intersections_become_none() {
    assert_eq!(Intersections::new().into_option(), None);
    assert!(Intersections::from_vec(vec![at(1.0, 0)]).into_option().is_some());
}

#[test]
fn comparisons_follow_floating_point() {
    let values = [f64::NEG_INFINITY, -3.5, -0.0, 0.0, 1.0e-300, 2.0, f64::MAX, f64::INFINITY, f64::NAN];
    for a in values {
        for b in values {
            assert_eq!(less_than(a.to_bits(), b.to_bits()), a < b, "{} < {}", a, b);
            assert_eq!(at_least(a.to_bits(), b.to_bits()), a >= b, "{} >= {}", a, b);
        }
        assert_eq!(is_nan_bits(a.to_bits()), a.is_nan());
    }
}

#[test]
fn equal_lists_hold_the_same_intersections_in_any_order() {
    let a = Intersections::from_vec(vec![at(1.0, 0), at(2.0, 1)]);
    let b = Intersections::from_vec(vec![at(2.0, 1), at(1.0, 0)]);
    assert_eq!(a, b);
    assert!(a.contains(at(2.0, 1)));
    assert!(!a.contains(at(2.0, 0)));
    assert_ne!(a, Intersections::from_vec(vec![at(1.0, 0)]));
    assert_ne!(a, Intersections::from_vec(vec![at(1.0, 0), at(3.0, 1)]));
}

#[test]
fn hit_of_ordered_intersections_is_the_first_non_negative() {
    let mut intersections = Intersections::from_vec(vec![at(3.0, 0), at(-1.0, 1), at(2.0, 2), at(-4.0, 3)]);
    intersections.sort_by_distance();
    assert_eq!(intersections.hit_index(), Some(2));
    assert_eq!(intersections.hit(), Some(&at(2.0, 2)));
}
