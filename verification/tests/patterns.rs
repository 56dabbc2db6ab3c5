use raytracer::patterns::{band_of, runs_backwards, Band};

fn band_at(x: f64) -> Band {
    band_of(x.floor() as i64)
}

#[test]
fn stripes_alternate_in_x() {
    assert_eq!(band_at(0.0), Band::First);
    assert_eq!(band_at(0.9), Band::First);
    assert_eq!(band_at(1.0), Band::Second);
    assert_eq!(band_at(-0.1), Band::Second);
    assert_eq!(band_at(-1.0), Band::Second);
    assert_eq!(band_at(-1.1), Band::First);
}

#[test]
fn checkers_repeat_by_the_sum_of_cells() {
    let checker = |x: f64, y: f64, z: f64| band_of((x.floor() + y.floor() + z.floor()) as i64);
    assert_eq!(checker(0.0, 0.0, 0.0), Band::First);
    assert_eq!(checker(0.99, 0.0, 0.0), Band::First);
    assert_eq!(checker(1.01, 0.0, 0.0), Band::Second);
    assert_eq!(checker(0.0, 1.01, 0.0), Band::Second);
    assert_eq!(checker(0.0, 0.0, 1.01), Band::Second);
    assert_eq!(checker(1.01, 1.01, 0.0), Band::First);
}

#[test]
fn gradient_runs_backwards_in_odd_cells() {
    assert!(!runs_backwards(0));
    assert!(runs_backwards(1));
    assert!(runs_backwards(-1));
    assert!(!runs_backwards(-2));
}
