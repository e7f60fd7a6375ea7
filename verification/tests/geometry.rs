use rts_core::geometry::{Vec3Fx, clamp_coord, is_between_two_values, isqrt, within_epsilon};
use rts_core::COORD_LIMIT;

#[test]
fn between_is_strict_and_order_independent() {
    assert!(is_between_two_values(5, 0, 10));
    assert!(is_between_two_values(5, 10, 0));
    assert!(!is_between_two_values(0, 0, 10));
    assert!(!is_between_two_values(10, 0, 10));
    assert!(!is_between_two_values(-1, 0, 10));
    assert!(!is_between_two_values(5, 5, 5));
}

#[test]
fn between_symmetry_on_samples() {
    for x in [-3i64, 0, 2, 7, 11] {
        for a in [-2i64, 0, 4, 10] {
            for b in [-5i64, 1, 6, 10] {
                assert_eq!(
                    is_between_two_values(x, a, b),
                    is_between_two_values(x, b, a)
                );
            }
        }
    }
}

#[test]
fn isqrt_exact_values() {
    assert_eq!(isqrt(0), 0);
    assert_eq!(isqrt(1), 1);
    assert_eq!(isqrt(3), 1);
    assert_eq!(isqrt(4), 2);
    assert_eq!(isqrt(999_999), 999);
    assert_eq!(isqrt(1_000_000), 1000);
    assert_eq!(isqrt(2_000_000), 1414);
    assert_eq!(isqrt(u64::MAX), 0xFFFF_FFFF);
}

#[test]
fn clamp_keeps_world_coordinates() {
    assert_eq!(clamp_coord(0), 0);
    assert_eq!(clamp_coord(COORD_LIMIT), COORD_LIMIT);
    assert_eq!(clamp_coord(COORD_LIMIT + 1), COORD_LIMIT);
    assert_eq!(clamp_coord(-COORD_LIMIT - 5), -COORD_LIMIT);
}

#[test]
fn epsilon_test_matches_squared_distance() {
    let a = Vec3Fx::new(0, 0, 0);
    let near = Vec3Fx::new(60, 0, 60);
    let far = Vec3Fx::new(80, 0, 60);
    // |(60, 0, 60)|^2 = 7200 < 10000, |(80, 0, 60)|^2 = 10000
    assert!(within_epsilon(&a, &near, 100));
    assert!(!within_epsilon(&a, &far, 100));
    let vertical = Vec3Fx::new(0, 100, 0);
    assert!(!within_epsilon(&a, &vertical, 100));
}
