use graph_layout::force::{repel, DAMPING, INTERACTION_RADIUS, MAX_PUSH};
use graph_layout::sqrt::isqrt;
use graph_layout::vector::{saturating_sum, Force, Point};
use graph_layout::vertex::Vertex;

#[test]
fn isqrt_of_small_numbers() {
    let expected: [u64; 17] = [0, 1, 1, 1, 2, 2, 2, 2, 2, 3, 3, 3, 3, 3, 3, 3, 4];
    for (n, r) in expected.iter().enumerate() {
        assert_eq!(isqrt(n as u64), *r, "isqrt({})", n);
    }
}

#[test]
fn isqrt_around_squares() {
    assert_eq!(isqrt(24), 4);
    assert_eq!(isqrt(25), 5);
    assert_eq!(isqrt(26), 5);
    assert_eq!(isqrt(14399), 119);
    assert_eq!(isqrt(14400), 120);
    assert_eq!(isqrt(14281), 119);
    assert_eq!(isqrt(1 << 40), 1 << 20);
    assert_eq!(isqrt((1 << 40) - 1), (1 << 20) - 1);
}

#[test]
fn isqrt_of_the_largest_number() {
    assert_eq!(isqrt(u64::MAX), 4294967295);
    assert_eq!(isqrt(4294967295 * 4294967295), 4294967295);
    assert_eq!(isqrt(4294967295 * 4294967295 - 1), 4294967294);
}

#[test]
fn isqrt_is_the_floor_of_the_root() {
    for n in 0u64..20000 {
        let r = isqrt(n);
        assert!(r * r <= n && n < (r + 1) * (r + 1));
    }
}

#[test]
fn saturating_sum_inside_the_range() {
    assert_eq!(saturating_sum(2, 3), 5);
    assert_eq!(saturating_sum(-2, -3), -5);
    assert_eq!(saturating_sum(i64::MAX, i64::MIN), -1);
    assert_eq!(saturating_sum(i64::MAX - 1, 1), i64::MAX);
}

#[test]
fn saturating_sum_at_the_bounds() {
    assert_eq!(saturating_sum(i64::MAX, 1), i64::MAX);
    assert_eq!(saturating_sum(i64::MAX, i64::MAX), i64::MAX);
    assert_eq!(saturating_sum(i64::MIN, -1), i64::MIN);
    assert_eq!(saturating_sum(i64::MIN, i64::MIN), i64::MIN);
}

#[test]
fn point_is_displaced_by_a_force() {
    let p = Point::new(10, -10).displace(Force::new(-3, 4));
    assert_eq!(p, Point { x: 7, y: -6 });
    let q = Point::new(i64::MAX - 1, i64::MIN + 1).displace(Force::new(15, -15));
    assert_eq!(q, Point { x: i64::MAX, y: i64::MIN });
}

#[test]
fn forces_combine() {
    assert_eq!(Force::new(1, 2).combine(Force::new(10, -20)), Force { x: 11, y: -18 });
    assert_eq!(Force::new(i64::MAX, i64::MIN).combine(Force::new(1, -1)), Force {
        x: i64::MAX,
        y: i64::MIN,
    });
}

#[test]
fn the_constants_fit_together() {
    assert_eq!(INTERACTION_RADIUS, 120);
    assert_eq!(DAMPING, 8);
    assert_eq!(MAX_PUSH, 15);
    assert_eq!((INTERACTION_RADIUS + DAMPING - 1) / DAMPING, MAX_PUSH);
}

#[test]
fn repulsion_follows_the_offset() {
    let origin = Point::new(0, 0);
    assert_eq!(repel(Point::new(3, 4), origin, true), Force { x: 9, y: 12 });
    assert_eq!(repel(Point::new(-7, 24), origin, true), Force { x: -4, y: 12 });
    assert_eq!(repel(Point::new(60, 0), origin, true), Force { x: 8, y: 0 });
    assert_eq!(repel(Point::new(0, 100), origin, true), Force { x: 0, y: 3 });
    assert_eq!(repel(Point::new(1, 0), origin, false), Force { x: 15, y: 0 });
    assert_eq!(repel(Point::new(1, 1), origin, false), Force { x: 15, y: 15 });
}

#[test]
fn repulsion_ends_at_the_radius() {
    let origin = Point::new(0, 0);
    assert_eq!(repel(origin, Point::new(119, 0), false), Force { x: -1, y: 0 });
    assert_eq!(repel(origin, Point::new(120, 0), false), Force { x: 0, y: 0 });
    assert_eq!(repel(origin, Point::new(0, -119), false), Force { x: 0, y: 1 });
    assert_eq!(repel(origin, Point::new(84, 85), false), Force { x: -1, y: -1 });
    assert_eq!(repel(origin, Point::new(85, 85), false), Force { x: 0, y: 0 });
    assert_eq!(repel(origin, Point::new(1000, 1000), true), Force { x: 0, y: 0 });
}

#[test]
fn repulsion_far_apart_does_not_overflow() {
    let low = Point::new(i64::MIN, i64::MIN);
    let high = Point::new(i64::MAX, i64::MAX);
    assert_eq!(repel(low, high, false), Force { x: 0, y: 0 });
    assert_eq!(repel(high, low, true), Force { x: 0, y: 0 });
    assert_eq!(repel(high, Point::new(i64::MAX - 3, i64::MAX - 4), true), Force { x: 9, y: 12 });
}

#[test]
fn coincident_points_get_the_largest_push_along_x() {
    let p = Point::new(42, -17);
    assert_eq!(repel(p, p, true), Force { x: 15, y: 0 });
    assert_eq!(repel(p, p, false), Force { x: -15, y: 0 });
}

#[test]
fn relate_on_the_same_spot_is_bounded() {
    let spot = Point::new(7, 7);
    let first = Vertex::new(0, spot);
    let second = Vertex::new(1, spot);
    assert_eq!(first.relate(&second), Force { x: -15, y: 0 });
    assert_eq!(second.relate(&first), Force { x: 15, y: 0 });
    assert_eq!(first.relate(&first), Force { x: 15, y: 0 });
}

#[test]
fn relate_is_antisymmetric() {
    let places = [(0, 0), (3, 4), (-50, 20), (119, 0), (60, -60), (200, 200), (0, 1)];
    for (i, a) in places.iter().enumerate() {
        for (j, b) in places.iter().enumerate() {
            if i == j {
                continue;
            }
            let v = Vertex::new(i, Point::new(a.0, a.1));
            let w = Vertex::new(j, Point::new(b.0, b.1));
            let f = v.relate(&w);
            let g = w.relate(&v);
            assert_eq!((g.x, g.y), (-f.x, -f.y));
        }
    }
}

#[test]
fn relate_is_never_longer_than_the_largest_push() {
    let v = Vertex::new(0, Point::new(0, 0));
    for x in -130i64..=130 {
        for y in -130i64..=130 {
            let f = v.relate(&Vertex::new(1, Point::new(x, y)));
            assert!(f.x.abs() <= MAX_PUSH && f.y.abs() <= MAX_PUSH);
            let inside = x * x + y * y < INTERACTION_RADIUS * INTERACTION_RADIUS;
            assert_eq!(f != Force { x: 0, y: 0 }, inside);
            assert!(f.x * x <= 0 && f.y * y <= 0);
        }
    }
}

#[test]
fn vertex_gathers_and_moves() {
    let mut v = Vertex::new(3, Point::new(10, 20));
    assert_eq!(v.force_accumulator, Force { x: 0, y: 0 });
    v.add_acc(Force::new(5, -6));
    v.add_acc(Force::new(1, 1));
    assert_eq!(v.force_accumulator, Force { x: 6, y: -5 });
    assert_eq!(v.position, Point { x: 10, y: 20 });
    v.update();
    assert_eq!(v.position, Point { x: 16, y: 15 });
    assert_eq!(v.force_accumulator, Force { x: 6, y: -5 });
    assert_eq!(v.id, 3);
}

#[test]
fn default_vertex_rests_at_the_origin() {
    let v = Vertex::default();
    assert_eq!(v, Vertex::new(0, Point::new(0, 0)));
}
