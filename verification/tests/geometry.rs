use pong::collision::{overlaps, rect_from, RectShape};
use pong::components::{Score, Transform2};
use pong::math::{cmul, isqrt, normalize, normalize_dir, Vec2};

#[test]
fn isqrt_small_values() {
    assert_eq!(isqrt(0), 0);
    assert_eq!(isqrt(1), 1);
    assert_eq!(isqrt(2), 1);
    assert_eq!(isqrt(3), 1);
    assert_eq!(isqrt(4), 2);
    assert_eq!(isqrt(99), 9);
    assert_eq!(isqrt(100), 10);
}

#[test]
fn isqrt_large_values() {
    assert_eq!(isqrt(999_999), 999);
    assert_eq!(isqrt(1_000_000), 1000);
    assert_eq!(isqrt(u64::MAX), 4_294_967_295);
}

#[test]
fn normalize_axis_aligned() {
    let r = normalize(Vec2 { x: 1000, y: 0 });
    assert_eq!(r, Vec2 { x: 1000, y: 0 });
    let r = normalize(Vec2 { x: 0, y: -2500 });
    assert_eq!(r, Vec2 { x: 0, y: -1000 });
}

#[test]
fn normalize_pythagorean() {
    let r = normalize(Vec2 { x: 3000, y: 4000 });
    assert_eq!(r, Vec2 { x: 600, y: 800 });
    let r = normalize(Vec2 { x: -3000, y: 4000 });
    assert_eq!(r, Vec2 { x: -600, y: 800 });
}

#[test]
fn normalize_zero_stays_zero() {
    let r = normalize(Vec2 { x: 0, y: 0 });
    assert_eq!(r, Vec2 { x: 0, y: 0 });
}

#[test]
fn normalize_diagonal() {
    let r = normalize(Vec2 { x: 1000, y: 1000 });
    // isqrt(2_000_000) = 1414, and 1_000_000 / 1414 = 707.
    assert_eq!(r, Vec2 { x: 707, y: 707 });
}

#[test]
fn normalize_dir_keeps_short_vectors_unit() {
    // Plain normalization overshoots on short vectors; the direction
    // form scales them up first.
    assert_eq!(normalize(Vec2 { x: 1, y: 1 }), Vec2 { x: 1000, y: 1000 });
    assert_eq!(normalize_dir(Vec2 { x: 1, y: 1 }), Vec2 { x: 707, y: 707 });
    assert_eq!(normalize_dir(Vec2 { x: 100, y: 100 }), Vec2 { x: 707, y: 707 });
    assert_eq!(normalize_dir(Vec2 { x: 3, y: 4 }), Vec2 { x: 600, y: 800 });
    assert_eq!(normalize_dir(Vec2 { x: 0, y: 0 }), Vec2 { x: 0, y: 0 });
    // Long vectors take the plain path.
    assert_eq!(
        normalize_dir(Vec2 { x: 3_000_000, y: 4_000_000 }),
        Vec2 { x: 600, y: 800 }
    );
}

#[test]
fn cmul_quarter_turn() {
    // Multiplying by (0, 1) turns a vector by a quarter.
    let r = cmul(Vec2 { x: 1000, y: 0 }, Vec2 { x: 0, y: 1 });
    assert_eq!(r, Vec2 { x: 0, y: 1000 });
}

#[test]
fn rect_from_halves_size() {
    let t = Transform2 {
        translation: Vec2 { x: 5, y: -7 },
        facing: Vec2 { x: 1000, y: 0 },
    };
    let r = rect_from(&t, &Vec2 { x: 100_000, y: 10_000 });
    assert_eq!(r.center, Vec2 { x: 5, y: -7 });
    assert_eq!(r.half_w, 50_000);
    assert_eq!(r.half_h, 5_000);
}

#[test]
fn overlap_axis_aligned() {
    let a = RectShape {
        center: Vec2 { x: 0, y: 0 },
        facing: Vec2 { x: 1000, y: 0 },
        half_w: 5000,
        half_h: 5000,
    };
    let near = RectShape { center: Vec2 { x: 4000, y: 0 }, ..a };
    let far = RectShape { center: Vec2 { x: 20_000, y: 0 }, ..a };
    assert!(overlaps(&a, &near));
    assert!(!overlaps(&a, &far));
}

#[test]
fn overlap_rotated_paddle() {
    // A 100 by 10 unit paddle turned a quarter spans 10 units in x and
    // 100 units in y.
    let paddle = RectShape {
        center: Vec2 { x: 0, y: 0 },
        facing: Vec2 { x: 0, y: 1000 },
        half_w: 50_000,
        half_h: 5_000,
    };
    let ball_inside = RectShape {
        center: Vec2 { x: 0, y: 40_000 },
        facing: Vec2 { x: 1000, y: 0 },
        half_w: 5_000,
        half_h: 5_000,
    };
    let ball_beyond = RectShape {
        center: Vec2 { x: 0, y: 60_000 },
        ..ball_inside
    };
    let ball_aside = RectShape {
        center: Vec2 { x: 15_000, y: 0 },
        ..ball_inside
    };
    assert!(overlaps(&paddle, &ball_inside));
    assert!(!overlaps(&paddle, &ball_beyond));
    assert!(!overlaps(&paddle, &ball_aside));
}

#[test]
fn score_label_single_digits() {
    assert_eq!(Score { left: 0, right: 0 }.label(), b"0:0".to_vec());
    assert_eq!(Score { left: 3, right: 5 }.label(), b"3:5".to_vec());
}

#[test]
fn score_label_many_digits() {
    assert_eq!(Score { left: 12, right: 345 }.label(), b"12:345".to_vec());
    assert_eq!(Score { left: 10, right: 0 }.label(), b"10:0".to_vec());
}

#[test]
fn overlap_counts_touching_edges() {
    // Two 10 by 10 unit squares whose edges just meet.
    let a = RectShape {
        center: Vec2 { x: 0, y: 0 },
        facing: Vec2 { x: 1000, y: 0 },
        half_w: 5000,
        half_h: 5000,
    };
    let touching = RectShape { center: Vec2 { x: 10_000, y: 0 }, ..a };
    let apart = RectShape { center: Vec2 { x: 10_001, y: 0 }, ..a };
    assert!(overlaps(&a, &touching));
    assert!(!overlaps(&a, &apart));
}
