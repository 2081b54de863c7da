use grapher::fx::{coord, fx_from_int, fx_trunc, isqrt, CORNER_LIMIT, SCALE};
use grapher::{
    AddGrapher, CircleGrapher, DistToGrapher, GraphError, Grapher, GridSampler, MandelbrotGrapher,
    TrueGrapher, ZeroGrapher, CELL_LIMIT, RAW_SIZE_LIMIT,
};

#[test]
fn dimensions_match_resolution() {
    let g = ZeroGrapher
        .draw_2d((3, 5), (-SCALE, -SCALE, SCALE, SCALE))
        .unwrap();
    assert_eq!(g.dim(), (3, 5));
}

#[test]
fn zero_resolution_gives_empty_grid() {
    let g = ZeroGrapher
        .draw_2d((0, 4), (-SCALE, -SCALE, SCALE, SCALE))
        .unwrap();
    assert_eq!(g.dim(), (0, 4));
    let g = ZeroGrapher
        .draw_2d((4, 0), (7 * SCALE, 0, 0, 0))
        .unwrap();
    assert_eq!(g.dim(), (4, 0));
}

#[test]
fn zero_grapher_fills_zeros() {
    let g = ZeroGrapher
        .draw_2d((4, 3), (-2 * SCALE, -SCALE, 2 * SCALE, SCALE))
        .unwrap();
    for x in 0..4 {
        for y in 0..3 {
            assert_eq!(g.get(x, y), 0);
        }
    }
}

#[test]
fn true_grapher_fills_ones() {
    let g = TrueGrapher
        .draw_2d((3, 4), (0, 0, 5 * SCALE, 5 * SCALE))
        .unwrap();
    for x in 0..3 {
        for y in 0..4 {
            assert_eq!(g.get(x, y), SCALE);
        }
    }
}

#[test]
fn dist_at_origin_is_zero() {
    assert_eq!(DistToGrapher.apply(&[0, 0]), 0);
}

#[test]
fn dist_three_four_five() {
    assert_eq!(DistToGrapher.apply(&[3 * SCALE, 4 * SCALE]), 5 * SCALE);
    assert_eq!(DistToGrapher.apply(&[-3 * SCALE, 4 * SCALE]), 5 * SCALE);
}

#[test]
fn dist_on_grid_nodes() {
    // A 2 by 2 grid over [0, 6) x [0, 8): node (1, 1) sits at (3, 4).
    let g = DistToGrapher
        .draw_2d((2, 2), (0, 0, 6 * SCALE, 8 * SCALE))
        .unwrap();
    assert_eq!(g.get(0, 0), 0);
    assert_eq!(g.get(1, 1), 5 * SCALE);
}

#[test]
fn add_grapher_sums_coordinates() {
    assert_eq!(AddGrapher.apply(&[3 * SCALE, 4 * SCALE]), 7 * SCALE);
    assert_eq!(AddGrapher.apply(&[-SCALE, SCALE]), 0);
}

#[test]
fn add_grapher_raw_sampling() {
    let g = AddGrapher.draw_2d_raw((3, 3)).unwrap();
    for x in 0..3i64 {
        for y in 0..3i64 {
            assert_eq!(g.get(x as usize, y as usize), (x + y) * SCALE);
        }
    }
}

#[test]
fn raw_sampling_rejects_oversize_axis() {
    let r = AddGrapher.draw_2d_raw((RAW_SIZE_LIMIT + 1, 1));
    assert!(matches!(r, Err(GraphError::ResolutionTooLarge)));
}

#[test]
fn circle_center_and_corner() {
    let c = CircleGrapher::default();
    assert_eq!(c.radius, SCALE);
    // At the disk's center the value is the radius parameter itself.
    assert_eq!(c.apply(&[0, 0]), SCALE);
    // At (1, 1) the squared distance is 2, so the value is 1 - 2 = -1.
    assert_eq!(c.apply(&[SCALE, SCALE]), -SCALE);
}

#[test]
fn circle_on_grid() {
    // A 2 by 2 grid over [-1, 1) x [-1, 1): node (1, 1) sits at (0, 0) and
    // node (0, 0) at the corner (-1, -1).
    let g = CircleGrapher::new(SCALE)
        .draw_2d((2, 2), (-SCALE, -SCALE, SCALE, SCALE))
        .unwrap();
    assert_eq!(g.get(1, 1), SCALE);
    assert_eq!(g.get(0, 0), -SCALE);
}

#[test]
fn mandelbrot_origin_never_escapes() {
    let m = MandelbrotGrapher { iterations: 7 };
    assert_eq!(m.apply(&[0, 0]), 7 * SCALE);
    let m = MandelbrotGrapher { iterations: 0 };
    assert_eq!(m.apply(&[0, 0]), 0);
}

#[test]
fn mandelbrot_far_point_escapes_at_one() {
    let m = MandelbrotGrapher { iterations: 50 };
    assert_eq!(m.apply(&[2 * SCALE, 2 * SCALE]), SCALE);
}

#[test]
fn mandelbrot_grid_sample() {
    let m = MandelbrotGrapher { iterations: 10 };
    let g = m
        .draw_2d((4, 4), (-2 * SCALE, -2 * SCALE, 2 * SCALE, 2 * SCALE))
        .unwrap();
    // Node (0, 0) sits at (-2, -2), far outside: it escapes after the
    // first step, once the iterate has left the origin.
    assert_eq!(g.get(0, 0), SCALE);
    // Node (2, 2) sits at (0, 0), inside: it never escapes.
    assert_eq!(g.get(2, 2), 10 * SCALE);
}

#[test]
fn coord_maps_axis_ends_exactly() {
    assert_eq!(coord(0, 5, -SCALE, SCALE), -SCALE);
    assert_eq!(coord(5, 5, -SCALE, SCALE), SCALE);
    assert_eq!(coord(0, 7, 12345, 67890), 12345);
    assert_eq!(coord(7, 7, 12345, 67890), 67890);
}

#[test]
fn coord_maps_midpoint() {
    assert_eq!(coord(1, 2, 0, 2 * SCALE), SCALE);
    assert_eq!(coord(1, 4, -2 * SCALE, 2 * SCALE), -SCALE);
}

#[test]
fn sampling_twice_is_identical() {
    let m = MandelbrotGrapher { iterations: 12 };
    let size = (6, 5);
    let bounds = (-2 * SCALE, -SCALE, SCALE, SCALE);
    let a = m.draw_2d(size, bounds).unwrap();
    let b = m.draw_2d(size, bounds).unwrap();
    assert_eq!(a.dim(), b.dim());
    for x in 0..size.0 {
        for y in 0..size.1 {
            assert_eq!(a.get(x, y), b.get(x, y));
        }
    }
}

#[test]
fn oversize_resolution_is_rejected() {
    let r = ZeroGrapher.draw_2d((CELL_LIMIT + 1, 1), (0, 0, SCALE, SCALE));
    assert!(matches!(r, Err(GraphError::ResolutionTooLarge)));
    let r = ZeroGrapher.draw_2d((usize::MAX, 2), (0, 0, SCALE, SCALE));
    assert!(matches!(r, Err(GraphError::ResolutionTooLarge)));
}

#[test]
fn out_of_range_domain_is_rejected() {
    let r = ZeroGrapher.draw_2d((2, 2), (CORNER_LIMIT + 1, 0, 0, 0));
    assert!(matches!(r, Err(GraphError::DomainOutOfRange)));
    let r = ZeroGrapher.draw_2d((2, 2), (0, 0, 0, -CORNER_LIMIT - 1));
    assert!(matches!(r, Err(GraphError::DomainOutOfRange)));
}

#[test]
fn inverted_domain_is_accepted() {
    // hi <= lo is accepted numerically: the range is just negative.
    let g = AddGrapher
        .draw_2d((2, 2), (SCALE, SCALE, -SCALE, -SCALE))
        .unwrap();
    assert_eq!(g.get(0, 0), 2 * SCALE);
    assert_eq!(g.get(1, 1), 0);
}

#[test]
fn fx_conversions() {
    assert_eq!(fx_from_int(3), 3 * SCALE);
    assert_eq!(fx_from_int(-2), -2 * SCALE);
    assert_eq!(fx_trunc(3 * SCALE + 1), 3);
    assert_eq!(fx_trunc(-3 * SCALE - 1), -3);
    assert_eq!(fx_trunc(-1), 0);
}

#[test]
fn isqrt_small_and_large() {
    assert_eq!(isqrt(0), 0);
    assert_eq!(isqrt(1), 1);
    assert_eq!(isqrt(24), 4);
    assert_eq!(isqrt(25), 5);
    assert_eq!(isqrt(26), 5);
    assert_eq!(isqrt(u128::MAX), u64::MAX);
}
