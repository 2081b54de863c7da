//! Evaluation of scalar functions over regular 2D grids.
//!
//! Scalars are fixed-point numbers: an `i64` holds the value times
//! [`fx::SCALE`], so sixteen bits of fraction are kept. The graphers in this
//! crate map a two-dimensional point to such a scalar, and the sampler
//! evaluates a grapher over every node of a rectangular grid, mapping grid
//! indices linearly onto a domain rectangle.

use vstd::prelude::*;

pub mod fx;
pub mod graph;
pub mod grid;

use crate::fx::{
    coord, spec_coord, fx_mul_val, fx_mul, isqrt, sqrt_floor, lemma_sqrt_floor_bounds,
    lemma_fx_mul_val_bound, lemma_fx_div_scale_bound, CORNER_LIMIT, POINT_LIMIT, SCALE,
};
use crate::grid::{grid_cells, grid_dims, SampleGrid};

verus! {

/// The largest magnitude a Mandelbrot iterate can reach here: points stay
/// within [`POINT_LIMIT`], and one quadratic step from a non-escaped state
/// adds less than twenty times `SCALE`.
const Z_LIMIT: i64 = 0x2_0014_0000;

/// The most cells a sample grid may hold.
pub const CELL_LIMIT: usize = 0x1000_0000;

/// The largest resolution `draw_2d_raw` accepts on each axis: raw grid
/// coordinates scale up by `SCALE` and must stay within [`POINT_LIMIT`].
pub const RAW_SIZE_LIMIT: usize = 0x2_0000;

/// The coordinates of a point, as mathematical integers.
pub open spec fn raws(s: Seq<i64>) -> Seq<int> {
    s.map_values(|v: i64| v as int)
}

/// The two-dimensional point with coordinates `x` and `y`.
pub open spec fn point2(x: int, y: int) -> Seq<int> {
    seq![x, y]
}

/// Why a sampling request was refused.
#[derive(Clone, Copy, PartialEq, Eq, Structural, Debug)]
pub enum GraphError {
    /// The resolution holds more cells than [`CELL_LIMIT`], or an axis of a
    /// raw sampling exceeds [`RAW_SIZE_LIMIT`].
    ResolutionTooLarge,
    /// A domain corner lies beyond [`fx::CORNER_LIMIT`].
    DomainOutOfRange,
}

/// The resolutions the sampler accepts.
pub open spec fn resolution_ok(w: int, h: int) -> bool {
    w * h <= CELL_LIMIT
}

/// The domain rectangles the sampler accepts: every corner coordinate within
/// [`fx::CORNER_LIMIT`]. A rectangle whose upper corner does not exceed its
/// lower one is accepted; the mapping then yields a zero or negative range.
pub open spec fn corners_ok(b: (int, int, int, int)) -> bool {
    &&& -CORNER_LIMIT <= b.0 <= CORNER_LIMIT
    &&& -CORNER_LIMIT <= b.1 <= CORNER_LIMIT
    &&& -CORNER_LIMIT <= b.2 <= CORNER_LIMIT
    &&& -CORNER_LIMIT <= b.3 <= CORNER_LIMIT
}

/// This trait allows one to compute values for two-dimensional targets: a
/// grapher maps a point to a fixed-point scalar, deterministically and
/// without side effects.
pub trait Grapher: Sized {
    /// The points this grapher accepts.
    spec fn pre(&self, n: Seq<int>) -> bool;

    /// The scalar this grapher yields on a point.
    spec fn spec_apply(&self, n: Seq<int>) -> int;

    /// Applies the graph function to coordinate `n`.
    fn apply(&self, n: &[i64]) -> (r: i64)
        requires
            self.pre(raws(n@)),
        ensures
            r as int == self.spec_apply(raws(n@)),
    ;

}

/// Sampling over a grid, available on every grapher: a blanket impl supplies
/// the one implementation.
pub trait GridSampler: Grapher {
    /// Produces a grid of values received from graphing: cell `(x, y)` holds
    /// the grapher's value at the point grid index `(x, y)` maps to within
    /// the domain rectangle `bounds = (xMin, yMin, xMax, yMax)`. A zero
    /// resolution component yields an empty grid, not a failure.
    fn draw_2d(&self, size: (usize, usize), bounds: (i64, i64, i64, i64)) -> (res: Result<
        SampleGrid,
        GraphError,
    >)
        requires
            forall|x: int, y: int|
                -POINT_LIMIT <= x <= POINT_LIMIT && -POINT_LIMIT <= y <= POINT_LIMIT
                    ==> #[trigger] self.pre(point2(x, y)),
        ensures
            (match res {
                Ok(g) => {
                    &&& resolution_ok(size.0 as int, size.1 as int)
                    &&& corners_ok(
                        (bounds.0 as int, bounds.1 as int, bounds.2 as int, bounds.3 as int),
                    )
                    &&& is_sample(
                        grid_cells(&g),
                        grid_dims(&g),
                        self,
                        (size.0 as int, size.1 as int),
                        (bounds.0 as int, bounds.1 as int, bounds.2 as int, bounds.3 as int),
                    )
                },
                Err(GraphError::ResolutionTooLarge) => !resolution_ok(
                    size.0 as int,
                    size.1 as int,
                ),
                Err(GraphError::DomainOutOfRange) => {
                    &&& resolution_ok(size.0 as int, size.1 as int)
                    &&& !corners_ok(
                        (bounds.0 as int, bounds.1 as int, bounds.2 as int, bounds.3 as int),
                    )
                },
            }),
    ;

    /// Produces a grid of values received from graphing raw grid
    /// coordinates: cell `(x, y)` holds the grapher's value at the point
    /// `(x, y)` itself, with no domain remapping. A zero resolution
    /// component yields an empty grid, not a failure.
    fn draw_2d_raw(&self, size: (usize, usize)) -> (res: Result<SampleGrid, GraphError>)
        requires
            forall|x: int, y: int|
                -POINT_LIMIT <= x <= POINT_LIMIT && -POINT_LIMIT <= y <= POINT_LIMIT
                    ==> #[trigger] self.pre(point2(x, y)),
        ensures
            (match res {
                Ok(g) => {
                    &&& size.0 <= RAW_SIZE_LIMIT
                    &&& size.1 <= RAW_SIZE_LIMIT
                    &&& is_raw_sample(
                        grid_cells(&g),
                        grid_dims(&g),
                        self,
                        (size.0 as int, size.1 as int),
                    )
                },
                Err(GraphError::ResolutionTooLarge) => size.0 > RAW_SIZE_LIMIT || size.1
                    > RAW_SIZE_LIMIT,
                Err(GraphError::DomainOutOfRange) => false,
            }),
    ;
}

impl<G: Grapher> GridSampler for G {
    fn draw_2d(&self, size: (usize, usize), bounds: (i64, i64, i64, i64)) -> (res: Result<
        SampleGrid,
        GraphError,
    >) {
        let (w, h) = size;
        let (xa, ya, xb, yb) = bounds;
        match w.checked_mul(h) {
            None => {
                return Err(GraphError::ResolutionTooLarge);
            },
            Some(cells) => {
                if cells > CELL_LIMIT {
                    return Err(GraphError::ResolutionTooLarge);
                }
            },
        }
        if xa < -CORNER_LIMIT || xa > CORNER_LIMIT || ya < -CORNER_LIMIT || ya > CORNER_LIMIT
            || xb < -CORNER_LIMIT || xb > CORNER_LIMIT || yb < -CORNER_LIMIT || yb > CORNER_LIMIT {
            return Err(GraphError::DomainOutOfRange);
        }
        let mut grid = SampleGrid::zeros(w, h);
        let ghost gsize: (int, int) = (w as int, h as int);
        let ghost gb: (int, int, int, int) = (xa as int, ya as int, xb as int, yb as int);
        let mut x: usize = 0;
        while x < w
            invariant
                x <= w,
                w * h <= CELL_LIMIT,
                -CORNER_LIMIT <= xa <= CORNER_LIMIT,
                -CORNER_LIMIT <= ya <= CORNER_LIMIT,
                -CORNER_LIMIT <= xb <= CORNER_LIMIT,
                -CORNER_LIMIT <= yb <= CORNER_LIMIT,
                forall|i: int, j: int|
                    -POINT_LIMIT <= i <= POINT_LIMIT && -POINT_LIMIT <= j <= POINT_LIMIT
                        ==> #[trigger] self.pre(point2(i, j)),
                gsize == (w as int, h as int),
                gb == (xa as int, ya as int, xb as int, yb as int),
                grid_dims(&grid) == gsize,
                grid_cells(&grid).dom() == Set::new(
                    |p: (int, int)| 0 <= p.0 < w && 0 <= p.1 < h,
                ),
                forall|i: int, j: int|
                    0 <= i < x && 0 <= j < h ==> #[trigger] grid_cells(&grid)[(i, j)]
                        == cell_value(self, gsize, gb, i, j) as i64,
            decreases w - x,
        {
            let mut y: usize = 0;
            while y < h
                invariant
                    x < w,
                    y <= h,
                    w * h <= CELL_LIMIT,
                    -CORNER_LIMIT <= xa <= CORNER_LIMIT,
                    -CORNER_LIMIT <= ya <= CORNER_LIMIT,
                    -CORNER_LIMIT <= xb <= CORNER_LIMIT,
                    -CORNER_LIMIT <= yb <= CORNER_LIMIT,
                    forall|i: int, j: int|
                        -POINT_LIMIT <= i <= POINT_LIMIT && -POINT_LIMIT <= j <= POINT_LIMIT
                            ==> #[trigger] self.pre(point2(i, j)),
                    gsize == (w as int, h as int),
                    gb == (xa as int, ya as int, xb as int, yb as int),
                    grid_dims(&grid) == gsize,
                    grid_cells(&grid).dom() == Set::new(
                        |p: (int, int)| 0 <= p.0 < w && 0 <= p.1 < h,
                    ),
                    forall|i: int, j: int|
                        0 <= i < x && 0 <= j < h ==> #[trigger] grid_cells(&grid)[(i, j)]
                            == cell_value(self, gsize, gb, i, j) as i64,
                    forall|j: int|
                        0 <= j < y ==> #[trigger] grid_cells(&grid)[(x as int, j)]
                            == cell_value(self, gsize, gb, x as int, j) as i64,
                decreases h - y,
            {
                let cx: i64 = coord(x, w, xa, xb);
                let cy: i64 = coord(y, h, ya, yb);
                let p: Vec<i64> = vec![cx, cy];
                proof {
                    assert(raws(p@) =~= point2(cx as int, cy as int));
                    assert(self.pre(point2(cx as int, cy as int)));
                }
                let v: i64 = self.apply(p.as_slice());
                grid.set(x, y, v);
                proof {
                    assert(grid_cells(&grid).dom() =~= Set::new(
                        |p: (int, int)| 0 <= p.0 < w && 0 <= p.1 < h,
                    ));
                    assert(grid_cells(&grid)[(x as int, y as int)] == cell_value(
                        self,
                        gsize,
                        gb,
                        x as int,
                        y as int,
                    ) as i64);
                }
                y = y + 1;
            }
            x = x + 1;
        }
        Ok(grid)
    }

    fn draw_2d_raw(&self, size: (usize, usize)) -> (res: Result<SampleGrid, GraphError>) {
        let (w, h) = size;
        if w > RAW_SIZE_LIMIT || h > RAW_SIZE_LIMIT {
            return Err(GraphError::ResolutionTooLarge);
        }
        proof {
            assert(w * h <= 0x1000_0000_0000_0000) by (nonlinear_arith)
                requires
                    0 <= w <= 0x2_0000,
                    0 <= h <= 0x2_0000,
            ;
        }
        let mut grid = SampleGrid::zeros(w, h);
        let ghost gsize: (int, int) = (w as int, h as int);
        let mut x: usize = 0;
        while x < w
            invariant
                x <= w,
                w <= RAW_SIZE_LIMIT,
                h <= RAW_SIZE_LIMIT,
                forall|i: int, j: int|
                    -POINT_LIMIT <= i <= POINT_LIMIT && -POINT_LIMIT <= j <= POINT_LIMIT
                        ==> #[trigger] self.pre(point2(i, j)),
                gsize == (w as int, h as int),
                grid_dims(&grid) == gsize,
                grid_cells(&grid).dom() == Set::new(
                    |p: (int, int)| 0 <= p.0 < w && 0 <= p.1 < h,
                ),
                forall|i: int, j: int|
                    0 <= i < x && 0 <= j < h ==> #[trigger] grid_cells(&grid)[(i, j)]
                        == raw_cell_value(self, i, j) as i64,
            decreases w - x,
        {
            let mut y: usize = 0;
            while y < h
                invariant
                    x < w,
                    y <= h,
                    w <= RAW_SIZE_LIMIT,
                    h <= RAW_SIZE_LIMIT,
                    forall|i: int, j: int|
                        -POINT_LIMIT <= i <= POINT_LIMIT && -POINT_LIMIT <= j <= POINT_LIMIT
                            ==> #[trigger] self.pre(point2(i, j)),
                    gsize == (w as int, h as int),
                    grid_dims(&grid) == gsize,
                    grid_cells(&grid).dom() == Set::new(
                        |p: (int, int)| 0 <= p.0 < w && 0 <= p.1 < h,
                    ),
                    forall|i: int, j: int|
                        0 <= i < x && 0 <= j < h ==> #[trigger] grid_cells(&grid)[(i, j)]
                            == raw_cell_value(self, i, j) as i64,
                    forall|j: int|
                        0 <= j < y ==> #[trigger] grid_cells(&grid)[(x as int, j)]
                            == raw_cell_value(self, x as int, j) as i64,
                decreases h - y,
            {
                let cx: i64 = (x as i64) * SCALE;
                let cy: i64 = (y as i64) * SCALE;
                let p: Vec<i64> = vec![cx, cy];
                proof {
                    assert(raws(p@) =~= point2(cx as int, cy as int));
                    assert(self.pre(point2(cx as int, cy as int)));
                }
                let v: i64 = self.apply(p.as_slice());
                grid.set(x, y, v);
                proof {
                    assert(grid_cells(&grid).dom() =~= Set::new(
                        |p: (int, int)| 0 <= p.0 < w && 0 <= p.1 < h,
                    ));
                }
                y = y + 1;
            }
            x = x + 1;
        }
        Ok(grid)
    }
}

/// The value the sampler owes cell `(x, y)`: the grapher applied to the
/// point the grid index maps to.
pub open spec fn cell_value<G: Grapher>(
    g: &G,
    size: (int, int),
    b: (int, int, int, int),
    x: int,
    y: int,
) -> int {
    g.spec_apply(point2(spec_coord(x, size.0, b.0, b.2), spec_coord(y, size.1, b.1, b.3)))
}

/// The value a raw sampling owes cell `(x, y)`: the grapher applied to the
/// grid index itself, taken as a point.
pub open spec fn raw_cell_value<G: Grapher>(g: &G, x: int, y: int) -> int {
    g.spec_apply(point2(x * 65536, y * 65536))
}

/// The cell map `m` with dimensions `dims` is exactly the sample of `g` at
/// resolution `size` over the domain rectangle `b`.
pub open spec fn is_sample<G: Grapher>(
    m: Map<(int, int), i64>,
    dims: (int, int),
    g: &G,
    size: (int, int),
    b: (int, int, int, int),
) -> bool {
    &&& dims == size
    &&& m.dom() == Set::new(|p: (int, int)| 0 <= p.0 < size.0 && 0 <= p.1 < size.1)
    &&& forall|x: int, y: int|
        0 <= x < size.0 && 0 <= y < size.1 ==> #[trigger] m[(x, y)] == cell_value(
            g,
            size,
            b,
            x,
            y,
        ) as i64
}

/// This grapher produces zero for all inputs.
pub struct ZeroGrapher;

impl Grapher for ZeroGrapher {
    open spec fn pre(&self, n: Seq<int>) -> bool {
        true
    }

    open spec fn spec_apply(&self, n: Seq<int>) -> int {
        0
    }

    fn apply(&self, n: &[i64]) -> i64 {
        0
    }
}

/// This grapher produces one for all inputs.
pub struct TrueGrapher;

impl Grapher for TrueGrapher {
    open spec fn pre(&self, n: Seq<int>) -> bool {
        true
    }

    open spec fn spec_apply(&self, n: Seq<int>) -> int {
        SCALE as int
    }

    fn apply(&self, n: &[i64]) -> i64 {
        SCALE
    }
}

/// This grapher produces the sum of inputs.
pub struct AddGrapher;

impl Grapher for AddGrapher {
    open spec fn pre(&self, n: Seq<int>) -> bool {
        &&& n.len() == 2
        &&& -POINT_LIMIT <= n[0] <= POINT_LIMIT
        &&& -POINT_LIMIT <= n[1] <= POINT_LIMIT
    }

    open spec fn spec_apply(&self, n: Seq<int>) -> int {
        n[0] + n[1]
    }

    fn apply(&self, n: &[i64]) -> i64 {
        n[0] + n[1]
    }
}

/// This grapher produces the distance to origin of the vector formed by the
/// input, rounded down to the nearest fixed-point scalar.
pub struct DistToGrapher;

impl Grapher for DistToGrapher {
    open spec fn pre(&self, n: Seq<int>) -> bool {
        &&& n.len() == 2
        &&& -POINT_LIMIT <= n[0] <= POINT_LIMIT
        &&& -POINT_LIMIT <= n[1] <= POINT_LIMIT
    }

    open spec fn spec_apply(&self, n: Seq<int>) -> int {
        sqrt_floor(n[0] * n[0] + n[1] * n[1])
    }

    fn apply(&self, n: &[i64]) -> i64 {
        let x: i64 = n[0];
        let y: i64 = n[1];
        proof {
            assert(0 <= (x as int) * (x as int) <= 0x4_0000_0000_0000_0000) by (nonlinear_arith)
                requires
                    -0x2_0000_0000 <= x <= 0x2_0000_0000,
            ;
            assert(0 <= (y as int) * (y as int) <= 0x4_0000_0000_0000_0000) by (nonlinear_arith)
                requires
                    -0x2_0000_0000 <= y <= 0x2_0000_0000,
            ;
        }
        let s: i128 = (x as i128) * (x as i128) + (y as i128) * (y as i128);
        let r: u64 = isqrt(s as u128);
        proof {
            lemma_sqrt_floor_bounds(s as int);
            assert(r <= 0x4_0000_0000) by (nonlinear_arith)
                requires
                    0 <= r,
                    (r as int) * (r as int) <= 0x8_0000_0000_0000_0000,
            ;
        }
        r as i64
    }
}

/// This grapher produces `radius` minus the squared distance to the origin:
/// positive inside the disk whose squared radius is `radius`.
pub struct CircleGrapher {
    /// The disk parameter: the scalar the squared distance is taken from.
    pub radius: i64,
}

impl CircleGrapher {
    /// A disk indicator with the given parameter.
    pub fn new(radius: i64) -> (g: CircleGrapher)
        ensures
            g.radius == radius,
    {
        CircleGrapher { radius }
    }
}

impl Default for CircleGrapher {
    /// The disk indicator of radius one.
    fn default() -> (g: CircleGrapher)
        ensures
            g.radius == SCALE,
    {
        CircleGrapher { radius: SCALE }
    }
}

impl Grapher for CircleGrapher {
    open spec fn pre(&self, n: Seq<int>) -> bool {
        &&& n.len() == 2
        &&& -POINT_LIMIT <= n[0] <= POINT_LIMIT
        &&& -POINT_LIMIT <= n[1] <= POINT_LIMIT
        &&& -0x4000_0000_0000_0000 <= self.radius <= 0x4000_0000_0000_0000
    }

    open spec fn spec_apply(&self, n: Seq<int>) -> int {
        self.radius - fx_mul_val(n[0], n[0]) - fx_mul_val(n[1], n[1])
    }

    fn apply(&self, n: &[i64]) -> i64 {
        let x: i64 = n[0];
        let y: i64 = n[1];
        proof {
            lemma_fx_mul_val_bound(x as int, x as int, 0x2_0000_0000, 0x2_0000_0000);
            lemma_fx_mul_val_bound(y as int, y as int, 0x2_0000_0000, 0x2_0000_0000);
        }
        let xx: i64 = fx_mul(x, x);
        let yy: i64 = fx_mul(y, y);
        self.radius - xx - yy
    }
}

/// The squared magnitude of the iterate `(zx, zy)`.
pub open spec fn mandel_norm(zx: int, zy: int) -> int {
    fx_mul_val(zx, zx) + fx_mul_val(zy, zy)
}

/// The real part of `z * z + c`.
pub open spec fn mandel_next_x(zx: int, zy: int, cx: int) -> int {
    fx_mul_val(zx, zx) - fx_mul_val(zy, zy) + cx
}

/// The imaginary part of `z * z + c`.
pub open spec fn mandel_next_y(zx: int, zy: int, cy: int) -> int {
    2 * fx_mul_val(zx, zy) + cy
}

/// The number of quadratic steps `z = z * z + c` taken from `(zx, zy)`
/// before the squared magnitude exceeds four, stopping after `fuel` steps.
pub open spec fn mandel_steps(cx: int, cy: int, zx: int, zy: int, fuel: nat) -> nat
    decreases fuel,
{
    if fuel == 0 {
        0
    } else if mandel_norm(zx, zy) > 4 * 65536 {
        0
    } else {
        (1 + mandel_steps(
            cx,
            cy,
            mandel_next_x(zx, zy, cx),
            mandel_next_y(zx, zy, cy),
            (fuel - 1) as nat,
        )) as nat
    }
}

/// This grapher produces the value of the corresponding point in the
/// mandelbrot set: the escape step count, as a fixed-point scalar.
pub struct MandelbrotGrapher {
    /// How many iterations to attempt before declaring no escape.
    pub iterations: usize,
}

impl Grapher for MandelbrotGrapher {
    open spec fn pre(&self, n: Seq<int>) -> bool {
        &&& n.len() == 2
        &&& -POINT_LIMIT <= n[0] <= POINT_LIMIT
        &&& -POINT_LIMIT <= n[1] <= POINT_LIMIT
        &&& self.iterations <= 0x7fff_ffff
    }

    open spec fn spec_apply(&self, n: Seq<int>) -> int {
        65536 * (mandel_steps(n[0], n[1], 0, 0, self.iterations as nat) as int)
    }

    #[verifier::loop_isolation(false)]
    fn apply(&self, n: &[i64]) -> i64 {
        let cx: i64 = n[0];
        let cy: i64 = n[1];
        let iters: usize = self.iterations;
        let mut zx: i64 = 0;
        let mut zy: i64 = 0;
        let mut i: usize = 0;
        while i < iters
            invariant
                i <= iters,
                iters <= 0x7fff_ffff,
                -POINT_LIMIT <= cx <= POINT_LIMIT,
                -POINT_LIMIT <= cy <= POINT_LIMIT,
                -Z_LIMIT <= zx <= Z_LIMIT,
                -Z_LIMIT <= zy <= Z_LIMIT,
                mandel_steps(cx as int, cy as int, 0, 0, iters as nat) == i + mandel_steps(
                    cx as int,
                    cy as int,
                    zx as int,
                    zy as int,
                    (iters - i) as nat,
                ),
            decreases iters - i,
        {
            proof {
                lemma_fx_mul_val_bound(zx as int, zx as int, Z_LIMIT as int, Z_LIMIT as int);
                lemma_fx_mul_val_bound(zy as int, zy as int, Z_LIMIT as int, Z_LIMIT as int);
                lemma_fx_mul_val_bound(zx as int, zy as int, Z_LIMIT as int, Z_LIMIT as int);
                assert(fx_mul_val(zx as int, zx as int) >= 0) by {
                    assert((zx as int) * (zx as int) >= 0) by (nonlinear_arith);
                    lemma_fx_div_scale_bound(
                        -((zx as int) * (zx as int)),
                        (zx as int) * (zx as int),
                    );
                }
                assert(fx_mul_val(zy as int, zy as int) >= 0) by {
                    assert((zy as int) * (zy as int) >= 0) by (nonlinear_arith);
                    lemma_fx_div_scale_bound(
                        -((zy as int) * (zy as int)),
                        (zy as int) * (zy as int),
                    );
                }
            }
            let xx: i64 = fx_mul(zx, zx);
            let yy: i64 = fx_mul(zy, zy);
            let norm: i64 = xx + yy;
            if norm > 4 * SCALE {
                proof {
                    assert(raws(n@)[0] == cx as int && raws(n@)[1] == cy as int);
                    assert(mandel_steps(
                        cx as int,
                        cy as int,
                        zx as int,
                        zy as int,
                        (iters - i) as nat,
                    ) == 0);
                }
                return (i as i64) * SCALE;
            }
            proof {
                assert(zx * zx < 5 * 65536 * 65536 && zy * zy < 5 * 65536 * 65536) by {
                    vstd::arithmetic::div_mod::lemma_fundamental_div_mod(zx * zx, 65536);
                    vstd::arithmetic::div_mod::lemma_fundamental_div_mod(zy * zy, 65536);
                }
                assert(-196608 <= zx <= 196608) by (nonlinear_arith)
                    requires
                        (zx as int) * (zx as int) < 5 * 65536 * 65536,
                ;
                assert(-196608 <= zy <= 196608) by (nonlinear_arith)
                    requires
                        (zy as int) * (zy as int) < 5 * 65536 * 65536,
                ;
                lemma_fx_mul_val_bound(zx as int, zx as int, 196608, 196608);
                lemma_fx_mul_val_bound(zy as int, zy as int, 196608, 196608);
                lemma_fx_mul_val_bound(zx as int, zy as int, 196608, 196608);
            }
            let sxx: i64 = fx_mul(zx, zx);
            let syy: i64 = fx_mul(zy, zy);
            let sxy: i64 = fx_mul(zx, zy);
            let nzx: i64 = sxx - syy + cx;
            let nzy: i64 = 2 * sxy + cy;
            proof {
                assert(mandel_steps(cx as int, cy as int, zx as int, zy as int, (iters - i) as nat)
                    == 1 + mandel_steps(
                    cx as int,
                    cy as int,
                    nzx as int,
                    nzy as int,
                    (iters - i - 1) as nat,
                ));
            }
            zx = nzx;
            zy = nzy;
            i = i + 1;
        }
        (iters as i64) * SCALE
    }
}

/// The cell map `m` with dimensions `dims` is exactly the raw sample of `g`
/// at resolution `size`.
pub open spec fn is_raw_sample<G: Grapher>(
    m: Map<(int, int), i64>,
    dims: (int, int),
    g: &G,
    size: (int, int),
) -> bool {
    &&& dims == size
    &&& m.dom() == Set::new(|p: (int, int)| 0 <= p.0 < size.0 && 0 <= p.1 < size.1)
    &&& forall|x: int, y: int|
        0 <= x < size.0 && 0 <= y < size.1 ==> #[trigger] m[(x, y)] == raw_cell_value(
            g,
            x,
            y,
        ) as i64
}

/// Sampling the constant-zero grapher fills every cell with zero, for any
/// resolution and domain.
pub proof fn lemma_zero_sample(
    m: Map<(int, int), i64>,
    dims: (int, int),
    g: &ZeroGrapher,
    size: (int, int),
    b: (int, int, int, int),
)
    requires
        is_sample(m, dims, g, size, b),
    ensures
        forall|x: int, y: int|
            0 <= x < size.0 && 0 <= y < size.1 ==> #[trigger] m[(x, y)] == 0i64,
{
}

/// Sampling the constant-one grapher fills every cell with one, for any
/// resolution and domain.
pub proof fn lemma_true_sample(
    m: Map<(int, int), i64>,
    dims: (int, int),
    g: &TrueGrapher,
    size: (int, int),
    b: (int, int, int, int),
)
    requires
        is_sample(m, dims, g, size, b),
    ensures
        forall|x: int, y: int|
            0 <= x < size.0 && 0 <= y < size.1 ==> #[trigger] m[(x, y)] == 65536i64,
{
}

/// Iterating from the origin with the origin as constant never escapes:
/// every allowed step is taken.
pub proof fn lemma_mandel_origin(fuel: nat)
    ensures
        mandel_steps(0, 0, 0, 0, fuel) == fuel,
    decreases fuel,
{
    if fuel > 0 {
        assert(mandel_norm(0, 0) == 0);
        assert(mandel_next_x(0, 0, 0) == 0);
        assert(mandel_next_y(0, 0, 0) == 0);
        lemma_mandel_origin((fuel - 1) as nat);
    }
}

/// The Mandelbrot grapher at the origin returns exactly its iteration
/// count, as a scalar.
pub proof fn lemma_mandelbrot_at_origin(g: &MandelbrotGrapher)
    ensures
        g.spec_apply(point2(0, 0)) == 65536 * (g.iterations as int),
{
    lemma_mandel_origin(g.iterations as nat);
    assert(point2(0, 0)[0] == 0 && point2(0, 0)[1] == 0);
}

/// Sampling is deterministic: two grids drawn from the same grapher at the
/// same resolution over the same domain hold exactly the same cells.
pub proof fn lemma_sample_deterministic<G: Grapher>(
    m1: Map<(int, int), i64>,
    d1: (int, int),
    m2: Map<(int, int), i64>,
    d2: (int, int),
    g: &G,
    size: (int, int),
    b: (int, int, int, int),
)
    requires
        is_sample(m1, d1, g, size, b),
        is_sample(m2, d2, g, size, b),
    ensures
        d1 == d2,
        m1 == m2,
{
    assert forall|p: (int, int)| #[trigger] m1.dom().contains(p) implies m1[p] == m2[p] by {
        assert(0 <= p.0 < size.0 && 0 <= p.1 < size.1);
        assert(m1[(p.0, p.1)] == cell_value(g, size, b, p.0, p.1) as i64);
        assert(m2[(p.0, p.1)] == cell_value(g, size, b, p.0, p.1) as i64);
    }
    assert(m1 =~= m2);
}

} // verus!
