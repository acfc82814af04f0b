use vstd::prelude::*;
use vstd::arithmetic::div_mod::{
    lemma_div_denominator, lemma_div_is_ordered, lemma_div_multiples_vanish,
    lemma_div_multiples_vanish_quotient, lemma_div_nonincreasing, lemma_div_of0,
    lemma_div_pos_is_pos, lemma_fundamental_div_mod, lemma_hoist_over_denominator,
    lemma_mod_division_less_than_divisor,
};

verus! {

/// Number of arcs the sampler divides a curve into; a sampled curve stores
/// one more point than that.
pub const BEZIER_SAMPLE_RATE: usize = 10;

/// Bound on control-point coordinates, in milli units: keeps the cubic
/// Bernstein blend inside `i64`.
pub const BEZIER_COORD_LIMIT: i64 = 1_000_000_000;

/// Bound on the arc-length offsets the sampler accepts; far beyond any total
/// arc length the coordinate bound allows, so extrapolation past the curve's
/// end stays available.
pub const BEZIER_OFFSET_LIMIT: u64 = 1_000_000_000_000;

/// One cubic Bezier control point, in milli units.
#[derive(Debug, Copy, Clone, PartialEq, Eq, Structural)]
pub struct BezierControlPoint {
    pub x: i64,
    pub y: i64,
}

/// Whether both coordinates lie within the sampler's fixed-point bound.
pub open spec fn point_in_bounds(p: BezierControlPoint) -> bool {
    &&& -BEZIER_COORD_LIMIT <= p.x <= BEZIER_COORD_LIMIT
    &&& -BEZIER_COORD_LIMIT <= p.y <= BEZIER_COORD_LIMIT
}

/// The floor of the square root, defined by counting upward.
pub open spec fn sqrt_floor(n: nat) -> nat
    decreases n,
{
    if n == 0 {
        0
    } else {
        let r = sqrt_floor((n - 1) as nat);
        if (r + 1) * (r + 1) <= n {
            r + 1
        } else {
            r
        }
    }
}

/// `sqrt_floor` is the unique integer whose square brackets its argument.
pub proof fn lemma_sqrt_floor_bounds(n: nat)
    ensures
        sqrt_floor(n) * sqrt_floor(n) <= n,
        n < (sqrt_floor(n) + 1) * (sqrt_floor(n) + 1),
    decreases n,
{
    if n > 0 {
        lemma_sqrt_floor_bounds((n - 1) as nat);
        let r0 = sqrt_floor((n - 1) as nat);
        let s = sqrt_floor(n);
        if (r0 + 1) * (r0 + 1) <= n {
            assert(s == r0 + 1);
            assert(n <= (r0 + 1) * (r0 + 1));
            assert(n < (r0 + 2) * (r0 + 2)) by (nonlinear_arith)
                requires
                    n <= (r0 + 1) * (r0 + 1),
                    r0 >= 0,
            ;
            assert(s * s <= n);
            assert(n < (s + 1) * (s + 1));
        } else {
            assert(s == r0);
            assert(s * s <= n);
            assert(n < (s + 1) * (s + 1));
        }
    } else {
        assert(n == 0);
        assert(sqrt_floor(0) == 0);
        assert(sqrt_floor(n) * sqrt_floor(n) == 0);
        assert((sqrt_floor(n) + 1) * (sqrt_floor(n) + 1) == 1) by (nonlinear_arith)
            requires
                sqrt_floor(n) == 0,
        ;
    }
}

/// Any integer whose square brackets `n` is `sqrt_floor(n)`.
pub proof fn lemma_sqrt_floor_unique(n: nat, r: nat)
    requires
        r * r <= n,
        n < (r + 1) * (r + 1),
    ensures
        r == sqrt_floor(n),
{
    lemma_sqrt_floor_bounds(n);
    let s = sqrt_floor(n);
    assert(r == s) by (nonlinear_arith)
        requires
            r * r <= n,
            n < (r + 1) * (r + 1),
            s * s <= n,
            n < (s + 1) * (s + 1),
            r >= 0,
            s >= 0,
    ;
}

/// The floor of the square root, by binary search.
pub fn isqrt(n: u64) -> (r: u64)
    ensures
        r == sqrt_floor(n as nat),
{
    let mut lo: u64 = 0;
    let mut hi: u64 = 4_294_967_296;
    proof {
        assert((4_294_967_296int) * (4_294_967_296int) > u64::MAX) by (nonlinear_arith);
    }
    while lo + 1 < hi
        invariant
            lo < hi <= 4_294_967_296,
            (lo as int) * (lo as int) <= n as int,
            (n as int) < (hi as int) * (hi as int),
        decreases hi - lo,
    {
        let mid = lo + (hi - lo) / 2;
        proof {
            assert(lo < mid < hi);
            assert((mid as int) * (mid as int) <= (4_294_967_295int) * (4_294_967_295int))
                by (nonlinear_arith)
                requires
                    0 <= mid <= 4_294_967_295int,
            ;
            assert((4_294_967_295int) * (4_294_967_295int) <= u64::MAX) by (nonlinear_arith);
        }
        if mid * mid <= n {
            lo = mid;
        } else {
            hi = mid;
        }
    }
    proof {
        lemma_sqrt_floor_unique(n as nat, lo as nat);
    }
    lo
}

/// The distance of two points, rounded down to whole milli units.
pub open spec fn dist_spec(a: BezierControlPoint, b: BezierControlPoint) -> nat {
    sqrt_floor(((b.x - a.x) * (b.x - a.x) + (b.y - a.y) * (b.y - a.y)) as nat)
}

/// Distances between in-bounds points stay below three units of a billion
/// milli.
pub proof fn lemma_dist_bound(a: BezierControlPoint, b: BezierControlPoint)
    requires
        point_in_bounds(a),
        point_in_bounds(b),
    ensures
        dist_spec(a, b) <= 3_000_000_000,
{
    let dx = b.x - a.x;
    let dy = b.y - a.y;
    let sq = dx * dx + dy * dy;
    assert(0 <= sq <= 8_000_000_000_000_000_000) by (nonlinear_arith)
        requires
            sq == dx * dx + dy * dy,
            -2_000_000_000 <= dx <= 2_000_000_000,
            -2_000_000_000 <= dy <= 2_000_000_000,
    ;
    lemma_sqrt_floor_bounds(sq as nat);
    let r = sqrt_floor(sq as nat);
    assert(r <= 3_000_000_000) by (nonlinear_arith)
        requires
            (r as int) * (r as int) <= 8_000_000_000_000_000_000,
            r >= 0,
    ;
}

impl BezierControlPoint {
    /// Euclidean distance of two points, rounded down to whole milli units.
    pub fn distance(&self, other: &Self) -> (r: u64)
        requires
            point_in_bounds(*self),
            point_in_bounds(*other),
        ensures
            r == dist_spec(*self, *other),
            r <= 3_000_000_000,
    {
        let dx = other.x - self.x;
        let dy = other.y - self.y;
        proof {
            assert(dx * dx + dy * dy <= 8_000_000_000_000_000_000 && 0 <= dx * dx && 0 <= dy * dy)
                by (nonlinear_arith)
                requires
                    -2_000_000_000 <= dx <= 2_000_000_000,
                    -2_000_000_000 <= dy <= 2_000_000_000,
            ;
            lemma_dist_bound(*self, *other);
        }
        let sq = (dx * dx + dy * dy) as u64;
        isqrt(sq)
    }
}

/// Truncating division by a billion: the final scaling step of the milli
/// fixed-point Bernstein blend, rounding toward zero.
pub open spec fn div_billion(p: int) -> int {
    if p >= 0 {
        p / 1_000_000_000
    } else {
        -((-p) / 1_000_000_000)
    }
}

/// Divides by a billion rounding toward zero.
fn div_billion_exec(p: i64) -> (r: i64)
    requires
        p > i64::MIN,
    ensures
        r == div_billion(p as int),
{
    if p >= 0 {
        ((p as u64) / 1_000_000_000) as i64
    } else {
        let q = (((-p) as u64) / 1_000_000_000) as i64;
        -q
    }
}

/// The numerator of the cubic Bernstein blend at milli parameter `t`: the
/// blended coordinate times a billion.
pub open spec fn bezier_num(x0: int, x1: int, x2: int, x3: int, t: int) -> int {
    let om = 1000 - t;
    let om2 = om * om;
    let om3 = om2 * om;
    let t2 = t * t;
    let t3 = t2 * t;
    om3 * x0 + 3 * om2 * t * x1 + 3 * om * t2 * x2 + t3 * x3
}

/// The point of the cubic Bezier at milli parameter `t` (0 = start,
/// 1000 = end), each coordinate rounded toward zero.
pub open spec fn cubic_point_spec(curve: Seq<BezierControlPoint>, t: int) -> BezierControlPoint {
    BezierControlPoint {
        x: div_billion(bezier_num(curve[0].x as int, curve[1].x as int, curve[2].x as int, curve[3].x as int, t)) as i64,
        y: div_billion(bezier_num(curve[0].y as int, curve[1].y as int, curve[2].y as int, curve[3].y as int, t)) as i64,
    }
}

/// The Bernstein coefficients at any milli parameter sum to exactly a
/// billion, so the numerator stays within a billion times the coordinate
/// bound and scaling it back down lands inside the coordinate bound.
proof fn lemma_bezier_num_bounds(x0: int, x1: int, x2: int, x3: int, t: int)
    requires
        0 <= t <= 1000,
        -BEZIER_COORD_LIMIT <= x0 <= BEZIER_COORD_LIMIT,
        -BEZIER_COORD_LIMIT <= x1 <= BEZIER_COORD_LIMIT,
        -BEZIER_COORD_LIMIT <= x2 <= BEZIER_COORD_LIMIT,
        -BEZIER_COORD_LIMIT <= x3 <= BEZIER_COORD_LIMIT,
    ensures
        -1_000_000_000_000_000_000 <= bezier_num(x0, x1, x2, x3, t) <= 1_000_000_000_000_000_000,
        -BEZIER_COORD_LIMIT <= div_billion(bezier_num(x0, x1, x2, x3, t)) <= BEZIER_COORD_LIMIT,
{
    let om = 1000 - t;
    let om2 = om * om;
    let om3 = om2 * om;
    let t2 = t * t;
    let t3 = t2 * t;
    let c1 = 3 * om2 * t;
    let c2 = 3 * om * t2;
    assert(om3 + c1 + c2 + t3 == 1_000_000_000 && 0 <= om3 && 0 <= c1 && 0 <= c2 && 0 <= t3)
        by (nonlinear_arith)
        requires
            0 <= t <= 1000,
            om == 1000 - t,
            om2 == om * om,
            om3 == om2 * om,
            t2 == t * t,
            t3 == t2 * t,
            c1 == 3 * om2 * t,
            c2 == 3 * om * t2,
    ;
    assert(-(om3 * 1_000_000_000) <= om3 * x0 <= om3 * 1_000_000_000) by (nonlinear_arith)
        requires
            0 <= om3,
            -1_000_000_000 <= x0 <= 1_000_000_000,
    ;
    assert(-(c1 * 1_000_000_000) <= c1 * x1 <= c1 * 1_000_000_000) by (nonlinear_arith)
        requires
            0 <= c1,
            -1_000_000_000 <= x1 <= 1_000_000_000,
    ;
    assert(-(c2 * 1_000_000_000) <= c2 * x2 <= c2 * 1_000_000_000) by (nonlinear_arith)
        requires
            0 <= c2,
            -1_000_000_000 <= x2 <= 1_000_000_000,
    ;
    assert(-(t3 * 1_000_000_000) <= t3 * x3 <= t3 * 1_000_000_000) by (nonlinear_arith)
        requires
            0 <= t3,
            -1_000_000_000 <= x3 <= 1_000_000_000,
    ;
    assert(om3 * 1_000_000_000 + c1 * 1_000_000_000 + c2 * 1_000_000_000 + t3 * 1_000_000_000 == (
    om3 + c1 + c2 + t3) * 1_000_000_000) by (nonlinear_arith);
    assert(c1 * x1 == 3 * om2 * t * x1) by (nonlinear_arith)
        requires
            c1 == 3 * om2 * t,
    ;
    assert(c2 * x2 == 3 * om * t2 * x2) by (nonlinear_arith)
        requires
            c2 == 3 * om * t2,
    ;
    let p = bezier_num(x0, x1, x2, x3, t);
    assert(-1_000_000_000_000_000_000 <= p <= 1_000_000_000_000_000_000);
    lemma_div_billion_in_bounds(p);
}

/// Dividing a value of at most a billion billions by a billion, toward zero,
/// lands within plus or minus a billion.
proof fn lemma_div_billion_in_bounds(p: int)
    requires
        -1_000_000_000_000_000_000 <= p <= 1_000_000_000_000_000_000,
    ensures
        -BEZIER_COORD_LIMIT <= div_billion(p) <= BEZIER_COORD_LIMIT,
{
    assert((1_000_000_000int) * 1_000_000_000 == 1_000_000_000_000_000_000) by (nonlinear_arith);
    lemma_div_multiples_vanish(1_000_000_000, 1_000_000_000);
    if p >= 0 {
        lemma_div_is_ordered(p, 1_000_000_000_000_000_000, 1_000_000_000);
        lemma_div_pos_is_pos(p, 1_000_000_000);
    } else {
        lemma_div_is_ordered(-p, 1_000_000_000_000_000_000, 1_000_000_000);
        lemma_div_pos_is_pos(-p, 1_000_000_000);
    }
}

/// The cubic Bernstein blend of the 4 control points (start, handle, handle,
/// end) at milli parameter `t`: the point on the curve, rounded toward zero.
pub fn cubic_interpolate_bezier(curve: &[BezierControlPoint; 4], t: u64) -> (r: BezierControlPoint)
    requires
        t <= 1000,
        forall|i: int| 0 <= i < 4 ==> point_in_bounds(#[trigger] curve@[i]),
    ensures
        r == cubic_point_spec(curve@, t as int),
        point_in_bounds(r),
{
    let tt = t as i64;
    let om: i64 = 1000 - tt;
    proof {
        lemma_bezier_num_bounds(
            curve@[0].x as int,
            curve@[1].x as int,
            curve@[2].x as int,
            curve@[3].x as int,
            t as int,
        );
        lemma_bezier_num_bounds(
            curve@[0].y as int,
            curve@[1].y as int,
            curve@[2].y as int,
            curve@[3].y as int,
            t as int,
        );
        let omi = 1000 - (t as int);
        assert(0 <= omi * omi <= 1_000_000 && 0 <= (omi * omi) * omi <= 1_000_000_000 && 0 <= (t
            as int) * (t as int) <= 1_000_000 && 0 <= ((t as int) * (t as int)) * (t as int)
            <= 1_000_000_000) by (nonlinear_arith)
            requires
                0 <= t <= 1000,
                omi == 1000 - (t as int),
        ;
    }
    let om2 = om * om;
    let om3 = om2 * om;
    let t2 = tt * tt;
    let t3 = t2 * tt;
    proof {
        let omi = 1000 - (t as int);
        assert(0 <= 3 * (omi * omi) * (t as int) <= 3_000_000_000 && 0 <= 3 * omi * ((t as int) * (
        t as int)) <= 3_000_000_000) by (nonlinear_arith)
            requires
                0 <= t <= 1000,
                omi == 1000 - (t as int),
        ;
        assert(-1_000_000_000_000_000_000 <= om3 * curve@[0].x <= 1_000_000_000_000_000_000
            && -1_000_000_000_000_000_000 <= om3 * curve@[0].y <= 1_000_000_000_000_000_000
            && -1_000_000_000_000_000_000 <= t3 * curve@[3].x <= 1_000_000_000_000_000_000
            && -1_000_000_000_000_000_000 <= t3 * curve@[3].y <= 1_000_000_000_000_000_000)
            by (nonlinear_arith)
            requires
                0 <= om3 <= 1_000_000_000,
                0 <= t3 <= 1_000_000_000,
                point_in_bounds(curve@[0]),
                point_in_bounds(curve@[3]),
        ;
        assert(-3_000_000_000_000_000_000 <= 3 * om2 * tt * curve@[1].x
            <= 3_000_000_000_000_000_000 && -3_000_000_000_000_000_000 <= 3 * om2 * tt
            * curve@[1].y <= 3_000_000_000_000_000_000 && -3_000_000_000_000_000_000 <= 3 * om * t2
            * curve@[2].x <= 3_000_000_000_000_000_000 && -3_000_000_000_000_000_000 <= 3 * om * t2
            * curve@[2].y <= 3_000_000_000_000_000_000) by (nonlinear_arith)
            requires
                0 <= 3 * om2 * tt <= 3_000_000_000,
                0 <= 3 * om * t2 <= 3_000_000_000,
                point_in_bounds(curve@[1]),
                point_in_bounds(curve@[2]),
        ;
    }
    let num_x = om3 * curve[0].x + 3 * om2 * tt * curve[1].x + 3 * om * t2 * curve[2].x + t3
        * curve[3].x;
    let num_y = om3 * curve[0].y + 3 * om2 * tt * curve[1].y + 3 * om * t2 * curve[2].y + t3
        * curve[3].y;
    let x = div_billion_exec(num_x);
    let y = div_billion_exec(num_y);
    BezierControlPoint { x, y }
}


/// `cubic_point_spec` at parameter 0 is exactly the curve's start point.
pub proof fn lemma_cubic_point_at_0(curve: Seq<BezierControlPoint>)
    requires
        curve.len() == 4,
        forall|i: int| 0 <= i < 4 ==> point_in_bounds(#[trigger] curve[i]),
    ensures
        cubic_point_spec(curve, 0) == curve[0],
{
    lemma_scaled_by_billion_divides_back(curve[0].x as int);
    lemma_scaled_by_billion_divides_back(curve[0].y as int);
    assert(bezier_num(curve[0].x as int, curve[1].x as int, curve[2].x as int, curve[3].x as int, 0)
        == 1_000_000_000 * (curve[0].x as int)) by (nonlinear_arith);
    assert(bezier_num(curve[0].y as int, curve[1].y as int, curve[2].y as int, curve[3].y as int, 0)
        == 1_000_000_000 * (curve[0].y as int)) by (nonlinear_arith);
}

/// `cubic_point_spec` at parameter 1000 is exactly the curve's end point.
pub proof fn lemma_cubic_point_at_1000(curve: Seq<BezierControlPoint>)
    requires
        curve.len() == 4,
        forall|i: int| 0 <= i < 4 ==> point_in_bounds(#[trigger] curve[i]),
    ensures
        cubic_point_spec(curve, 1000) == curve[3],
{
    lemma_scaled_by_billion_divides_back(curve[3].x as int);
    lemma_scaled_by_billion_divides_back(curve[3].y as int);
    assert(bezier_num(curve[0].x as int, curve[1].x as int, curve[2].x as int, curve[3].x as int, 1000)
        == 1_000_000_000 * (curve[3].x as int)) by (nonlinear_arith);
    assert(bezier_num(curve[0].y as int, curve[1].y as int, curve[2].y as int, curve[3].y as int, 1000)
        == 1_000_000_000 * (curve[3].y as int)) by (nonlinear_arith);
}

/// Scaling by a billion and dividing back toward zero is the identity.
proof fn lemma_scaled_by_billion_divides_back(x: int)
    ensures
        div_billion(1_000_000_000 * x) == x,
{
    if x >= 0 {
        lemma_div_multiples_vanish(x, 1_000_000_000);
    } else {
        lemma_div_multiples_vanish(-x, 1_000_000_000);
        assert(-(1_000_000_000 * x) == 1_000_000_000 * (-x)) by (nonlinear_arith);
    }
}

/// A cubic curve sampled at eleven evenly spaced parameter values
/// (t = 0, 0.1, ..., 1.0 in milli form: 0, 100, ..., 1000), with the
/// cumulative chord length recorded at each sample. Built once per curve and
/// read-only thereafter; curve-relative placement interpolates in its table.
#[derive(Debug, Clone)]
pub struct SampledBezierCurve {
    /// Total chord length of the sampled polyline, in milli units.
    pub arc_length: u64,
    /// The sampled positions, one per parameter value.
    pub sampled_bezier_points: Vec<BezierControlPoint>,
    /// The cumulative chord length from the start at each sample: a
    /// non-decreasing arc-length table.
    pub arc_length_parametrization: Vec<u64>,
}

impl SampledBezierCurve {
    /// What construction guarantees: eleven samples, a cumulative arc-length
    /// table starting at zero whose last entry is the total, and bounded
    /// values throughout.
    pub open spec fn wf(&self) -> bool {
        &&& self.sampled_bezier_points@.len() == 11
        &&& self.arc_length_parametrization@.len() == 11
        &&& self.arc_length_parametrization@[0] == 0
        &&& forall|i: int|
            0 <= i < 10 ==> (#[trigger] self.arc_length_parametrization@[i + 1] as int)
                == self.arc_length_parametrization@[i] + dist_spec(
                self.sampled_bezier_points@[i],
                self.sampled_bezier_points@[i + 1],
            )
        &&& self.arc_length == self.arc_length_parametrization@[10]
        &&& forall|i: int|
            0 <= i < 11 ==> point_in_bounds(#[trigger] self.sampled_bezier_points@[i])
        &&& forall|i: int|
            0 <= i < 11 ==> (#[trigger] self.arc_length_parametrization@[i]) <= 30_000_000_000
    }

    /// No sampled arc has zero length: the arc-length table rises strictly.
    /// Interpolation between bracketing table entries needs this.
    pub open spec fn is_nondegenerate(&self) -> bool {
        forall|i: int|
            0 <= i < 10 ==> (#[trigger] self.arc_length_parametrization@[i])
                < self.arc_length_parametrization@[i + 1]
    }

    /// Samples the cubic curve given by its 4 control points (start, two
    /// handles, end) at the eleven evenly spaced parameter values, recording
    /// each position and its cumulative chord distance from the start. The
    /// table is non-decreasing; its last entry is the estimated arc length.
    pub fn from_curve(curve: &[BezierControlPoint; 4]) -> (r: Self)
        requires
            forall|i: int| 0 <= i < 4 ==> point_in_bounds(#[trigger] curve@[i]),
        ensures
            r.wf(),
            forall|i: int| 0 <= i <= 10 ==> (#[trigger] r.sampled_bezier_points@[i])
                == cubic_point_spec(curve@, i * 100),
            r.sampled_bezier_points@[0] == curve@[0],
            r.sampled_bezier_points@[10] == curve@[3],
    {
        let mut points: Vec<BezierControlPoint> = Vec::new();
        let mut i: usize = 0;
        while i <= 10
            invariant
                i <= 11,
                points@.len() == i,
                forall|j: int| 0 <= j < 4 ==> point_in_bounds(#[trigger] curve@[j]),
                forall|j: int| 0 <= j < i ==> (#[trigger] points@[j]) == cubic_point_spec(
                    curve@,
                    j * 100,
                ),
                forall|j: int| 0 <= j < i ==> point_in_bounds(#[trigger] points@[j]),
            decreases 11 - i,
        {
            let p = cubic_interpolate_bezier(curve, (i as u64) * 100);
            points.push(p);
            i = i + 1;
        }
        proof {
            lemma_cubic_point_at_0(curve@);
            lemma_cubic_point_at_1000(curve@);
        }
        let mut table: Vec<u64> = Vec::new();
        table.push(0);
        let mut arc_length: u64 = 0;
        let mut k: usize = 0;
        while k < 10
            invariant
                k <= 10,
                points@.len() == 11,
                forall|j: int| 0 <= j < 11 ==> point_in_bounds(#[trigger] points@[j]),
                table@.len() == k + 1,
                table@[0] == 0,
                arc_length == table@[k as int],
                arc_length <= 3_000_000_000 * (k as int),
                forall|j: int| 0 <= j < k ==> (#[trigger] table@[j + 1] as int) == table@[j]
                    + dist_spec(points@[j], points@[j + 1]),
                forall|j: int| 0 <= j <= k ==> (#[trigger] table@[j]) <= 30_000_000_000,
            decreases 10 - k,
        {
            let d = points[k].distance(&points[k + 1]);
            arc_length = arc_length + d;
            table.push(arc_length);
            k = k + 1;
        }
        SampledBezierCurve {
            arc_length,
            sampled_bezier_points: points,
            arc_length_parametrization: table,
        }
    }
}

/// The index the bracket scan leaves as its lower bound after looking at the
/// first `k` table entries: the last one whose value is below the offset, or
/// 0 if there is none.
pub open spec fn lower_rec(t: Seq<u64>, off: u64, k: int) -> int
    decreases k,
{
    if k <= 0 {
        0
    } else if t[k - 1] < off {
        k - 1
    } else {
        lower_rec(t, off, k - 1)
    }
}

/// The first index among the scanned ten whose table value exceeds the
/// offset, or 10 if there is none.
pub open spec fn first_gt(t: Seq<u64>, off: u64, k: int) -> int
    decreases 10 - k,
{
    if k >= 10 {
        10
    } else if t[k] > off {
        k
    } else {
        first_gt(t, off, k + 1)
    }
}

/// The arc-length-to-parameter interpolation, in milli form: locate the
/// bracketing pair of table entries and interpolate the parameter linearly
/// between them, proportionally to where the offset falls between their
/// arc-length values.
pub open spec fn percentage_spec(t: Seq<u64>, off: u64) -> int {
    let lo = lower_rec(t, off, 10);
    let up = first_gt(t, off, 0);
    let lo_v = t[lo] as int;
    let up_v = t[up] as int;
    let interp = (off - lo_v) * 1000 / (up_v - lo_v);
    lo * 100 + (up - lo) * 100 * interp / 1000
}

/// Basic shape of `lower_rec`: a valid index, and a witness that its value is
/// below the offset unless it is 0.
proof fn lemma_lower_rec_props(t: Seq<u64>, off: u64, k: int)
    requires
        0 <= k <= 10,
    ensures
        0 <= lower_rec(t, off, k),
        lower_rec(t, off, k) <= (if k == 0 { 0int } else { k - 1 }),
        lower_rec(t, off, k) > 0 ==> t[lower_rec(t, off, k)] < off,
        k > 0 && t[0] < off ==> t[lower_rec(t, off, k)] < off,
    decreases k,
{
    if k > 0 {
        lemma_lower_rec_props(t, off, k - 1);
    }
}

/// Basic shape of `first_gt`: an index between `k` and 10, whose value
/// exceeds the offset unless it is 10, and every scanned value before it does
/// not.
proof fn lemma_first_gt_props(t: Seq<u64>, off: u64, k: int)
    requires
        0 <= k <= 10,
    ensures
        k <= first_gt(t, off, k) <= 10,
        first_gt(t, off, k) < 10 ==> t[first_gt(t, off, k)] > off,
        forall|j: int| k <= j < first_gt(t, off, k) ==> !(#[trigger] t[j] > off),
    decreases 10 - k,
{
    if k < 10 && !(t[k] > off) {
        lemma_first_gt_props(t, off, k + 1);
    }
}



/// The arc-length table is monotonically non-decreasing: each entry adds a
/// chord length to the previous one.
pub proof fn lemma_arc_length_table_nondecreasing(c: SampledBezierCurve, i: int, j: int)
    requires
        c.wf(),
        0 <= i <= j <= 10,
    ensures
        c.arc_length_parametrization@[i] <= c.arc_length_parametrization@[j],
    decreases j - i,
{
    if i < j {
        lemma_arc_length_table_nondecreasing(c, i + 1, j);
    }
}

/// A strictly rising table rises across any index gap.
proof fn lemma_table_lt(t: Seq<u64>, i: int, j: int)
    requires
        t.len() == 11,
        forall|k: int| 0 <= k < 10 ==> (#[trigger] t[k]) < t[k + 1],
        0 <= i < j <= 10,
    ensures
        t[i] < t[j],
    decreases j - i,
{
    if i + 1 < j {
        lemma_table_lt(t, i + 1, j);
    }
}

impl SampledBezierCurve {
    /// Maps an arc-length offset (in milli units from the curve's start) to
    /// the curve's milli parameter (0 = start, 1000 = end): the bracketing
    /// pair of table entries is located, and the parameter is interpolated
    /// linearly, proportionally to where the offset falls between the two
    /// arc-length values. Offsets beyond the total arc length extrapolate
    /// from the final bracket rather than failing.
    pub fn get_bezier_percentage_from_offset(&self, offset: u64) -> (r: u64)
        requires
            self.wf(),
            self.is_nondegenerate(),
            offset <= BEZIER_OFFSET_LIMIT,
        ensures
            r as int == percentage_spec(self.arc_length_parametrization@, offset),
            offset == 0 ==> r == 0,
            offset == self.arc_length ==> r == 1000,
    {
        proof {
            if offset == 0 {
                lemma_percentage_at_zero(*self);
            }
            if offset == self.arc_length {
                lemma_percentage_at_total(*self);
            }
        }
        let ghost t = self.arc_length_parametrization@;
        let mut lower_bound: usize = 0;
        let mut upper_bound: usize = 10;
        let mut found_upper: bool = false;
        let mut i: usize = 0;
        while i < 10
            invariant
                self.wf(),
                self.is_nondegenerate(),
                t == self.arc_length_parametrization@,
                i <= 10,
                lower_bound as int == lower_rec(t, offset, i as int),
                lower_bound <= 10,
                !found_upper ==> upper_bound == 10 && first_gt(t, offset, 0) == first_gt(
                    t,
                    offset,
                    i as int,
                ),
                found_upper ==> upper_bound as int == first_gt(t, offset, 0),
            decreases 10 - i,
        {
            let param = self.arc_length_parametrization[i];
            if param < offset {
                lower_bound = i;
            } else if param > offset && !found_upper {
                upper_bound = i;
                found_upper = true;
            }
            i = i + 1;
        }
        proof {
            lemma_lower_rec_props(t, offset, 10);
            lemma_first_gt_props(t, offset, 0);
            let lo = lower_rec(t, offset, 10);
            let up = first_gt(t, offset, 0);
            if lo > 0 || t[0] < offset {
                assert(t[lo] < offset);
            } else {
                assert(t[0] == 0);
                assert(offset == 0);
            }
            if up == 10 {
                if lo < 10 {
                    lemma_table_lt(t, lo, 10);
                }
            } else {
                assert(t[up] > offset);
            }
            if lo >= up {
                if up < lo {
                    lemma_table_lt(t, up, lo);
                }
                assert(t[up] <= t[lo]);
                assert(false);
            }
        }
        let lower_bound_value = self.arc_length_parametrization[lower_bound];
        let upper_bound_value = self.arc_length_parametrization[upper_bound];
        let interp_milli = (offset - lower_bound_value) * 1000 / (upper_bound_value
            - lower_bound_value);
        proof {
            lemma_div_nonincreasing(
                (offset - lower_bound_value) * 1000,
                upper_bound_value - lower_bound_value,
            );
            assert(interp_milli <= 1_000_000_000_000_000);
            assert(0 <= ((upper_bound - lower_bound) as int) * 100 * (interp_milli as int)
                <= 1_000_000_000_000_000_000) by (nonlinear_arith)
                requires
                    0 <= ((upper_bound - lower_bound) as int) <= 10,
                    0 <= interp_milli <= 1_000_000_000_000_000,
            ;
        }
        (lower_bound as u64) * 100 + ((upper_bound - lower_bound) as u64) * 100 * interp_milli
            / 1000
    }
}

/// An offset of zero maps to parameter zero: the placement starts exactly at
/// the curve's start.
pub proof fn lemma_percentage_at_zero(c: SampledBezierCurve)
    requires
        c.wf(),
        c.is_nondegenerate(),
    ensures
        percentage_spec(c.arc_length_parametrization@, 0) == 0,
{
    let t = c.arc_length_parametrization@;
    lemma_lower_rec_props(t, 0, 10);
    lemma_first_gt_props(t, 0, 0);
    let lo = lower_rec(t, 0, 10);
    let up = first_gt(t, 0, 0);
    assert(lo == 0);
    if up == 10 {
        lemma_table_lt(t, 0, 10);
    }
    let up_v = t[up] as int;
    assert(up_v > 0);
    let lo_v = t[lo] as int;
    assert(lo_v == 0);
    assert((0 - lo_v) * 1000 == 0);
    lemma_div_of0(up_v - lo_v);
    let interp = (0 - lo_v) * 1000 / (up_v - lo_v);
    assert(interp == 0);
    assert((up - lo) * 100 * interp == 0) by (nonlinear_arith)
        requires
            interp == 0,
    ;
    lemma_div_of0(1000);
}

/// An offset of the whole arc length maps to parameter 1000: the placement
/// ends exactly at the curve's end.
pub proof fn lemma_percentage_at_total(c: SampledBezierCurve)
    requires
        c.wf(),
        c.is_nondegenerate(),
    ensures
        percentage_spec(c.arc_length_parametrization@, c.arc_length) == 1000,
{
    let t = c.arc_length_parametrization@;
    let off = c.arc_length;
    lemma_first_gt_props(t, off, 0);
    let lo = lower_rec(t, off, 10);
    let up = first_gt(t, off, 0);
    assert(t[9] < t[10]);
    assert(lo == 9);
    if up < 10 {
        lemma_table_lt(t, up, 10);
        assert(false);
    }
    let d = t[10] - t[9];
    assert((off - t[9]) * 1000 == d * 1000);
    lemma_div_multiples_vanish(1000, d as int);
    assert((d as int) * 1000 / (d as int) == 1000);
    lemma_div_multiples_vanish(100, 1000);
    assert((1000int * 100) / 1000 == 100);
    assert((10 - 9) * 100 * 1000 == 1000 * 100) by (nonlinear_arith);
}


/// Where a single index bound separates table values below the offset from
/// the rest, the scan's lower bound is exactly that index.
proof fn lemma_lower_rec_exact(t: Seq<u64>, off: u64, k: int, m: int)
    requires
        0 <= m < k <= 10,
        forall|i: int| 0 <= i < 10 ==> ((#[trigger] t[i]) < off <==> i <= m),
    ensures
        lower_rec(t, off, k) == m,
    decreases k,
{
    if k - 1 > m {
        assert(!(t[k - 1] < off));
        lemma_lower_rec_exact(t, off, k - 1, m);
    } else {
        assert(t[k - 1] < off);
    }
}

/// Where no scanned table value is below the offset, the scan's lower bound
/// stays 0.
proof fn lemma_lower_rec_none(t: Seq<u64>, off: u64, k: int)
    requires
        0 <= k <= 10,
        forall|i: int| 0 <= i < 10 ==> !((#[trigger] t[i]) < off),
    ensures
        lower_rec(t, off, k) == 0,
    decreases k,
{
    if k > 0 {
        lemma_lower_rec_none(t, off, k - 1);
    }
}

/// For a straight-line curve sampled evenly — an affine arc-length table in
/// which every sampled arc has the same length `d` — the interpolated
/// parameter is linear in the offset: exactly `offset * 100 / d`, the
/// offset's fraction of the total length scaled to milli form.
pub proof fn lemma_percentage_linear(t: Seq<u64>, d: u64, off: u64)
    requires
        t.len() == 11,
        d >= 1,
        forall|i: int| 0 <= i < 11 ==> (#[trigger] t[i] as int) == i * (d as int),
        off as int <= 10 * (d as int),
    ensures
        percentage_spec(t, off) == (off as int) * 100 / (d as int),
{
    let dd = d as int;
    let f = off as int;
    lemma_fundamental_div_mod(f, dd);
    lemma_mod_division_less_than_divisor(f, dd);
    lemma_div_pos_is_pos(f, dd);
    let m = f / dd;
    let rem = f % dd;
    assert(f == dd * m + rem);
    assert(m <= 10) by {
        lemma_div_is_ordered(f, 10 * dd, dd);
        lemma_div_multiples_vanish(10, dd);
        assert(10 * dd == dd * 10);
    }
    if rem > 0 {
        assert(m <= 9) by {
            if m >= 10 {
                assert(dd * m >= dd * 10) by (nonlinear_arith)
                    requires
                        m >= 10,
                        dd >= 1,
                ;
            }
        }
    }

    // Below the offset: exactly the indices up to `mm`.
    let mm = if rem > 0 { m } else { m - 1 };
    assert forall|i: int| 0 <= i < 10 implies ((#[trigger] t[i]) < off <==> i <= mm) by {
        assert(t[i] as int == i * dd);
        if i <= mm {
            assert(i * dd < dd * m + rem) by (nonlinear_arith)
                requires
                    dd >= 1,
                    0 <= rem < dd,
                    (rem > 0 && i <= m) || (rem == 0 && i <= m - 1),
            ;
        } else {
            assert(i * dd >= dd * m + rem) by (nonlinear_arith)
                requires
                    dd >= 1,
                    0 <= rem < dd,
                    (rem > 0 && i >= m + 1) || (rem == 0 && i >= m),
            ;
        }
    }

    // Above the offset: exactly the indices from `m + 1` on.
    assert forall|i: int| 0 <= i < 10 implies ((#[trigger] t[i]) > off <==> i >= m + 1) by {
        assert(t[i] as int == i * dd);
        if i >= m + 1 {
            assert(i * dd > dd * m + rem) by (nonlinear_arith)
                requires
                    dd >= 1,
                    0 <= rem < dd,
                    i >= m + 1,
            ;
        } else {
            assert(i * dd <= dd * m + rem) by (nonlinear_arith)
                requires
                    dd >= 1,
                    0 <= rem,
                    i <= m,
            ;
        }
    }

    let lo = lower_rec(t, off, 10);
    let up = first_gt(t, off, 0);
    if mm >= 0 {
        lemma_lower_rec_exact(t, off, 10, mm);
    } else {
        lemma_lower_rec_none(t, off, 10);
    }
    lemma_first_gt_props(t, off, 0);
    assert(up == if m >= 9 { 10int } else { m + 1 }) by {
        if up < 10 {
            assert(t[up] > off);
            assert(up >= m + 1);
        }
        if m + 1 <= 9 && up == 10 {
            assert(!(t[9] > off));
            assert(false);
        }
        if up < 10 && up > m + 1 {
            assert(0 <= m + 1 < up);
            assert(!(t[m + 1] > off));
            assert(false);
        }
    }

    let lo_v = t[lo] as int;
    let up_v = t[up] as int;
    let numer = (off - lo_v) * 1000;
    let diff = up_v - lo_v;
    let interp = numer / diff;

    if rem == 0 && m == 0 {
        // offset 0: everything collapses to 0.
        assert(lo == 0 && up == 1);
        assert(t[0] as int == 0 * dd);
        assert(t[1] as int == 1 * dd);
        assert(lo_v == 0 && up_v == dd);
        lemma_div_of0(diff);
        assert(interp == 0);
        assert((up - lo) * 100 * interp == 0) by (nonlinear_arith)
            requires
                interp == 0,
        ;
        lemma_div_of0(1000);
        lemma_div_of0(dd);
        assert(f * 100 == 0);
    } else if rem == 0 && m <= 9 {
        // offset exactly on an interior sample: bracket is one sample wide on
        // each side, interpolation lands halfway, the halves cancel.
        assert(lo == m - 1 && up as int == m + 1);
        assert(t[m - 1] as int == (m - 1) * dd);
        assert(t[m + 1] as int == (m + 1) * dd);
        assert(lo_v == (m - 1) * dd && up_v == (m + 1) * dd);
        assert(diff == 2 * dd && off - lo_v == dd) by (nonlinear_arith)
            requires
                lo_v == (m - 1) * dd,
                up_v == (m + 1) * dd,
                diff == up_v - lo_v,
                f == dd * m + rem,
                rem == 0,
                off as int == f,
                lo_v == t[lo] as int,
        ;
        assert(numer == (2 * dd) * 500) by (nonlinear_arith)
            requires
                numer == (off - lo_v) * 1000,
                off - lo_v == dd,
        ;
        lemma_div_multiples_vanish(500, 2 * dd);
        assert(interp == 500);
        assert((up - lo) * 100 * interp == 100000) by (nonlinear_arith)
            requires
                up - lo == 2,
                interp == 500,
        ;
        lemma_div_multiples_vanish(100, 1000);
        assert((1000int * 100) / 1000 == 100);
        assert(percentage_spec(t, off) == (m - 1) * 100 + 100);
        assert(f * 100 == dd * (m * 100)) by (nonlinear_arith)
            requires
                f == dd * m + rem,
                rem == 0,
        ;
        lemma_div_multiples_vanish(m * 100, dd);
        assert(f * 100 / dd == m * 100);
    } else if rem == 0 {
        // offset is the whole length: the last bracket interpolates to 1.
        assert(m == 10);
        assert(mm == 9 && lo == 9 && up == 10);
        assert(t[9] as int == 9 * dd);
        assert(t[10] as int == 10 * dd);
        assert(lo_v == 9 * dd && up_v == 10 * dd);
        assert(diff == dd && off - lo_v == dd) by (nonlinear_arith)
            requires
                lo_v == 9 * dd,
                up_v == 10 * dd,
                diff == up_v - lo_v,
                f == dd * m + rem,
                rem == 0,
                m == 10,
                off as int == f,
        ;
        assert(numer == dd * 1000) by (nonlinear_arith)
            requires
                numer == (off - lo_v) * 1000,
                off - lo_v == dd,
        ;
        lemma_div_multiples_vanish(1000, dd);
        assert(interp == 1000);
        assert((up - lo) * 100 * interp == 100000) by (nonlinear_arith)
            requires
                up - lo == 1,
                interp == 1000,
        ;
        lemma_div_multiples_vanish(100, 1000);
        assert((1000int * 100) / 1000 == 100);
        assert(percentage_spec(t, off) == 900 + 100);
        assert(f * 100 == dd * 1000) by (nonlinear_arith)
            requires
                f == dd * m + rem,
                rem == 0,
                m == 10,
        ;
        lemma_div_multiples_vanish(1000, dd);
        assert(f * 100 / dd == 1000);
    } else {
        // offset strictly inside a sampled arc: the two-stage flooring
        // equals flooring the exact linear value once.
        assert(0 <= m <= 9);
        assert(lo == m && up as int == m + 1);
        assert(t[m] as int == m * dd);
        assert(t[m + 1] as int == (m + 1) * dd);
        assert(lo_v == m * dd && up_v == (m + 1) * dd);
        assert(diff == dd && off - lo_v == rem) by (nonlinear_arith)
            requires
                lo_v == m * dd,
                up_v == (m + 1) * dd,
                diff == up_v - lo_v,
                f == dd * m + rem,
                off as int == f,
        ;
        assert(numer == rem * 1000);
        assert(up - lo == 1);
        lemma_div_pos_is_pos(numer, dd);
        assert((up - lo) * 100 * interp == 100 * interp) by (nonlinear_arith)
            requires
                up - lo == 1,
        ;
        lemma_div_multiples_vanish_quotient(100, interp, 10);
        assert((100 * interp) / (100int * 10) == interp / 10);
        assert(100int * 10 == 1000);
        lemma_div_denominator(rem * 1000, dd, 10);
        assert(interp / 10 == (rem * 1000) / (dd * 10));
        lemma_div_multiples_vanish_quotient(10, rem * 100, dd);
        assert((rem * 100) / dd == (10 * (rem * 100)) / (10 * dd));
        assert(10 * (rem * 100) == rem * 1000 && 10 * dd == dd * 10) by (nonlinear_arith);
        assert(percentage_spec(t, off) == m * 100 + (rem * 100) / dd);
        lemma_hoist_over_denominator(rem * 100, m * 100, d as nat);
        assert((rem * 100) / dd + m * 100 == (rem * 100 + (m * 100) * dd) / dd);
        assert(rem * 100 + (m * 100) * dd == f * 100) by (nonlinear_arith)
            requires
                f == dd * m + rem,
        ;
    }
}

} // verus!
