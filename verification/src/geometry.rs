use vstd::prelude::*;

verus! {

/// Coordinates, in milli units, may not exceed this bound; it keeps every
/// fixed-point product inside `i64`.
pub const VERT_COORD_LIMIT: i64 = 1_000_000_000_000;

/// Bound on the milli sine/cosine handed to `rotate_vertex_buffer`.
pub const TRIG_MILLI_LIMIT: i64 = 2000;

/// Bound on the milli scale factor handed to `scale_vertex_buffer`.
pub const SCALE_FACTOR_LIMIT: i64 = 2_000_000;

/// Division by 1000 that rounds toward zero, the rounding the fixed-point
/// operations below use.
pub open spec fn milli_div(p: int) -> int {
    if p >= 0 {
        p / 1000
    } else {
        -((-p) / 1000)
    }
}

/// Divides by 1000 rounding toward zero.
pub fn div_1000(p: i64) -> (r: i64)
    requires
        p > i64::MIN,
    ensures
        r == milli_div(p as int),
{
    if p >= 0 {
        ((p as u64) / 1000) as i64
    } else {
        let q = (((-p) as u64) / 1000) as i64;
        -q
    }
}

/// A 2-D point in milli units.
#[derive(Debug, Copy, Clone, PartialEq, Eq, Hash, Structural)]
pub struct SvgPoint {
    pub x: i64,
    pub y: i64,
}

/// One decoded path event, with positions in milli units. The external
/// decoders (SVG markup, font outlines) are consumed as sequences of these.
#[derive(Debug, Copy, Clone, PartialEq, Eq, Structural)]
pub enum SvgPathEvent {
    MoveTo(SvgPoint),
    LineTo(SvgPoint),
    QuadraticTo(SvgPoint, SvgPoint),
    CubicTo(SvgPoint, SvgPoint, SvgPoint),
    Close,
}

/// A circle, in milli units.
#[derive(Debug, Copy, Clone, PartialEq, Eq, Structural)]
pub struct SvgCircle {
    pub center_x: i64,
    pub center_y: i64,
    pub radius: i64,
}

/// A rounded rectangle, in milli units.
#[derive(Debug, Copy, Clone, PartialEq, Eq, Structural)]
pub struct SvgRect {
    pub width: i64,
    pub height: i64,
    pub x: i64,
    pub y: i64,
    pub rx: i64,
    pub ry: i64,
}

/// One geometric primitive: a polygon given as path events, a circle, or a
/// rounded rectangle.
#[derive(Debug, Clone)]
pub enum SvgLayerType {
    Polygon(Vec<SvgPathEvent>),
    Circle(SvgCircle),
    Rect(SvgRect),
}

/// The geometry payload of one layer: one or more primitives drawn with the
/// same style.
#[derive(Debug, Clone)]
pub enum LayerType {
    KnownSize([SvgLayerType; 1]),
    UnknownSize(Vec<SvgLayerType>),
}

impl LayerType {
    /// The primitives of this payload, in order.
    pub open spec fn shapes(&self) -> Seq<SvgLayerType> {
        match self {
            LayerType::KnownSize(a) => a@,
            LayerType::UnknownSize(v) => v@,
        }
    }

    pub fn get(&self) -> (r: &[SvgLayerType])
        ensures
            r@ == self.shapes(),
    {
        match self {
            LayerType::KnownSize(a) => a.as_slice(),
            LayerType::UnknownSize(b) => b.as_slice(),
        }
    }

    pub fn from_polygons(data: Vec<SvgLayerType>) -> (r: Self)
        ensures
            r.shapes() == data@,
    {
        LayerType::UnknownSize(data)
    }

    pub fn from_single_layer(data: SvgLayerType) -> (r: Self)
        ensures
            r.shapes() =~= seq![data],
    {
        LayerType::KnownSize([data])
    }
}

/// One mesh vertex: a 2-D position and a 2-D outward normal, in milli units.
#[derive(Debug, Copy, Clone, PartialEq, Eq)]
pub struct SvgVert {
    pub xy: (i64, i64),
    pub normal: (i64, i64),
}

/// Marker for the coordinate space the meshes live in.
#[derive(Debug, Copy, Clone)]
pub struct SvgWorldPixel;

/// Whether every coordinate of the vertex lies within the fixed-point bound.
pub open spec fn vert_in_bounds(v: SvgVert) -> bool {
    &&& -VERT_COORD_LIMIT <= v.xy.0 <= VERT_COORD_LIMIT
    &&& -VERT_COORD_LIMIT <= v.xy.1 <= VERT_COORD_LIMIT
}

/// Moves every vertex position by `(x, y)`; normals are unchanged.
pub fn transform_vertex_buffer(input: &mut Vec<SvgVert>, x: i64, y: i64)
    requires
        -VERT_COORD_LIMIT <= x <= VERT_COORD_LIMIT,
        -VERT_COORD_LIMIT <= y <= VERT_COORD_LIMIT,
        forall|i: int| 0 <= i < old(input)@.len() ==> vert_in_bounds(#[trigger] old(input)@[i]),
    ensures
        final(input)@.len() == old(input)@.len(),
        forall|i: int| 0 <= i < old(input)@.len() ==> #[trigger] final(input)@[i] == (SvgVert {
            xy: ((old(input)@[i].xy.0 + x) as i64, (old(input)@[i].xy.1 + y) as i64),
            normal: old(input)@[i].normal,
        }),
{
    let ghost orig = input@;
    let mut out: Vec<SvgVert> = Vec::new();
    let mut i: usize = 0;
    while i < input.len()
        invariant
            input@ == orig,
            i <= orig.len(),
            -VERT_COORD_LIMIT <= x <= VERT_COORD_LIMIT,
            -VERT_COORD_LIMIT <= y <= VERT_COORD_LIMIT,
            forall|j: int| 0 <= j < orig.len() ==> vert_in_bounds(#[trigger] orig[j]),
            out@.len() == i,
            forall|j: int| 0 <= j < i ==> #[trigger] out@[j] == (SvgVert {
                xy: ((orig[j].xy.0 + x) as i64, (orig[j].xy.1 + y) as i64),
                normal: orig[j].normal,
            }),
        decreases orig.len() - i,
    {
        let v = input[i];
        out.push(SvgVert { xy: (v.xy.0 + x, v.xy.1 + y), normal: v.normal });
        i = i + 1;
    }
    *input = out;
}

/// Scales every vertex position by a milli factor (1000 = keep as is),
/// rounding toward zero; normals are unchanged.
pub fn scale_vertex_buffer(input: &mut Vec<SvgVert>, scale_factor: i64)
    requires
        -SCALE_FACTOR_LIMIT <= scale_factor <= SCALE_FACTOR_LIMIT,
        forall|i: int| 0 <= i < old(input)@.len() ==> vert_in_bounds(#[trigger] old(input)@[i]),
    ensures
        final(input)@.len() == old(input)@.len(),
        forall|i: int| 0 <= i < old(input)@.len() ==> #[trigger] final(input)@[i] == (SvgVert {
            xy: (
                milli_div(old(input)@[i].xy.0 * scale_factor) as i64,
                milli_div(old(input)@[i].xy.1 * scale_factor) as i64,
            ),
            normal: old(input)@[i].normal,
        }),
{
    let ghost orig = input@;
    let mut out: Vec<SvgVert> = Vec::new();
    let mut i: usize = 0;
    while i < input.len()
        invariant
            input@ == orig,
            i <= orig.len(),
            -SCALE_FACTOR_LIMIT <= scale_factor <= SCALE_FACTOR_LIMIT,
            forall|j: int| 0 <= j < orig.len() ==> vert_in_bounds(#[trigger] orig[j]),
            out@.len() == i,
            forall|j: int| 0 <= j < i ==> #[trigger] out@[j] == (SvgVert {
                xy: (
                    milli_div(orig[j].xy.0 * scale_factor) as i64,
                    milli_div(orig[j].xy.1 * scale_factor) as i64,
                ),
                normal: orig[j].normal,
            }),
        decreases orig.len() - i,
    {
        let v = input[i];
        proof {
            lemma_mul_abs_bound(v.xy.0 as int, scale_factor as int, VERT_COORD_LIMIT as int, SCALE_FACTOR_LIMIT as int);
            lemma_mul_abs_bound(v.xy.1 as int, scale_factor as int, VERT_COORD_LIMIT as int, SCALE_FACTOR_LIMIT as int);
        }
        let nx = div_1000(v.xy.0 * scale_factor);
        let ny = div_1000(v.xy.1 * scale_factor);
        proof {
            lemma_milli_div_abs_bound(v.xy.0 * scale_factor, VERT_COORD_LIMIT as int * SCALE_FACTOR_LIMIT as int);
            lemma_milli_div_abs_bound(v.xy.1 * scale_factor, VERT_COORD_LIMIT as int * SCALE_FACTOR_LIMIT as int);
        }
        out.push(SvgVert { xy: (nx, ny), normal: v.normal });
        i = i + 1;
    }
    *input = out;
}

/// Rotates every vertex position by the angle whose milli sine and cosine are
/// given, rounding toward zero; normals are unchanged.
pub fn rotate_vertex_buffer(input: &mut Vec<SvgVert>, sin: i64, cos: i64)
    requires
        -TRIG_MILLI_LIMIT <= sin <= TRIG_MILLI_LIMIT,
        -TRIG_MILLI_LIMIT <= cos <= TRIG_MILLI_LIMIT,
        forall|i: int| 0 <= i < old(input)@.len() ==> vert_in_bounds(#[trigger] old(input)@[i]),
    ensures
        final(input)@.len() == old(input)@.len(),
        forall|i: int| 0 <= i < old(input)@.len() ==> #[trigger] final(input)@[i] == (SvgVert {
            xy: (
                milli_div(old(input)@[i].xy.0 * cos - old(input)@[i].xy.1 * sin) as i64,
                milli_div(old(input)@[i].xy.0 * sin + old(input)@[i].xy.1 * cos) as i64,
            ),
            normal: old(input)@[i].normal,
        }),
{
    let ghost orig = input@;
    let mut out: Vec<SvgVert> = Vec::new();
    let mut i: usize = 0;
    while i < input.len()
        invariant
            input@ == orig,
            i <= orig.len(),
            -TRIG_MILLI_LIMIT <= sin <= TRIG_MILLI_LIMIT,
            -TRIG_MILLI_LIMIT <= cos <= TRIG_MILLI_LIMIT,
            forall|j: int| 0 <= j < orig.len() ==> vert_in_bounds(#[trigger] orig[j]),
            out@.len() == i,
            forall|j: int| 0 <= j < i ==> #[trigger] out@[j] == (SvgVert {
                xy: (
                    milli_div(orig[j].xy.0 * cos - orig[j].xy.1 * sin) as i64,
                    milli_div(orig[j].xy.0 * sin + orig[j].xy.1 * cos) as i64,
                ),
                normal: orig[j].normal,
            }),
        decreases orig.len() - i,
    {
        let v = input[i];
        proof {
            lemma_mul_abs_bound(v.xy.0 as int, cos as int, VERT_COORD_LIMIT as int, TRIG_MILLI_LIMIT as int);
            lemma_mul_abs_bound(v.xy.1 as int, sin as int, VERT_COORD_LIMIT as int, TRIG_MILLI_LIMIT as int);
            lemma_mul_abs_bound(v.xy.0 as int, sin as int, VERT_COORD_LIMIT as int, TRIG_MILLI_LIMIT as int);
            lemma_mul_abs_bound(v.xy.1 as int, cos as int, VERT_COORD_LIMIT as int, TRIG_MILLI_LIMIT as int);
        }
        let px = v.xy.0 * cos - v.xy.1 * sin;
        let py = v.xy.0 * sin + v.xy.1 * cos;
        let nx = div_1000(px);
        let ny = div_1000(py);
        out.push(SvgVert { xy: (nx, ny), normal: v.normal });
        i = i + 1;
    }
    *input = out;
}

/// `|x| <= bx` and `|c| <= bc` bound the product by `bx * bc`.
proof fn lemma_mul_abs_bound(x: int, c: int, bx: int, bc: int)
    requires
        0 <= bx,
        0 <= bc,
        -bx <= x <= bx,
        -bc <= c <= bc,
    ensures
        -(bx * bc) <= x * c <= bx * bc,
{
    assert(-(bx * bc) <= x * c <= bx * bc) by (nonlinear_arith)
        requires
            0 <= bx,
            0 <= bc,
            -bx <= x <= bx,
            -bc <= c <= bc,
    ;
}

/// Division by 1000 toward zero never grows the magnitude.
proof fn lemma_milli_div_abs_bound(p: int, b: int)
    requires
        -b <= p <= b,
        0 <= b,
    ensures
        -b <= milli_div(p) <= b,
{
    if p >= 0 {
        assert(p / 1000 <= p) by (nonlinear_arith)
            requires
                p >= 0,
        ;
        assert(p / 1000 >= 0) by (nonlinear_arith)
            requires
                p >= 0,
        ;
    } else {
        assert((-p) / 1000 <= -p) by (nonlinear_arith)
            requires
                -p >= 0,
        ;
        assert((-p) / 1000 >= 0) by (nonlinear_arith)
            requires
                -p >= 0,
        ;
    }
}

/// One outline vertex as a font decoder reports it: a move, line or
/// quadratic-curve step, with coordinates in the decoder's font units.
#[derive(Debug, Copy, Clone, PartialEq, Eq, Structural)]
pub enum GlyphVertex {
    MoveTo { x: i64, y: i64 },
    LineTo { x: i64, y: i64 },
    CurveTo { cx: i64, cy: i64, x: i64, y: i64 },
}

/// Turns one decoded glyph-outline vertex into a path event, inverting the Y
/// axis: font decoders report Y growing upward, the tessellator wants it
/// growing downward.
pub fn rusttype_glyph_to_path_events(vertex: &GlyphVertex) -> (r: SvgPathEvent)
    requires
        match *vertex {
            GlyphVertex::MoveTo { x, y } => y > i64::MIN,
            GlyphVertex::LineTo { x, y } => y > i64::MIN,
            GlyphVertex::CurveTo { cx, cy, x, y } => y > i64::MIN && cy > i64::MIN,
        },
    ensures
        r == (match *vertex {
            GlyphVertex::MoveTo { x, y } => SvgPathEvent::MoveTo(SvgPoint { x, y: -y as i64 }),
            GlyphVertex::LineTo { x, y } => SvgPathEvent::LineTo(SvgPoint { x, y: -y as i64 }),
            GlyphVertex::CurveTo { cx, cy, x, y } => SvgPathEvent::QuadraticTo(
                SvgPoint { x: cx, y: -cy as i64 },
                SvgPoint { x, y: -y as i64 },
            ),
        }),
{
    match *vertex {
        GlyphVertex::MoveTo { x, y } => SvgPathEvent::MoveTo(SvgPoint { x, y: -y }),
        GlyphVertex::LineTo { x, y } => SvgPathEvent::LineTo(SvgPoint { x, y: -y }),
        GlyphVertex::CurveTo { cx, cy, x, y } => SvgPathEvent::QuadraticTo(
            SvgPoint { x: cx, y: -cy },
            SvgPoint { x, y: -y },
        ),
    }
}

} // verus!
