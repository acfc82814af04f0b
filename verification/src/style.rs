use vstd::prelude::*;

verus! {

/// 8-bit RGBA color, the renderer's color representation.
#[derive(Debug, Copy, Clone, PartialEq, Eq, Hash, Structural)]
pub struct ColorU {
    pub r: u8,
    pub g: u8,
    pub b: u8,
    pub a: u8,
}

/// What cap to use at the start or end of each stroked sub-path.
#[derive(Debug, Copy, Clone, PartialEq, Eq, Hash, Structural)]
pub enum SvgLineCap {
    Butt,
    Square,
    Round,
}

impl Default for SvgLineCap {
    fn default() -> (r: Self)
        ensures
            r == SvgLineCap::Butt,
    {
        SvgLineCap::Butt
    }
}

/// How two stroked segments are joined.
#[derive(Debug, Copy, Clone, PartialEq, Eq, Hash, Structural)]
pub enum SvgLineJoin {
    Miter,
    MiterClip,
    Round,
    Bevel,
}

impl Default for SvgLineJoin {
    fn default() -> (r: Self)
        ensures
            r == SvgLineJoin::Miter,
    {
        SvgLineJoin::Miter
    }
}

/// Stroke styling, with every scalar stored as a quantized integer
/// (the value times 1000, rounded) rather than floating point, so that a
/// whole style is hashable and comparable for structural-equality caching.
#[derive(Debug, Copy, Clone, PartialEq, Eq, Hash, Structural)]
pub struct SvgStrokeOptions {
    /// What cap to use at the start of each sub-path.
    pub start_cap: SvgLineCap,
    /// What cap to use at the end of each sub-path.
    pub end_cap: SvgLineCap,
    /// How segments are joined.
    pub line_join: SvgLineJoin,
    /// Line width, in thousandths.
    pub line_width: usize,
    /// Miter limit, in thousandths.
    pub miter_limit: usize,
    /// Maximum allowed distance to the path when flattening, in thousandths.
    pub tolerance: usize,
    /// When false, vertices sit on the path's centre line and the width is
    /// applied later (for example in a vertex shader) via the normals.
    pub apply_line_width: bool,
}

/// The default stroke options: butt caps, miter join, width 1.0, miter
/// limit 4.0, tolerance 0.1 — each stored times 1000.
pub open spec fn default_stroke_options() -> SvgStrokeOptions {
    SvgStrokeOptions {
        start_cap: SvgLineCap::Butt,
        end_cap: SvgLineCap::Butt,
        line_join: SvgLineJoin::Miter,
        line_width: 1000,
        miter_limit: 4000,
        tolerance: 100,
        apply_line_width: true,
    }
}

impl Default for SvgStrokeOptions {
    fn default() -> (r: Self)
        ensures
            r == default_stroke_options(),
    {
        SvgStrokeOptions {
            start_cap: SvgLineCap::Butt,
            end_cap: SvgLineCap::Butt,
            line_join: SvgLineJoin::Miter,
            line_width: 1000,
            miter_limit: 4000,
            tolerance: 100,
            apply_line_width: true,
        }
    }
}

/// The style of one layer: optional fill color and optional stroke
/// (color plus quantized stroke options).
#[derive(Debug, Copy, Clone, PartialEq, Hash)]
pub struct SvgStyle {
    /// Stroke color and options.
    pub stroke: Option<(ColorU, SvgStrokeOptions)>,
    /// Fill color.
    pub fill: Option<ColorU>,
}

impl Default for SvgStyle {
    fn default() -> (r: Self)
        ensures
            r.stroke is None,
            r.fill is None,
    {
        SvgStyle { stroke: None, fill: None }
    }
}

impl SvgStyle {
    /// A style that only strokes, with the given color and options.
    pub fn stroked(color: ColorU, stroke_opts: SvgStrokeOptions) -> (r: Self)
        ensures
            r.stroke == Some((color, stroke_opts)),
            r.fill is None,
    {
        SvgStyle { stroke: Some((color, stroke_opts)), fill: None }
    }

    /// A style that only fills, with the given color.
    pub fn filled(color: ColorU) -> (r: Self)
        ensures
            r.fill == Some(color),
            r.stroke is None,
    {
        SvgStyle { stroke: None, fill: Some(color) }
    }
}

} // verus!
