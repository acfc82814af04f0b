use vstd::prelude::*;
use crate::bezier::SampledBezierCurve;
use crate::geometry::{SvgCircle, SvgLayerType, SvgPathEvent, SvgPoint};
use crate::cache::{materialize_spec, CacheModel, GpuBufferPair, SvgCache};
use crate::ids::SvgLayerId;
use crate::mesh::{
    join_vertex_buffers, joined_indices, joined_vertices, mesh_views, mesh_wf, rebased,
    total_vertices, VertexBuffers, VerticesIndicesBuffer, GL_RESTART_INDEX,
};
use crate::style::{ColorU, SvgStrokeOptions, SvgStyle};

verus! {

/// One scene entry: a reference into the layer cache, or an inlined one-off
/// mesh with its style.
#[derive(Debug, Clone)]
pub enum SvgLayerResource {
    Reference(SvgLayerId),
    Direct {
        style: SvgStyle,
        fill: Option<VerticesIndicesBuffer>,
        stroke: Option<VerticesIndicesBuffer>,
    },
}

/// The scene: an ordered list of layer references, a pan offset in milli
/// pixels, a milli zoom (1000 = no zoom), and the FXAA toggle — the
/// post-process pass itself is a documented no-op, not a silent feature.
#[derive(Debug)]
pub struct Svg {
    /// Currently active layers, drawn in order.
    pub layers: Vec<SvgLayerResource>,
    /// Pan (horizontal, vertical) in milli pixels.
    pub pan: (i64, i64),
    /// Zoom in milli form: 1000 is the default zoom.
    pub zoom: u64,
    /// Whether an FXAA pass should run over the rendered texture.
    pub enable_fxaa: bool,
}

impl Default for Svg {
    fn default() -> (r: Self)
        ensures
            r.layers@.len() == 0,
            r.pan == (0i64, 0i64),
            r.zoom == 1000,
            !r.enable_fxaa,
    {
        Svg { layers: Vec::new(), pan: (0, 0), zoom: 1000, enable_fxaa: false }
    }
}

impl Svg {
    /// A scene of the given layers, with default pan, zoom and FXAA.
    pub fn with_layers(layers: Vec<SvgLayerResource>) -> (r: Self)
        ensures
            r.layers == layers,
            r.pan == (0i64, 0i64),
            r.zoom == 1000,
            !r.enable_fxaa,
    {
        Svg { layers, pan: (0, 0), zoom: 1000, enable_fxaa: false }
    }

    /// The same scene panned to the given offset.
    pub fn with_pan(self, horz: i64, vert: i64) -> (r: Self)
        ensures
            r.pan == (horz, vert),
            r.layers == self.layers,
            r.zoom == self.zoom,
            r.enable_fxaa == self.enable_fxaa,
    {
        Svg { pan: (horz, vert), ..self }
    }

    /// The same scene at the given milli zoom.
    pub fn with_zoom(self, zoom: u64) -> (r: Self)
        ensures
            r.zoom == zoom,
            r.layers == self.layers,
            r.pan == self.pan,
            r.enable_fxaa == self.enable_fxaa,
    {
        Svg { zoom, ..self }
    }

    /// The same scene with the FXAA pass toggled.
    pub fn with_fxaa(self, enable_fxaa: bool) -> (r: Self)
        ensures
            r.enable_fxaa == enable_fxaa,
            r.layers == self.layers,
            r.pan == self.pan,
            r.zoom == self.zoom,
    {
        Svg { enable_fxaa, ..self }
    }
}

/// Rebasing by zero changes no index.
pub proof fn lemma_rebased_zero(s: Seq<u32>)
    ensures
        rebased(s, 0) == s,
{
    assert(rebased(s, 0) =~= s);
}

/// A one-off filled-circle resource: the tessellated circle joined into one
/// draw-call mesh under a fill-only style.
pub fn quick_circle(circle_mesh: VertexBuffers, fill_color: ColorU) -> (r: SvgLayerResource)
    requires
        mesh_wf(circle_mesh@),
        circle_mesh@.vertices.len() < 0xFFFF_FFFF,
    ensures
        r matches SvgLayerResource::Direct { style, fill, stroke } && {
            &&& style.fill == Some(fill_color)
            &&& style.stroke is None
            &&& stroke is None
            &&& fill matches Some(b) && b@.vertices == circle_mesh@.vertices && b@.indices
                == circle_mesh@.indices + seq![GL_RESTART_INDEX]
        },
{
    let ghost mv = circle_mesh@;
    let meshes = vec![circle_mesh];
    proof {
        assert(mesh_views(meshes@) =~= seq![mv]);
        lemma_single_mesh_join(mv);
        lemma_rebased_zero(mv.indices);
    }
    let fill = join_vertex_buffers(&meshes);
    let style = SvgStyle::filled(fill_color);
    SvgLayerResource::Direct { style, fill: Some(fill), stroke: None }
}

/// Joining a single mesh concatenates nothing: its own vertices, its own
/// indices, one sentinel.
proof fn lemma_single_mesh_join(m: crate::mesh::MeshView)
    ensures
        total_vertices(seq![m]) == m.vertices.len(),
        joined_vertices(seq![m]) == m.vertices,
        joined_indices(seq![m], 0) == rebased(m.indices, 0) + seq![GL_RESTART_INDEX],
{
    reveal_with_fuel(total_vertices, 2);
    reveal_with_fuel(joined_vertices, 2);
    reveal_with_fuel(joined_indices, 2);
    assert(seq![m].drop_first() =~= Seq::<crate::mesh::MeshView>::empty());
    assert(joined_vertices(seq![m]) =~= m.vertices);
    assert(joined_indices(seq![m], 0) =~= rebased(m.indices, 0) + seq![GL_RESTART_INDEX]);
}

/// A one-off resource for several filled circles in one draw call: the
/// tessellated circles joined with restart sentinels under a fill-only
/// style. An empty circle list yields an empty mesh, not an error.
pub fn quick_circles(circle_meshes: &Vec<VertexBuffers>, fill_color: ColorU) -> (r:
    SvgLayerResource)
    requires
        forall|i: int| 0 <= i < circle_meshes@.len() ==> mesh_wf(#[trigger] circle_meshes@[i]@),
        total_vertices(mesh_views(circle_meshes@)) < 0xFFFF_FFFF,
    ensures
        r matches SvgLayerResource::Direct { style, fill, stroke } && {
            &&& style.fill == Some(fill_color)
            &&& style.stroke is None
            &&& stroke is None
            &&& fill matches Some(b) && b@.vertices == joined_vertices(mesh_views(circle_meshes@))
                && b@.indices == joined_indices(mesh_views(circle_meshes@), 0)
            &&& circle_meshes@.len() == 0 ==> (fill matches Some(b) && b@.vertices.len() == 0
                && b@.indices.len() == 0)
        },
{
    let fill = join_vertex_buffers(circle_meshes);
    let style = SvgStyle::filled(fill_color);
    SvgLayerResource::Direct { style, fill: Some(fill), stroke: None }
}

/// The lines kept for stroking: those with more than two points.
pub open spec fn kept_lines(lines: Seq<Seq<SvgPoint>>) -> Seq<Seq<SvgPoint>>
    decreases lines.len(),
{
    if lines.len() == 0 {
        Seq::empty()
    } else if lines.last().len() > 2 {
        kept_lines(lines.drop_last()).push(lines.last())
    } else {
        kept_lines(lines.drop_last())
    }
}

/// The path events of one polyline: a move to its first point, then a line
/// to each further point.
pub open spec fn line_events(line: Seq<SvgPoint>) -> Seq<SvgPathEvent> {
    Seq::new(
        line.len(),
        |i: int|
            if i == 0 {
                SvgPathEvent::MoveTo(line[0])
            } else {
                SvgPathEvent::LineTo(line[i])
            },
    )
}

/// Turns a batch of polylines into stroke-ready polygon primitives, in order.
/// Lines with two or fewer points are ignored and produce no polygon.
pub fn lines_to_polygons(lines: &Vec<Vec<SvgPoint>>) -> (r: Vec<SvgLayerType>)
    ensures
        ({
            let kept = kept_lines(lines@.map_values(|l: Vec<SvgPoint>| l@));
            &&& r@.len() == kept.len()
            &&& forall|j: int| 0 <= j < kept.len() ==> ((#[trigger] r@[j]) matches
                SvgLayerType::Polygon(evs) && evs@ == line_events(kept[j]))
        }),
{
    let ghost lviews = lines@.map_values(|l: Vec<SvgPoint>| l@);
    let mut result: Vec<SvgLayerType> = Vec::new();
    let mut i: usize = 0;
    proof {
        assert(lviews.take(0) =~= Seq::<Seq<SvgPoint>>::empty());
    }
    while i < lines.len()
        invariant
            i <= lines@.len(),
            lviews == lines@.map_values(|l: Vec<SvgPoint>| l@),
            ({
                let kept = kept_lines(lviews.take(i as int));
                &&& result@.len() == kept.len()
                &&& forall|j: int| 0 <= j < kept.len() ==> ((#[trigger] result@[j]) matches
                    SvgLayerType::Polygon(evs) && evs@ == line_events(kept[j]))
            }),
        decreases lines@.len() - i,
    {
        proof {
            assert(lviews.take(i as int + 1).drop_last() =~= lviews.take(i as int));
            assert(lviews.take(i as int + 1).last() == lviews[i as int]);
        }
        let line = &lines[i];
        if line.len() > 2 {
            let mut events: Vec<SvgPathEvent> = Vec::new();
            events.push(SvgPathEvent::MoveTo(SvgPoint { x: line[0].x, y: line[0].y }));
            let mut k: usize = 1;
            while k < line.len()
                invariant
                    1 <= k <= line@.len(),
                    line@.len() > 2,
                    line@ == lviews[i as int],
                    0 <= i < lviews.len(),
                    events@ == line_events(line@).take(k as int),
                decreases line@.len() - k,
            {
                events.push(SvgPathEvent::LineTo(SvgPoint { x: line[k].x, y: line[k].y }));
                proof {
                    assert(line_events(line@).take(k as int).push(
                        SvgPathEvent::LineTo(line@[k as int]),
                    ) =~= line_events(line@).take(k as int + 1));
                }
                k = k + 1;
            }
            proof {
                assert(line_events(line@).take(line@.len() as int) =~= line_events(line@));
            }
            result.push(SvgLayerType::Polygon(events));
        }
        i = i + 1;
    }
    proof {
        assert(lviews.take(lines@.len() as int) =~= lviews);
    }
    result
}

/// A one-off stroked-lines resource: the stroke meshes of the kept lines,
/// joined into one draw call under a stroke-only style with the given options
/// (or the default stroke options when none are given).
pub fn quick_lines(
    line_meshes: &Vec<VertexBuffers>,
    stroke_color: ColorU,
    stroke_options: Option<SvgStrokeOptions>,
) -> (r: SvgLayerResource)
    requires
        forall|i: int| 0 <= i < line_meshes@.len() ==> mesh_wf(#[trigger] line_meshes@[i]@),
        total_vertices(mesh_views(line_meshes@)) < 0xFFFF_FFFF,
    ensures
        r matches SvgLayerResource::Direct { style, fill, stroke } && {
            &&& style.fill is None
            &&& style.stroke == Some(
                (
                    stroke_color,
                    match stroke_options {
                        Some(o) => o,
                        None => crate::style::default_stroke_options(),
                    },
                ),
            )
            &&& fill is None
            &&& stroke matches Some(b) && b@.vertices == joined_vertices(mesh_views(line_meshes@))
                && b@.indices == joined_indices(mesh_views(line_meshes@), 0)
        },
{
    let opts = match stroke_options {
        Some(o) => o,
        None => SvgStrokeOptions::default(),
    };
    let style = SvgStyle::stroked(stroke_color, opts);
    let stroke = join_vertex_buffers(line_meshes);
    SvgLayerResource::Direct { style, fill: None, stroke: Some(stroke) }
}

impl SampledBezierCurve {
    /// The circles that visualize the sample points, one milli-unit radius
    /// each: tessellated and joined through `quick_circles`, they render the
    /// sampler's debug view.
    pub fn sample_circles(&self) -> (r: Vec<SvgCircle>)
        requires
            self.wf(),
        ensures
            r@.len() == 11,
            forall|i: int| 0 <= i < 11 ==> (#[trigger] r@[i]) == (SvgCircle {
                center_x: self.sampled_bezier_points@[i].x,
                center_y: self.sampled_bezier_points@[i].y,
                radius: 1000,
            }),
    {
        let mut circles: Vec<SvgCircle> = Vec::new();
        let mut i: usize = 0;
        while i < 11
            invariant
                self.wf(),
                i <= 11,
                circles@.len() == i,
                forall|j: int| 0 <= j < i ==> (#[trigger] circles@[j]) == (SvgCircle {
                    center_x: self.sampled_bezier_points@[j].x,
                    center_y: self.sampled_bezier_points@[j].y,
                    radius: 1000,
                }),
            decreases 11 - i,
        {
            let p = self.sampled_bezier_points[i];
            circles.push(SvgCircle { center_x: p.x, center_y: p.y, radius: 1000 });
            i = i + 1;
        }
        circles
    }

    /// The sampled polyline, for the sampler's line debug view through
    /// `lines_to_polygons` and `quick_lines`.
    pub fn sample_line(&self) -> (r: Vec<SvgPoint>)
        requires
            self.wf(),
        ensures
            r@.len() == 11,
            forall|i: int| 0 <= i < 11 ==> (#[trigger] r@[i]) == (SvgPoint {
                x: self.sampled_bezier_points@[i].x,
                y: self.sampled_bezier_points@[i].y,
            }),
    {
        let mut line: Vec<SvgPoint> = Vec::new();
        let mut i: usize = 0;
        while i < 11
            invariant
                self.wf(),
                i <= 11,
                line@.len() == i,
                forall|j: int| 0 <= j < i ==> (#[trigger] line@[j]) == (SvgPoint {
                    x: self.sampled_bezier_points@[j].x,
                    y: self.sampled_bezier_points@[j].y,
                }),
            decreases 11 - i,
        {
            let p = self.sampled_bezier_points[i];
            line.push(SvgPoint { x: p.x, y: p.y });
            i = i + 1;
        }
        line
    }
}


/// What one draw command renders: a cache layer's materialized fill or
/// stroke buffers (by layer id and GPU handle pair), or the inlined fill or
/// stroke mesh of the scene's layer at the given position.
#[derive(Debug, Copy, Clone, PartialEq, Eq)]
pub enum DrawMesh {
    CachedFill(SvgLayerId, GpuBufferPair),
    CachedStroke(SvgLayerId, GpuBufferPair),
    InlineFill(usize),
    InlineStroke(usize),
}

/// One draw call of a frame: what to draw and in which color. Pan, zoom and
/// the z-index are per-frame uniforms, not per command.
#[derive(Debug, Copy, Clone, PartialEq, Eq)]
pub struct DrawCommand {
    pub mesh: DrawMesh,
    pub color: ColorU,
}

/// What composing one scene entry does: an unknown layer id is skipped (a
/// deleted layer is simply not drawn this frame); a known id yields a fill
/// command when the style fills (materializing the GPU fill buffers) and then
/// a stroke command when it strokes (materializing the stroke buffers); an
/// inlined entry yields commands for whichever meshes it carries.
pub open spec fn draw_layer_spec(m: CacheModel, res: SvgLayerResource, idx: int) -> (
    CacheModel,
    Seq<DrawCommand>,
) {
    match res {
        SvgLayerResource::Reference(id) => {
            if !m.layers.dom().contains(id.0) {
                (m, Seq::empty())
            } else {
                let style = m.layers[id.0].style;
                let fill_step = if style.fill is Some {
                    materialize_spec(
                        m.fill_buffers,
                        m.fill_meshes.dom().contains(id.0),
                        m.next_buffer_id,
                        id.0,
                    )
                } else {
                    (m.fill_buffers, m.next_buffer_id, None)
                };
                let m1 = CacheModel {
                    fill_buffers: fill_step.0,
                    next_buffer_id: fill_step.1,
                    ..m
                };
                let fill_cmds = match (style.fill, fill_step.2) {
                    (Some(color), Some(pair)) => seq![
                        DrawCommand { mesh: DrawMesh::CachedFill(id, pair), color },
                    ],
                    _ => Seq::empty(),
                };
                let stroke_step = if style.stroke is Some {
                    materialize_spec(
                        m1.stroke_buffers,
                        m1.stroke_meshes.dom().contains(id.0),
                        m1.next_buffer_id,
                        id.0,
                    )
                } else {
                    (m1.stroke_buffers, m1.next_buffer_id, None)
                };
                let m2 = CacheModel {
                    stroke_buffers: stroke_step.0,
                    next_buffer_id: stroke_step.1,
                    ..m1
                };
                let stroke_cmds = match (style.stroke, stroke_step.2) {
                    (Some((color, _)), Some(pair)) => seq![
                        DrawCommand { mesh: DrawMesh::CachedStroke(id, pair), color },
                    ],
                    _ => Seq::empty(),
                };
                (m2, fill_cmds + stroke_cmds)
            }
        },
        SvgLayerResource::Direct { style, fill, stroke } => {
            let fill_cmds = match (style.fill, fill) {
                (Some(color), Some(_)) => seq![
                    DrawCommand { mesh: DrawMesh::InlineFill(idx as usize), color },
                ],
                _ => Seq::empty(),
            };
            let stroke_cmds = match (style.stroke, stroke) {
                (Some((color, _)), Some(_)) => seq![
                    DrawCommand { mesh: DrawMesh::InlineStroke(idx as usize), color },
                ],
                _ => Seq::empty(),
            };
            (m, fill_cmds + stroke_cmds)
        },
    }
}

/// Composing a whole scene: the entries processed in order, each against the
/// cache state the previous ones left.
pub open spec fn draw_list_spec(m: CacheModel, layers: Seq<SvgLayerResource>, idx: int) -> (
    CacheModel,
    Seq<DrawCommand>,
)
    decreases layers.len(),
{
    if layers.len() == 0 {
        (m, Seq::empty())
    } else {
        let first = draw_layer_spec(m, layers[0], idx);
        let rest = draw_list_spec(first.0, layers.drop_first(), idx + 1);
        (rest.0, first.1 + rest.1)
    }
}

impl Svg {
    /// Composes one frame: walks the scene's layer list in order and returns
    /// the ordered draw commands, materializing GPU buffers on first use.
    /// Referenced layers that no longer exist are skipped, never an error:
    /// a render may legitimately race a deletion.
    pub fn build_draw_list(&self, cache: &mut SvgCache) -> (r: Vec<DrawCommand>)
        requires
            old(cache).wf(),
            old(cache)@.next_buffer_id + 4 * self.layers@.len() <= u64::MAX,
        ensures
            final(cache).wf(),
            ({
                let (m2, cmds) = draw_list_spec(old(cache)@, self.layers@, 0);
                final(cache)@ == m2 && r@ == cmds
            }),
    {
        let ghost m0 = cache@;
        let ghost lrs = self.layers@;
        let mut commands: Vec<DrawCommand> = Vec::new();
        let mut i: usize = 0;
        proof {
            assert(lrs.skip(0) =~= lrs);
        }
        while i < self.layers.len()
            invariant
                i <= lrs.len(),
                self.layers@ == lrs,
                m0.wf(),
                m0.next_buffer_id + 4 * lrs.len() <= u64::MAX,
                cache.wf(),
                cache@.next_buffer_id <= m0.next_buffer_id + 4 * i,
                ({
                    let (m2, cmds) = draw_list_spec(m0, lrs, 0);
                    let (mr, cr) = draw_list_spec(cache@, lrs.skip(i as int), i as int);
                    m2 == mr && cmds == commands@ + cr
                }),
            decreases lrs.len() - i,
        {
            let ghost mi = cache@;
            let ghost pre_cmds = commands@;
            proof {
                assert(lrs.skip(i as int)[0] == lrs[i as int]);
                assert(lrs.skip(i as int).drop_first() =~= lrs.skip(i as int + 1));
            }
            match &self.layers[i] {
                SvgLayerResource::Reference(id) => {
                    if cache.has_layer(id) {
                        let style = cache.get_style(id);
                        if let Some(color) = style.fill {
                            match cache.get_vertices_and_indices(id) {
                                Some(pair) => {
                                    commands.push(DrawCommand {
                                        mesh: DrawMesh::CachedFill(*id, pair),
                                        color,
                                    });
                                },
                                None => {},
                            }
                        }
                        if let Some((color, _)) = style.stroke {
                            match cache.get_stroke_vertices_and_indices(id) {
                                Some(pair) => {
                                    commands.push(DrawCommand {
                                        mesh: DrawMesh::CachedStroke(*id, pair),
                                        color,
                                    });
                                },
                                None => {},
                            }
                        }
                    }
                },
                SvgLayerResource::Direct { style, fill, stroke } => {
                    if let Some(color) = style.fill {
                        if fill.is_some() {
                            commands.push(DrawCommand {
                                mesh: DrawMesh::InlineFill(i),
                                color,
                            });
                        }
                    }
                    if let Some((color, _)) = style.stroke {
                        if stroke.is_some() {
                            commands.push(DrawCommand {
                                mesh: DrawMesh::InlineStroke(i),
                                color,
                            });
                        }
                    }
                },
            }
            proof {
                let step = draw_layer_spec(mi, lrs[i as int], i as int);
                assert(cache@ == step.0 && commands@ =~= pre_cmds + step.1);
                assert(commands@ + draw_list_spec(cache@, lrs.skip(i as int + 1), i as int + 1).1
                    =~= pre_cmds + draw_list_spec(mi, lrs.skip(i as int), i as int).1);
            }
            i = i + 1;
        }
        proof {
            assert(lrs.skip(lrs.len() as int) =~= Seq::<SvgLayerResource>::empty());
            assert(commands@ + Seq::<DrawCommand>::empty() =~= commands@);
        }
        commands
    }
}

} // verus!
