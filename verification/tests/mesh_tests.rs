use svg_core::geometry::{
    rotate_vertex_buffer, scale_vertex_buffer, transform_vertex_buffer, GlyphVertex, LayerType,
    SvgLayerType, SvgPathEvent, SvgPoint, SvgVert,
};
use svg_core::mesh::{
    join_vertex_buffers, split_index_runs, tesselate_layer_data, TessellatedPrimitive,
    VertexBuffers, GL_RESTART_INDEX,
};
use svg_core::scene::{lines_to_polygons, quick_circles, quick_lines, SvgLayerResource};
use svg_core::style::{ColorU, SvgStrokeOptions};
use svg_core::geometry::rusttype_glyph_to_path_events;

fn vert(x: i64, y: i64) -> SvgVert {
    SvgVert { xy: (x, y), normal: (0, 0) }
}

fn mesh_a() -> VertexBuffers {
    VertexBuffers {
        vertices: vec![vert(0, 0), vert(1000, 0), vert(0, 1000)],
        indices: vec![0, 1, 2],
    }
}

fn mesh_b() -> VertexBuffers {
    VertexBuffers {
        vertices: vec![vert(5000, 0), vert(6000, 0), vert(5000, 1000)],
        indices: vec![0, 2, 1],
    }
}

#[test]
fn join_rebases_indices_and_inserts_restart() {
    let joined = join_vertex_buffers(&vec![mesh_a(), mesh_b()]);
    assert_eq!(joined.vertices.len(), 6);
    assert_eq!(
        joined.indices,
        vec![0, 1, 2, GL_RESTART_INDEX, 3, 5, 4, GL_RESTART_INDEX]
    );
}

#[test]
fn join_of_nothing_is_empty() {
    let joined = join_vertex_buffers(&vec![]);
    assert_eq!(joined.vertices.len(), 0);
    assert_eq!(joined.indices.len(), 0);
}

#[test]
fn join_then_split_recovers_rebased_runs() {
    let joined = join_vertex_buffers(&vec![mesh_a(), mesh_b()]);
    let runs = split_index_runs(&joined.indices);
    assert_eq!(runs.len(), 2);
    assert_eq!(runs[0], vec![0, 1, 2]);
    assert_eq!(runs[1], vec![3, 5, 4]);
}

#[test]
fn split_keeps_a_trailing_run_without_sentinel() {
    let runs = split_index_runs(&vec![1, 2, GL_RESTART_INDEX, 9]);
    assert_eq!(runs.len(), 2);
    assert_eq!(runs[0], vec![1, 2]);
    assert_eq!(runs[1], vec![9]);
}

#[test]
fn quick_circle_wraps_one_mesh_with_its_sentinel() {
    let black = ColorU { r: 0, g: 0, b: 0, a: 255 };
    match svg_core::scene::quick_circle(mesh_a(), black) {
        SvgLayerResource::Direct { style, fill, stroke } => {
            assert_eq!(style.fill, Some(black));
            assert!(stroke.is_none());
            let fill = fill.expect("fill mesh present");
            assert_eq!(fill.vertices, mesh_a().vertices);
            assert_eq!(fill.indices, vec![0, 1, 2, GL_RESTART_INDEX]);
        },
        SvgLayerResource::Reference(_) => panic!("expected a direct resource"),
    }
}

#[test]
fn split_keeps_empty_runs() {
    let runs = split_index_runs(&vec![GL_RESTART_INDEX, 7, GL_RESTART_INDEX]);
    assert_eq!(runs.len(), 2);
    assert_eq!(runs[0], Vec::<u32>::new());
    assert_eq!(runs[1], vec![7]);
}

#[test]
fn tesselate_layer_data_skips_stroke_when_not_requested() {
    let prims = vec![
        TessellatedPrimitive { fill: mesh_a(), stroke: None },
        TessellatedPrimitive { fill: mesh_b(), stroke: None },
    ];
    let (fill, stroke) = tesselate_layer_data(&prims, None);
    assert_eq!(fill.vertices.len(), 6);
    assert_eq!(
        fill.indices,
        vec![0, 1, 2, GL_RESTART_INDEX, 3, 5, 4, GL_RESTART_INDEX]
    );
    assert!(stroke.is_none());
}

#[test]
fn tesselate_layer_data_joins_strokes_when_requested() {
    let prims = vec![
        TessellatedPrimitive { fill: mesh_a(), stroke: Some(mesh_b()) },
        TessellatedPrimitive { fill: mesh_b(), stroke: Some(mesh_a()) },
    ];
    let (fill, stroke) = tesselate_layer_data(&prims, Some(SvgStrokeOptions::default()));
    assert_eq!(fill.vertices.len(), 6);
    let stroke = stroke.expect("stroke requested");
    assert_eq!(stroke.vertices.len(), 6);
    assert_eq!(
        stroke.indices,
        vec![0, 2, 1, GL_RESTART_INDEX, 3, 4, 5, GL_RESTART_INDEX]
    );
}

#[test]
fn quick_circles_of_empty_list_yields_empty_mesh() {
    let black = ColorU { r: 0, g: 0, b: 0, a: 255 };
    match quick_circles(&vec![], black) {
        SvgLayerResource::Direct { style, fill, stroke } => {
            assert_eq!(style.fill, Some(black));
            assert!(style.stroke.is_none());
            assert!(stroke.is_none());
            let fill = fill.expect("fill mesh present");
            assert_eq!(fill.vertices.len(), 0);
            assert_eq!(fill.indices.len(), 0);
        },
        SvgLayerResource::Reference(_) => panic!("expected a direct resource"),
    }
}

#[test]
fn quick_lines_wraps_strokes_with_default_options() {
    let red = ColorU { r: 255, g: 0, b: 0, a: 255 };
    match quick_lines(&vec![mesh_a()], red, None) {
        SvgLayerResource::Direct { style, fill, stroke } => {
            assert!(fill.is_none());
            let (color, opts) = style.stroke.expect("stroked style");
            assert_eq!(color, red);
            assert_eq!(opts, SvgStrokeOptions::default());
            let stroke = stroke.expect("stroke mesh present");
            assert_eq!(stroke.indices, vec![0, 1, 2, GL_RESTART_INDEX]);
        },
        SvgLayerResource::Reference(_) => panic!("expected a direct resource"),
    }
}

#[test]
fn lines_to_polygons_keeps_only_long_lines() {
    let p = |x: i64, y: i64| SvgPoint { x, y };
    let lines = vec![
        vec![p(0, 0), p(1000, 0)],
        vec![p(0, 0), p(1000, 0), p(1000, 1000)],
    ];
    let polys = lines_to_polygons(&lines);
    assert_eq!(polys.len(), 1);
    match &polys[0] {
        SvgLayerType::Polygon(evs) => {
            assert_eq!(evs.len(), 3);
            assert_eq!(evs[0], SvgPathEvent::MoveTo(p(0, 0)));
            assert_eq!(evs[1], SvgPathEvent::LineTo(p(1000, 0)));
            assert_eq!(evs[2], SvgPathEvent::LineTo(p(1000, 1000)));
        },
        _ => panic!("expected a polygon"),
    }
}

#[test]
fn layer_type_exposes_its_shapes() {
    let circle = SvgLayerType::Circle(svg_core::geometry::SvgCircle {
        center_x: 0,
        center_y: 0,
        radius: 1000,
    });
    let single = LayerType::from_single_layer(circle.clone());
    assert_eq!(single.get().len(), 1);
    let many = LayerType::from_polygons(vec![circle.clone(), circle]);
    assert_eq!(many.get().len(), 2);
}

#[test]
fn transform_vertex_buffer_moves_positions() {
    let mut verts = vec![vert(1000, 2000), vert(-500, 0)];
    transform_vertex_buffer(&mut verts, 10, -20);
    assert_eq!(verts[0].xy, (1010, 1980));
    assert_eq!(verts[1].xy, (-490, -20));
    assert_eq!(verts[0].normal, (0, 0));
}

#[test]
fn scale_vertex_buffer_scales_by_milli_factor() {
    let mut verts = vec![vert(1000, -3000)];
    scale_vertex_buffer(&mut verts, 2500);
    assert_eq!(verts[0].xy, (2500, -7500));
}

#[test]
fn rotate_vertex_buffer_quarter_turn() {
    let mut verts = vec![vert(1000, 2000)];
    rotate_vertex_buffer(&mut verts, 1000, 0);
    assert_eq!(verts[0].xy, (-2000, 1000));
}

#[test]
fn glyph_vertices_invert_the_y_axis() {
    let ev = rusttype_glyph_to_path_events(&GlyphVertex::MoveTo { x: 10, y: 20 });
    assert_eq!(ev, SvgPathEvent::MoveTo(SvgPoint { x: 10, y: -20 }));
    let ev = rusttype_glyph_to_path_events(&GlyphVertex::CurveTo { cx: 1, cy: 2, x: 3, y: 4 });
    assert_eq!(
        ev,
        SvgPathEvent::QuadraticTo(SvgPoint { x: 1, y: -2 }, SvgPoint { x: 3, y: -4 })
    );
}
