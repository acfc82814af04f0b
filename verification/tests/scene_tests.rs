use svg_core::cache::{SvgCache, SvgCallbacks, SvgLayer};
use svg_core::geometry::{LayerType, SvgCircle, SvgLayerType, SvgVert};
use svg_core::ids::SvgViewBoxId;
use svg_core::mesh::{TessellatedPrimitive, VertexBuffers, VerticesIndicesBuffer};
use svg_core::scene::{DrawMesh, Svg, SvgLayerResource};
use svg_core::style::{ColorU, SvgLineCap, SvgLineJoin, SvgStrokeOptions, SvgStyle};

#[test]
fn scene_builders_set_their_fields() {
    let svg = Svg::with_layers(Vec::new())
        .with_pan(1500, -2500)
        .with_zoom(2000)
        .with_fxaa(true);
    assert_eq!(svg.pan, (1500, -2500));
    assert_eq!(svg.zoom, 2000);
    assert!(svg.enable_fxaa);
    assert_eq!(svg.layers.len(), 0);
}

#[test]
fn default_scene_is_unpanned_and_unzoomed() {
    let svg = Svg::default();
    assert_eq!(svg.pan, (0, 0));
    assert_eq!(svg.zoom, 1000);
    assert!(!svg.enable_fxaa);
}

#[test]
fn stroke_options_default_to_quantized_svg_defaults() {
    let opts = SvgStrokeOptions::default();
    assert_eq!(opts.line_width, 1000);
    assert_eq!(opts.miter_limit, 4000);
    assert_eq!(opts.tolerance, 100);
    assert_eq!(opts.start_cap, SvgLineCap::Butt);
    assert_eq!(opts.end_cap, SvgLineCap::Butt);
    assert_eq!(opts.line_join, SvgLineJoin::Miter);
    assert!(opts.apply_line_width);
}

#[test]
fn stroke_width_quantizes_to_thousandths_and_back() {
    // A line width of 1.0 is stored as the integer 1000; converting back for
    // the tessellator divides by 1000.0 and must reproduce 1.0 exactly.
    let opts = SvgStrokeOptions { line_width: (1.0f32 * 1000.0) as usize, ..Default::default() };
    assert_eq!(opts.line_width, 1000);
    let back = opts.line_width as f32 / 1000.0;
    assert!((back - 1.0f32).abs() < f32::EPSILON);

    let opts = SvgStrokeOptions { line_width: (2.5f32 * 1000.0) as usize, ..Default::default() };
    assert_eq!(opts.line_width, 2500);
    let back = opts.line_width as f32 / 1000.0;
    assert!((back - 2.5f32).abs() < 1e-6);
}

#[test]
fn styles_carry_only_what_they_were_given() {
    let red = ColorU { r: 255, g: 0, b: 0, a: 255 };
    let filled = SvgStyle::filled(red);
    assert_eq!(filled.fill, Some(red));
    assert!(filled.stroke.is_none());
    let stroked = SvgStyle::stroked(red, SvgStrokeOptions::default());
    assert_eq!(stroked.stroke, Some((red, SvgStrokeOptions::default())));
    assert!(stroked.fill.is_none());
}

#[test]
fn draw_list_follows_scene_order_and_styles() {
    let red = ColorU { r: 255, g: 0, b: 0, a: 255 };
    let blue = ColorU { r: 0, g: 0, b: 255, a: 255 };
    let mut cache = SvgCache::empty();
    let layer = SvgLayer {
        data: LayerType::from_single_layer(SvgLayerType::Circle(SvgCircle {
            center_x: 0,
            center_y: 0,
            radius: 1000,
        })),
        callbacks: SvgCallbacks::NoCallback,
        style: SvgStyle::filled(red),
        transform_id: None,
        view_box_id: SvgViewBoxId(0),
    };
    let mesh = VertexBuffers {
        vertices: vec![
            SvgVert { xy: (0, 0), normal: (0, 0) },
            SvgVert { xy: (1000, 0), normal: (0, 0) },
            SvgVert { xy: (0, 1000), normal: (0, 0) },
        ],
        indices: vec![0, 1, 2],
    };
    let id = cache.add_layer(layer, &vec![TessellatedPrimitive { fill: mesh, stroke: None }]);

    let inline = VerticesIndicesBuffer {
        vertices: vec![SvgVert { xy: (0, 0), normal: (0, 0) }],
        indices: vec![0],
    };
    let scene = Svg::with_layers(vec![
        SvgLayerResource::Reference(id),
        SvgLayerResource::Direct { style: SvgStyle::filled(blue), fill: Some(inline), stroke: None },
    ]);

    let commands = scene.build_draw_list(&mut cache);
    assert_eq!(commands.len(), 2);
    assert_eq!(commands[0].color, red);
    match commands[0].mesh {
        DrawMesh::CachedFill(cid, pair) => {
            assert_eq!(cid, id);
            // A second frame reuses the very same GPU buffers.
            let again = scene.build_draw_list(&mut cache);
            match again[0].mesh {
                DrawMesh::CachedFill(_, pair2) => assert_eq!(pair, pair2),
                _ => panic!("expected a cached fill"),
            }
        },
        _ => panic!("expected a cached fill"),
    }
    assert_eq!(commands[1].color, blue);
    assert!(matches!(commands[1].mesh, DrawMesh::InlineFill(1)));
}

#[test]
fn draw_list_skips_deleted_layers() {
    let red = ColorU { r: 255, g: 0, b: 0, a: 255 };
    let mut cache = SvgCache::empty();
    let layer = SvgLayer {
        data: LayerType::from_single_layer(SvgLayerType::Circle(SvgCircle {
            center_x: 0,
            center_y: 0,
            radius: 1000,
        })),
        callbacks: SvgCallbacks::NoCallback,
        style: SvgStyle::filled(red),
        transform_id: None,
        view_box_id: SvgViewBoxId(0),
    };
    let mesh = VertexBuffers {
        vertices: vec![SvgVert { xy: (0, 0), normal: (0, 0) }],
        indices: vec![0],
    };
    let id = cache.add_layer(layer, &vec![TessellatedPrimitive { fill: mesh, stroke: None }]);
    cache.delete_layer(id);
    let scene = Svg::with_layers(vec![SvgLayerResource::Reference(id)]);
    let commands = scene.build_draw_list(&mut cache);
    assert_eq!(commands.len(), 0);
}
