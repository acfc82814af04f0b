use svg_core::cache::{
    DecodedSvg, DecodedSvgLayer, SvgCache, SvgCallbacks, SvgLayer, SvgTransform, SvgViewBox,
};
use svg_core::geometry::{LayerType, SvgCircle, SvgLayerType, SvgVert};
use svg_core::ids::{SvgIdAllocator, SvgViewBoxId};
use svg_core::mesh::{TessellatedPrimitive, VertexBuffers};
use svg_core::style::{ColorU, SvgStrokeOptions, SvgStyle};

fn vert(x: i64, y: i64) -> SvgVert {
    SvgVert { xy: (x, y), normal: (0, 0) }
}

fn triangle_mesh() -> VertexBuffers {
    VertexBuffers {
        vertices: vec![vert(0, 0), vert(1000, 0), vert(0, 1000)],
        indices: vec![0, 1, 2],
    }
}

fn circle_data() -> LayerType {
    LayerType::from_single_layer(SvgLayerType::Circle(SvgCircle {
        center_x: 0,
        center_y: 0,
        radius: 1000,
    }))
}

fn filled_layer(color: ColorU) -> (SvgLayer, Vec<TessellatedPrimitive>) {
    let layer = SvgLayer {
        data: circle_data(),
        callbacks: SvgCallbacks::NoCallback,
        style: SvgStyle::filled(color),
        transform_id: None,
        view_box_id: SvgViewBoxId(0),
    };
    let meshes = vec![TessellatedPrimitive { fill: triangle_mesh(), stroke: None }];
    (layer, meshes)
}

#[test]
fn default_from_layer_has_no_callbacks_and_a_fresh_view_box() {
    let red = ColorU { r: 255, g: 0, b: 0, a: 255 };
    let mut ids = SvgIdAllocator::new();
    let layer = SvgLayer::default_from_layer(circle_data(), SvgStyle::filled(red), &mut ids);
    assert_eq!(layer.style, SvgStyle::filled(red));
    assert!(layer.transform_id.is_none());
    assert_eq!(layer.callbacks, SvgCallbacks::NoCallback);
    assert_eq!(layer.view_box_id, SvgViewBoxId(0));
    let second = SvgLayer::default_from_layer(circle_data(), SvgStyle::filled(red), &mut ids);
    assert_eq!(second.view_box_id, SvgViewBoxId(1));
}

#[test]
fn id_allocator_mints_increasing_ids() {
    let mut ids = SvgIdAllocator::new();
    assert_eq!(ids.new_svg_layer_id().0, 0);
    assert_eq!(ids.new_svg_layer_id().0, 1);
    assert_eq!(ids.new_svg_transform_id().0, 0);
    assert_eq!(ids.new_view_box_id().0, 0);
    assert_eq!(ids.new_svg_layer_id().0, 2);
}

#[test]
fn add_layer_then_get_style_returns_the_inserted_style() {
    let red = ColorU { r: 255, g: 0, b: 0, a: 255 };
    let mut cache = SvgCache::empty();
    let (layer, meshes) = filled_layer(red);
    let id = cache.add_layer(layer, &meshes);
    assert!(cache.has_layer(&id));
    assert_eq!(cache.get_style(&id), SvgStyle::filled(red));
}

#[test]
fn delete_layer_makes_every_lookup_not_found() {
    let red = ColorU { r: 255, g: 0, b: 0, a: 255 };
    let mut cache = SvgCache::empty();
    let (layer, meshes) = filled_layer(red);
    let id = cache.add_layer(layer, &meshes);
    cache.get_vertices_and_indices(&id).expect("materializes before deletion");
    cache.delete_layer(id);
    assert!(!cache.has_layer(&id));
    assert!(cache.fill_mesh(&id).is_none());
    assert!(cache.stroke_mesh(&id).is_none());
    assert!(cache.get_vertices_and_indices(&id).is_none());
    assert!(cache.get_stroke_vertices_and_indices(&id).is_none());
}

#[test]
fn delete_layer_of_unknown_id_is_a_no_op() {
    let red = ColorU { r: 255, g: 0, b: 0, a: 255 };
    let mut cache = SvgCache::empty();
    let (layer, meshes) = filled_layer(red);
    let id = cache.add_layer(layer, &meshes);
    cache.delete_layer(svg_core::ids::SvgLayerId(id.0 + 17));
    assert!(cache.has_layer(&id));
}

#[test]
fn materialization_is_idempotent() {
    let red = ColorU { r: 255, g: 0, b: 0, a: 255 };
    let mut cache = SvgCache::empty();
    let (layer, meshes) = filled_layer(red);
    let id = cache.add_layer(layer, &meshes);
    let first = cache.get_vertices_and_indices(&id).expect("known layer");
    let second = cache.get_vertices_and_indices(&id).expect("known layer");
    assert_eq!(first, second);
}

#[test]
fn stroke_buffers_exist_only_for_stroked_layers() {
    let red = ColorU { r: 255, g: 0, b: 0, a: 255 };
    let mut cache = SvgCache::empty();
    let (layer, meshes) = filled_layer(red);
    let id = cache.add_layer(layer, &meshes);
    assert!(cache.get_stroke_vertices_and_indices(&id).is_none());

    let stroked = SvgLayer {
        data: circle_data(),
        callbacks: SvgCallbacks::NoCallback,
        style: SvgStyle::stroked(red, SvgStrokeOptions::default()),
        transform_id: None,
        view_box_id: SvgViewBoxId(0),
    };
    let stroked_meshes = vec![TessellatedPrimitive {
        fill: triangle_mesh(),
        stroke: Some(triangle_mesh()),
    }];
    let sid = cache.add_layer(stroked, &stroked_meshes);
    assert!(cache.get_stroke_vertices_and_indices(&sid).is_some());
}

#[test]
fn clear_all_layers_empties_the_layer_maps() {
    let red = ColorU { r: 255, g: 0, b: 0, a: 255 };
    let mut cache = SvgCache::empty();
    let (layer, meshes) = filled_layer(red);
    let id = cache.add_layer(layer, &meshes);
    cache.clear_all_layers();
    assert!(!cache.has_layer(&id));
    assert!(cache.fill_mesh(&id).is_none());
}

#[test]
fn ids_are_never_reused_after_deletion() {
    let red = ColorU { r: 255, g: 0, b: 0, a: 255 };
    let mut cache = SvgCache::empty();
    let (layer, meshes) = filled_layer(red);
    let first = cache.add_layer(layer, &meshes);
    cache.delete_layer(first);
    let (layer2, meshes2) = filled_layer(red);
    let second = cache.add_layer(layer2, &meshes2);
    assert!(second.0 > first.0);
}

#[test]
fn add_transforms_later_entries_overwrite() {
    let mut cache = SvgCache::empty();
    let t1 = SvgTransform { a: 1000, b: 0, c: 0, d: 1000, e: 5000, f: 0 };
    let t2 = SvgTransform { a: 1000, b: 0, c: 0, d: 1000, e: 9000, f: 0 };
    let id = cache.new_svg_transform_id();
    let other = cache.new_svg_transform_id();
    cache.add_transforms(vec![(id, t1), (other, t1), (id, t2)]);
    assert_eq!(cache.get_transform(&id), Some(&t2));
    assert_eq!(cache.get_transform(&other), Some(&t1));
}

#[test]
fn add_svg_inserts_layers_in_document_order() {
    let red = ColorU { r: 255, g: 0, b: 0, a: 255 };
    let blue = ColorU { r: 0, g: 0, b: 255, a: 255 };
    let mut cache = SvgCache::empty();
    let decoded = DecodedSvg {
        layers: vec![
            DecodedSvgLayer {
                data: circle_data(),
                callbacks: SvgCallbacks::NoCallback,
                style: SvgStyle::filled(red),
                transform: None,
                meshes: vec![TessellatedPrimitive { fill: triangle_mesh(), stroke: None }],
            },
            DecodedSvgLayer {
                data: circle_data(),
                callbacks: SvgCallbacks::NoCallback,
                style: SvgStyle::filled(blue),
                transform: Some(SvgTransform { a: 1000, b: 0, c: 0, d: 1000, e: 100, f: 200 }),
                meshes: vec![TessellatedPrimitive { fill: triangle_mesh(), stroke: None }],
            },
        ],
        view_box: SvgViewBox { x: 0, y: 0, width: 100_000, height: 100_000 },
    };
    let ids = cache.add_svg(decoded);
    assert_eq!(ids.len(), 2);
    assert!(ids[0].0 < ids[1].0);
    assert_eq!(cache.get_style(&ids[0]), SvgStyle::filled(red));
    assert_eq!(cache.get_style(&ids[1]), SvgStyle::filled(blue));
}
