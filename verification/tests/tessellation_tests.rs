use lyon::math::point;
use lyon::tessellation::{BuffersBuilder, FillOptions, FillTessellator, FillVertex, VertexBuffers};

/// Tessellates one circle with the real tessellator at the given flattening
/// tolerance and reports the vertex count.
fn circle_vertex_count(tolerance: f32) -> usize {
    let mut geometry: VertexBuffers<[f32; 2], u32> = VertexBuffers::new();
    let mut tess = FillTessellator::new();
    tess.tessellate_circle(
        point(0.0, 0.0),
        100.0,
        &FillOptions::tolerance(tolerance),
        &mut BuffersBuilder::new(&mut geometry, |v: FillVertex| {
            [v.position().x, v.position().y]
        }),
    )
    .expect("circle tessellation succeeds");
    geometry.vertices.len()
}

#[test]
fn finer_tolerance_never_produces_fewer_vertices() {
    // Coarser tolerance means fewer or equal samples of the true curve.
    let fine = circle_vertex_count(0.01);
    let medium = circle_vertex_count(0.1);
    let coarse = circle_vertex_count(1.0);
    assert!(fine >= medium);
    assert!(medium >= coarse);
    assert!(fine > coarse);
}
