use svg_core::font::{
    get_fill_vertices, get_stroke_vertices, FontId, GlyphId, VectorizedFont, VectorizedFontCache,
};
use svg_core::geometry::SvgVert;
use svg_core::mesh::VertexBuffers;

fn vert(x: i64, y: i64) -> SvgVert {
    SvgVert { xy: (x, y), normal: (0, 0) }
}

fn glyph_mesh(tag: i64) -> VertexBuffers {
    VertexBuffers {
        vertices: vec![vert(tag, 0), vert(tag, 1000), vert(tag + 1000, 0)],
        indices: vec![0, 1, 2],
    }
}

#[test]
fn preloaded_glyphs_are_served_from_the_memo() {
    let mut font = VectorizedFont::from_glyphs(vec![
        (GlyphId(65), glyph_mesh(1), glyph_mesh(2)),
        (GlyphId(66), glyph_mesh(3), glyph_mesh(4)),
    ]);
    let fill = get_fill_vertices(&mut font, &GlyphId(65), None).expect("preloaded glyph");
    assert_eq!(fill.vertices, glyph_mesh(1).vertices);
    let stroke = get_stroke_vertices(&mut font, &GlyphId(66), None).expect("preloaded glyph");
    assert_eq!(stroke.vertices, glyph_mesh(4).vertices);
}

#[test]
fn a_miss_with_decoded_outline_memoizes_both_variants() {
    let mut font = VectorizedFont::new();
    let fill = get_fill_vertices(
        &mut font,
        &GlyphId(1000),
        Some((glyph_mesh(7), glyph_mesh(8))),
    )
    .expect("decoded glyph");
    assert_eq!(fill.vertices, glyph_mesh(7).vertices);
    // The stroke variant was cached by the same lookup: no decoded data is
    // needed the second time.
    let stroke = get_stroke_vertices(&mut font, &GlyphId(1000), None).expect("memoized");
    assert_eq!(stroke.vertices, glyph_mesh(8).vertices);
}

#[test]
fn a_miss_without_decoded_outline_yields_nothing() {
    let mut font = VectorizedFont::new();
    assert!(get_fill_vertices(&mut font, &GlyphId(42), None).is_none());
    assert!(get_stroke_vertices(&mut font, &GlyphId(42), None).is_none());
}

#[test]
fn a_hit_ignores_newly_decoded_data() {
    let mut font = VectorizedFont::from_glyphs(vec![(GlyphId(9), glyph_mesh(1), glyph_mesh(2))]);
    let fill = get_fill_vertices(
        &mut font,
        &GlyphId(9),
        Some((glyph_mesh(99), glyph_mesh(98))),
    )
    .expect("cached glyph");
    assert_eq!(fill.vertices, glyph_mesh(1).vertices);
}

#[test]
fn insert_if_not_exist_is_first_writer_wins() {
    let mut cache = VectorizedFontCache::new();
    let first = VectorizedFont::from_glyphs(vec![(GlyphId(1), glyph_mesh(1), glyph_mesh(2))]);
    let second = VectorizedFont::from_glyphs(vec![(GlyphId(2), glyph_mesh(3), glyph_mesh(4))]);
    cache.insert_if_not_exist(FontId(0), first);
    cache.insert_if_not_exist(FontId(0), second);
    let font = cache.get_font(&FontId(0)).expect("font loaded");
    // Still the first font: it knows glyph 1, not glyph 2.
    assert!(font.has_glyph(&GlyphId(1)));
    assert!(!font.has_glyph(&GlyphId(2)));
}

#[test]
fn remove_font_forgets_the_font() {
    let mut cache = VectorizedFontCache::new();
    cache.insert(FontId(3), VectorizedFont::new());
    assert!(cache.get_font(&FontId(3)).is_some());
    cache.remove_font(&FontId(3));
    assert!(cache.get_font(&FontId(3)).is_none());
}
