use vstd::prelude::*;
use std::collections::HashMap;
use crate::mesh::{copy_mesh, MeshView, VertexBuffers};

verus! {

broadcast use vstd::std_specs::hash::group_hash_axioms;

/// Identity of one glyph within a font: the font's own glyph index.
#[derive(Debug, Copy, Clone, PartialEq, Eq, Hash, Structural)]
pub struct GlyphId(pub u32);

/// Identity of a loaded font, as the embedding application numbers them.
#[derive(Debug, Copy, Clone, PartialEq, Eq, Hash, Structural)]
pub struct FontId(pub usize);

/// A vectorized font: per glyph, the memoized fill and stroke meshes of its
/// outline. The two maps always hold exactly the same glyphs: whenever a
/// glyph is decoded, both variants are stored together, since both are cheap
/// once the outline is known — the first lookup for either pays for both.
#[derive(Debug)]
pub struct VectorizedFont {
    glyph_polygon_map: HashMap<u32, VertexBuffers>,
    glyph_stroke_map: HashMap<u32, VertexBuffers>,
}

impl VectorizedFont {
    /// The glyph-to-fill-mesh map.
    pub closed spec fn fill_map(&self) -> Map<u32, MeshView> {
        self.glyph_polygon_map@.map_values(|m: VertexBuffers| m@)
    }

    /// The glyph-to-stroke-mesh map.
    pub closed spec fn stroke_map(&self) -> Map<u32, MeshView> {
        self.glyph_stroke_map@.map_values(|m: VertexBuffers| m@)
    }

    /// Both maps memoize exactly the same glyphs.
    pub open spec fn wf(&self) -> bool {
        self.fill_map().dom() == self.stroke_map().dom()
    }

    /// An empty vectorized font, with no glyph decoded yet.
    pub fn new() -> (r: Self)
        ensures
            r.wf(),
            r.fill_map() == Map::<u32, MeshView>::empty(),
            r.stroke_map() == Map::<u32, MeshView>::empty(),
    {
        let f = VectorizedFont {
            glyph_polygon_map: HashMap::new(),
            glyph_stroke_map: HashMap::new(),
        };
        proof {
            assert(f.fill_map() =~= Map::<u32, MeshView>::empty());
            assert(f.stroke_map() =~= Map::<u32, MeshView>::empty());
            assert(f.fill_map().dom() =~= f.stroke_map().dom());
        }
        f
    }

    /// Whether this font has memoized the glyph.
    pub fn has_glyph(&self, id: &GlyphId) -> (r: bool)
        ensures
            r == self.fill_map().dom().contains(id.0),
    {
        self.glyph_polygon_map.contains_key(&id.0)
    }

    /// Stores the decoded fill and stroke mesh of one glyph, together.
    pub fn insert_glyph(&mut self, id: GlyphId, fill: VertexBuffers, stroke: VertexBuffers)
        requires
            old(self).wf(),
        ensures
            final(self).wf(),
            final(self).fill_map() == old(self).fill_map().insert(id.0, fill@),
            final(self).stroke_map() == old(self).stroke_map().insert(id.0, stroke@),
    {
        let ghost pre = *self;
        proof {
            lemma_mesh_map_values_insert(self.glyph_polygon_map@, id.0, fill);
            lemma_mesh_map_values_insert(self.glyph_stroke_map@, id.0, stroke);
        }
        self.glyph_polygon_map.insert(id.0, fill);
        self.glyph_stroke_map.insert(id.0, stroke);
        proof {
            assert(self.fill_map().dom() =~= self.stroke_map().dom());
        }
    }

    /// Builds a vectorized font from a batch of decoded glyphs (id, fill
    /// mesh, stroke mesh) — the eager pre-tessellation of the common glyph
    /// codes at load time. A glyph appearing twice keeps its later meshes.
    pub fn from_glyphs(glyphs: Vec<(GlyphId, VertexBuffers, VertexBuffers)>) -> (r: Self)
        ensures
            r.wf(),
            r.fill_map() == fill_map_of_glyphs(glyphs@),
            r.stroke_map() == stroke_map_of_glyphs(glyphs@),
    {
        let ghost gs = glyphs@;
        let mut font = VectorizedFont::new();
        let mut rest = glyphs;
        let ghost mut i: int = 0;
        proof {
            assert(gs.take(0) =~= Seq::<(GlyphId, VertexBuffers, VertexBuffers)>::empty());
        }
        while rest.len() > 0
            invariant
                0 <= i,
                i + rest@.len() == gs.len(),
                rest@ == gs.skip(i),
                font.wf(),
                font.fill_map() == fill_map_of_glyphs(gs.take(i)),
                font.stroke_map() == stroke_map_of_glyphs(gs.take(i)),
            decreases rest@.len(),
        {
            let (id, fill, stroke) = rest.remove(0);
            proof {
                assert((id, fill, stroke) == gs[i]);
                assert(rest@ =~= gs.skip(i + 1));
                assert(gs.take(i + 1).drop_last() =~= gs.take(i));
                assert(gs.take(i + 1).last() == gs[i]);
            }
            font.insert_glyph(id, fill, stroke);
            proof {
                i = i + 1;
            }
        }
        proof {
            assert(gs.take(gs.len() as int) =~= gs);
        }
        font
    }
}

/// Inserting a mesh into a hash map commutes with viewing the values.
proof fn lemma_mesh_map_values_insert(m: Map<u32, VertexBuffers>, k: u32, v: VertexBuffers)
    ensures
        m.insert(k, v).map_values(|b: VertexBuffers| b@) == m.map_values(
            |b: VertexBuffers| b@,
        ).insert(k, v@),
{
    assert(m.insert(k, v).map_values(|b: VertexBuffers| b@) =~= m.map_values(
        |b: VertexBuffers| b@,
    ).insert(k, v@));
}

/// The fill map a batch of decoded glyphs builds; a glyph appearing twice
/// keeps its later meshes.
pub open spec fn fill_map_of_glyphs(gs: Seq<(GlyphId, VertexBuffers, VertexBuffers)>) -> Map<
    u32,
    MeshView,
>
    decreases gs.len(),
{
    if gs.len() == 0 {
        Map::empty()
    } else {
        fill_map_of_glyphs(gs.drop_last()).insert(gs.last().0.0, gs.last().1@)
    }
}

/// The stroke map a batch of decoded glyphs builds.
pub open spec fn stroke_map_of_glyphs(gs: Seq<(GlyphId, VertexBuffers, VertexBuffers)>) -> Map<
    u32,
    MeshView,
>
    decreases gs.len(),
{
    if gs.len() == 0 {
        Map::empty()
    } else {
        stroke_map_of_glyphs(gs.drop_last()).insert(gs.last().0.0, gs.last().2@)
    }
}

/// The fill mesh of a glyph. A cached glyph is answered from the memo, with
/// the font unchanged. For an uncached glyph, the caller passes the decoded
/// and tessellated outline (fill and stroke) in `decoded`: both variants are
/// then memoized together and the fill mesh is returned. An uncached glyph
/// without decoded data (the font does not have it) yields nothing.
pub fn get_fill_vertices(
    vectorized_font: &mut VectorizedFont,
    id: &GlyphId,
    decoded: Option<(VertexBuffers, VertexBuffers)>,
) -> (r: Option<VertexBuffers>)
    requires
        old(vectorized_font).wf(),
    ensures
        final(vectorized_font).wf(),
        old(vectorized_font).fill_map().dom().contains(id.0) ==> {
            &&& r matches Some(m) && m@ == old(vectorized_font).fill_map()[id.0]
            &&& *final(vectorized_font) == *old(vectorized_font)
        },
        !old(vectorized_font).fill_map().dom().contains(id.0) ==> match decoded {
            Some((fill, stroke)) => {
                &&& r matches Some(m) && m@ == fill@
                &&& final(vectorized_font).fill_map() == old(vectorized_font).fill_map().insert(
                    id.0,
                    fill@,
                )
                &&& final(vectorized_font).stroke_map() == old(
                    vectorized_font,
                ).stroke_map().insert(id.0, stroke@)
            },
            None => r is None && *final(vectorized_font) == *old(vectorized_font),
        },
{
    let cached = match vectorized_font.glyph_polygon_map.get(&id.0) {
        Some(m) => Some(copy_mesh(m)),
        None => None,
    };
    match cached {
        Some(m) => Some(m),
        None => {
            match decoded {
                Some((fill, stroke)) => {
                    let out = copy_mesh(&fill);
                    vectorized_font.insert_glyph(*id, fill, stroke);
                    Some(out)
                },
                None => None,
            }
        },
    }
}

/// The stroke mesh of a glyph, with the same memoization as
/// `get_fill_vertices`: an uncached glyph stores both decoded variants
/// together and returns the stroke mesh.
pub fn get_stroke_vertices(
    vectorized_font: &mut VectorizedFont,
    id: &GlyphId,
    decoded: Option<(VertexBuffers, VertexBuffers)>,
) -> (r: Option<VertexBuffers>)
    requires
        old(vectorized_font).wf(),
    ensures
        final(vectorized_font).wf(),
        old(vectorized_font).stroke_map().dom().contains(id.0) ==> {
            &&& r matches Some(m) && m@ == old(vectorized_font).stroke_map()[id.0]
            &&& *final(vectorized_font) == *old(vectorized_font)
        },
        !old(vectorized_font).stroke_map().dom().contains(id.0) ==> match decoded {
            Some((fill, stroke)) => {
                &&& r matches Some(m) && m@ == stroke@
                &&& final(vectorized_font).fill_map() == old(vectorized_font).fill_map().insert(
                    id.0,
                    fill@,
                )
                &&& final(vectorized_font).stroke_map() == old(
                    vectorized_font,
                ).stroke_map().insert(id.0, stroke@)
            },
            None => r is None && *final(vectorized_font) == *old(vectorized_font),
        },
{
    let cached = match vectorized_font.glyph_stroke_map.get(&id.0) {
        Some(m) => Some(copy_mesh(m)),
        None => None,
    };
    match cached {
        Some(m) => Some(m),
        None => {
            match decoded {
                Some((fill, stroke)) => {
                    let out = copy_mesh(&stroke);
                    vectorized_font.insert_glyph(*id, fill, stroke);
                    Some(out)
                },
                None => None,
            }
        },
    }
}

/// The font cache: maps a font identity to its vectorized font.
#[derive(Debug)]
pub struct VectorizedFontCache {
    vectorized_fonts: HashMap<usize, VectorizedFont>,
}

impl Default for VectorizedFontCache {
    fn default() -> (r: Self)
        ensures
            r.wf(),
            r.fonts() == Map::<usize, VectorizedFont>::empty(),
    {
        VectorizedFontCache::new()
    }
}

impl VectorizedFontCache {
    /// The font-id-to-font map.
    pub closed spec fn fonts(&self) -> Map<usize, VectorizedFont> {
        self.vectorized_fonts@
    }

    /// Every cached font is internally consistent.
    pub open spec fn wf(&self) -> bool {
        forall|id: usize| #[trigger]
            self.fonts().dom().contains(id) ==> self.fonts()[id].wf()
    }

    /// An empty font cache.
    pub fn new() -> (r: Self)
        ensures
            r.wf(),
            r.fonts() == Map::<usize, VectorizedFont>::empty(),
    {
        VectorizedFontCache { vectorized_fonts: HashMap::new() }
    }

    /// Inserts a vectorized font only if the id is absent: first writer wins,
    /// and re-inserting an already-loaded font is a no-op.
    pub fn insert_if_not_exist(&mut self, id: FontId, font: VectorizedFont)
        requires
            old(self).wf(),
            font.wf(),
        ensures
            final(self).wf(),
            old(self).fonts().dom().contains(id.0) ==> final(self).fonts() == old(self).fonts(),
            !old(self).fonts().dom().contains(id.0) ==> final(self).fonts() == old(
                self,
            ).fonts().insert(id.0, font),
    {
        if !self.vectorized_fonts.contains_key(&id.0) {
            self.vectorized_fonts.insert(id.0, font);
            proof {
                assert forall|k: usize| #[trigger] self.fonts().dom().contains(k)
                    implies self.fonts()[k].wf() by {
                    if k != id.0 {
                        assert(old(self).fonts().dom().contains(k));
                    }
                }
            }
        }
    }

    /// Inserts a vectorized font, replacing any previous one under the id.
    pub fn insert(&mut self, id: FontId, font: VectorizedFont)
        requires
            old(self).wf(),
            font.wf(),
        ensures
            final(self).wf(),
            final(self).fonts() == old(self).fonts().insert(id.0, font),
    {
        self.vectorized_fonts.insert(id.0, font);
        proof {
            assert forall|k: usize| #[trigger] self.fonts().dom().contains(k)
                implies self.fonts()[k].wf() by {
                if k != id.0 {
                    assert(old(self).fonts().dom().contains(k));
                }
            }
        }
    }

    /// The vectorized font of an id, if it is loaded.
    pub fn get_font(&self, id: &FontId) -> (r: Option<&VectorizedFont>)
        ensures
            (r is Some) == self.fonts().dom().contains(id.0),
            match r {
                Some(f) => self.fonts().dom().contains(id.0) && *f == self.fonts()[id.0],
                None => !self.fonts().dom().contains(id.0),
            },
    {
        self.vectorized_fonts.get(&id.0)
    }

    /// Removes a font from the cache; removing an unknown id is a no-op.
    pub fn remove_font(&mut self, id: &FontId)
        requires
            old(self).wf(),
        ensures
            final(self).wf(),
            final(self).fonts() == old(self).fonts().remove(id.0),
    {
        self.vectorized_fonts.remove(&id.0);
        proof {
            assert forall|k: usize| #[trigger] self.fonts().dom().contains(k)
                implies self.fonts()[k].wf() by {
                assert(old(self).fonts().dom().contains(k));
            }
        }
    }
}

} // verus!
