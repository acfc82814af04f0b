use vstd::prelude::*;
use std::collections::HashMap;
use crate::ids::{SvgIdAllocator, SvgLayerId, SvgTransformId, SvgViewBoxId};
use crate::style::SvgStyle;
use crate::geometry::LayerType;
use crate::mesh::{
    fill_views, joined_indices, joined_vertices, primitives_joinable, stroke_views,
    tesselate_layer_data, MeshView, TessellatedPrimitive, VerticesIndicesBuffer,
};

verus! {

broadcast use vstd::std_specs::hash::group_hash_axioms;

/// A 2-D affine transform (two-by-three matrix), milli-quantized. Today only
/// the offset column is consumed, but the full matrix is carried.
#[derive(Debug, Copy, Clone, PartialEq, Eq, Structural)]
pub struct SvgTransform {
    pub a: i64,
    pub b: i64,
    pub c: i64,
    pub d: i64,
    pub e: i64,
    pub f: i64,
}

/// The rectangle a vector document maps onto the viewport, milli-quantized.
#[derive(Debug, Copy, Clone, PartialEq, Eq, Structural)]
pub struct SvgViewBox {
    pub x: i64,
    pub y: i64,
    pub width: i64,
    pub height: i64,
}

/// Interaction callbacks attached to a layer, referenced by opaque handles
/// the embedding application owns.
#[derive(Debug, Clone, PartialEq, Eq)]
pub enum SvgCallbacks {
    /// No callbacks for this layer.
    NoCallback,
    /// Call one callback on interaction with any of the sub-shapes.
    Any(u64),
    /// Call the callback paired with a sub-shape's index on interaction with
    /// that sub-shape.
    PerShape(Vec<(usize, u64)>),
}

/// Error from decoding an SVG source, carrying the decoder's message.
#[derive(Debug, Clone, PartialEq, Eq)]
pub enum SvgParseError {
    /// Syntax error in the SVG markup.
    FailedToParseSvg(String),
    /// I/O error reading the source.
    IoError(String),
}

/// One visual unit: a geometry payload whose primitives share one style, the
/// style, an optional transform reference and a view-box reference.
#[derive(Debug, Clone)]
pub struct SvgLayer {
    pub data: LayerType,
    pub callbacks: SvgCallbacks,
    pub style: SvgStyle,
    pub transform_id: Option<SvgTransformId>,
    pub view_box_id: SvgViewBoxId,
}

impl SvgLayer {
    /// A layer from geometry and style alone: no callbacks, no transform,
    /// and a freshly minted view-box id.
    pub fn default_from_layer(data: LayerType, style: SvgStyle, ids: &mut SvgIdAllocator) -> (r:
        Self)
        requires
            old(ids).next_view_box() < usize::MAX,
        ensures
            r.data == data,
            r.callbacks == SvgCallbacks::NoCallback,
            r.style == style,
            r.transform_id is None,
            r.view_box_id.0 == old(ids).next_view_box(),
            final(ids).next_view_box() == old(ids).next_view_box() + 1,
            final(ids).next_layer() == old(ids).next_layer(),
            final(ids).next_transform() == old(ids).next_transform(),
    {
        let view_box_id = ids.new_view_box_id();
        SvgLayer {
            data,
            callbacks: SvgCallbacks::NoCallback,
            style,
            transform_id: None,
            view_box_id,
        }
    }
}

/// Handles of one GPU-resident vertex/index buffer pair. The display context
/// owns the real buffer objects and keys them by these handles; the cache
/// decides when a pair must be allocated and hands the handles out.
#[derive(Debug, Copy, Clone, PartialEq, Eq, Structural)]
pub struct GpuBufferPair {
    pub vertex_buffer_id: u64,
    pub index_buffer_id: u64,
}

/// The mathematical content of the layer cache.
pub struct CacheModel {
    /// The logical layers.
    pub layers: Map<usize, SvgLayer>,
    /// CPU-side joined fill mesh per layer.
    pub fill_meshes: Map<usize, MeshView>,
    /// CPU-side joined stroke mesh, present exactly for stroked layers.
    pub stroke_meshes: Map<usize, MeshView>,
    /// Lazily materialized GPU fill buffers, a subset of `fill_meshes`.
    pub fill_buffers: Map<usize, GpuBufferPair>,
    /// Lazily materialized GPU stroke buffers, a subset of `stroke_meshes`.
    pub stroke_buffers: Map<usize, GpuBufferPair>,
    /// The transform table.
    pub transforms: Map<usize, SvgTransform>,
    /// The view-box table.
    pub view_boxes: Map<usize, SvgViewBox>,
    pub next_layer_id: int,
    pub next_transform_id: int,
    pub next_view_box_id: int,
    pub next_buffer_id: int,
}

impl CacheModel {
    /// The cache's internal consistency: every logical layer has a fill mesh,
    /// a stroke mesh exactly when its style strokes, GPU buffers only for
    /// existing meshes, and every key below its watermark.
    pub open spec fn wf(&self) -> bool {
        &&& self.fill_meshes.dom() == self.layers.dom()
        &&& forall|id: usize|
            self.stroke_meshes.dom().contains(id) <==> (self.layers.dom().contains(id)
                && #[trigger] self.layers[id].style.stroke is Some)
        &&& forall|id: usize| #[trigger]
            self.fill_buffers.dom().contains(id) ==> self.fill_meshes.dom().contains(id)
        &&& forall|id: usize| #[trigger]
            self.stroke_buffers.dom().contains(id) ==> self.stroke_meshes.dom().contains(id)
        &&& forall|id: usize| #[trigger] self.layers.dom().contains(id) ==> id < self.next_layer_id
        &&& forall|id: usize| #[trigger]
            self.transforms.dom().contains(id) ==> id < self.next_transform_id
        &&& forall|id: usize| #[trigger]
            self.view_boxes.dom().contains(id) ==> id < self.next_view_box_id
        &&& forall|id: usize| #[trigger]
            self.fill_buffers.dom().contains(id) ==> self.fill_buffers[id].vertex_buffer_id
                < self.next_buffer_id && self.fill_buffers[id].index_buffer_id
                < self.next_buffer_id
        &&& forall|id: usize| #[trigger]
            self.stroke_buffers.dom().contains(id) ==> self.stroke_buffers[id].vertex_buffer_id
                < self.next_buffer_id && self.stroke_buffers[id].index_buffer_id
                < self.next_buffer_id
        &&& 0 <= self.next_layer_id <= usize::MAX
        &&& 0 <= self.next_transform_id <= usize::MAX
        &&& 0 <= self.next_view_box_id <= usize::MAX
        &&& 0 <= self.next_buffer_id <= u64::MAX
    }

    /// The completely empty cache.
    pub open spec fn empty_model() -> CacheModel {
        CacheModel {
            layers: Map::empty(),
            fill_meshes: Map::empty(),
            stroke_meshes: Map::empty(),
            fill_buffers: Map::empty(),
            stroke_buffers: Map::empty(),
            transforms: Map::empty(),
            view_boxes: Map::empty(),
            next_layer_id: 0,
            next_transform_id: 0,
            next_view_box_id: 0,
            next_buffer_id: 0,
        }
    }
}

/// A fill and index list as one mesh view.
pub open spec fn joined_mesh(ms: Seq<MeshView>) -> MeshView {
    MeshView { vertices: joined_vertices(ms), indices: joined_indices(ms, 0) }
}

/// What `delete_layer` does to the model: the id leaves every layer-keyed
/// map; transforms, view boxes and all watermarks stay.
pub open spec fn delete_layer_spec(m: CacheModel, id: usize) -> CacheModel {
    CacheModel {
        layers: m.layers.remove(id),
        fill_meshes: m.fill_meshes.remove(id),
        stroke_meshes: m.stroke_meshes.remove(id),
        fill_buffers: m.fill_buffers.remove(id),
        stroke_buffers: m.stroke_buffers.remove(id),
        ..m
    }
}

/// What `add_layer` does to the model: mints the next layer id, stores the
/// layer, its joined fill mesh, and its joined stroke mesh exactly when the
/// style strokes. GPU buffers are not touched: materialization is deferred
/// to first render.
pub open spec fn add_layer_spec(
    m: CacheModel,
    layer: SvgLayer,
    fill: MeshView,
    stroke: Option<MeshView>,
) -> (CacheModel, SvgLayerId) {
    let id = m.next_layer_id as usize;
    (
        CacheModel {
            layers: m.layers.insert(id, layer),
            fill_meshes: m.fill_meshes.insert(id, fill),
            stroke_meshes: match stroke {
                Some(s) => m.stroke_meshes.insert(id, s),
                None => m.stroke_meshes,
            },
            next_layer_id: m.next_layer_id + 1,
            ..m
        },
        SvgLayerId(id),
    )
}

/// What one lazy materialization step does to a GPU buffer map: an already
/// materialized pair is returned as is; otherwise, if the CPU mesh exists, a
/// fresh handle pair is minted and recorded; otherwise nothing happens.
pub open spec fn materialize_spec(
    buffers: Map<usize, GpuBufferPair>,
    has_mesh: bool,
    next_buffer_id: int,
    id: usize,
) -> (Map<usize, GpuBufferPair>, int, Option<GpuBufferPair>) {
    if buffers.dom().contains(id) {
        (buffers, next_buffer_id, Some(buffers[id]))
    } else if has_mesh {
        let pair = GpuBufferPair {
            vertex_buffer_id: next_buffer_id as u64,
            index_buffer_id: (next_buffer_id + 1) as u64,
        };
        (buffers.insert(id, pair), next_buffer_id + 2, Some(pair))
    } else {
        (buffers, next_buffer_id, None)
    }
}

/// Materialization is idempotent: a second lookup for the same id returns the
/// pair the first one produced and changes nothing — no duplicate GPU
/// allocation.
pub proof fn lemma_materialize_idempotent(
    buffers: Map<usize, GpuBufferPair>,
    has_mesh: bool,
    next_buffer_id: int,
    id: usize,
)
    ensures
        ({
            let (b1, n1, r1) = materialize_spec(buffers, has_mesh, next_buffer_id, id);
            materialize_spec(b1, has_mesh, n1, id) == (b1, n1, r1)
        }),
{
}

/// Deleting a layer makes every lookup for its id come back "not found": the
/// id is gone from the logical map, both CPU mesh maps and both GPU buffer
/// maps.
pub proof fn lemma_delete_then_lookup_not_found(m: CacheModel, id: usize)
    ensures
        !delete_layer_spec(m, id).layers.dom().contains(id),
        !delete_layer_spec(m, id).fill_meshes.dom().contains(id),
        !delete_layer_spec(m, id).stroke_meshes.dom().contains(id),
        !delete_layer_spec(m, id).fill_buffers.dom().contains(id),
        !delete_layer_spec(m, id).stroke_buffers.dom().contains(id),
{
}

/// Adding a layer and then asking for its style returns exactly the style
/// that was inserted.
pub proof fn lemma_add_then_get_style(
    m: CacheModel,
    layer: SvgLayer,
    fill: MeshView,
    stroke: Option<MeshView>,
)
    ensures
        ({
            let (m2, id) = add_layer_spec(m, layer, fill, stroke);
            m2.layers.dom().contains(id.0) && m2.layers[id.0].style == layer.style
        }),
{
}

/// Merging a batch of transform pairs: later entries with a colliding id
/// overwrite earlier ones.
pub open spec fn merge_transforms(
    m: Map<usize, SvgTransform>,
    pairs: Seq<(SvgTransformId, SvgTransform)>,
) -> Map<usize, SvgTransform>
    decreases pairs.len(),
{
    if pairs.len() == 0 {
        m
    } else {
        merge_transforms(m, pairs.drop_last()).insert(pairs.last().0.0, pairs.last().1)
    }
}

/// The layer cache: owns the logical layers, the CPU-side joined meshes per
/// layer, the lazily materialized GPU buffer handles, the transform and
/// view-box tables, and the id allocator that mints every identity.
pub struct SvgCache {
    layers: HashMap<usize, SvgLayer>,
    gpu_ready_to_upload_cache: HashMap<usize, VerticesIndicesBuffer>,
    stroke_gpu_ready_to_upload_cache: HashMap<usize, VerticesIndicesBuffer>,
    vertex_index_buffer_cache: HashMap<usize, GpuBufferPair>,
    stroke_vertex_index_buffer_cache: HashMap<usize, GpuBufferPair>,
    transforms: HashMap<usize, SvgTransform>,
    view_boxes: HashMap<usize, SvgViewBox>,
    ids: SvgIdAllocator,
    next_buffer_id: u64,
}

impl View for SvgCache {
    type V = CacheModel;

    closed spec fn view(&self) -> CacheModel {
        CacheModel {
            layers: self.layers@,
            fill_meshes: self.gpu_ready_to_upload_cache@.map_values(
                |m: VerticesIndicesBuffer| m@,
            ),
            stroke_meshes: self.stroke_gpu_ready_to_upload_cache@.map_values(
                |m: VerticesIndicesBuffer| m@,
            ),
            fill_buffers: self.vertex_index_buffer_cache@,
            stroke_buffers: self.stroke_vertex_index_buffer_cache@,
            transforms: self.transforms@,
            view_boxes: self.view_boxes@,
            next_layer_id: self.ids.next_layer(),
            next_transform_id: self.ids.next_transform(),
            next_view_box_id: self.ids.next_view_box(),
            next_buffer_id: self.next_buffer_id as int,
        }
    }
}

/// Inserting into a map commutes with viewing its values.
proof fn lemma_map_values_insert<K, V, W>(m: Map<K, V>, k: K, v: V, f: spec_fn(V) -> W)
    ensures
        m.insert(k, v).map_values(f) == m.map_values(f).insert(k, f(v)),
{
    assert(m.insert(k, v).map_values(f) =~= m.map_values(f).insert(k, f(v)));
}

/// Removing from a map commutes with viewing its values.
proof fn lemma_map_values_remove<K, V, W>(m: Map<K, V>, k: K, f: spec_fn(V) -> W)
    ensures
        m.remove(k).map_values(f) == m.map_values(f).remove(k),
{
    assert(m.remove(k).map_values(f) =~= m.map_values(f).remove(k));
}

impl Default for SvgCache {
    fn default() -> (r: Self)
        ensures
            r.wf(),
            r@ == CacheModel::empty_model(),
    {
        SvgCache::empty()
    }
}

impl SvgCache {
    /// Whether the cache's internal invariant holds; every operation
    /// preserves it.
    pub open spec fn wf(&self) -> bool {
        self@.wf()
    }

    /// Creates an empty cache.
    pub fn empty() -> (r: Self)
        ensures
            r.wf(),
            r@ == CacheModel::empty_model(),
    {
        let c = SvgCache {
            layers: HashMap::new(),
            gpu_ready_to_upload_cache: HashMap::new(),
            stroke_gpu_ready_to_upload_cache: HashMap::new(),
            vertex_index_buffer_cache: HashMap::new(),
            stroke_vertex_index_buffer_cache: HashMap::new(),
            transforms: HashMap::new(),
            view_boxes: HashMap::new(),
            ids: SvgIdAllocator::new(),
            next_buffer_id: 0,
        };
        proof {
            assert(Map::<usize, VerticesIndicesBuffer>::empty().map_values(
                |m: VerticesIndicesBuffer| m@,
            ) =~= Map::<usize, MeshView>::empty());
            assert(c@ =~= CacheModel::empty_model());
        }
        c
    }

    /// Whether an id currently names a layer.
    pub fn has_layer(&self, id: &SvgLayerId) -> (r: bool)
        ensures
            r == self@.layers.dom().contains(id.0),
    {
        self.layers.contains_key(&id.0)
    }

    /// The stored style of a layer. The id must be present: asking for the
    /// style of a missing layer is an internal-consistency defect, not a
    /// user-facing "not found".
    pub fn get_style(&self, id: &SvgLayerId) -> (r: SvgStyle)
        requires
            self@.layers.dom().contains(id.0),
        ensures
            r == self@.layers[id.0].style,
    {
        match self.layers.get(&id.0) {
            Some(layer) => layer.style,
            None => {
                proof {
                    assert(false);
                }
                SvgStyle { stroke: None, fill: None }
            },
        }
    }

    /// The CPU-side joined fill mesh of a layer, if the id is known.
    pub fn fill_mesh(&self, id: &SvgLayerId) -> (r: Option<&VerticesIndicesBuffer>)
        ensures
            (r is Some) == self@.fill_meshes.dom().contains(id.0),
            match r {
                Some(m) => self@.fill_meshes.dom().contains(id.0) && m@ == self@.fill_meshes[id.0],
                None => !self@.fill_meshes.dom().contains(id.0),
            },
    {
        self.gpu_ready_to_upload_cache.get(&id.0)
    }

    /// The CPU-side joined stroke mesh of a layer, if the id is known and the
    /// layer strokes.
    pub fn stroke_mesh(&self, id: &SvgLayerId) -> (r: Option<&VerticesIndicesBuffer>)
        ensures
            (r is Some) == self@.stroke_meshes.dom().contains(id.0),
            match r {
                Some(m) => self@.stroke_meshes.dom().contains(id.0) && m@
                    == self@.stroke_meshes[id.0],
                None => !self@.stroke_meshes.dom().contains(id.0),
            },
    {
        self.stroke_gpu_ready_to_upload_cache.get(&id.0)
    }

    /// The stored transform of an id, if any.
    pub fn get_transform(&self, id: &SvgTransformId) -> (r: Option<&SvgTransform>)
        ensures
            (r is Some) == self@.transforms.dom().contains(id.0),
            match r {
                Some(t) => self@.transforms.dom().contains(id.0) && *t == self@.transforms[id.0],
                None => !self@.transforms.dom().contains(id.0),
            },
    {
        self.transforms.get(&id.0)
    }

    /// Removes a layer from the logical map, both CPU mesh maps and both GPU
    /// buffer maps. Removing an id that does not exist is a no-op.
    pub fn delete_layer(&mut self, svg_id: SvgLayerId)
        requires
            old(self).wf(),
        ensures
            final(self).wf(),
            final(self)@ == delete_layer_spec(old(self)@, svg_id.0),
    {
        self.layers.remove(&svg_id.0);
        self.gpu_ready_to_upload_cache.remove(&svg_id.0);
        self.stroke_gpu_ready_to_upload_cache.remove(&svg_id.0);
        self.vertex_index_buffer_cache.remove(&svg_id.0);
        self.stroke_vertex_index_buffer_cache.remove(&svg_id.0);
        proof {
            lemma_map_values_remove(
                old(self).gpu_ready_to_upload_cache@,
                svg_id.0,
                |m: VerticesIndicesBuffer| m@,
            );
            lemma_map_values_remove(
                old(self).stroke_gpu_ready_to_upload_cache@,
                svg_id.0,
                |m: VerticesIndicesBuffer| m@,
            );
            assert(self@ =~= delete_layer_spec(old(self)@, svg_id.0));
        }
    }

    /// Empties every layer-keyed map: the logical map, both CPU mesh maps and
    /// both GPU buffer maps. Transform and view-box tables, and all id
    /// watermarks, stay: ids are never reused.
    pub fn clear_all_layers(&mut self)
        requires
            old(self).wf(),
        ensures
            final(self).wf(),
            final(self)@ == (CacheModel {
                layers: Map::empty(),
                fill_meshes: Map::empty(),
                stroke_meshes: Map::empty(),
                fill_buffers: Map::empty(),
                stroke_buffers: Map::empty(),
                ..old(self)@
            }),
    {
        self.layers.clear();
        self.gpu_ready_to_upload_cache.clear();
        self.stroke_gpu_ready_to_upload_cache.clear();
        self.vertex_index_buffer_cache.clear();
        self.stroke_vertex_index_buffer_cache.clear();
        proof {
            assert(Map::<usize, VerticesIndicesBuffer>::empty().map_values(
                |m: VerticesIndicesBuffer| m@,
            ) =~= Map::<usize, MeshView>::empty());
            assert(self@ =~= (CacheModel {
                layers: Map::empty(),
                fill_meshes: Map::empty(),
                stroke_meshes: Map::empty(),
                fill_buffers: Map::empty(),
                stroke_buffers: Map::empty(),
                ..old(self)@
            }));
        }
    }

    /// Merges a batch of transform pairs into the transform table; later
    /// entries with a colliding id overwrite earlier ones.
    pub fn add_transforms(&mut self, transforms: Vec<(SvgTransformId, SvgTransform)>)
        requires
            old(self).wf(),
            forall|i: int| 0 <= i < transforms@.len() ==> (#[trigger] transforms@[i].0.0 as int)
                < old(self)@.next_transform_id,
        ensures
            final(self).wf(),
            final(self)@ == (CacheModel {
                transforms: merge_transforms(old(self)@.transforms, transforms@),
                ..old(self)@
            }),
    {
        let ghost pairs = transforms@;
        let ghost pre = self@;
        let mut i: usize = 0;
        proof {
            assert(pairs.take(0) =~= Seq::<(SvgTransformId, SvgTransform)>::empty());
        }
        while i < transforms.len()
            invariant
                i <= pairs.len(),
                transforms@ == pairs,
                forall|j: int| 0 <= j < pairs.len() ==> (#[trigger] pairs[j].0.0 as int)
                    < pre.next_transform_id,
                pre.wf(),
                pre == old(self)@,
                self@ == (CacheModel {
                    transforms: merge_transforms(pre.transforms, pairs.take(i as int)),
                    ..pre
                }),
            decreases pairs.len() - i,
        {
            let (k, v) = transforms[i];
            self.transforms.insert(k.0, v);
            proof {
                assert(pairs.take(i as int + 1).drop_last() =~= pairs.take(i as int));
                assert(pairs.take(i as int + 1).last() == pairs[i as int]);
                assert(self@ =~= (CacheModel {
                    transforms: merge_transforms(pre.transforms, pairs.take(i as int + 1)),
                    ..pre
                }));
            }
            i = i + 1;
        }
        proof {
            assert(pairs.take(pairs.len() as int) =~= pairs);
            lemma_merge_transforms_watermark(
                old(self)@.transforms,
                pairs,
                old(self)@.next_transform_id,
            );
        }
    }

    /// Returns the GPU buffer pair for a layer's fill mesh, materializing it
    /// on first call, or "not found" if the id is unknown. A second call for
    /// the same id returns the same pair and allocates nothing.
    pub fn get_vertices_and_indices(&mut self, id: &SvgLayerId) -> (r: Option<GpuBufferPair>)
        requires
            old(self).wf(),
            old(self)@.next_buffer_id + 2 <= u64::MAX,
        ensures
            final(self).wf(),
            ({
                let (b2, n2, rr) = materialize_spec(
                    old(self)@.fill_buffers,
                    old(self)@.fill_meshes.dom().contains(id.0),
                    old(self)@.next_buffer_id,
                    id.0,
                );
                final(self)@ == (CacheModel { fill_buffers: b2, next_buffer_id: n2, ..old(self)@ })
                    && r == rr
            }),
    {
        match self.vertex_index_buffer_cache.get(&id.0) {
            Some(pair) => {
                let r = *pair;
                proof {
                    assert(self@ =~= (CacheModel { ..old(self)@ }));
                }
                Some(r)
            },
            None => {
                if self.gpu_ready_to_upload_cache.contains_key(&id.0) {
                    let pair = GpuBufferPair {
                        vertex_buffer_id: self.next_buffer_id,
                        index_buffer_id: self.next_buffer_id + 1,
                    };
                    self.vertex_index_buffer_cache.insert(id.0, pair);
                    self.next_buffer_id = self.next_buffer_id + 2;
                    proof {
                        assert(self@ =~= (CacheModel {
                            fill_buffers: old(self)@.fill_buffers.insert(id.0, pair),
                            next_buffer_id: old(self)@.next_buffer_id + 2,
                            ..old(self)@
                        }));
                    }
                    Some(pair)
                } else {
                    proof {
                        assert(self@ =~= (CacheModel { ..old(self)@ }));
                    }
                    None
                }
            },
        }
    }

    /// Returns the GPU buffer pair for a layer's stroke mesh, materializing
    /// it on first call, or "not found" if the id is unknown or the layer has
    /// no stroke.
    pub fn get_stroke_vertices_and_indices(&mut self, id: &SvgLayerId) -> (r: Option<
        GpuBufferPair,
    >)
        requires
            old(self).wf(),
            old(self)@.next_buffer_id + 2 <= u64::MAX,
        ensures
            final(self).wf(),
            ({
                let (b2, n2, rr) = materialize_spec(
                    old(self)@.stroke_buffers,
                    old(self)@.stroke_meshes.dom().contains(id.0),
                    old(self)@.next_buffer_id,
                    id.0,
                );
                final(self)@ == (CacheModel {
                    stroke_buffers: b2,
                    next_buffer_id: n2,
                    ..old(self)@
                }) && r == rr
            }),
    {
        match self.stroke_vertex_index_buffer_cache.get(&id.0) {
            Some(pair) => {
                let r = *pair;
                proof {
                    assert(self@ =~= (CacheModel { ..old(self)@ }));
                }
                Some(r)
            },
            None => {
                if self.stroke_gpu_ready_to_upload_cache.contains_key(&id.0) {
                    let pair = GpuBufferPair {
                        vertex_buffer_id: self.next_buffer_id,
                        index_buffer_id: self.next_buffer_id + 1,
                    };
                    self.stroke_vertex_index_buffer_cache.insert(id.0, pair);
                    self.next_buffer_id = self.next_buffer_id + 2;
                    proof {
                        assert(self@ =~= (CacheModel {
                            stroke_buffers: old(self)@.stroke_buffers.insert(id.0, pair),
                            next_buffer_id: old(self)@.next_buffer_id + 2,
                            ..old(self)@
                        }));
                    }
                    Some(pair)
                } else {
                    proof {
                        assert(self@ =~= (CacheModel { ..old(self)@ }));
                    }
                    None
                }
            },
        }
    }
}

/// One decoded SVG path layer before insertion: geometry, callbacks, style,
/// the document transform it carries (if any), and the tessellation of its
/// primitives at the default tolerance.
pub struct DecodedSvgLayer {
    pub data: LayerType,
    pub callbacks: SvgCallbacks,
    pub style: SvgStyle,
    pub transform: Option<SvgTransform>,
    pub meshes: Vec<TessellatedPrimitive>,
}

/// A decoded SVG document: its path layers in document order, plus its view
/// box.
pub struct DecodedSvg {
    pub layers: Vec<DecodedSvgLayer>,
    pub view_box: SvgViewBox,
}

/// Whether a decoded layer can be inserted: its meshes joinable and one
/// tessellated primitive per shape.
pub open spec fn decoded_layer_ok(l: DecodedSvgLayer) -> bool {
    &&& primitives_joinable(l.meshes@, l.style.stroke is Some)
    &&& l.meshes@.len() == l.data.shapes().len()
}

impl SvgCache {
    /// Mints a fresh transform id from the cache's allocator, for callers
    /// assembling a transform batch.
    pub fn new_svg_transform_id(&mut self) -> (r: SvgTransformId)
        requires
            old(self).wf(),
            old(self)@.next_transform_id < usize::MAX,
        ensures
            final(self).wf(),
            r.0 as int == old(self)@.next_transform_id,
            final(self)@ == (CacheModel {
                next_transform_id: old(self)@.next_transform_id + 1,
                ..old(self)@
            }),
    {
        let r = self.ids.new_svg_transform_id();
        proof {
            assert(self@ =~= (CacheModel {
                next_transform_id: old(self)@.next_transform_id + 1,
                ..old(self)@
            }));
        }
        r
    }

    /// Allocates a new id, joins the layer's tessellated primitives into the
    /// CPU fill mesh (always) and the CPU stroke mesh (exactly when the
    /// layer's style strokes), stores the layer, and returns the id. No GPU
    /// buffers are created here: many layers are never drawn, so
    /// materialization is deferred to first render.
    pub fn add_layer(&mut self, layer: SvgLayer, prim_meshes: &Vec<TessellatedPrimitive>) -> (r:
        SvgLayerId)
        requires
            old(self).wf(),
            old(self)@.next_layer_id < usize::MAX,
            primitives_joinable(prim_meshes@, layer.style.stroke is Some),
            prim_meshes@.len() == layer.data.shapes().len(),
        ensures
            final(self).wf(),
            ({
                let (m2, id) = add_layer_spec(
                    old(self)@,
                    layer,
                    joined_mesh(fill_views(prim_meshes@)),
                    if layer.style.stroke is Some {
                        Some(joined_mesh(stroke_views(prim_meshes@)))
                    } else {
                        None
                    },
                );
                final(self)@ == m2 && r == id
            }),
    {
        let stroke_options = match &layer.style.stroke {
            Some((_, o)) => Some(*o),
            None => None,
        };
        let (fill, stroke) = tesselate_layer_data(prim_meshes, stroke_options);
        let new_svg_id = self.ids.new_svg_layer_id();
        let ghost fill_view = fill@;
        proof {
            lemma_map_values_insert(
                self.gpu_ready_to_upload_cache@,
                new_svg_id.0,
                fill,
                |m: VerticesIndicesBuffer| m@,
            );
        }
        self.gpu_ready_to_upload_cache.insert(new_svg_id.0, fill);
        match stroke {
            Some(s) => {
                proof {
                    lemma_map_values_insert(
                        self.stroke_gpu_ready_to_upload_cache@,
                        new_svg_id.0,
                        s,
                        |m: VerticesIndicesBuffer| m@,
                    );
                }
                self.stroke_gpu_ready_to_upload_cache.insert(new_svg_id.0, s);
            },
            None => {},
        }
        self.layers.insert(new_svg_id.0, layer);
        proof {
            let (m2, id) = add_layer_spec(
                old(self)@,
                layer,
                joined_mesh(fill_views(prim_meshes@)),
                if layer.style.stroke is Some {
                    Some(joined_mesh(stroke_views(prim_meshes@)))
                } else {
                    None
                },
            );
            assert(self@ =~= m2);
        }
        new_svg_id
    }

    /// Inserts an already-decoded SVG document: registers its view box under
    /// a fresh id, mints a transform id for each decoded layer that carries a
    /// transform, and inserts the layers one by one via `add_layer`. The
    /// returned ids are in document order. Decoding failures abort before
    /// this call, so the cache is never left partially updated by a failed
    /// document.
    pub fn add_svg(&mut self, input: DecodedSvg) -> (r: Vec<SvgLayerId>)
        requires
            old(self).wf(),
            old(self)@.next_layer_id + input.layers@.len() <= usize::MAX,
            old(self)@.next_transform_id + input.layers@.len() <= usize::MAX,
            old(self)@.next_view_box_id < usize::MAX,
            forall|i: int| 0 <= i < input.layers@.len() ==> decoded_layer_ok(
                #[trigger] input.layers@[i],
            ),
        ensures
            final(self).wf(),
            r@.len() == input.layers@.len(),
            forall|i: int| 0 <= i < r@.len() ==> (#[trigger] r@[i].0 as int) == old(
                self,
            )@.next_layer_id + i,
            forall|i: int| 0 <= i < r@.len() ==> inserted_layer_ok(
                old(self)@,
                final(self)@,
                input.layers@[i],
                #[trigger] r@[i],
            ),
            final(self)@.view_boxes == old(self)@.view_boxes.insert(
                old(self)@.next_view_box_id as usize,
                input.view_box,
            ),
            final(self)@.next_layer_id == old(self)@.next_layer_id + input.layers@.len(),
            forall|id: usize| #[trigger] old(self)@.layers.dom().contains(id)
                ==> final(self)@.layers.dom().contains(id)
                    && final(self)@.layers[id] == old(self)@.layers[id],
            forall|id: usize| #[trigger] old(self)@.transforms.dom().contains(id)
                ==> final(self)@.transforms.dom().contains(id)
                    && final(self)@.transforms[id] == old(self)@.transforms[id],
            final(self)@.fill_buffers == old(self)@.fill_buffers,
            final(self)@.stroke_buffers == old(self)@.stroke_buffers,
            final(self)@.next_buffer_id == old(self)@.next_buffer_id,
    {
        let ghost pre = self@;
        let ghost dls = input.layers@;
        let ghost vb_key = self@.next_view_box_id as usize;
        let mut decoded_layers = input.layers;
        let doc_view_box = input.view_box;
        let view_box_id = self.ids.new_view_box_id();
        self.view_boxes.insert(view_box_id.0, doc_view_box);
        proof {
            assert(self@ =~= (CacheModel {
                view_boxes: pre.view_boxes.insert(vb_key, doc_view_box),
                next_view_box_id: pre.next_view_box_id + 1,
                ..pre
            }));
        }
        let mut result: Vec<SvgLayerId> = Vec::new();
        let mut i: usize = 0;
        while decoded_layers.len() > 0
            invariant
                pre.wf(),
                i + decoded_layers@.len() == dls.len(),
                decoded_layers@ == dls.skip(i as int),
                forall|j: int| 0 <= j < dls.len() ==> decoded_layer_ok(#[trigger] dls[j]),
                pre.next_layer_id + dls.len() <= usize::MAX,
                pre.next_transform_id + dls.len() <= usize::MAX,
                pre.next_view_box_id < usize::MAX,
                vb_key as int == pre.next_view_box_id,
                view_box_id.0 == vb_key,
                self.wf(),
                self@.next_layer_id == pre.next_layer_id + i,
                self@.next_transform_id <= pre.next_transform_id + i,
                self@.next_view_box_id == pre.next_view_box_id + 1,
                self@.view_boxes == pre.view_boxes.insert(vb_key, doc_view_box),
                self@.fill_buffers == pre.fill_buffers,
                self@.stroke_buffers == pre.stroke_buffers,
                self@.next_buffer_id == pre.next_buffer_id,
                result@.len() == i,
                forall|j: int| 0 <= j < i ==> (#[trigger] result@[j].0 as int) == pre.next_layer_id
                    + j,
                forall|j: int| 0 <= j < i ==> inserted_layer_ok(
                    pre,
                    self@,
                    dls[j],
                    #[trigger] result@[j],
                ),
                forall|id: usize| #[trigger] pre.layers.dom().contains(id)
                    ==> self@.layers.dom().contains(id) && self@.layers[id] == pre.layers[id],
                forall|id: usize| #[trigger] pre.transforms.dom().contains(id)
                    ==> self@.transforms.dom().contains(id) && self@.transforms[id]
                    == pre.transforms[id],
            decreases decoded_layers@.len(),
        {
            let ghost mid = self@;
            let dl = decoded_layers.remove(0);
            proof {
                assert(dl == dls[i as int]);
                assert(decoded_layers@ =~= dls.skip(i as int + 1));
            }
            let transform_id = match dl.transform {
                Some(t) => {
                    let tid = self.ids.new_svg_transform_id();
                    self.transforms.insert(tid.0, t);
                    proof {
                        assert(self@ =~= (CacheModel {
                            transforms: mid.transforms.insert(tid.0, t),
                            next_transform_id: mid.next_transform_id + 1,
                            ..mid
                        }));
                    }
                    Some(tid)
                },
                None => None,
            };
            let ghost mid2 = self@;
            let layer = SvgLayer {
                data: dl.data,
                callbacks: dl.callbacks,
                style: dl.style,
                transform_id,
                view_box_id,
            };
            let new_id = self.add_layer(layer, &dl.meshes);
            result.push(new_id);
            i = i + 1;
        }
        proof {
            assert(dls.skip(dls.len() as int) =~= Seq::<DecodedSvgLayer>::empty());
        }
        result
    }
}

/// What `add_svg` guarantees of each inserted layer: its id names a stored
/// layer carrying the decoded geometry, callbacks and style, referencing the
/// document's freshly minted view box, with its joined fill mesh stored, its
/// joined stroke mesh stored exactly when the style strokes, and its decoded
/// transform registered under a fresh transform id.
pub open spec fn inserted_layer_ok(
    pre: CacheModel,
    post: CacheModel,
    dl: DecodedSvgLayer,
    id: SvgLayerId,
) -> bool {
    &&& post.layers.dom().contains(id.0)
    &&& post.layers[id.0].style == dl.style
    &&& post.layers[id.0].data == dl.data
    &&& post.layers[id.0].callbacks == dl.callbacks
    &&& post.layers[id.0].view_box_id.0 as int == pre.next_view_box_id
    &&& post.fill_meshes.dom().contains(id.0)
    &&& post.fill_meshes[id.0] == joined_mesh(fill_views(dl.meshes@))
    &&& (dl.style.stroke is Some ==> post.stroke_meshes.dom().contains(id.0)
        && post.stroke_meshes[id.0] == joined_mesh(stroke_views(dl.meshes@)))
    &&& (match post.layers[id.0].transform_id {
        Some(tid) => dl.transform is Some && post.transforms.dom().contains(tid.0)
            && post.transforms[tid.0] == dl.transform.unwrap(),
        None => dl.transform is None,
    })
}

/// Merging transform pairs whose ids are below the watermark keeps every key
/// below the watermark.
proof fn lemma_merge_transforms_watermark(
    m: Map<usize, SvgTransform>,
    pairs: Seq<(SvgTransformId, SvgTransform)>,
    watermark: int,
)
    requires
        forall|id: usize| #[trigger] m.dom().contains(id) ==> id < watermark,
        forall|i: int| 0 <= i < pairs.len() ==> (#[trigger] pairs[i].0.0 as int) < watermark,
    ensures
        forall|id: usize| #[trigger]
            merge_transforms(m, pairs).dom().contains(id) ==> id < watermark,
    decreases pairs.len(),
{
    if pairs.len() > 0 {
        assert(forall|i: int| 0 <= i < pairs.drop_last().len() ==> pairs.drop_last()[i]
            == pairs[i]);
        lemma_merge_transforms_watermark(m, pairs.drop_last(), watermark);
        assert((pairs.last().0.0 as int) < watermark) by {
            assert(pairs.last() == pairs[pairs.len() - 1]);
        }
        assert(merge_transforms(m, pairs).dom() =~= merge_transforms(m, pairs.drop_last()).dom()
            + set![pairs.last().0.0]);
    }
}

} // verus!
