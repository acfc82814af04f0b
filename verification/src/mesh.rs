use vstd::prelude::*;
use crate::geometry::SvgVert;
use crate::style::SvgStrokeOptions;

verus! {

/// Reserved sentinel index: tells the rasterizer to restart the primitive,
/// so that several independently wound sub-shapes can share one draw call.
pub const GL_RESTART_INDEX: u32 = 0xFFFF_FFFF;

/// One triangulated region as the tessellator hands it out: a vertex list
/// and a 32-bit triangle-list index list into it.
#[derive(Debug, Clone)]
pub struct VertexBuffers {
    pub vertices: Vec<SvgVert>,
    pub indices: Vec<u32>,
}

/// One joined, draw-call-ready mesh: vertices plus indices in which
/// `GL_RESTART_INDEX` separates the sub-shapes.
#[derive(Debug, Clone)]
pub struct VerticesIndicesBuffer {
    pub vertices: Vec<SvgVert>,
    pub indices: Vec<u32>,
}

/// The mathematical content of a mesh.
pub struct MeshView {
    pub vertices: Seq<SvgVert>,
    pub indices: Seq<u32>,
}

impl View for VertexBuffers {
    type V = MeshView;

    open spec fn view(&self) -> MeshView {
        MeshView { vertices: self.vertices@, indices: self.indices@ }
    }
}

impl View for VerticesIndicesBuffer {
    type V = MeshView;

    open spec fn view(&self) -> MeshView {
        MeshView { vertices: self.vertices@, indices: self.indices@ }
    }
}

/// A mesh is well formed when every index points into its own vertex list.
pub open spec fn mesh_wf(m: MeshView) -> bool {
    forall|i: int| 0 <= i < m.indices.len() ==> (#[trigger] m.indices[i] as int) < m.vertices.len()
}

/// The views of a sequence of tessellator meshes.
pub open spec fn mesh_views(ms: Seq<VertexBuffers>) -> Seq<MeshView> {
    ms.map_values(|m: VertexBuffers| m@)
}

/// Total vertex count of a sequence of meshes.
pub open spec fn total_vertices(ms: Seq<MeshView>) -> int
    decreases ms.len(),
{
    if ms.len() == 0 {
        0
    } else {
        ms[0].vertices.len() + total_vertices(ms.drop_first())
    }
}

/// Every index moved up by `base`.
pub open spec fn rebased(indices: Seq<u32>, base: int) -> Seq<u32> {
    indices.map_values(|x: u32| (x + base) as u32)
}

/// The vertices of the joined mesh: plain concatenation in submission order.
pub open spec fn joined_vertices(ms: Seq<MeshView>) -> Seq<SvgVert>
    decreases ms.len(),
{
    if ms.len() == 0 {
        Seq::empty()
    } else {
        ms[0].vertices + joined_vertices(ms.drop_first())
    }
}

/// The indices of the joined mesh: each source mesh's indices rebased by the
/// running vertex count of all prior meshes, with one restart sentinel after
/// each source mesh.
pub open spec fn joined_indices(ms: Seq<MeshView>, base: int) -> Seq<u32>
    decreases ms.len(),
{
    if ms.len() == 0 {
        Seq::empty()
    } else {
        rebased(ms[0].indices, base) + seq![GL_RESTART_INDEX] + joined_indices(
            ms.drop_first(),
            base + ms[0].vertices.len(),
        )
    }
}

pub proof fn lemma_total_vertices_push(ms: Seq<MeshView>, m: MeshView)
    ensures
        total_vertices(ms.push(m)) == total_vertices(ms) + m.vertices.len(),
    decreases ms.len(),
{
    if ms.len() == 0 {
        reveal_with_fuel(total_vertices, 2);
        assert(ms.push(m)[0] == m);
        assert(ms.push(m).drop_first() =~= Seq::<MeshView>::empty());
    } else {
        assert(ms.push(m)[0] == ms[0]);
        assert(ms.push(m).drop_first() =~= ms.drop_first().push(m));
        lemma_total_vertices_push(ms.drop_first(), m);
    }
}

pub proof fn lemma_total_vertices_nonneg(ms: Seq<MeshView>)
    ensures
        total_vertices(ms) >= 0,
    decreases ms.len(),
{
    if ms.len() > 0 {
        lemma_total_vertices_nonneg(ms.drop_first());
    }
}

pub proof fn lemma_joined_vertices_push(ms: Seq<MeshView>, m: MeshView)
    ensures
        joined_vertices(ms.push(m)) == joined_vertices(ms) + m.vertices,
    decreases ms.len(),
{
    if ms.len() == 0 {
        reveal_with_fuel(joined_vertices, 2);
        assert(ms.push(m)[0] == m);
        assert(ms.push(m).drop_first() =~= Seq::<MeshView>::empty());
        assert(joined_vertices(ms.push(m)) =~= joined_vertices(ms) + m.vertices);
    } else {
        assert(ms.push(m)[0] == ms[0]);
        assert(ms.push(m).drop_first() =~= ms.drop_first().push(m));
        lemma_joined_vertices_push(ms.drop_first(), m);
        assert(joined_vertices(ms.push(m)) =~= joined_vertices(ms) + m.vertices);
    }
}

pub proof fn lemma_joined_indices_push(ms: Seq<MeshView>, m: MeshView, base: int)
    ensures
        joined_indices(ms.push(m), base) == joined_indices(ms, base) + rebased(
            m.indices,
            base + total_vertices(ms),
        ) + seq![GL_RESTART_INDEX],
    decreases ms.len(),
{
    if ms.len() == 0 {
        reveal_with_fuel(joined_indices, 2);
        assert(ms.push(m)[0] == m);
        assert(ms.push(m).drop_first() =~= Seq::<MeshView>::empty());
        assert(joined_indices(ms.push(m), base) =~= joined_indices(ms, base) + rebased(
            m.indices,
            base + total_vertices(ms),
        ) + seq![GL_RESTART_INDEX]);
    } else {
        assert(ms.push(m)[0] == ms[0]);
        assert(ms.push(m).drop_first() =~= ms.drop_first().push(m));
        lemma_joined_indices_push(ms.drop_first(), m, base + ms[0].vertices.len());
        assert(joined_indices(ms.push(m), base) =~= joined_indices(ms, base) + rebased(
            m.indices,
            base + total_vertices(ms),
        ) + seq![GL_RESTART_INDEX]);
    }
}

/// Appends one source mesh to the joined buffers: vertices are copied,
/// indices are rebased by the vertex count already present, and one restart
/// sentinel is added.
fn append_mesh(
    dst_vertices: &mut Vec<SvgVert>,
    dst_indices: &mut Vec<u32>,
    src: &VertexBuffers,
)
    requires
        mesh_wf(src@),
        old(dst_vertices)@.len() + src@.vertices.len() < 0xFFFF_FFFF,
    ensures
        final(dst_vertices)@ == old(dst_vertices)@ + src@.vertices,
        final(dst_indices)@ == old(dst_indices)@ + rebased(
            src@.indices,
            old(dst_vertices)@.len() as int,
        ) + seq![GL_RESTART_INDEX],
{
    let base = dst_vertices.len();
    let mut i: usize = 0;
    while i < src.vertices.len()
        invariant
            i <= src@.vertices.len(),
            dst_vertices@ == old(dst_vertices)@ + src@.vertices.take(i as int),
        decreases src@.vertices.len() - i,
    {
        dst_vertices.push(src.vertices[i]);
        proof {
            assert(old(dst_vertices)@ + src@.vertices.take(i as int) + seq![src@.vertices[i as int]]
                =~= old(dst_vertices)@ + src@.vertices.take(i as int + 1));
        }
        i = i + 1;
    }
    proof {
        assert(src@.vertices.take(src@.vertices.len() as int) =~= src@.vertices);
    }
    let mut j: usize = 0;
    while j < src.indices.len()
        invariant
            j <= src@.indices.len(),
            mesh_wf(src@),
            base + src@.vertices.len() < 0xFFFF_FFFF,
            dst_indices@ == old(dst_indices)@ + rebased(src@.indices, base as int).take(j as int),
        decreases src@.indices.len() - j,
    {
        let idx = src.indices[j];
        dst_indices.push(idx + (base as u32));
        proof {
            assert(rebased(src@.indices, base as int).take(j as int).push(
                (src@.indices[j as int] + base) as u32,
            ) =~= rebased(src@.indices, base as int).take(j as int + 1));
            assert(old(dst_indices)@ + rebased(src@.indices, base as int).take(j as int) + seq![
                (src@.indices[j as int] + base) as u32,
            ] =~= old(dst_indices)@ + rebased(src@.indices, base as int).take(j as int + 1));
        }
        j = j + 1;
    }
    proof {
        assert(rebased(src@.indices, base as int).take(src@.indices.len() as int) =~= rebased(
            src@.indices,
            base as int,
        ));
    }
    dst_indices.push(GL_RESTART_INDEX);
    proof {
        assert(old(dst_indices)@ + rebased(src@.indices, base as int) + seq![GL_RESTART_INDEX]
            =~= dst_indices@);
    }
}

/// Joins several tessellator meshes into one draw-call mesh: vertices are
/// concatenated in submission order, each mesh's indices are rebased by the
/// running vertex count of all prior meshes, and one restart sentinel is
/// inserted after each source mesh's indices.
pub fn join_vertex_buffers(input: &Vec<VertexBuffers>) -> (r: VerticesIndicesBuffer)
    requires
        forall|i: int| 0 <= i < input@.len() ==> mesh_wf(#[trigger] input@[i]@),
        total_vertices(mesh_views(input@)) < 0xFFFF_FFFF,
    ensures
        r@.vertices == joined_vertices(mesh_views(input@)),
        r@.indices == joined_indices(mesh_views(input@), 0),
{
    let ghost views = mesh_views(input@);
    let mut vertices: Vec<SvgVert> = Vec::new();
    let mut indices: Vec<u32> = Vec::new();
    let mut k: usize = 0;
    proof {
        assert(views.take(0) =~= Seq::<MeshView>::empty());
    }
    while k < input.len()
        invariant
            k <= input@.len(),
            views == mesh_views(input@),
            forall|i: int| 0 <= i < input@.len() ==> mesh_wf(#[trigger] input@[i]@),
            total_vertices(views) < 0xFFFF_FFFF,
            vertices@ == joined_vertices(views.take(k as int)),
            indices@ == joined_indices(views.take(k as int), 0),
            vertices@.len() == total_vertices(views.take(k as int)),
        decreases input@.len() - k,
    {
        proof {
            lemma_total_prefix_bound(views, k as int);
            lemma_total_vertices_push(views.take(k as int), views[k as int]);
            lemma_joined_vertices_push(views.take(k as int), views[k as int]);
            lemma_joined_indices_push(views.take(k as int), views[k as int], 0);
            assert(views.take(k as int).push(views[k as int]) =~= views.take(k as int + 1));
        }
        append_mesh(&mut vertices, &mut indices, &input[k]);
        k = k + 1;
    }
    proof {
        assert(views.take(input@.len() as int) =~= views);
    }
    VerticesIndicesBuffer { vertices, indices }
}

/// The vertex total of a prefix, plus the next mesh, stays within the total
/// of the whole sequence.
proof fn lemma_total_prefix_bound(ms: Seq<MeshView>, k: int)
    requires
        0 <= k < ms.len(),
    ensures
        total_vertices(ms.take(k)) + ms[k].vertices.len() <= total_vertices(ms),
        total_vertices(ms.take(k)) >= 0,
    decreases k,
{
    lemma_total_vertices_nonneg(ms.take(k));
    if k == 0 {
        assert(ms.take(0) =~= Seq::<MeshView>::empty());
        lemma_total_vertices_nonneg(ms.drop_first());
        lemma_total_split_first(ms);
        lemma_first_le_total(ms);
    } else {
        lemma_total_prefix_bound(ms.drop_first(), k - 1);
        assert(ms.take(k).drop_first() =~= ms.drop_first().take(k - 1));
        assert(total_vertices(ms.take(k)) == ms[0].vertices.len() + total_vertices(
            ms.drop_first().take(k - 1),
        ));
    }
}

proof fn lemma_total_split_first(ms: Seq<MeshView>)
    requires
        ms.len() > 0,
    ensures
        total_vertices(ms) == ms[0].vertices.len() + total_vertices(ms.drop_first()),
{
}

proof fn lemma_first_le_total(ms: Seq<MeshView>)
    requires
        ms.len() > 0,
    ensures
        ms[0].vertices.len() <= total_vertices(ms),
{
    lemma_total_vertices_nonneg(ms.drop_first());
}

/// An exact copy of a tessellator mesh.
pub fn copy_mesh(src: &VertexBuffers) -> (r: VertexBuffers)
    ensures
        r@ == src@,
{
    let mut vertices: Vec<SvgVert> = Vec::new();
    let mut i: usize = 0;
    while i < src.vertices.len()
        invariant
            i <= src@.vertices.len(),
            vertices@ == src@.vertices.take(i as int),
        decreases src@.vertices.len() - i,
    {
        vertices.push(src.vertices[i]);
        proof {
            assert(src@.vertices.take(i as int).push(src@.vertices[i as int]) =~= src@.vertices.take(
                i as int + 1,
            ));
        }
        i = i + 1;
    }
    let mut indices: Vec<u32> = Vec::new();
    let mut j: usize = 0;
    while j < src.indices.len()
        invariant
            j <= src@.indices.len(),
            indices@ == src@.indices.take(j as int),
        decreases src@.indices.len() - j,
    {
        indices.push(src.indices[j]);
        proof {
            assert(src@.indices.take(j as int).push(src@.indices[j as int]) =~= src@.indices.take(
                j as int + 1,
            ));
        }
        j = j + 1;
    }
    proof {
        assert(src@.vertices.take(src@.vertices.len() as int) =~= src@.vertices);
        assert(src@.indices.take(src@.indices.len() as int) =~= src@.indices);
    }
    VertexBuffers { vertices, indices }
}

/// The per-primitive output of the tessellation engine: a fill mesh, plus a
/// stroke mesh exactly when a stroke was requested.
#[derive(Debug, Clone)]
pub struct TessellatedPrimitive {
    pub fill: VertexBuffers,
    pub stroke: Option<VertexBuffers>,
}

/// The fill meshes of a sequence of tessellated primitives.
pub open spec fn fill_views(ps: Seq<TessellatedPrimitive>) -> Seq<MeshView> {
    ps.map_values(|p: TessellatedPrimitive| p.fill@)
}

/// The stroke meshes of a sequence of tessellated primitives; meaningful
/// only when every primitive carries one.
pub open spec fn stroke_views(ps: Seq<TessellatedPrimitive>) -> Seq<MeshView> {
    ps.map_values(
        |p: TessellatedPrimitive| match p.stroke {
            Some(m) => m@,
            None => MeshView { vertices: Seq::empty(), indices: Seq::empty() },
        },
    )
}

/// Whether a list of tessellated primitives can be joined: every mesh well
/// formed, stroke meshes present exactly when a stroke was requested, and
/// the joined vertex counts below the restart sentinel.
pub open spec fn primitives_joinable(ps: Seq<TessellatedPrimitive>, stroke_requested: bool) -> bool {
    &&& forall|i: int| 0 <= i < ps.len() ==> mesh_wf(#[trigger] ps[i].fill@)
    &&& total_vertices(fill_views(ps)) < 0xFFFF_FFFF
    &&& forall|i: int| 0 <= i < ps.len() ==> (#[trigger] ps[i].stroke is Some) == stroke_requested
    &&& stroke_requested ==> forall|i: int| 0 <= i < ps.len() ==> mesh_wf(
        #[trigger] stroke_views(ps)[i],
    )
    &&& stroke_requested ==> total_vertices(stroke_views(ps)) < 0xFFFF_FFFF
}

/// Joins the per-primitive meshes of one layer into one fill mesh and, when a
/// stroke was requested, one stroke mesh. The stroke mesh is produced exactly
/// when `stroke_options` is present, never speculatively.
pub fn tesselate_layer_data(
    layer_data: &Vec<TessellatedPrimitive>,
    stroke_options: Option<SvgStrokeOptions>,
) -> (r: (VerticesIndicesBuffer, Option<VerticesIndicesBuffer>))
    requires
        primitives_joinable(layer_data@, stroke_options is Some),
    ensures
        r.0@.vertices == joined_vertices(fill_views(layer_data@)),
        r.0@.indices == joined_indices(fill_views(layer_data@), 0),
        (r.1 is Some) == (stroke_options is Some),
        stroke_options is Some ==> (match r.1 {
            Some(s) => s@.vertices == joined_vertices(stroke_views(layer_data@)) && s@.indices
                == joined_indices(stroke_views(layer_data@), 0),
            None => false,
        }),
{
    let ghost fviews = fill_views(layer_data@);
    let mut fill_vertices: Vec<SvgVert> = Vec::new();
    let mut fill_indices: Vec<u32> = Vec::new();
    let mut k: usize = 0;
    proof {
        assert(fviews.take(0) =~= Seq::<MeshView>::empty());
    }
    while k < layer_data.len()
        invariant
            k <= layer_data@.len(),
            fviews == fill_views(layer_data@),
            primitives_joinable(layer_data@, stroke_options is Some),
            fill_vertices@ == joined_vertices(fviews.take(k as int)),
            fill_indices@ == joined_indices(fviews.take(k as int), 0),
            fill_vertices@.len() == total_vertices(fviews.take(k as int)),
        decreases layer_data@.len() - k,
    {
        proof {
            lemma_total_prefix_bound(fviews, k as int);
            lemma_total_vertices_push(fviews.take(k as int), fviews[k as int]);
            lemma_joined_vertices_push(fviews.take(k as int), fviews[k as int]);
            lemma_joined_indices_push(fviews.take(k as int), fviews[k as int], 0);
            assert(fviews.take(k as int).push(fviews[k as int]) =~= fviews.take(k as int + 1));
        }
        append_mesh(&mut fill_vertices, &mut fill_indices, &layer_data[k].fill);
        k = k + 1;
    }
    proof {
        assert(fviews.take(layer_data@.len() as int) =~= fviews);
    }
    let fill = VerticesIndicesBuffer { vertices: fill_vertices, indices: fill_indices };

    if stroke_options.is_some() {
        let ghost sviews = stroke_views(layer_data@);
        let mut stroke_vertices: Vec<SvgVert> = Vec::new();
        let mut stroke_indices: Vec<u32> = Vec::new();
        let mut k: usize = 0;
        proof {
            assert(sviews.take(0) =~= Seq::<MeshView>::empty());
        }
        while k < layer_data.len()
            invariant
                k <= layer_data@.len(),
                sviews == stroke_views(layer_data@),
                primitives_joinable(layer_data@, true),
                stroke_options is Some,
                stroke_vertices@ == joined_vertices(sviews.take(k as int)),
                stroke_indices@ == joined_indices(sviews.take(k as int), 0),
                stroke_vertices@.len() == total_vertices(sviews.take(k as int)),
            decreases layer_data@.len() - k,
        {
            proof {
                lemma_total_prefix_bound(sviews, k as int);
                lemma_total_vertices_push(sviews.take(k as int), sviews[k as int]);
                lemma_joined_vertices_push(sviews.take(k as int), sviews[k as int]);
                lemma_joined_indices_push(sviews.take(k as int), sviews[k as int], 0);
                assert(sviews.take(k as int).push(sviews[k as int]) =~= sviews.take(k as int + 1));
            }
            match &layer_data[k].stroke {
                Some(m) => {
                    append_mesh(&mut stroke_vertices, &mut stroke_indices, m);
                },
                None => {
                    proof {
                        assert(false);
                    }
                },
            }
            k = k + 1;
        }
        proof {
            assert(sviews.take(layer_data@.len() as int) =~= sviews);
        }
        (
            fill,
            Some(VerticesIndicesBuffer { vertices: stroke_vertices, indices: stroke_indices }),
        )
    } else {
        (fill, None)
    }
}

/// The index runs of a joined index list: reading left to right, each restart
/// sentinel ends the current run; a trailing run without a sentinel is kept.
pub open spec fn split_runs_acc(s: Seq<u32>, cur: Seq<u32>) -> Seq<Seq<u32>>
    decreases s.len(),
{
    if s.len() == 0 {
        if cur.len() == 0 {
            Seq::empty()
        } else {
            seq![cur]
        }
    } else if s[0] == GL_RESTART_INDEX {
        seq![cur] + split_runs_acc(s.drop_first(), Seq::empty())
    } else {
        split_runs_acc(s.drop_first(), cur.push(s[0]))
    }
}

/// The index runs of a joined index list, split at each restart sentinel.
pub open spec fn split_runs(s: Seq<u32>) -> Seq<Seq<u32>> {
    split_runs_acc(s, Seq::empty())
}

/// Splits a joined index list back into its runs: each restart sentinel ends
/// the current run (possibly empty); a trailing run without a sentinel is
/// kept as well.
pub fn split_index_runs(indices: &Vec<u32>) -> (r: Vec<Vec<u32>>)
    ensures
        r@.map_values(|run: Vec<u32>| run@) == split_runs(indices@),
{
    let mut result: Vec<Vec<u32>> = Vec::new();
    let mut cur: Vec<u32> = Vec::new();
    let mut i: usize = 0;
    proof {
        assert(indices@.skip(0) =~= indices@);
        assert(result@.map_values(|run: Vec<u32>| run@) =~= Seq::<Seq<u32>>::empty());
    }
    while i < indices.len()
        invariant
            i <= indices@.len(),
            split_runs(indices@) == result@.map_values(|run: Vec<u32>| run@) + split_runs_acc(
                indices@.skip(i as int),
                cur@,
            ),
        decreases indices@.len() - i,
    {
        let ghost pre_result = result@.map_values(|run: Vec<u32>| run@);
        let ghost rest = indices@.skip(i as int);
        proof {
            assert(rest[0] == indices@[i as int]);
            assert(rest.drop_first() =~= indices@.skip(i as int + 1));
        }
        let x = indices[i];
        if x == GL_RESTART_INDEX {
            let ghost finished = cur@;
            result.push(cur);
            cur = Vec::new();
            proof {
                assert(result@.map_values(|run: Vec<u32>| run@) =~= pre_result.push(finished));
                assert(split_runs_acc(rest, finished) == seq![finished] + split_runs_acc(
                    indices@.skip(i as int + 1),
                    Seq::empty(),
                ));
                assert(pre_result + (seq![finished] + split_runs_acc(
                    indices@.skip(i as int + 1),
                    Seq::empty(),
                )) =~= pre_result.push(finished) + split_runs_acc(
                    indices@.skip(i as int + 1),
                    Seq::empty(),
                ));
            }
        } else {
            cur.push(x);
        }
        i = i + 1;
    }
    proof {
        assert(indices@.skip(indices@.len() as int) =~= Seq::<u32>::empty());
    }
    if cur.len() > 0 {
        let ghost pre_result = result@.map_values(|run: Vec<u32>| run@);
        let ghost finished = cur@;
        result.push(cur);
        proof {
            assert(result@.map_values(|run: Vec<u32>| run@) =~= pre_result.push(finished));
            assert(pre_result + seq![finished] =~= pre_result.push(finished));
        }
    } else {
        proof {
            assert(result@.map_values(|run: Vec<u32>| run@) + Seq::<Seq<u32>>::empty()
                =~= result@.map_values(|run: Vec<u32>| run@));
        }
    }
    result
}

/// One run per source mesh: its indices rebased by the running vertex count
/// of all prior meshes.
pub open spec fn rebased_runs(ms: Seq<MeshView>, base: int) -> Seq<Seq<u32>>
    decreases ms.len(),
{
    if ms.len() == 0 {
        Seq::empty()
    } else {
        seq![rebased(ms[0].indices, base)] + rebased_runs(
            ms.drop_first(),
            base + ms[0].vertices.len(),
        )
    }
}

/// Scanning a sentinel-free run, then a sentinel, closes exactly that run.
proof fn lemma_split_acc_run(run: Seq<u32>, tail: Seq<u32>, cur: Seq<u32>)
    requires
        forall|i: int| 0 <= i < run.len() ==> #[trigger] run[i] != GL_RESTART_INDEX,
    ensures
        split_runs_acc(run + seq![GL_RESTART_INDEX] + tail, cur) == seq![cur + run]
            + split_runs_acc(tail, Seq::empty()),
    decreases run.len(),
{
    let s = run + seq![GL_RESTART_INDEX] + tail;
    if run.len() == 0 {
        assert(s[0] == GL_RESTART_INDEX);
        assert(s.drop_first() =~= tail);
        assert(cur + run =~= cur);
        assert(split_runs_acc(s, cur) =~= seq![cur + run] + split_runs_acc(tail, Seq::empty()));
    } else {
        assert(s[0] == run[0]);
        assert(s.drop_first() =~= run.drop_first() + seq![GL_RESTART_INDEX] + tail);
        lemma_split_acc_run(run.drop_first(), tail, cur.push(run[0]));
        assert(cur.push(run[0]) + run.drop_first() =~= cur + run);
        assert(split_runs_acc(s, cur) =~= seq![cur + run] + split_runs_acc(tail, Seq::empty()));
    }
}

/// Every rebased index of a joinable mesh stays below the restart sentinel.
proof fn lemma_rebased_no_sentinel(m: MeshView, base: int, bound: int)
    requires
        mesh_wf(m),
        0 <= base,
        base + m.vertices.len() <= bound,
        bound < 0xFFFF_FFFF,
    ensures
        forall|i: int| 0 <= i < rebased(m.indices, base).len() ==> #[trigger] rebased(
            m.indices,
            base,
        )[i] != GL_RESTART_INDEX,
{
    assert forall|i: int| 0 <= i < rebased(m.indices, base).len() implies #[trigger] rebased(
        m.indices,
        base,
    )[i] != GL_RESTART_INDEX by {
        assert((m.indices[i] as int) < m.vertices.len());
        assert(m.indices[i] + base < 0xFFFF_FFFF);
    }
}

/// Mesh-joiner round trip: splitting the joined index list at each restart
/// sentinel recovers exactly the source meshes' index lists, each rebased by
/// the running vertex count of all prior meshes.
pub proof fn lemma_join_split_round_trip(ms: Seq<MeshView>, base: int)
    requires
        forall|i: int| 0 <= i < ms.len() ==> mesh_wf(#[trigger] ms[i]),
        0 <= base,
        base + total_vertices(ms) < 0xFFFF_FFFF,
    ensures
        split_runs(joined_indices(ms, base)) == rebased_runs(ms, base),
    decreases ms.len(),
{
    if ms.len() == 0 {
        assert(split_runs(joined_indices(ms, base)) =~= rebased_runs(ms, base));
    } else {
        let rest = ms.drop_first();
        let base2 = base + ms[0].vertices.len();
        lemma_total_vertices_nonneg(rest);
        lemma_rebased_no_sentinel(ms[0], base, base + total_vertices(ms));
        lemma_split_acc_run(
            rebased(ms[0].indices, base),
            joined_indices(rest, base2),
            Seq::empty(),
        );
        assert(joined_indices(ms, base) =~= rebased(ms[0].indices, base) + seq![GL_RESTART_INDEX]
            + joined_indices(rest, base2));
        assert forall|i: int| 0 <= i < rest.len() implies mesh_wf(#[trigger] rest[i]) by {
            assert(rest[i] == ms[i + 1]);
        }
        lemma_join_split_round_trip(rest, base2);
        assert(Seq::<u32>::empty() + rebased(ms[0].indices, base) =~= rebased(ms[0].indices, base));
        assert(split_runs(joined_indices(ms, base)) =~= rebased_runs(ms, base));
    }
}

} // verus!
