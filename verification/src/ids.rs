use vstd::prelude::*;

verus! {

/// Identity of a 2-D transform stored in the layer cache's transform table.
#[derive(Debug, Copy, Clone, PartialEq, Eq, Hash, Structural)]
pub struct SvgTransformId(pub usize);

/// Identity of a view box stored in the layer cache.
#[derive(Debug, Copy, Clone, PartialEq, Eq, Hash, Structural)]
pub struct SvgViewBoxId(pub usize);

/// Identity of one logical layer in the layer cache.
#[derive(Debug, Copy, Clone, PartialEq, Eq, Hash, PartialOrd, Ord, Structural)]
pub struct SvgLayerId(pub usize);

/// Mints monotonically increasing identifiers, one counter per kind.
///
/// Ids are allocated on creation and never reused; equality and ordering go
/// by the integer value. An explicit allocator object (rather than hidden
/// global counters) lets each cache own its id space and lets tests seed a
/// fresh one.
pub struct SvgIdAllocator {
    next_layer_id: usize,
    next_transform_id: usize,
    next_view_box_id: usize,
}

impl SvgIdAllocator {
    /// The watermark of layer ids: every id minted so far is below it.
    pub closed spec fn next_layer(&self) -> int {
        self.next_layer_id as int
    }

    /// The watermark of transform ids.
    pub closed spec fn next_transform(&self) -> int {
        self.next_transform_id as int
    }

    /// The watermark of view box ids.
    pub closed spec fn next_view_box(&self) -> int {
        self.next_view_box_id as int
    }

    pub fn new() -> (r: Self)
        ensures
            r.next_layer() == 0,
            r.next_transform() == 0,
            r.next_view_box() == 0,
    {
        SvgIdAllocator { next_layer_id: 0, next_transform_id: 0, next_view_box_id: 0 }
    }

    /// Mints a fresh layer id: above every id minted before, below every id
    /// minted after.
    pub fn new_svg_layer_id(&mut self) -> (r: SvgLayerId)
        requires
            old(self).next_layer() < usize::MAX,
        ensures
            r.0 == old(self).next_layer(),
            final(self).next_layer() == old(self).next_layer() + 1,
            final(self).next_transform() == old(self).next_transform(),
            final(self).next_view_box() == old(self).next_view_box(),
    {
        let id = SvgLayerId(self.next_layer_id);
        self.next_layer_id = self.next_layer_id + 1;
        id
    }

    /// Mints a fresh transform id.
    pub fn new_svg_transform_id(&mut self) -> (r: SvgTransformId)
        requires
            old(self).next_transform() < usize::MAX,
        ensures
            r.0 == old(self).next_transform(),
            final(self).next_transform() == old(self).next_transform() + 1,
            final(self).next_layer() == old(self).next_layer(),
            final(self).next_view_box() == old(self).next_view_box(),
    {
        let id = SvgTransformId(self.next_transform_id);
        self.next_transform_id = self.next_transform_id + 1;
        id
    }

    /// Mints a fresh view box id.
    pub fn new_view_box_id(&mut self) -> (r: SvgViewBoxId)
        requires
            old(self).next_view_box() < usize::MAX,
        ensures
            r.0 == old(self).next_view_box(),
            final(self).next_view_box() == old(self).next_view_box() + 1,
            final(self).next_layer() == old(self).next_layer(),
            final(self).next_transform() == old(self).next_transform(),
    {
        let id = SvgViewBoxId(self.next_view_box_id);
        self.next_view_box_id = self.next_view_box_id + 1;
        id
    }
}

} // verus!
