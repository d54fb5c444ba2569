//! The vertex batch: gathers vertices and indices and cuts them into draw calls.
//!
//! Indices are sixteen bits wide, so no draw call may hold more vertices than
//! [`MAX_VERTEX_COUNT`]. The batch flushes by itself before an addition that
//! would pass that limit, and pads an odd index list so that its bytes fill
//! whole four-byte words.

use vstd::prelude::*;
use crate::colour::Colour;

verus! {

/// The most vertices that a single draw call may hold. This stays below 65 536
/// because an index is sixteen bits wide.
pub const MAX_VERTEX_COUNT: usize = 40960;

/// The most indices that a single draw call may hold.
pub const MAX_INDEX_COUNT: usize = 81920;

/// An exact fraction. A texture coordinate is a texel offset over the size of
/// the texture; a denominator of zero is kept as it is and left to the shader.
#[derive(Debug, Copy, Clone, PartialEq, Eq, Structural)]
pub struct Ratio {
    pub num: i64,
    pub den: u32,
}

/// A position in whole pixels. `z` orders nothing here and is zero for all
/// content that this library produces.
#[derive(Debug, Copy, Clone, PartialEq, Eq, Structural)]
pub struct Position {
    pub x: i64,
    pub y: i64,
    pub z: i64,
}

/// Where in the bound texture a vertex samples.
#[derive(Debug, Copy, Clone, PartialEq, Eq, Structural)]
pub struct TexCoords {
    pub u: Ratio,
    pub v: Ratio,
}

/// One corner of a shape: where it is, its colour, and where it samples the texture.
#[derive(Debug, Copy, Clone, PartialEq, Eq, Structural)]
pub struct Vertex {
    pub position: Position,
    pub color: Colour,
    pub tex_coords: TexCoords,
}

/// A shape that a batch can draw.
#[derive(Debug, Copy, Clone, PartialEq, Eq, Structural)]
pub enum Renderable {
    Empty,
    Triangle(Vertex, Vertex, Vertex),
    /// Four corners, drawn as the two triangles 0-1-2 and 0-2-3.
    Quadrilateral(Vertex, Vertex, Vertex, Vertex),
}

impl Renderable {
    /// The vertices that the shape adds to a draw call, in order.
    pub open spec fn vertices(self) -> Seq<Vertex> {
        match self {
            Renderable::Empty => seq![],
            Renderable::Triangle(v0, v1, v2) => seq![v0, v1, v2],
            Renderable::Quadrilateral(v0, v1, v2, v3) => seq![v0, v1, v2, v3],
        }
    }

    /// The indices that the shape adds when its first vertex has index `base`.
    pub open spec fn indices(self, base: int) -> Seq<int> {
        match self {
            Renderable::Empty => seq![],
            Renderable::Triangle(..) => seq![base, base + 1, base + 2],
            Renderable::Quadrilateral(..) => seq![
                base,
                base + 1,
                base + 2,
                base,
                base + 2,
                base + 3,
            ],
        }
    }

    pub open spec fn vertex_count(self) -> nat {
        self.vertices().len()
    }

    pub open spec fn index_count(self) -> nat {
        self.indices(0).len()
    }
}

/// What a batch has gathered since its last flush.
pub struct Pending {
    pub verts: Seq<Vertex>,
    pub inds: Seq<u16>,
}

/// One submission to the graphics card, as a mathematical value.
pub struct DrawCallView {
    pub vertices: Seq<Vertex>,
    pub indices: Seq<u16>,
}

/// One submission to the graphics card: a vertex list and the indices into it.
#[derive(Debug, Clone, PartialEq, Eq)]
pub struct DrawCall {
    pub vertices: Vec<Vertex>,
    pub indices: Vec<u16>,
}

impl View for DrawCall {
    type V = DrawCallView;

    open spec fn view(&self) -> DrawCallView {
        DrawCallView { vertices: self.vertices@, indices: self.indices@ }
    }
}

impl DrawCallView {
    /// A draw call that the graphics card accepts: within both capacities, an
    /// even number of indices, and every index naming a vertex of the call.
    pub open spec fn well_formed(self) -> bool {
        &&& self.vertices.len() <= MAX_VERTEX_COUNT
        &&& 0 < self.indices.len() <= MAX_INDEX_COUNT
        &&& self.indices.len() % 2 == 0
        &&& forall|i: int| 0 <= i < self.indices.len() ==> (#[trigger] self.indices[i] as int) < self.vertices.len()
    }
}

/// The views of a list of draw calls.
pub open spec fn draw_views(draws: Seq<DrawCall>) -> Seq<DrawCallView> {
    draws.map_values(|d: DrawCall| d@)
}

impl Pending {
    pub open spec fn empty() -> Pending {
        Pending { verts: seq![], inds: seq![] }
    }

    /// Both lists are within their capacity, every index names a gathered
    /// vertex, and there are at least three indices to every four vertices, as
    /// triangles and quadrilaterals give.
    pub open spec fn well_formed(self) -> bool {
        &&& self.verts.len() <= MAX_VERTEX_COUNT
        &&& self.inds.len() <= MAX_INDEX_COUNT
        &&& 3 * self.verts.len() <= 4 * self.inds.len()
        &&& forall|i: int| 0 <= i < self.inds.len() ==> (#[trigger] self.inds[i] as int) < self.verts.len()
    }

    /// Whether `new_verts` more vertices or `new_inds` more indices would pass a capacity.
    pub open spec fn would_overflow(self, new_verts: nat, new_inds: nat) -> bool {
        self.verts.len() + new_verts > MAX_VERTEX_COUNT || self.inds.len() + new_inds
            > MAX_INDEX_COUNT
    }

    /// The index list as it is submitted: an odd list gets one more index, zero.
    pub open spec fn padded_indices(self) -> Seq<u16> {
        if self.inds.len() % 2 == 1 {
            self.inds.push(0u16)
        } else {
            self.inds
        }
    }

    /// The draw call that a flush submits: none where no index was gathered.
    pub open spec fn flushed(self) -> Option<DrawCallView> {
        if self.inds.len() == 0 {
            None
        } else {
            Some(DrawCallView { vertices: self.verts, indices: self.padded_indices() })
        }
    }

    /// The draw call that is submitted to make room for `r`, if room has to be made.
    pub open spec fn drawn_before(self, r: Renderable) -> Option<DrawCallView> {
        if r != Renderable::Empty && self.would_overflow(r.vertex_count(), r.index_count()) {
            self.flushed()
        } else {
            None
        }
    }

    /// What is gathered after `r` was added.
    pub open spec fn added(self, r: Renderable) -> Pending {
        if r == Renderable::Empty {
            self
        } else {
            let start = if self.would_overflow(r.vertex_count(), r.index_count()) {
                Pending::empty()
            } else {
                self
            };
            Pending {
                verts: start.verts + r.vertices(),
                inds: start.inds + r.indices(start.verts.len() as int).map_values(
                    |i: int| i as u16,
                ),
            }
        }
    }
}

/// What is gathered after all of `items` were added to an empty batch, one by one.
pub open spec fn pending_after(items: Seq<Renderable>) -> Pending
    decreases items.len(),
{
    if items.len() == 0 {
        Pending::empty()
    } else {
        pending_after(items.drop_last()).added(items.last())
    }
}

/// The draw calls that are submitted while `items` are added to an empty batch.
pub open spec fn draws_during(items: Seq<Renderable>) -> Seq<DrawCallView>
    decreases items.len(),
{
    if items.len() == 0 {
        seq![]
    } else {
        let before = draws_during(items.drop_last());
        match pending_after(items.drop_last()).drawn_before(items.last()) {
            Some(d) => before.push(d),
            None => before,
        }
    }
}

/// All draw calls of one render: those made on the way, then the last flush.
pub open spec fn rendered(items: Seq<Renderable>) -> Seq<DrawCallView> {
    match pending_after(items).flushed() {
        Some(d) => draws_during(items).push(d),
        None => draws_during(items),
    }
}

/// Gathers the vertices and indices of shapes until they are flushed as one draw call.
pub struct Batch {
    verts: Vec<Vertex>,
    inds: Vec<u16>,
}

impl View for Batch {
    type V = Pending;

    closed spec fn view(&self) -> Pending {
        Pending { verts: self.verts@, inds: self.inds@ }
    }
}

impl Batch {
    /// A batch that has gathered nothing.
    pub fn new() -> (b: Batch)
        ensures
            b@ == Pending::empty(),
            b@.well_formed(),
    {
        Batch { verts: Vec::new(), inds: Vec::new() }
    }

    /// How many vertices are gathered.
    pub fn vertex_count(&self) -> (n: usize)
        ensures
            n == self@.verts.len(),
    {
        self.verts.len()
    }

    /// How many indices are gathered.
    pub fn index_count(&self) -> (n: usize)
        ensures
            n == self@.inds.len(),
    {
        self.inds.len()
    }

    /// Hands out everything gathered as one draw call and empties the batch.
    /// With no index gathered nothing is submitted. An odd index list is
    /// padded with one zero, so the submitted list is always even.
    pub fn flush(&mut self) -> (draw: Option<DrawCall>)
        requires
            old(self)@.well_formed(),
        ensures
            final(self)@ == Pending::empty(),
            final(self)@.well_formed(),
            draw.is_some() == old(self)@.flushed().is_some(),
            draw.is_some() ==> draw.unwrap()@ == old(self)@.flushed().unwrap(),
            draw.is_some() ==> draw.unwrap()@.well_formed(),
    {
        if self.inds.len() == 0 {
            self.verts.clear();
            assert(self@.verts =~= Pending::empty().verts);
            assert(self@.inds =~= Pending::empty().inds);
            return None;
        }
        if self.inds.len() % 2 == 1 {
            assert((self.inds@[0] as int) < self.verts@.len());
            self.inds.push(0);
        }
        let mut vertices: Vec<Vertex> = Vec::new();
        let mut indices: Vec<u16> = Vec::new();
        std::mem::swap(&mut self.verts, &mut vertices);
        std::mem::swap(&mut self.inds, &mut indices);
        Some(DrawCall { vertices, indices })
    }

    /// Makes room for `new_verts` vertices and `new_inds` indices: where they
    /// would pass a capacity, the batch is flushed first.
    pub fn ensure_capacity(&mut self, new_verts: usize, new_inds: usize) -> (draw: Option<DrawCall>)
        requires
            old(self)@.well_formed(),
        ensures
            final(self)@.well_formed(),
            old(self)@.would_overflow(new_verts as nat, new_inds as nat) ==> {
                &&& final(self)@ == Pending::empty()
                &&& draw.is_some() == old(self)@.flushed().is_some()
                &&& draw.is_some() ==> draw.unwrap()@ == old(self)@.flushed().unwrap()
                &&& draw.is_some() ==> draw.unwrap()@.well_formed()
            },
            !old(self)@.would_overflow(new_verts as nat, new_inds as nat) ==> {
                &&& final(self)@ == old(self)@
                &&& draw.is_none()
            },
    {
        if new_verts > MAX_VERTEX_COUNT - self.verts.len() || new_inds > MAX_INDEX_COUNT
            - self.inds.len() {
            self.flush()
        } else {
            None
        }
    }

    /// Adds one shape. Where the shape would pass a capacity, what was
    /// gathered before is handed out as a draw call first; that happens in no
    /// other case. After the call both lists are within their capacity.
    pub fn add(&mut self, renderable: Renderable) -> (draw: Option<DrawCall>)
        requires
            old(self)@.well_formed(),
        ensures
            final(self)@.well_formed(),
            final(self)@ == old(self)@.added(renderable),
            draw.is_some() == old(self)@.drawn_before(renderable).is_some(),
            draw.is_some() ==> draw.unwrap()@ == old(self)@.drawn_before(renderable).unwrap(),
            draw.is_some() ==> draw.unwrap()@.well_formed(),
            draw.is_some() <==> renderable != Renderable::Empty && old(self)@.would_overflow(
                renderable.vertex_count(),
                renderable.index_count(),
            ),
    {
        match renderable {
            Renderable::Empty => None,
            Renderable::Triangle(v0, v1, v2) => {
                let draw = self.ensure_capacity(3, 3);
                let ghost start = self@;
                let i0: u16 = self.verts.len() as u16;
                self.verts.push(v0);
                self.verts.push(v1);
                self.verts.push(v2);
                self.inds.push(i0);
                self.inds.push(i0 + 1);
                self.inds.push(i0 + 2);
                proof {
                    let fan = renderable.indices(start.verts.len() as int).map_values(
                        |i: int| i as u16,
                    );
                    assert(self@.verts =~= start.verts + renderable.vertices());
                    assert(self@.inds =~= start.inds + fan);
                }
                draw
            },
            Renderable::Quadrilateral(v0, v1, v2, v3) => {
                let draw = self.ensure_capacity(4, 6);
                let ghost start = self@;
                let i0: u16 = self.verts.len() as u16;
                self.verts.push(v0);
                self.verts.push(v1);
                self.verts.push(v2);
                self.verts.push(v3);
                self.inds.push(i0);
                self.inds.push(i0 + 1);
                self.inds.push(i0 + 2);
                self.inds.push(i0);
                self.inds.push(i0 + 2);
                self.inds.push(i0 + 3);
                proof {
                    let fan = renderable.indices(start.verts.len() as int).map_values(
                        |i: int| i as u16,
                    );
                    assert(self@.verts =~= start.verts + renderable.vertices());
                    assert(self@.inds =~= start.inds + fan);
                }
                draw
            },
        }
    }

    /// Draws `items` in order and returns the draw calls to submit, in order.
    /// What the batch had gathered before the call is discarded; after the
    /// call the batch is empty.
    pub fn render(&mut self, items: &Vec<Renderable>) -> (draws: Vec<DrawCall>)
        ensures
            final(self)@ == Pending::empty(),
            draw_views(draws@) == rendered(items@),
            forall|k: int| 0 <= k < draws@.len() ==> (#[trigger] draws@[k])@.well_formed(),
    {
        self.verts.clear();
        self.inds.clear();
        let mut draws: Vec<DrawCall> = Vec::new();
        let mut i: usize = 0;
        assert(items@.take(0) =~= Seq::<Renderable>::empty());
        assert(draw_views(draws@) =~= Seq::<DrawCallView>::empty());
        while i < items.len()
            invariant
                i <= items.len(),
                self@.well_formed(),
                self@ == pending_after(items@.take(i as int)),
                draw_views(draws@) == draws_during(items@.take(i as int)),
                forall|k: int| 0 <= k < draws@.len() ==> (#[trigger] draws@[k])@.well_formed(),
            decreases items.len() - i,
        {
            let ghost before = draws@;
            proof {
                let next = items@.take(i as int + 1);
                assert(next.drop_last() =~= items@.take(i as int));
                assert(next.last() == items@[i as int]);
            }
            let draw = self.add(items[i]);
            match draw {
                Some(d) => {
                    draws.push(d);
                    assert(draw_views(draws@) =~= draw_views(before).push(d@));
                },
                None => {},
            }
            i += 1;
        }
        assert(items@.take(i as int) =~= items@);
        let ghost before = draws@;
        let last = self.flush();
        match last {
            Some(d) => {
                draws.push(d);
                assert(draw_views(draws@) =~= draw_views(before).push(d@));
            },
            None => {},
        }
        draws
    }
}

/// The index list as bytes, low byte of each index first.
pub open spec fn little_endian_bytes(indices: Seq<u16>) -> Seq<u8> {
    Seq::new(
        2 * indices.len(),
        |k: int|
            if k % 2 == 0 {
                (indices[k / 2] % 256) as u8
            } else {
                (indices[k / 2] / 256) as u8
            },
    )
}

/// The index list as bytes, high byte of each index first.
pub open spec fn big_endian_bytes(indices: Seq<u16>) -> Seq<u8> {
    Seq::new(
        2 * indices.len(),
        |k: int|
            if k % 2 == 0 {
                (indices[k / 2] / 256) as u8
            } else {
                (indices[k / 2] % 256) as u8
            },
    )
}

/// Calls `bytemuck::cast_slice` from `u16` to `u8` and copies the result.
/// The cast reinterprets the memory of the slice, so each index gives two
/// bytes in the byte order of the machine: the contract allows both orders,
/// one of them for the whole list. A cast to bytes needs no alignment and
/// leaves no remainder, so the call does not fail.
#[verifier::external_body]
fn cast_indices(indices: &Vec<u16>) -> (bytes: Vec<u8>)
    ensures
        bytes@ == little_endian_bytes(indices@) || bytes@ == big_endian_bytes(indices@),
{
    bytemuck::cast_slice::<u16, u8>(indices.as_slice()).to_vec()
}

impl DrawCall {
    /// The index list as the bytes that are written to the index buffer, in
    /// the byte order of the machine. The list of a draw call that a batch
    /// handed out fills whole four-byte words.
    pub fn index_bytes(&self) -> (bytes: Vec<u8>)
        ensures
            bytes@ == little_endian_bytes(self@.indices) || bytes@ == big_endian_bytes(
                self@.indices,
            ),
            bytes@.len() == 2 * self@.indices.len(),
            self@.indices.len() % 2 == 0 ==> bytes@.len() % 4 == 0,
    {
        cast_indices(&self.indices)
    }
}

/// All vertices of `items`, in order.
pub open spec fn all_vertices(items: Seq<Renderable>) -> Seq<Vertex>
    decreases items.len(),
{
    if items.len() == 0 {
        seq![]
    } else {
        all_vertices(items.drop_last()) + items.last().vertices()
    }
}

/// All vertices of `draws`, in order.
pub open spec fn drawn_vertices(draws: Seq<DrawCallView>) -> Seq<Vertex>
    decreases draws.len(),
{
    if draws.len() == 0 {
        seq![]
    } else {
        drawn_vertices(draws.drop_last()) + draws.last().vertices
    }
}

proof fn lemma_added_well_formed(p: Pending, r: Renderable)
    requires
        p.well_formed(),
    ensures
        p.added(r).well_formed(),
{
    if r != Renderable::Empty {
        let start = if p.would_overflow(r.vertex_count(), r.index_count()) {
            Pending::empty()
        } else {
            p
        };
        let fan = r.indices(start.verts.len() as int).map_values(|i: int| i as u16);
        let after = p.added(r);
        assert(after.inds == start.inds + fan);
        assert forall|i: int| 0 <= i < after.inds.len() implies (#[trigger] after.inds[i] as int)
            < after.verts.len() by {
            if i < start.inds.len() {
                assert(after.inds[i] == start.inds[i]);
            } else {
                assert(after.inds[i] == fan[i - start.inds.len()]);
            }
        }
    }
}

/// After every addition both lists are within their capacity: the batch
/// never holds more than [`MAX_VERTEX_COUNT`] vertices nor more than
/// [`MAX_INDEX_COUNT`] indices, whatever was added.
pub proof fn law_capacity_holds_after_every_addition(items: Seq<Renderable>)
    ensures
        pending_after(items).well_formed(),
        pending_after(items).verts.len() <= MAX_VERTEX_COUNT,
        pending_after(items).inds.len() <= MAX_INDEX_COUNT,
    decreases items.len(),
{
    if items.len() > 0 {
        law_capacity_holds_after_every_addition(items.drop_last());
        lemma_added_well_formed(pending_after(items.drop_last()), items.last());
    }
}

/// A draw call is made on the way exactly when the next shape would pass a
/// capacity: adding `next` after `items` submits what was gathered if and only
/// if `next` has vertices and its vertices or indices would not fit.
pub proof fn law_flush_exactly_on_overflow(items: Seq<Renderable>, next: Renderable)
    ensures
        draws_during(items.push(next)).len() == draws_during(items).len() + 1 <==> next
            != Renderable::Empty && pending_after(items).would_overflow(
            next.vertex_count(),
            next.index_count(),
        ),
        draws_during(items.push(next)).len() == draws_during(items).len() || draws_during(
            items.push(next),
        ).len() == draws_during(items).len() + 1,
{
    assert(items.push(next).drop_last() =~= items);
    law_capacity_holds_after_every_addition(items);
}

proof fn lemma_flushed_well_formed(p: Pending)
    requires
        p.well_formed(),
        p.flushed().is_some(),
    ensures
        p.flushed().unwrap().well_formed(),
{
    let d = p.flushed().unwrap();
    assert((p.inds[0] as int) < p.verts.len());
    assert forall|i: int| 0 <= i < d.indices.len() implies (#[trigger] d.indices[i] as int)
        < d.vertices.len() by {
        if i < p.inds.len() {
            assert(d.indices[i] == p.inds[i]);
        }
    }
}

proof fn lemma_draws_during_well_formed(items: Seq<Renderable>)
    ensures
        forall|k: int|
            0 <= k < draws_during(items).len() ==> (#[trigger] draws_during(items)[k]).well_formed(),
    decreases items.len(),
{
    if items.len() > 0 {
        lemma_draws_during_well_formed(items.drop_last());
        law_capacity_holds_after_every_addition(items.drop_last());
        let p = pending_after(items.drop_last());
        let before = draws_during(items.drop_last());
        if p.drawn_before(items.last()).is_some() {
            lemma_flushed_well_formed(p);
            let d = p.flushed().unwrap();
            assert forall|k: int| 0 <= k < before.push(d).len() implies (#[trigger] before.push(
                d,
            )[k]).well_formed() by {
                if k < before.len() {
                    assert(before.push(d)[k] == before[k]);
                }
            }
        }
    }
}

/// Every draw call of a render is accepted by the graphics card. In
/// particular its index list has even length: an odd list was padded with one
/// index of value zero.
pub proof fn law_every_draw_call_is_even(items: Seq<Renderable>, k: int)
    requires
        0 <= k < rendered(items).len(),
    ensures
        rendered(items)[k].well_formed(),
        rendered(items)[k].indices.len() % 2 == 0,
{
    lemma_draws_during_well_formed(items);
    law_capacity_holds_after_every_addition(items);
    let p = pending_after(items);
    if p.flushed().is_some() {
        lemma_flushed_well_formed(p);
    }
}

proof fn lemma_vertices_so_far(items: Seq<Renderable>)
    ensures
        drawn_vertices(draws_during(items)) + pending_after(items).verts == all_vertices(items),
    decreases items.len(),
{
    if items.len() == 0 {
        assert(drawn_vertices(draws_during(items)) + pending_after(items).verts =~= all_vertices(
            items,
        ));
    } else {
        let head = items.drop_last();
        let r = items.last();
        lemma_vertices_so_far(head);
        law_capacity_holds_after_every_addition(head);
        let p = pending_after(head);
        let before = draws_during(head);
        match p.drawn_before(r) {
            Some(d) => {
                assert(before.push(d).drop_last() =~= before);
                assert(drawn_vertices(before.push(d)) == drawn_vertices(before) + p.verts);
                assert(drawn_vertices(before) + p.verts + r.vertices() =~= all_vertices(head)
                    + r.vertices());
            },
            None => {
                if r != Renderable::Empty && p.would_overflow(r.vertex_count(), r.index_count()) {
                    assert(p.verts.len() == 0);
                    assert(p.verts =~= Seq::<Vertex>::empty());
                }
                assert(drawn_vertices(before) + p.added(r).verts =~= drawn_vertices(before)
                    + p.verts + r.vertices());
            },
        }
    }
}

/// A render loses nothing and reorders nothing: the vertices of its draw
/// calls, one call after the other, are the vertices of the shapes in the
/// order in which the shapes were given.
pub proof fn law_render_keeps_every_vertex(items: Seq<Renderable>)
    ensures
        drawn_vertices(rendered(items)) == all_vertices(items),
{
    lemma_vertices_so_far(items);
    law_capacity_holds_after_every_addition(items);
    let p = pending_after(items);
    let before = draws_during(items);
    match p.flushed() {
        Some(d) => {
            assert(before.push(d).drop_last() =~= before);
        },
        None => {
            assert(p.verts =~= Seq::<Vertex>::empty());
            assert(drawn_vertices(before) + p.verts =~= drawn_vertices(before));
        },
    }
}

proof fn lemma_all_vertices_grow(items: Seq<Renderable>)
    ensures
        items.len() > 0 ==> all_vertices(items.drop_last()).len() <= all_vertices(items).len(),
{
}

proof fn lemma_small_batches_never_flush(items: Seq<Renderable>)
    requires
        all_vertices(items).len() <= MAX_VERTEX_COUNT,
    ensures
        draws_during(items).len() == 0,
        pending_after(items).verts == all_vertices(items),
        2 * pending_after(items).inds.len() <= 3 * pending_after(items).verts.len(),
    decreases items.len(),
{
    if items.len() > 0 {
        lemma_all_vertices_grow(items);
        lemma_small_batches_never_flush(items.drop_last());
    }
}

/// Shapes that fit into one draw call get one draw call. A render of shapes
/// with no more than [`MAX_VERTEX_COUNT`] vertices in all submits at most one
/// draw call, and exactly one if any shape has a vertex.
pub proof fn law_small_batches_take_one_draw_call(items: Seq<Renderable>)
    requires
        all_vertices(items).len() <= MAX_VERTEX_COUNT,
    ensures
        rendered(items).len() <= 1,
        rendered(items).len() == 1 <==> all_vertices(items).len() > 0,
{
    lemma_small_batches_never_flush(items);
    law_capacity_holds_after_every_addition(items);
}

impl Renderable {
    /// The corners of the triangles that the shape is drawn as, triangle by
    /// triangle.
    pub open spec fn corners(self) -> Seq<Vertex> {
        match self {
            Renderable::Empty => seq![],
            Renderable::Triangle(v0, v1, v2) => seq![v0, v1, v2],
            Renderable::Quadrilateral(v0, v1, v2, v3) => seq![v0, v1, v2, v0, v2, v3],
        }
    }
}

/// The corners of the triangles of `items`, in order.
pub open spec fn all_corners(items: Seq<Renderable>) -> Seq<Vertex>
    decreases items.len(),
{
    if items.len() == 0 {
        seq![]
    } else {
        all_corners(items.drop_last()) + items.last().corners()
    }
}

/// The vertices that the first `count` of `inds` name.
pub open spec fn resolved(verts: Seq<Vertex>, inds: Seq<u16>, count: int) -> Seq<Vertex> {
    Seq::new(count as nat, |i: int| verts[inds[i] as int])
}

impl DrawCallView {
    /// The corners of the triangles that the draw call draws: the vertices
    /// that its indices name, three to a triangle. An index left over at the
    /// end, which pads the list, draws nothing.
    pub open spec fn corners(self) -> Seq<Vertex> {
        resolved(self.vertices, self.indices, self.indices.len() - self.indices.len() % 3)
    }
}

/// The corners of the triangles that `draws` draw, in order.
pub open spec fn drawn_corners(draws: Seq<DrawCallView>) -> Seq<Vertex>
    decreases draws.len(),
{
    if draws.len() == 0 {
        seq![]
    } else {
        drawn_corners(draws.drop_last()) + draws.last().corners()
    }
}

proof fn lemma_added_corners(p: Pending, r: Renderable)
    requires
        p.well_formed(),
        p.inds.len() % 3 == 0,
    ensures
        p.added(r).inds.len() % 3 == 0,
        p.drawn_before(r).is_none() ==> resolved(
            p.added(r).verts,
            p.added(r).inds,
            p.added(r).inds.len() as int,
        ) == resolved(p.verts, p.inds, p.inds.len() as int) + r.corners(),
        p.drawn_before(r).is_some() ==> resolved(
            p.added(r).verts,
            p.added(r).inds,
            p.added(r).inds.len() as int,
        ) == r.corners(),
{
    if r != Renderable::Empty {
        let start = if p.would_overflow(r.vertex_count(), r.index_count()) {
            Pending::empty()
        } else {
            p
        };
        let fan = r.indices(start.verts.len() as int).map_values(|i: int| i as u16);
        let after = p.added(r);
        let base = start.verts.len() as int;
        let old_corners = resolved(start.verts, start.inds, start.inds.len() as int);
        let new_corners = resolved(after.verts, after.inds, after.inds.len() as int);
        assert(after.inds == start.inds + fan);
        assert(after.verts == start.verts + r.vertices());
        assert forall|i: int| 0 <= i < new_corners.len() implies new_corners[i] == (old_corners
            + r.corners())[i] by {
            if i < start.inds.len() {
                assert(after.inds[i] == start.inds[i]);
                assert((start.inds[i] as int) < start.verts.len());
            } else {
                let k = i - start.inds.len();
                assert(after.inds[i] == fan[k]);
                assert(fan[k] == r.indices(base)[k] as u16);
            }
        }
        assert(new_corners =~= old_corners + r.corners());
        if p.would_overflow(r.vertex_count(), r.index_count()) {
            assert(old_corners =~= Seq::<Vertex>::empty());
            assert(old_corners + r.corners() =~= r.corners());
            assert(p.inds.len() > 0);
        }
    } else {
        assert(resolved(p.verts, p.inds, p.inds.len() as int) + r.corners() =~= resolved(
            p.verts,
            p.inds,
            p.inds.len() as int,
        ));
    }
}

proof fn lemma_flushed_corners(p: Pending)
    requires
        p.well_formed(),
        p.inds.len() % 3 == 0,
        p.flushed().is_some(),
    ensures
        p.flushed().unwrap().corners() == resolved(p.verts, p.inds, p.inds.len() as int),
{
    let d = p.flushed().unwrap();
    let count = d.indices.len() - d.indices.len() % 3;
    assert(count == p.inds.len());
    assert forall|i: int| 0 <= i < count implies d.indices[i] == p.inds[i] by {}
    assert(d.corners() =~= resolved(p.verts, p.inds, p.inds.len() as int));
}

proof fn lemma_corners_so_far(items: Seq<Renderable>)
    ensures
        pending_after(items).inds.len() % 3 == 0,
        drawn_corners(draws_during(items)) + resolved(
            pending_after(items).verts,
            pending_after(items).inds,
            pending_after(items).inds.len() as int,
        ) == all_corners(items),
    decreases items.len(),
{
    if items.len() == 0 {
        let p = pending_after(items);
        assert(drawn_corners(draws_during(items)) + resolved(p.verts, p.inds, p.inds.len() as int)
            =~= all_corners(items));
    } else {
        let head = items.drop_last();
        let r = items.last();
        lemma_corners_so_far(head);
        law_capacity_holds_after_every_addition(head);
        let p = pending_after(head);
        let before = draws_during(head);
        let gathered = resolved(p.verts, p.inds, p.inds.len() as int);
        lemma_added_corners(p, r);
        match p.drawn_before(r) {
            Some(d) => {
                lemma_flushed_corners(p);
                assert(before.push(d).drop_last() =~= before);
                assert(drawn_corners(before.push(d)) == drawn_corners(before) + gathered);
                assert(drawn_corners(before) + gathered + r.corners() =~= all_corners(head)
                    + r.corners());
            },
            None => {
                assert(drawn_corners(before) + (gathered + r.corners()) =~= drawn_corners(before)
                    + gathered + r.corners());
            },
        }
    }
}

/// A render draws every shape, and nothing else. The triangles that its
/// draw calls draw, one call after the other, are the triangles of the shapes
/// in the order in which the shapes were given: a triangle as it is, a
/// quadrilateral as the triangles of its corners 0-1-2 and 0-2-3.
pub proof fn law_render_draws_every_shape(items: Seq<Renderable>)
    ensures
        drawn_corners(rendered(items)) == all_corners(items),
{
    lemma_corners_so_far(items);
    law_capacity_holds_after_every_addition(items);
    let p = pending_after(items);
    let before = draws_during(items);
    let gathered = resolved(p.verts, p.inds, p.inds.len() as int);
    match p.flushed() {
        Some(d) => {
            lemma_flushed_corners(p);
            assert(before.push(d).drop_last() =~= before);
        },
        None => {
            assert(gathered =~= Seq::<Vertex>::empty());
            assert(drawn_corners(before) + gathered =~= drawn_corners(before));
        },
    }
}

} // verus!
