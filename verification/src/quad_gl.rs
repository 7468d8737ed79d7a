//! The draw-call batching engine.
//!
//! [`QuadGl`] accepts a stream of vertex/index submissions through
//! [`QuadGl::geometry`], each tagged with the draw state current at the time
//! of the call (texture, clip rectangle, viewport, transform, topology,
//! pipeline, render target). Submissions are appended to the most recently
//! opened draw call when every state component matches exactly and enough
//! capacity remains; otherwise a new draw call is opened. The engine never
//! reorders geometry and never merges into anything but the single latest
//! call, which keeps paint order intact by construction.
//!
//! Vertex attributes that are floating point on the GPU are carried here as
//! `u32` bit patterns. The engine copies and compares them but never does
//! arithmetic on them, so the representation is exact.

use vstd::prelude::*;

use crate::color::Rgba8;

verus! {

/// Bit pattern of the floating-point value one, used on the diagonal of the
/// identity transform.
pub const F32_ONE_BITS: u32 = 0x3F80_0000;

/// Default per-call vertex capacity, matching a typical GPU buffer budget.
pub const DEFAULT_MAX_VERTICES: usize = 10000;

/// Default per-call index capacity.
pub const DEFAULT_MAX_INDICES: usize = 5000;

/// Primitive assembly mode used to interpret a draw call's index buffer.
#[derive(Debug, Clone, Copy, PartialEq, Eq, Structural)]
pub enum DrawMode {
    Triangles,
    Lines,
}

/// Identifier of a GPU pipeline (a compiled shader plus fixed-function
/// state). Pipelines zero and one are the standard triangle and line
/// pipelines; further values name custom pipelines registered by the shell.
#[derive(Debug, Clone, Copy, PartialEq, Eq, Structural)]
pub struct GlPipeline(pub usize);

/// A rectangle in pixel coordinates, used for clip rectangles and viewport
/// overrides. `x` and `y` name the top-left corner in top-left-origin space.
#[derive(Debug, Clone, Copy, PartialEq, Eq, Structural)]
pub struct ClipRect {
    pub x: i32,
    pub y: i32,
    pub w: i32,
    pub h: i32,
}

/// A 4x4 transform matrix held as the bit patterns of its sixteen `f32`
/// entries, row by row. The engine only snapshots transforms and compares
/// them for equality, so bit-level identity is the equality that decides
/// whether two submissions may share a draw call.
#[derive(Debug, Clone, Copy, PartialEq, Eq, Structural)]
pub struct Transform {
    pub m00: u32, pub m01: u32, pub m02: u32, pub m03: u32,
    pub m10: u32, pub m11: u32, pub m12: u32, pub m13: u32,
    pub m20: u32, pub m21: u32, pub m22: u32, pub m23: u32,
    pub m30: u32, pub m31: u32, pub m32: u32, pub m33: u32,
}

impl Transform {
    /// The identity transform: ones on the diagonal, zeroes elsewhere.
    pub open spec fn spec_identity() -> Transform {
        Transform {
            m00: F32_ONE_BITS, m01: 0u32, m02: 0u32, m03: 0u32,
            m10: 0u32, m11: F32_ONE_BITS, m12: 0u32, m13: 0u32,
            m20: 0u32, m21: 0u32, m22: F32_ONE_BITS, m23: 0u32,
            m30: 0u32, m31: 0u32, m32: 0u32, m33: F32_ONE_BITS,
        }
    }

    /// Builds the identity transform.
    pub fn identity() -> (t: Transform)
        ensures
            t == Transform::spec_identity(),
    {
        Transform {
            m00: F32_ONE_BITS, m01: 0, m02: 0, m03: 0,
            m10: 0, m11: F32_ONE_BITS, m12: 0, m13: 0,
            m20: 0, m21: 0, m22: F32_ONE_BITS, m23: 0,
            m30: 0, m31: 0, m32: 0, m33: F32_ONE_BITS,
        }
    }
}

/// One vertex: a position, a texture coordinate (both as `f32` bit
/// patterns), and a quantized color.
#[derive(Debug, Clone, Copy, PartialEq, Eq, Structural)]
pub struct Vertex {
    pub x: u32,
    pub y: u32,
    pub z: u32,
    pub u: u32,
    pub v: u32,
    pub color: Rgba8,
}

impl Vertex {
    /// Builds a vertex from its components.
    pub fn new(x: u32, y: u32, z: u32, u: u32, v: u32, color: Rgba8) -> (vx: Vertex)
        ensures
            vx == (Vertex { x, y, z, u, v, color }),
    {
        Vertex { x, y, z, u, v, color }
    }
}

/// The draw state that a draw call snapshots when it is opened. Two
/// submissions may share a draw call only if their snapshots are equal in
/// every field.
#[derive(Debug, Clone, Copy, PartialEq, Eq)]
pub struct StateSnapshot {
    /// Active texture handle, or `None` for the solid-white fallback.
    pub texture: Option<u64>,
    /// Clip rectangle in top-left-origin pixel space, if any.
    pub clip: Option<ClipRect>,
    /// Viewport override, if any.
    pub viewport: Option<ClipRect>,
    /// Top of the transform stack at submission time.
    pub model: Transform,
    /// Primitive topology.
    pub draw_mode: DrawMode,
    /// Resolved pipeline: the explicit override if one is set, otherwise the
    /// standard pipeline for the topology.
    pub pipeline: GlPipeline,
    /// Render target handle, or `None` for the screen.
    pub render_pass: Option<u64>,
}

/// The standard pipeline for a topology: pipeline zero draws triangle lists,
/// pipeline one draws line lists.
pub open spec fn spec_pipeline_for_mode(mode: DrawMode) -> GlPipeline {
    match mode {
        DrawMode::Triangles => GlPipeline(0),
        DrawMode::Lines => GlPipeline(1),
    }
}

/// Executable twin of [`spec_pipeline_for_mode`].
pub fn pipeline_for_mode(mode: DrawMode) -> (p: GlPipeline)
    ensures
        p == spec_pipeline_for_mode(mode),
{
    match mode {
        DrawMode::Triangles => GlPipeline(0),
        DrawMode::Lines => GlPipeline(1),
    }
}

/// Error returned by [`QuadGl::geometry`] when one submission alone exceeds
/// a draw call's fixed capacity. Oversized submissions are rejected rather
/// than silently truncated, so no geometry is ever lost without a signal.
#[derive(Debug, Clone, Copy, PartialEq, Eq, Structural)]
pub enum GeometryError {
    /// The vertex list alone is larger than the per-call vertex capacity.
    TooManyVertices,
    /// The index list alone is larger than the per-call index capacity.
    TooManyIndices,
}

/// An ordered unit of GPU work: a vertex buffer, an index buffer whose
/// entries are offsets into that same vertex buffer, and the snapshot of the
/// draw state taken when the call was opened.
pub struct DrawCall {
    pub vertices: Vec<Vertex>,
    pub indices: Vec<u16>,
    pub texture: Option<u64>,
    pub clip: Option<ClipRect>,
    pub viewport: Option<ClipRect>,
    pub model: Transform,
    pub draw_mode: DrawMode,
    pub pipeline: GlPipeline,
    pub render_pass: Option<u64>,
}

/// Mathematical image of one draw call: its buffers as sequences and its
/// state snapshot.
pub ghost struct CallView {
    pub verts: Seq<Vertex>,
    pub idxs: Seq<u16>,
    pub snap: StateSnapshot,
}

/// Indices stored in a draw call stay valid offsets into the call's own
/// vertex buffer, and the buffers stay within the engine's per-call caps.
pub open spec fn call_wf(c: CallView, max_vertices: nat, max_indices: nat) -> bool {
    &&& c.verts.len() <= max_vertices
    &&& c.idxs.len() <= max_indices
    &&& forall|j: int| 0 <= j < c.idxs.len() ==> (c.idxs[j] as int) < c.verts.len()
}

impl DrawCall {
    /// The state snapshot stored in this call.
    pub open spec fn snap(self) -> StateSnapshot {
        StateSnapshot {
            texture: self.texture,
            clip: self.clip,
            viewport: self.viewport,
            model: self.model,
            draw_mode: self.draw_mode,
            pipeline: self.pipeline,
            render_pass: self.render_pass,
        }
    }

    /// The mathematical image of this call.
    pub open spec fn view_of(self) -> CallView {
        CallView { verts: self.vertices@, idxs: self.indices@, snap: self.snap() }
    }

    /// A fresh, empty draw call holding the given snapshot.
    fn open_with(snap_texture: Option<u64>, snap_clip: Option<ClipRect>,
        snap_viewport: Option<ClipRect>, snap_model: Transform, snap_draw_mode: DrawMode,
        snap_pipeline: GlPipeline, snap_render_pass: Option<u64>) -> (dc: DrawCall)
        ensures
            dc.vertices@ == Seq::<Vertex>::empty(),
            dc.indices@ == Seq::<u16>::empty(),
            dc.snap() == (StateSnapshot {
                texture: snap_texture,
                clip: snap_clip,
                viewport: snap_viewport,
                model: snap_model,
                draw_mode: snap_draw_mode,
                pipeline: snap_pipeline,
                render_pass: snap_render_pass,
            }),
    {
        DrawCall {
            vertices: Vec::new(),
            indices: Vec::new(),
            texture: snap_texture,
            clip: snap_clip,
            viewport: snap_viewport,
            model: snap_model,
            draw_mode: snap_draw_mode,
            pipeline: snap_pipeline,
            render_pass: snap_render_pass,
        }
    }

    /// Empties the buffers and installs a new snapshot, reusing the buffer
    /// allocations of a pooled call.
    fn reopen(&mut self, snap_texture: Option<u64>, snap_clip: Option<ClipRect>,
        snap_viewport: Option<ClipRect>, snap_model: Transform, snap_draw_mode: DrawMode,
        snap_pipeline: GlPipeline, snap_render_pass: Option<u64>)
        ensures
            final(self).vertices@ == Seq::<Vertex>::empty(),
            final(self).indices@ == Seq::<u16>::empty(),
            final(self).snap() == (StateSnapshot {
                texture: snap_texture,
                clip: snap_clip,
                viewport: snap_viewport,
                model: snap_model,
                draw_mode: snap_draw_mode,
                pipeline: snap_pipeline,
                render_pass: snap_render_pass,
            }),
    {
        self.vertices.clear();
        self.indices.clear();
        self.texture = snap_texture;
        self.clip = snap_clip;
        self.viewport = snap_viewport;
        self.model = snap_model;
        self.draw_mode = snap_draw_mode;
        self.pipeline = snap_pipeline;
        self.render_pass = snap_render_pass;
    }

    /// Appends a submission to this call. Incoming indices are offsets into
    /// the submission's own vertex list; they are rebased by the call's
    /// current vertex count so that they stay valid within the call.
    fn append(&mut self, vertices: &Vec<Vertex>, indices: &Vec<u16>)
        requires
            old(self).vertices@.len() + vertices@.len() <= 65536,
            forall|j: int| 0 <= j < indices@.len() ==> (indices@[j] as int) < vertices@.len(),
        ensures
            final(self).vertices@ == old(self).vertices@ + vertices@,
            final(self).indices@ == old(self).indices@
                + rebase_indices(indices@, old(self).vertices@.len() as int),
            final(self).snap() == old(self).snap(),
    {
        let base = self.vertices.len();
        let mut i: usize = 0;
        while i < vertices.len()
            invariant
                i <= vertices@.len(),
                self.vertices@ == old(self).vertices@ + vertices@.subrange(0, i as int),
                self.indices@ == old(self).indices@,
                self.snap() == old(self).snap(),
                vertices@.len() + old(self).vertices@.len() <= 65536,
            decreases vertices@.len() - i,
        {
            self.vertices.push(vertices[i]);
            assert(self.vertices@ == old(self).vertices@ + vertices@.subrange(0, i + 1 as int));
            i = i + 1;
        }
        assert(vertices@.subrange(0, vertices@.len() as int) == vertices@);

        let mut j: usize = 0;
        while j < indices.len()
            invariant
                j <= indices@.len(),
                base == old(self).vertices@.len(),
                self.vertices@ == old(self).vertices@ + vertices@,
                self.snap() == old(self).snap(),
                base + vertices@.len() <= 65536,
                forall|k: int| 0 <= k < indices@.len() ==> (indices@[k] as int) < vertices@.len(),
                self.indices@ == old(self).indices@
                    + rebase_indices(indices@.subrange(0, j as int), base as int),
            decreases indices@.len() - j,
        {
            let idx = indices[j];
            assert((idx as int) < vertices@.len());
            let rebased: u16 = idx + (base as u16);
            self.indices.push(rebased);
            assert(rebase_indices(indices@.subrange(0, j + 1 as int), base as int)
                == rebase_indices(indices@.subrange(0, j as int), base as int).push(rebased)) by {
                assert(rebase_indices(indices@.subrange(0, j + 1 as int), base as int)
                    =~= rebase_indices(indices@.subrange(0, j as int), base as int).push(rebased));
            }
            j = j + 1;
        }
        assert(indices@.subrange(0, indices@.len() as int) == indices@);
    }
}

/// The indices of a submission, shifted by the vertex count the receiving
/// draw call had before the submission was appended.
pub open spec fn rebase_indices(idxs: Seq<u16>, base: int) -> Seq<u16> {
    Seq::new(idxs.len(), |i: int| (idxs[i] + base) as u16)
}

/// Mathematical image of the engine's mutable draw state.
pub ghost struct StateView {
    pub texture: Option<u64>,
    pub clip: Option<ClipRect>,
    pub viewport: Option<ClipRect>,
    pub transforms: Seq<Transform>,
    pub draw_mode: DrawMode,
    pub pipeline_override: Option<GlPipeline>,
    pub break_batching: bool,
    pub render_pass: Option<u64>,
}

/// The pipeline a submission resolves to: the explicit override if one is
/// set, otherwise the standard pipeline for the current topology.
pub open spec fn resolve_pipeline(s: StateView) -> GlPipeline {
    match s.pipeline_override {
        Some(p) => p,
        None => spec_pipeline_for_mode(s.draw_mode),
    }
}

/// The snapshot a draw call opened under state `s` would store.
pub open spec fn snapshot_of(s: StateView) -> StateSnapshot {
    StateSnapshot {
        texture: s.texture,
        clip: s.clip,
        viewport: s.viewport,
        model: s.transforms.last(),
        draw_mode: s.draw_mode,
        pipeline: resolve_pipeline(s),
        render_pass: s.render_pass,
    }
}

/// The draw state the engine starts with, and returns to on [`QuadGl::reset`]:
/// no texture, no clip, no viewport, a single identity transform, triangle
/// topology, no pipeline override, no forced break, the screen as target.
pub open spec fn default_state() -> StateView {
    StateView {
        texture: None,
        clip: None,
        viewport: None,
        transforms: seq![Transform::spec_identity()],
        draw_mode: DrawMode::Triangles,
        pipeline_override: None,
        break_batching: false,
        render_pass: None,
    }
}

/// Whether a submission of `nv` vertices and `ni` indices may be merged into
/// the most recently opened call `last` under current state `s`: the stored
/// snapshot must equal the current snapshot in every field, batching must not
/// be force-broken, and the call must have room for the whole submission.
pub open spec fn can_merge(
    last: CallView,
    s: StateView,
    nv: nat,
    ni: nat,
    max_vertices: nat,
    max_indices: nat,
) -> bool {
    &&& last.snap == snapshot_of(s)
    &&& !s.break_batching
    &&& last.verts.len() + nv <= max_vertices
    &&& last.idxs.len() + ni <= max_indices
}

/// The call that results from merging a submission into `last`: vertices are
/// concatenated, incoming indices are rebased by the vertex count `last`
/// already held, the snapshot is untouched.
pub open spec fn merged_call(last: CallView, verts: Seq<Vertex>, idxs: Seq<u16>) -> CallView {
    CallView {
        verts: last.verts + verts,
        idxs: last.idxs + rebase_indices(idxs, last.verts.len() as int),
        snap: last.snap,
    }
}

/// The call that a submission opens when it cannot merge: it holds exactly
/// the submission and the current snapshot.
pub open spec fn opened_call(s: StateView, verts: Seq<Vertex>, idxs: Seq<u16>) -> CallView {
    CallView { verts, idxs, snap: snapshot_of(s) }
}

/// The effect of one successful [`QuadGl::geometry`] call: state is
/// unchanged except that a forced break is consumed, and the draw-call list
/// either grows at the end by the opened call or has the submission merged
/// into its last entry. The buffer pool never shrinks, and it grows only
/// when a call is opened with no pooled slot left to reuse.
pub open spec fn geometry_effect(pre: QuadGl, post: QuadGl, verts: Seq<Vertex>, idxs: Seq<u16>) -> bool {
    let n = pre.calls().len() as int;
    &&& post.gl_state() == (StateView { break_batching: false, ..pre.gl_state() })
    &&& post.max_vertices() == pre.max_vertices()
    &&& post.max_indices() == pre.max_indices()
    &&& if n > 0 && can_merge(pre.calls().last(), pre.gl_state(), verts.len(), idxs.len(),
            pre.max_vertices(), pre.max_indices()) {
        &&& post.calls() == pre.calls().update(n - 1,
            merged_call(pre.calls().last(), verts, idxs))
        &&& post.pool_size() == pre.pool_size()
    } else {
        &&& post.calls() == pre.calls().push(opened_call(pre.gl_state(), verts, idxs))
        &&& post.pool_size() == if pre.calls().len() < pre.pool_size() {
            pre.pool_size()
        } else {
            pre.pool_size() + 1
        }
    }
}

/// The engine's mutable draw state.
struct GlState {
    texture: Option<u64>,
    clip: Option<ClipRect>,
    viewport: Option<ClipRect>,
    model_stack: Vec<Transform>,
    draw_mode: DrawMode,
    pipeline: Option<GlPipeline>,
    break_batching: bool,
    render_pass: Option<u64>,
}

impl GlState {
    spec fn view_of(self) -> StateView {
        StateView {
            texture: self.texture,
            clip: self.clip,
            viewport: self.viewport,
            transforms: self.model_stack@,
            draw_mode: self.draw_mode,
            pipeline_override: self.pipeline,
            break_batching: self.break_batching,
            render_pass: self.render_pass,
        }
    }

    fn default_state() -> (s: GlState)
        ensures
            s.view_of() == default_state(),
    {
        let mut model_stack: Vec<Transform> = Vec::new();
        model_stack.push(Transform::identity());
        let s = GlState {
            texture: None,
            clip: None,
            viewport: None,
            model_stack,
            draw_mode: DrawMode::Triangles,
            pipeline: None,
            break_batching: false,
            render_pass: None,
        };
        assert(s.view_of().transforms =~= default_state().transforms);
        s
    }

    /// The top of the transform stack.
    fn model(&self) -> (t: Transform)
        requires
            self.model_stack@.len() >= 1,
        ensures
            t == self.view_of().transforms.last(),
    {
        self.model_stack[self.model_stack.len() - 1]
    }
}

/// The batching engine: an ordered, pooled list of draw calls plus the
/// mutable draw state that tags incoming submissions.
pub struct QuadGl {
    draw_calls: Vec<DrawCall>,
    draw_calls_count: usize,
    state: GlState,
    max_vertices: usize,
    max_indices: usize,
}

impl QuadGl {
    /// The per-call vertex capacity this engine was built with.
    pub closed spec fn max_vertices(self) -> nat {
        self.max_vertices as nat
    }

    /// The per-call index capacity this engine was built with.
    pub closed spec fn max_indices(self) -> nat {
        self.max_indices as nat
    }

    /// Number of pooled draw-call buffers, live or not. This only grows
    /// within a frame and is left untouched by [`QuadGl::reset`].
    pub closed spec fn pool_size(self) -> nat {
        self.draw_calls@.len()
    }

    /// The live draw calls of the current frame, in creation order.
    pub closed spec fn calls(self) -> Seq<CallView> {
        Seq::new(self.draw_calls_count as nat, |i: int| self.draw_calls@[i].view_of())
    }

    /// The current draw state.
    pub closed spec fn gl_state(self) -> StateView {
        self.state.view_of()
    }

    /// The snapshot a call opened right now would store.
    pub open spec fn snapshot(self) -> StateSnapshot {
        snapshot_of(self.gl_state())
    }

    /// Engine invariant: the live-call count stays within the pool, the
    /// transform stack is never empty, capacities are positive and small
    /// enough for `u16` index rebasing, and every pooled call is internally
    /// consistent.
    pub closed spec fn wf(self) -> bool {
        &&& self.draw_calls_count <= self.draw_calls@.len()
        &&& self.state.model_stack@.len() >= 1
        &&& 1 <= self.max_vertices <= 65536
        &&& 1 <= self.max_indices <= 0x4000_0000
        &&& forall|i: int| 0 <= i < self.draw_calls@.len()
            ==> call_wf(#[trigger] self.draw_calls@[i].view_of(),
                    self.max_vertices as nat, self.max_indices as nat)
    }

    /// Every live call of a well-formed engine is internally consistent; in
    /// particular all stored indices are valid offsets into the call's own
    /// vertex buffer.
    pub proof fn lemma_wf_calls(self)
        requires
            self.wf(),
        ensures
            forall|i: int| 0 <= i < self.calls().len()
                ==> call_wf(#[trigger] self.calls()[i], self.max_vertices(), self.max_indices()),
    {
    }

    /// What the engine invariant guarantees of the draw state: the
    /// transform stack is never empty — the base identity transform the
    /// engine starts with is never popped — and the capacities stay within
    /// the bounds index rebasing relies on.
    pub proof fn lemma_wf_state(self)
        requires
            self.wf(),
        ensures
            self.gl_state().transforms.len() >= 1,
            self.calls().len() <= self.pool_size(),
            1 <= self.max_vertices() <= 65536,
            1 <= self.max_indices(),
    {
    }

    /// Builds an engine with the given per-call capacities and the default
    /// draw state, with no pooled buffers yet.
    pub fn new(max_vertices: usize, max_indices: usize) -> (gl: QuadGl)
        requires
            1 <= max_vertices <= 65536,
            1 <= max_indices <= 0x4000_0000,
        ensures
            gl.wf(),
            gl.calls() == Seq::<CallView>::empty(),
            gl.pool_size() == 0,
            gl.gl_state() == default_state(),
            gl.max_vertices() == max_vertices,
            gl.max_indices() == max_indices,
    {
        let gl = QuadGl {
            draw_calls: Vec::new(),
            draw_calls_count: 0,
            state: GlState::default_state(),
            max_vertices,
            max_indices,
        };
        assert(gl.calls() =~= Seq::<CallView>::empty());
        gl
    }

    /// Number of live draw calls in the current frame.
    pub fn draw_calls_count(&self) -> (n: usize)
        ensures
            n == self.calls().len(),
    {
        self.draw_calls_count
    }

    /// Number of pooled draw-call buffers.
    pub fn pool_len(&self) -> (n: usize)
        ensures
            n == self.pool_size(),
    {
        self.draw_calls.len()
    }

    /// Borrows the `i`-th live draw call, for submission to the GPU and for
    /// inspection in tests.
    pub fn draw_call_at(&self, i: usize) -> (dc: &DrawCall)
        requires
            self.wf(),
            i < self.calls().len(),
        ensures
            dc.view_of() == self.calls()[i as int],
    {
        &self.draw_calls[i]
    }

    /// Resets the live draw-call count without touching the pool or the
    /// draw state.
    pub fn clear_draw_calls(&mut self)
        ensures
            final(self).calls() == Seq::<CallView>::empty(),
            final(self).pool_size() == old(self).pool_size(),
            final(self).gl_state() == old(self).gl_state(),
            final(self).max_vertices() == old(self).max_vertices(),
            final(self).max_indices() == old(self).max_indices(),
            old(self).wf() ==> final(self).wf(),
    {
        self.draw_calls_count = 0;
        assert(self.calls() =~= Seq::<CallView>::empty());
    }

    /// Prepares for a new frame: clears the live draw-call count while
    /// keeping every pooled buffer, and restores the default draw state.
    pub fn reset(&mut self)
        ensures
            final(self).calls() == Seq::<CallView>::empty(),
            final(self).pool_size() == old(self).pool_size(),
            final(self).gl_state() == default_state(),
            final(self).max_vertices() == old(self).max_vertices(),
            final(self).max_indices() == old(self).max_indices(),
            old(self).wf() ==> final(self).wf(),
    {
        self.state = GlState::default_state();
        self.draw_calls_count = 0;
        assert(self.calls() =~= Seq::<CallView>::empty());
    }

    /// Sets the active texture; `None` selects the solid-white fallback.
    pub fn texture(&mut self, texture: Option<u64>)
        ensures
            final(self).gl_state() == (StateView { texture, ..old(self).gl_state() }),
            unchanged_calls(*old(self), *final(self)),
            old(self).wf() ==> final(self).wf(),
    {
        self.state.texture = texture;
    }

    /// Clears the active texture.
    pub fn texture_none(&mut self)
        ensures
            final(self).gl_state() == (StateView { texture: None, ..old(self).gl_state() }),
            unchanged_calls(*old(self), *final(self)),
            old(self).wf() ==> final(self).wf(),
    {
        self.state.texture = None;
    }

    /// Sets the primitive topology for subsequent submissions.
    pub fn draw_mode(&mut self, mode: DrawMode)
        ensures
            final(self).gl_state() == (StateView { draw_mode: mode, ..old(self).gl_state() }),
            unchanged_calls(*old(self), *final(self)),
            old(self).wf() ==> final(self).wf(),
    {
        self.state.draw_mode = mode;
    }

    /// Sets or clears the clip rectangle.
    pub fn set_clip(&mut self, clip: Option<ClipRect>)
        ensures
            final(self).gl_state() == (StateView { clip, ..old(self).gl_state() }),
            unchanged_calls(*old(self), *final(self)),
            old(self).wf() ==> final(self).wf(),
    {
        self.state.clip = clip;
    }

    /// Sets or clears the viewport override.
    pub fn set_viewport(&mut self, viewport: Option<ClipRect>)
        ensures
            final(self).gl_state() == (StateView { viewport, ..old(self).gl_state() }),
            unchanged_calls(*old(self), *final(self)),
            old(self).wf() ==> final(self).wf(),
    {
        self.state.viewport = viewport;
    }

    /// Sets or clears the pipeline override.
    pub fn set_pipeline(&mut self, pipeline: Option<GlPipeline>)
        ensures
            final(self).gl_state() == (StateView {
                pipeline_override: pipeline,
                ..old(self).gl_state()
            }),
            unchanged_calls(*old(self), *final(self)),
            old(self).wf() ==> final(self).wf(),
    {
        self.state.pipeline = pipeline;
    }

    /// Sets or clears the render target; `None` targets the screen.
    pub fn set_render_target(&mut self, render_pass: Option<u64>)
        ensures
            final(self).gl_state() == (StateView { render_pass, ..old(self).gl_state() }),
            unchanged_calls(*old(self), *final(self)),
            old(self).wf() ==> final(self).wf(),
    {
        self.state.render_pass = render_pass;
    }

    /// Sets or clears the flag that forces the next submission to open a new
    /// draw call regardless of state compatibility.
    pub fn set_break_batching(&mut self, break_batching: bool)
        ensures
            final(self).gl_state() == (StateView { break_batching, ..old(self).gl_state() }),
            unchanged_calls(*old(self), *final(self)),
            old(self).wf() ==> final(self).wf(),
    {
        self.state.break_batching = break_batching;
    }

    /// Pushes a transform onto the transform stack.
    pub fn push_transform(&mut self, transform: Transform)
        ensures
            final(self).gl_state() == (StateView {
                transforms: old(self).gl_state().transforms.push(transform),
                ..old(self).gl_state()
            }),
            unchanged_calls(*old(self), *final(self)),
            old(self).wf() ==> final(self).wf(),
    {
        self.state.model_stack.push(transform);
    }

    /// Pops the top of the transform stack. The base identity transform the
    /// engine was initialized with must never be popped.
    pub fn pop_transform(&mut self)
        requires
            old(self).gl_state().transforms.len() > 1,
        ensures
            final(self).gl_state() == (StateView {
                transforms: old(self).gl_state().transforms.drop_last(),
                ..old(self).gl_state()
            }),
            unchanged_calls(*old(self), *final(self)),
            old(self).wf() ==> final(self).wf(),
    {
        self.state.model_stack.pop();
    }
}

/// The draw-call list, the buffer pool and the capacities of `post` are
/// those of `pre`.
pub open spec fn unchanged_calls(pre: QuadGl, post: QuadGl) -> bool {
    &&& post.calls() == pre.calls()
    &&& post.pool_size() == pre.pool_size()
    &&& post.max_vertices() == pre.max_vertices()
    &&& post.max_indices() == pre.max_indices()
}

/// Equality test on optional integer handles.
fn opt_u64_eq(a: Option<u64>, b: Option<u64>) -> (r: bool)
    ensures
        r == (a == b),
{
    match (a, b) {
        (Option::Some(x), Option::Some(y)) => x == y,
        (Option::None, Option::None) => true,
        _ => false,
    }
}

/// Equality test on optional pixel rectangles.
fn opt_clip_eq(a: Option<ClipRect>, b: Option<ClipRect>) -> (r: bool)
    ensures
        r == (a == b),
{
    match (a, b) {
        (Option::Some(x), Option::Some(y)) => x == y,
        (Option::None, Option::None) => true,
        _ => false,
    }
}

impl QuadGl {
    /// Appends a submission of vertices and indices under the current draw
    /// state: the core batching operation.
    ///
    /// Each incoming index must be a valid offset into the submission's own
    /// vertex list; handing over an index past the end is a programming
    /// error in the caller, excluded by precondition.
    ///
    /// A submission larger on its own than the per-call capacity is rejected
    /// with the matching error and leaves the engine untouched. Every other
    /// submission succeeds: it merges into the most recently opened call
    /// when every state component matches and capacity remains, and opens a
    /// new call otherwise, reusing a pooled buffer when one is free.
    pub fn geometry(&mut self, vertices: &Vec<Vertex>, indices: &Vec<u16>)
        -> (r: Result<(), GeometryError>)
        requires
            old(self).wf(),
            forall|j: int| 0 <= j < indices@.len() ==> (indices@[j] as int) < vertices@.len(),
        ensures
            final(self).wf(),
            match r {
                Ok(_) => geometry_effect(*old(self), *final(self), vertices@, indices@),
                Err(e) => {
                    &&& *final(self) == *old(self)
                    &&& (e == GeometryError::TooManyVertices
                        <==> vertices@.len() > old(self).max_vertices())
                },
            },
            r is Ok <==> (vertices@.len() <= old(self).max_vertices()
                && indices@.len() <= old(self).max_indices()),
    {
        if vertices.len() > self.max_vertices {
            return Err(GeometryError::TooManyVertices);
        }
        if indices.len() > self.max_indices {
            return Err(GeometryError::TooManyIndices);
        }

        let ghost pre = *self;

        let pip = match self.state.pipeline {
            Option::Some(p) => p,
            Option::None => pipeline_for_mode(self.state.draw_mode),
        };
        let model = self.state.model();

        let st_texture = self.state.texture;
        let st_clip = self.state.clip;
        let st_viewport = self.state.viewport;
        let st_mode = self.state.draw_mode;
        let st_render_pass = self.state.render_pass;

        proof {
            assert(pip == resolve_pipeline(pre.gl_state()));
            assert(snapshot_of(pre.gl_state()) == StateSnapshot {
                texture: st_texture,
                clip: st_clip,
                viewport: st_viewport,
                model: model,
                draw_mode: st_mode,
                pipeline: pip,
                render_pass: st_render_pass,
            });
        }

        let merge_now = if self.draw_calls_count == 0 {
            false
        } else {
            let dc = &self.draw_calls[self.draw_calls_count - 1];
            proof {
                assert(dc.view_of() == pre.calls().last());
                assert(call_wf(dc.view_of(), pre.max_vertices(), pre.max_indices()));
            }
            opt_u64_eq(dc.texture, st_texture)
                && opt_clip_eq(dc.clip, st_clip)
                && opt_clip_eq(dc.viewport, st_viewport)
                && dc.model == model
                && dc.draw_mode == st_mode
                && dc.pipeline == pip
                && opt_u64_eq(dc.render_pass, st_render_pass)
                && !self.state.break_batching
                && dc.vertices.len() + vertices.len() <= self.max_vertices
                && dc.indices.len() + indices.len() <= self.max_indices
        };

        proof {
            if pre.calls().len() > 0 {
                let lastv = pre.calls().last();
                if merge_now {
                    assert(lastv.snap == snapshot_of(pre.gl_state()));
                    assert(can_merge(lastv, pre.gl_state(), vertices@.len(), indices@.len(),
                        pre.max_vertices(), pre.max_indices()));
                } else {
                    assert(!can_merge(lastv, pre.gl_state(), vertices@.len(), indices@.len(),
                        pre.max_vertices(), pre.max_indices()));
                }
            }
        }

        if merge_now {
            let ix = self.draw_calls_count - 1;
            proof {
                assert(self.draw_calls@[ix as int].view_of().verts.len() + vertices@.len()
                    <= 65536);
            }
            let dc = &mut self.draw_calls[ix];
            dc.append(vertices, indices);
            proof {
                let lastv = pre.calls().last();
                let merged = merged_call(lastv, vertices@, indices@);
                assert(self.draw_calls@[ix as int].view_of() == merged);
                assert(self.calls() =~~= pre.calls().update(
                    pre.calls().len() as int - 1, merged));
                assert(self.gl_state() == (StateView {
                    break_batching: false,
                    ..pre.gl_state()
                }));
                assert forall|i: int| 0 <= i < self.draw_calls@.len()
                    implies call_wf(#[trigger] self.draw_calls@[i].view_of(),
                        self.max_vertices as nat, self.max_indices as nat) by {
                    if i == ix {
                        assert forall|j: int| 0 <= j < merged.idxs.len()
                            implies (merged.idxs[j] as int) < merged.verts.len() by {
                            if j < lastv.idxs.len() {
                                assert((lastv.idxs[j] as int) < lastv.verts.len());
                            } else {
                                let k = j - lastv.idxs.len();
                                assert(merged.idxs[j] == rebase_indices(indices@,
                                    lastv.verts.len() as int)[k]);
                            }
                        }
                    } else {
                        assert(self.draw_calls@[i] == pre.draw_calls@[i]);
                    }
                }
            }
            Ok(())
        } else {
            if self.draw_calls_count == self.draw_calls.len() {
                let fresh = DrawCall::open_with(st_texture, st_clip, st_viewport, model,
                    st_mode, pip, st_render_pass);
                self.draw_calls.push(fresh);
            }
            let ix = self.draw_calls_count;
            let pool = self.draw_calls.len();
            assert(ix < pool);
            let dc = &mut self.draw_calls[ix];
            dc.reopen(st_texture, st_clip, st_viewport, model, st_mode, pip, st_render_pass);
            dc.append(vertices, indices);
            self.draw_calls_count = ix + 1;
            self.state.break_batching = false;
            proof {
                let opened = opened_call(pre.gl_state(), vertices@, indices@);
                assert(rebase_indices(indices@, 0) =~= indices@);
                assert(Seq::<Vertex>::empty() + vertices@ =~= vertices@);
                assert(Seq::<u16>::empty() + rebase_indices(indices@, 0) =~= indices@);
                assert(self.draw_calls@[ix as int].view_of() == opened);
                assert(self.calls() =~~= pre.calls().push(opened));
                assert(self.gl_state() == (StateView {
                    break_batching: false,
                    ..pre.gl_state()
                }));
                assert forall|i: int| 0 <= i < self.draw_calls@.len()
                    implies call_wf(#[trigger] self.draw_calls@[i].view_of(),
                        self.max_vertices as nat, self.max_indices as nat) by {
                    if i != ix {
                        assert(self.draw_calls@[i] == pre.draw_calls@[i]);
                    }
                }
            }
            Ok(())
        }
    }

    /// Ends a frame after submission: every live call's buffers are emptied
    /// for reuse next frame and the live count drops to zero, while the pool
    /// itself and the draw state are retained.
    pub fn finish_frame(&mut self)
        requires
            old(self).wf(),
        ensures
            final(self).wf(),
            final(self).calls() == Seq::<CallView>::empty(),
            final(self).pool_size() == old(self).pool_size(),
            final(self).gl_state() == old(self).gl_state(),
            final(self).max_vertices() == old(self).max_vertices(),
            final(self).max_indices() == old(self).max_indices(),
    {
        let count = self.draw_calls_count;
        let mut i: usize = 0;
        while i < count
            invariant
                i <= count,
                count == self.draw_calls_count,
                self.draw_calls_count <= self.draw_calls@.len(),
                self.draw_calls@.len() == old(self).draw_calls@.len(),
                self.state == old(self).state,
                self.max_vertices == old(self).max_vertices,
                self.max_indices == old(self).max_indices,
                1 <= self.max_vertices <= 65536,
                1 <= self.max_indices <= 0x4000_0000,
                forall|j: int| i <= j < self.draw_calls@.len()
                    ==> self.draw_calls@[j] == old(self).draw_calls@[j],
                forall|j: int| 0 <= j < self.draw_calls@.len()
                    ==> call_wf(#[trigger] self.draw_calls@[j].view_of(),
                            self.max_vertices as nat, self.max_indices as nat),
            decreases count - i,
        {
            let dc = &mut self.draw_calls[i];
            dc.vertices.clear();
            dc.indices.clear();
            i = i + 1;
        }
        self.draw_calls_count = 0;
        assert(self.calls() =~= Seq::<CallView>::empty());
    }
}

/// The (snapshot, vertex) pairs a call contributes when replayed on its own:
/// one entry per stored index, in order, fetching the indexed vertex from
/// the call's own vertex buffer under the call's snapshot.
pub open spec fn call_stream(c: CallView) -> Seq<(StateSnapshot, Vertex)> {
    Seq::new(c.idxs.len(), |i: int| (c.snap, c.verts[c.idxs[i] as int]))
}

/// The whole frame's replay stream: every call replayed independently, in
/// creation order. This is the discrete footprint of the pixels a frame
/// produces: same stream, same picture.
pub open spec fn frame_stream(calls: Seq<CallView>) -> Seq<(StateSnapshot, Vertex)>
    decreases calls.len(),
{
    if calls.len() == 0 {
        Seq::empty()
    } else {
        frame_stream(calls.drop_last()) + call_stream(calls.last())
    }
}

/// What one submission would contribute if it were issued as its own
/// isolated draw call under state `s`.
pub open spec fn submission_stream(s: StateView, verts: Seq<Vertex>, idxs: Seq<u16>)
    -> Seq<(StateSnapshot, Vertex)> {
    call_stream(opened_call(s, verts, idxs))
}

/// Order preservation: a successful submission extends the frame's replay
/// stream by exactly the stream the submission would produce if drawn alone,
/// whether the engine merged it or opened a new call. Replaying the batched
/// draw-call list therefore fetches the same vertices under the same state
/// in the same order as issuing every submission unbatched.
pub proof fn lemma_geometry_preserves_stream(
    pre: QuadGl,
    post: QuadGl,
    verts: Seq<Vertex>,
    idxs: Seq<u16>,
)
    requires
        pre.wf(),
        forall|j: int| 0 <= j < idxs.len() ==> (idxs[j] as int) < verts.len(),
        geometry_effect(pre, post, verts, idxs),
    ensures
        frame_stream(post.calls())
            == frame_stream(pre.calls()) + submission_stream(pre.gl_state(), verts, idxs),
{
    let n = pre.calls().len() as int;
    let sub = opened_call(pre.gl_state(), verts, idxs);
    if n > 0 && can_merge(pre.calls().last(), pre.gl_state(), verts.len(), idxs.len(),
        pre.max_vertices(), pre.max_indices()) {
        let last = pre.calls().last();
        let merged = merged_call(last, verts, idxs);
        pre.lemma_wf_calls();
        assert(call_wf(last, pre.max_vertices(), pre.max_indices()));

        assert(call_stream(merged) =~= call_stream(last) + call_stream(sub)) by {
            assert forall|i: int| 0 <= i < merged.idxs.len()
                implies call_stream(merged)[i]
                    == (call_stream(last) + call_stream(sub))[i] by {
                if i < last.idxs.len() {
                    assert(merged.idxs[i] == last.idxs[i]);
                    assert((last.idxs[i] as int) < last.verts.len());
                    assert(merged.verts[merged.idxs[i] as int]
                        == last.verts[last.idxs[i] as int]);
                } else {
                    let k = i - last.idxs.len();
                    assert(merged.idxs[i] == rebase_indices(idxs, last.verts.len() as int)[k]);
                    assert((idxs[k] as int) < verts.len());
                    assert(last.verts.len() + verts.len() <= 65536);
                    assert(merged.idxs[i] as int == idxs[k] + last.verts.len());
                    assert(merged.verts[merged.idxs[i] as int] == verts[idxs[k] as int]);
                    assert(merged.snap == sub.snap);
                }
            }
        }

        assert(post.calls().drop_last() =~= pre.calls().drop_last());
        assert(post.calls().last() == merged);
        assert(frame_stream(post.calls())
            == frame_stream(pre.calls().drop_last()) + call_stream(merged));
        assert(frame_stream(pre.calls())
            == frame_stream(pre.calls().drop_last()) + call_stream(last));
        assert(frame_stream(post.calls())
            =~= frame_stream(pre.calls()) + submission_stream(pre.gl_state(), verts, idxs));
    } else {
        assert(post.calls().drop_last() =~= pre.calls());
        assert(post.calls().last() == sub);
        assert(frame_stream(post.calls()) == frame_stream(pre.calls()) + call_stream(sub));
    }
}

/// The streams of a sequence of submissions, drawn unbatched in submission
/// order: submission `k` replayed in isolation under the state it was
/// submitted in.
pub open spec fn submissions_stream(
    states: Seq<QuadGl>,
    subs_v: Seq<Seq<Vertex>>,
    subs_i: Seq<Seq<u16>>,
) -> Seq<(StateSnapshot, Vertex)>
    decreases subs_v.len(),
{
    if subs_v.len() == 0 {
        Seq::empty()
    } else {
        submissions_stream(states.drop_last(), subs_v.drop_last(), subs_i.drop_last())
            + submission_stream(states[subs_v.len() - 1].gl_state(), subs_v.last(),
                subs_i.last())
    }
}

/// Order preservation over a whole frame: for any sequence of submissions
/// under any evolution of the draw state, replaying the batched draw-call
/// list call by call fetches the same vertices under the same state, in the
/// same order, as drawing every submission unbatched. Batching is visually
/// transparent.
pub proof fn lemma_run_preserves_stream(
    states: Seq<QuadGl>,
    subs_v: Seq<Seq<Vertex>>,
    subs_i: Seq<Seq<u16>>,
)
    requires
        geometry_run(states, subs_v, subs_i),
        forall|k: int, j: int| 0 <= k < subs_i.len() && 0 <= j < subs_i[k].len()
            ==> ((#[trigger] subs_i[k][j]) as int) < subs_v[k].len(),
    ensures
        frame_stream(states.last().calls())
            == frame_stream(states[0].calls()) + submissions_stream(states, subs_v, subs_i),
    decreases subs_v.len(),
{
    let n = subs_v.len() as int;
    if n == 0 {
        assert(states.last() == states[0]);
        assert(frame_stream(states[0].calls())
            =~= frame_stream(states[0].calls()) + Seq::<(StateSnapshot, Vertex)>::empty());
    } else {
        let prefix_states = states.drop_last();
        let prefix_v = subs_v.drop_last();
        let prefix_i = subs_i.drop_last();
        assert(geometry_run(prefix_states, prefix_v, prefix_i)) by {
            assert forall|k: int| 0 <= k < prefix_v.len()
                implies geometry_effect(#[trigger] prefix_states[k], prefix_states[k + 1],
                    prefix_v[k], prefix_i[k]) by {
                assert(geometry_effect(states[k], states[k + 1], subs_v[k], subs_i[k]));
            }
        }
        lemma_run_preserves_stream(prefix_states, prefix_v, prefix_i);

        let mid = states[n - 1];
        let post = states[n];
        assert(geometry_effect(states[n - 1], states[n], subs_v[n - 1], subs_i[n - 1]));
        assert(forall|j: int| 0 <= j < subs_i[n - 1].len()
            ==> ((#[trigger] subs_i[n - 1][j]) as int) < subs_v[n - 1].len());
        lemma_geometry_preserves_stream(mid, post, subs_v[n - 1], subs_i[n - 1]);
        assert(prefix_states.last() == mid);
        assert(states.last() == post);
        assert(frame_stream(post.calls())
            =~= frame_stream(states[0].calls()) + submissions_stream(states, subs_v, subs_i));
    }
}

/// Batch merge correctness, merging direction: starting from an empty frame,
/// two submissions made under one and the same draw state, whose combined
/// size stays within one call's capacity, produce exactly one draw call that
/// holds both vertex lists back to back and the second submission's indices
/// rebased by the first submission's vertex count.
pub proof fn lemma_two_compatible_appends_merge(
    pre: QuadGl,
    mid: QuadGl,
    post: QuadGl,
    v1: Seq<Vertex>,
    i1: Seq<u16>,
    v2: Seq<Vertex>,
    i2: Seq<u16>,
)
    requires
        pre.wf(),
        pre.calls().len() == 0,
        !pre.gl_state().break_batching,
        geometry_effect(pre, mid, v1, i1),
        geometry_effect(mid, post, v2, i2),
        v1.len() + v2.len() <= pre.max_vertices(),
        i1.len() + i2.len() <= pre.max_indices(),
    ensures
        post.calls().len() == 1,
        post.calls()[0].verts == v1 + v2,
        post.calls()[0].idxs == i1 + rebase_indices(i2, v1.len() as int),
        post.calls()[0].snap == pre.snapshot(),
{
    let opened = opened_call(pre.gl_state(), v1, i1);
    assert(mid.calls() == pre.calls().push(opened));
    assert(mid.calls().len() == 1);
    assert(mid.calls().last() == opened);
    assert(snapshot_of(mid.gl_state()) == snapshot_of(pre.gl_state()));
    assert(can_merge(opened, mid.gl_state(), v2.len(), i2.len(), mid.max_vertices(),
        mid.max_indices()));
    assert(post.calls() == mid.calls().update(0, merged_call(opened, v2, i2)));
}

/// Batch merge correctness, splitting direction: if the draw state under
/// which the second submission arrives snapshots differently in any field
/// from the snapshot stored by the call the first submission opened, the two
/// submissions land in two separate draw calls, each holding exactly its own
/// geometry.
pub proof fn lemma_differing_state_splits(
    pre: QuadGl,
    mid: QuadGl,
    post: QuadGl,
    v1: Seq<Vertex>,
    i1: Seq<u16>,
    v2: Seq<Vertex>,
    i2: Seq<u16>,
)
    requires
        pre.wf(),
        pre.calls().len() == 0,
        geometry_effect(pre, mid, v1, i1),
        geometry_effect(mid, post, v2, i2),
        snapshot_of(mid.gl_state()) != pre.snapshot(),
    ensures
        post.calls().len() == 2,
        post.calls()[0] == opened_call(pre.gl_state(), v1, i1),
        post.calls()[1].verts == v2,
        post.calls()[1].idxs == i2,
        post.calls()[1].snap == snapshot_of(mid.gl_state()),
{
    let opened = opened_call(pre.gl_state(), v1, i1);
    assert(mid.calls() == pre.calls().push(opened));
    assert(mid.calls().last() == opened);
    assert(opened.snap == pre.snapshot());
    assert(!can_merge(opened, mid.gl_state(), v2.len(), i2.len(), mid.max_vertices(),
        mid.max_indices()));
    assert(post.calls() == mid.calls().push(opened_call(mid.gl_state(), v2, i2)));
    assert(post.calls()[0] == opened);
}

/// Capacity boundary, exact fit: a submission that brings the open call's
/// vertex count exactly to the engine's per-call maximum still merges into
/// that call, provided the state matches and index capacity suffices.
pub proof fn lemma_exact_fit_merges(pre: QuadGl, post: QuadGl, verts: Seq<Vertex>, idxs: Seq<u16>)
    requires
        pre.wf(),
        geometry_effect(pre, post, verts, idxs),
        pre.calls().len() > 0,
        pre.calls().last().snap == pre.snapshot(),
        !pre.gl_state().break_batching,
        pre.calls().last().verts.len() + verts.len() == pre.max_vertices(),
        pre.calls().last().idxs.len() + idxs.len() <= pre.max_indices(),
    ensures
        post.calls().len() == pre.calls().len(),
        post.calls().last().verts.len() == pre.max_vertices(),
{
    assert(can_merge(pre.calls().last(), pre.gl_state(), verts.len(), idxs.len(),
        pre.max_vertices(), pre.max_indices()));
}

/// Capacity boundary, overflow: a submission that would push the open call
/// past its vertex capacity opens a new call even though the state matches,
/// and the new call holds exactly the submission.
pub proof fn lemma_overflow_opens(pre: QuadGl, post: QuadGl, verts: Seq<Vertex>, idxs: Seq<u16>)
    requires
        pre.wf(),
        geometry_effect(pre, post, verts, idxs),
        pre.calls().len() > 0,
        pre.calls().last().verts.len() + verts.len() > pre.max_vertices(),
    ensures
        post.calls().len() == pre.calls().len() + 1,
        post.calls().last() == opened_call(pre.gl_state(), verts, idxs),
{
    assert(!can_merge(pre.calls().last(), pre.gl_state(), verts.len(), idxs.len(),
        pre.max_vertices(), pre.max_indices()));
}

/// The index sequence `0, 1, ..., n - 1`.
pub open spec fn consecutive_indices(n: nat) -> Seq<u16> {
    Seq::new(n, |i: int| i as u16)
}

/// Index rebasing accumulates: when the open call holds `k` vertices indexed
/// consecutively `0 .. k` and a submission indexed consecutively `0 .. m`
/// merges into it, the call ends up with `k + m` vertices indexed
/// consecutively `0 .. k + m` — never with repeated local indices. Applied
/// once per submission, this gives the index buffer `0, 1, 2, ...` for any
/// run of compatible consecutive-indexed submissions.
pub proof fn lemma_rebase_consecutive(
    pre: QuadGl,
    post: QuadGl,
    verts: Seq<Vertex>,
    idxs: Seq<u16>,
)
    requires
        pre.wf(),
        geometry_effect(pre, post, verts, idxs),
        pre.calls().len() > 0,
        can_merge(pre.calls().last(), pre.gl_state(), verts.len(), idxs.len(),
            pre.max_vertices(), pre.max_indices()),
        pre.calls().last().idxs == consecutive_indices(pre.calls().last().verts.len()),
        idxs == consecutive_indices(verts.len()),
    ensures
        post.calls().last().verts.len() == pre.calls().last().verts.len() + verts.len(),
        post.calls().last().idxs
            == consecutive_indices(pre.calls().last().verts.len() + verts.len()),
{
    let last = pre.calls().last();
    let k = last.verts.len();
    let m = verts.len();
    let merged = merged_call(last, verts, idxs);
    assert(post.calls().last() == merged);
    assert(k + m <= pre.max_vertices() <= 65536);
    assert(merged.idxs =~= consecutive_indices(k + m)) by {
        assert forall|i: int| 0 <= i < merged.idxs.len()
            implies merged.idxs[i] == consecutive_indices(k + m)[i] by {
            if i < k {
                assert(merged.idxs[i] == last.idxs[i]);
            } else {
                let j = i - k;
                assert(merged.idxs[i] == rebase_indices(idxs, k as int)[j]);
                assert(idxs[j] == j as u16);
            }
        }
    }
}

/// Total vertex count of a sequence of submissions.
pub open spec fn total_vertices(subs: Seq<Seq<Vertex>>) -> nat
    decreases subs.len(),
{
    if subs.len() == 0 {
        0
    } else {
        total_vertices(subs.drop_last()) + subs.last().len()
    }
}

/// A chain of successful submissions: `states[k]` steps to `states[k + 1]`
/// by submitting `subs_v[k]` with indices `subs_i[k]`, and every state in
/// the chain is well-formed.
pub open spec fn geometry_run(
    states: Seq<QuadGl>,
    subs_v: Seq<Seq<Vertex>>,
    subs_i: Seq<Seq<u16>>,
) -> bool {
    &&& states.len() == subs_v.len() + 1
    &&& subs_i.len() == subs_v.len()
    &&& forall|k: int| 0 <= k < states.len() ==> (#[trigger] states[k]).wf()
    &&& forall|k: int| 0 <= k < subs_v.len()
        ==> geometry_effect(#[trigger] states[k], states[k + 1], subs_v[k], subs_i[k])
}

/// Index rebasing over a whole frame: starting from an empty frame, a run
/// of consecutively indexed submissions whose total vertex count fits one
/// call produces a single draw call indexed `0, 1, ..., total - 1` — each
/// submission's indices offset by the number of vertices before it, never
/// the local indices repeated.
pub proof fn lemma_run_rebases_consecutively(
    states: Seq<QuadGl>,
    subs_v: Seq<Seq<Vertex>>,
    subs_i: Seq<Seq<u16>>,
)
    requires
        geometry_run(states, subs_v, subs_i),
        subs_v.len() >= 1,
        states[0].calls().len() == 0,
        !states[0].gl_state().break_batching,
        forall|k: int| 0 <= k < subs_i.len()
            ==> subs_i[k] == consecutive_indices((#[trigger] subs_v[k]).len()),
        total_vertices(subs_v) <= states[0].max_vertices(),
        total_vertices(subs_v) <= states[0].max_indices(),
    ensures
        states.last().calls().len() == 1,
        states.last().calls()[0].verts.len() == total_vertices(subs_v),
        states.last().calls()[0].idxs == consecutive_indices(total_vertices(subs_v)),
        states.last().calls()[0].snap == snapshot_of(states.last().gl_state()),
        !states.last().gl_state().break_batching,
        states.last().max_vertices() == states[0].max_vertices(),
        states.last().max_indices() == states[0].max_indices(),
    decreases subs_v.len(),
{
    let n = subs_v.len() as int;
    if n == 1 {
        assert(geometry_effect(states[0], states[1], subs_v[0], subs_i[0]));
        let opened = opened_call(states[0].gl_state(), subs_v[0], subs_i[0]);
        assert(states[1].calls() == states[0].calls().push(opened));
        assert(states[1].calls().len() == 1);
        assert(states[1].calls()[0] == opened);
        assert(subs_v.drop_last().len() == 0);
        assert(total_vertices(subs_v) == subs_v[0].len());
        assert(subs_i[0].len() == subs_v[0].len());
        assert(snapshot_of(states[1].gl_state()) == snapshot_of(states[0].gl_state()));
        assert(states.last() == states[1]);
    } else {
        let prefix_states = states.drop_last();
        let prefix_v = subs_v.drop_last();
        let prefix_i = subs_i.drop_last();
        assert(geometry_run(prefix_states, prefix_v, prefix_i)) by {
            assert forall|k: int| 0 <= k < prefix_v.len()
                implies geometry_effect(#[trigger] prefix_states[k], prefix_states[k + 1],
                    prefix_v[k], prefix_i[k]) by {
                assert(geometry_effect(states[k], states[k + 1], subs_v[k], subs_i[k]));
            }
        }
        assert(total_vertices(prefix_v) <= total_vertices(subs_v));
        lemma_run_rebases_consecutively(prefix_states, prefix_v, prefix_i);

        let mid = prefix_states.last();
        let post = states.last();
        let vs = subs_v.last();
        let is = subs_i.last();
        assert(mid == states[n - 1]);
        assert(post == states[n]);
        assert(geometry_effect(states[n - 1], states[n], subs_v[n - 1], subs_i[n - 1]));
        assert(vs == subs_v[n - 1] && is == subs_i[n - 1]);

        let k0 = mid.calls()[0].verts.len();
        assert(k0 == total_vertices(prefix_v));
        assert(total_vertices(subs_v) == total_vertices(prefix_v) + vs.len());
        assert(is.len() == vs.len());
        assert(mid.calls()[0].idxs.len() == k0);
        assert(can_merge(mid.calls().last(), mid.gl_state(), vs.len(), is.len(),
            mid.max_vertices(), mid.max_indices()));
        lemma_rebase_consecutive(mid, post, vs, is);
        assert(post.calls().len() == 1);
        assert(snapshot_of(post.gl_state()) == snapshot_of(mid.gl_state()));
        assert(post.calls()[0].snap == mid.calls()[0].snap);
    }
}

/// Pool reuse across frames: while live calls number fewer than the pooled
/// buffers — as after [`QuadGl::reset`] or [`QuadGl::finish_frame`] at a
/// stable per-frame call count — submissions reuse pooled buffers and the
/// pool does not grow.
pub proof fn lemma_pool_reuse(pre: QuadGl, post: QuadGl, verts: Seq<Vertex>, idxs: Seq<u16>)
    requires
        pre.wf(),
        geometry_effect(pre, post, verts, idxs),
        pre.calls().len() < pre.pool_size(),
    ensures
        post.pool_size() == pre.pool_size(),
{
}

/// Converts a clip rectangle from the top-left-origin pixel space in which
/// clips are specified to the bottom-left-origin scissor space the GPU
/// expects, given the height of the render target being drawn to.
pub fn scissor_for_clip(clip: ClipRect, target_height: i32) -> (s: ClipRect)
    requires
        -0x8000_0000 <= clip.y + clip.h <= 0x7fff_ffff,
        -0x8000_0000 <= target_height - (clip.y + clip.h) <= 0x7fff_ffff,
    ensures
        s == (ClipRect {
            x: clip.x,
            y: (target_height - (clip.y + clip.h)) as i32,
            w: clip.w,
            h: clip.h,
        }),
{
    ClipRect { x: clip.x, y: target_height - (clip.y + clip.h), w: clip.w, h: clip.h }
}

} // verus!
