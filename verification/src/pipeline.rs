//! The render pipeline model: one-time program build, resize handling, and
//! the per-frame draw data.
//!
//! The pipeline owns the drawable surface's dimensions and exists only if
//! the one-time shader build succeeded — a failed compile or link step
//! aborts construction with the step's diagnostic log, and no partial
//! pipeline is ever produced. Each redraw derives a [`Frame`] — clear
//! color, the static full-surface quad, the uniform values and the vertex
//! count of the one draw call — purely from the pipeline and viewport
//! state.

use vstd::prelude::*;
use crate::fixed::SCALE;
use crate::iteration::{max_iter_spec, max_iterations};
use crate::viewport::ViewportModel;

verus! {

/// Why the one-time program build failed; each variant carries the
/// diagnostic log of the failing step.
#[derive(Debug, Clone, PartialEq, Eq)]
pub enum BuildError {
    /// A shader stage failed to compile.
    ShaderCompileError(String),
    /// The compiled stages failed to link.
    ProgramLinkError(String),
}

/// Physical pixel dimensions of the drawable surface.
#[derive(Clone, Copy, PartialEq, Eq, Structural, Debug)]
pub struct SurfaceState {
    pub width: u32,
    pub height: u32,
}

/// Decision of one shader-compile step: the stage compiled iff the reported
/// status is set; otherwise its diagnostic log becomes a compile error.
pub fn compile_outcome(status: bool, log: String) -> (r: Result<(), BuildError>)
    ensures
        r is Ok <==> status,
        !status ==> (r matches Err(BuildError::ShaderCompileError(m)) && m@ == log@),
{
    if status {
        Ok(())
    } else {
        Err(BuildError::ShaderCompileError(log))
    }
}

/// Decision of the program-link step: the program linked iff the reported
/// status is set; otherwise its diagnostic log becomes a link error.
pub fn link_outcome(status: bool, log: String) -> (r: Result<(), BuildError>)
    ensures
        r is Ok <==> status,
        !status ==> (r matches Err(BuildError::ProgramLinkError(m)) && m@ == log@),
{
    if status {
        Ok(())
    } else {
        Err(BuildError::ProgramLinkError(log))
    }
}

/// Everything one redraw sends to the GPU: the clear color, the static
/// full-surface quad, the uniform values and the vertex count of the one
/// draw call. Colors and coordinates are fixed-point ticks.
#[derive(Debug, Clone, PartialEq)]
pub struct Frame {
    pub clear_r: i64,
    pub clear_g: i64,
    pub clear_b: i64,
    pub clear_a: i64,
    pub vertices: Vec<i64>,
    pub vertex_count: u32,
    pub center_x: i64,
    pub center_y: i64,
    pub zoom: i64,
    pub width: u32,
    pub height: u32,
    pub max_iter: u64,
}

/// The static full-surface quad: two triangles covering the whole drawable
/// area, six vertices of two coordinates each, at one unit (`SCALE` ticks)
/// from the center.
pub open spec fn quad_vertices() -> Seq<i64> {
    seq![
        -1_000_000i64,
        -1_000_000i64,
        1_000_000i64,
        -1_000_000i64,
        -1_000_000i64,
        1_000_000i64,
        -1_000_000i64,
        1_000_000i64,
        1_000_000i64,
        -1_000_000i64,
        1_000_000i64,
        1_000_000i64,
    ]
}

/// What one redraw must emit for pipeline `p` and viewport `vp`: the fixed
/// background color, the static quad, six vertices in the one draw call,
/// the viewport and surface uniforms, and the adaptive iteration cap.
pub open spec fn frame_matches(f: Frame, p: RenderPipeline, vp: ViewportModel) -> bool {
    &&& f.clear_r == 100_000i64
    &&& f.clear_g == 100_000i64
    &&& f.clear_b == 100_000i64
    &&& f.clear_a == 1_000_000i64
    &&& f.vertices@ == quad_vertices()
    &&& f.vertex_count == 6
    &&& f.center_x == vp.center_x
    &&& f.center_y == vp.center_y
    &&& f.zoom == vp.zoom
    &&& f.width == p.surface.width
    &&& f.height == p.surface.height
    &&& f.max_iter == max_iter_spec(vp.zoom as int)
}

/// The render pipeline: it owns the surface dimensions, while the GPU
/// program handle it stands for lives with the caller. A value of this type
/// exists only after a fully successful build.
pub struct RenderPipeline {
    pub surface: SurfaceState,
}

impl RenderPipeline {
    /// One-time pipeline construction from the reported outcomes of the two
    /// compile steps and the link step, plus the initial surface size. The
    /// pipeline exists iff all three steps succeeded; otherwise the
    /// diagnostic log of the first failing step is returned and no pipeline
    /// is produced.
    pub fn build(
        vertex_status: bool,
        vertex_log: String,
        fragment_status: bool,
        fragment_log: String,
        link_status: bool,
        link_log: String,
        width: u32,
        height: u32,
    ) -> (r: Result<RenderPipeline, BuildError>)
        ensures
            r is Ok <==> vertex_status && fragment_status && link_status,
            !vertex_status ==> (r matches Err(BuildError::ShaderCompileError(m)) && m@
                == vertex_log@),
            vertex_status && !fragment_status ==> (r matches Err(
                BuildError::ShaderCompileError(m),
            ) && m@ == fragment_log@),
            vertex_status && fragment_status && !link_status ==> (r matches Err(
                BuildError::ProgramLinkError(m),
            ) && m@ == link_log@),
            r matches Ok(p) ==> p.surface == (SurfaceState { width, height }),
    {
        match compile_outcome(vertex_status, vertex_log) {
            Err(e) => Err(e),
            Ok(()) => match compile_outcome(fragment_status, fragment_log) {
                Err(e) => Err(e),
                Ok(()) => match link_outcome(link_status, link_log) {
                    Err(e) => Err(e),
                    Ok(()) => Ok(RenderPipeline { surface: SurfaceState { width, height } }),
                },
            },
        }
    }

    /// Record a resize: the surface dimensions are replaced.
    pub fn configure_surface(&mut self, width: u32, height: u32)
        ensures
            final(self).surface == (SurfaceState { width, height }),
    {
        self.surface = SurfaceState { width, height };
    }

    /// Per-frame draw: read the viewport, derive the uniforms and the
    /// adaptive iteration cap, and emit the one draw call's data. The frame
    /// is a pure function of the pipeline and viewport state.
    pub fn redraw(&self, vp: &ViewportModel) -> (f: Frame)
        requires
            vp.wf(),
        ensures
            frame_matches(f, *self, *vp),
    {
        let lo: i64 = -SCALE;
        let hi: i64 = SCALE;
        let vertices: Vec<i64> = vec![lo, lo, hi, lo, lo, hi, lo, hi, hi, lo, hi, hi];
        proof {
            assert(vertices@ =~= quad_vertices());
        }
        Frame {
            clear_r: 100_000,
            clear_g: 100_000,
            clear_b: 100_000,
            clear_a: 1_000_000,
            vertices,
            vertex_count: 6,
            center_x: vp.center_x,
            center_y: vp.center_y,
            zoom: vp.zoom,
            width: self.surface.width,
            height: self.surface.height,
            max_iter: max_iterations(vp.zoom),
        }
    }
}

/// Idempotent redraw: two frames drawn from the same pipeline and viewport
/// state are identical — same clear color, same quad, same uniforms, and
/// the same six-vertex draw call.
pub proof fn lemma_redraw_idempotent(f1: Frame, f2: Frame, p: RenderPipeline, vp: ViewportModel)
    requires
        frame_matches(f1, p, vp),
        frame_matches(f2, p, vp),
    ensures
        f1.clear_r == f2.clear_r,
        f1.clear_g == f2.clear_g,
        f1.clear_b == f2.clear_b,
        f1.clear_a == f2.clear_a,
        f1.vertices@ == f2.vertices@,
        f1.vertex_count == f2.vertex_count && f1.vertex_count == 6,
        f1.center_x == f2.center_x,
        f1.center_y == f2.center_y,
        f1.zoom == f2.zoom,
        f1.width == f2.width,
        f1.height == f2.height,
        f1.max_iter == f2.max_iter,
{
}

} // verus!
