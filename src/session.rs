use vstd::prelude::*;
use crate::layout::{
    colormap_buffer_bytes, div_ceil, field_buffer_bytes, field_workgroups, padded_row_bytes,
    spec_padded_row_bytes, WORKGROUP_SIZE,
};
use crate::pipeline::{spec_plan, Stage, STAGES_PER_STEP, stage_at, spec_stage_at};

verus! {

/// What the solver last handed to the device, and whether the device has
/// finished it.
#[derive(Debug, Clone, Copy, PartialEq, Eq, Structural)]
pub enum ComputeRelevantEvent {
    /// A batch of integration steps has retired; the colour map may follow.
    ComputeDoneNowColor,
    /// A batch of integration steps is submitted.
    ComputeIsWorking,
    /// The colour map stage has retired.
    ColorIsDone,
    /// The colour map stage is submitted.
    ColorIsWorking,
    /// The copy of the colour map into a texture is submitted.
    ColorIsCopying,
    /// The copy of the colour map has retired.
    ColorCopyDone,
}

impl ComputeRelevantEvent {
    /// The device work is submitted and has not retired.
    pub open spec fn spec_is_working(self) -> bool {
        match self {
            ComputeRelevantEvent::ComputeIsWorking
            | ComputeRelevantEvent::ColorIsWorking
            | ComputeRelevantEvent::ColorIsCopying => true,
            _ => false,
        }
    }

    /// The event that the retirement of this submitted work brings.
    pub open spec fn spec_on_work_done(self) -> Self {
        match self {
            ComputeRelevantEvent::ComputeIsWorking => ComputeRelevantEvent::ComputeDoneNowColor,
            ComputeRelevantEvent::ColorIsWorking => ComputeRelevantEvent::ColorIsDone,
            ComputeRelevantEvent::ColorIsCopying => ComputeRelevantEvent::ColorCopyDone,
            other => other,
        }
    }

    /// The device work is submitted and has not retired.
    pub fn is_working(self) -> (r: bool)
        ensures
            r == self.spec_is_working(),
    {
        match self {
            ComputeRelevantEvent::ComputeIsWorking
            | ComputeRelevantEvent::ColorIsWorking
            | ComputeRelevantEvent::ColorIsCopying => true,
            _ => false,
        }
    }

    /// The event that the retirement of this submitted work brings; work
    /// that has already retired stays as it is.
    pub fn on_work_done(self) -> (r: Self)
        ensures
            r == self.spec_on_work_done(),
            !r.spec_is_working(),
    {
        match self {
            ComputeRelevantEvent::ComputeIsWorking => ComputeRelevantEvent::ComputeDoneNowColor,
            ComputeRelevantEvent::ColorIsWorking => ComputeRelevantEvent::ColorIsDone,
            ComputeRelevantEvent::ColorIsCopying => ComputeRelevantEvent::ColorCopyDone,
            other => other,
        }
    }
}

/// Why a solver cannot be set up for a grid.
#[derive(Debug, Clone, Copy, PartialEq, Eq, Structural)]
pub enum SessionError {
    /// A side of fewer than three points leaves no interior cell to mirror.
    GridTooSmall { width: u32, height: u32 },
    /// The grid has more cells, or more edge cells, than a dispatch can
    /// index.
    GridTooLarge { width: u32, height: u32 },
    /// The initial field holds `actual` samples where the grid has
    /// `expected` cells.
    SizeMismatch { expected: u64, actual: u64 },
}

/// A pass that the device runs.
#[derive(Debug, Clone, Copy, PartialEq, Eq, Structural)]
pub enum Pass {
    /// One stage of an integration step.
    Step(Stage),
    /// The colour map of the current field.
    Colormap,
}

/// One dispatch: a pass over a number of workgroups.
#[derive(Debug, Clone, Copy, PartialEq, Eq, Structural)]
pub struct Dispatch {
    pub pass: Pass,
    pub workgroups: u32,
}

/// The layout of a copy of the colour map into a texture: rows of
/// `bytes_per_row` bytes, padded to the copy alignment, `rows` of them.
#[derive(Debug, Clone, Copy, PartialEq, Eq, Structural)]
pub struct CopyLayout {
    pub bytes_per_row: u64,
    pub rows: u32,
}

/// The host's side of one solver: the grid's shape, the number of
/// integration steps per batch, and what the device was last handed. It
/// decides what to dispatch; the caller encodes and submits it, and reports
/// back when the device has retired it.
pub struct HeatSession {
    width: u32,
    height: u32,
    iterations: u32,
    progress: Option<ComputeRelevantEvent>,
}

/// A grid that a session accepts: at least three points a side, and few
/// enough cells and edge cells for a dispatch to index them.
pub open spec fn grid_fits(width: int, height: int) -> bool {
    &&& 3 <= width
    &&& 3 <= height
    &&& width * height <= u32::MAX
    &&& 2 * width + 2 * height <= u32::MAX
}

/// The dispatches of one integration step on a `width` by `height` grid.
pub open spec fn spec_step_dispatches(width: int, height: int) -> Seq<Dispatch> {
    Seq::new(
        6,
        |k: int|
            Dispatch {
                pass: Pass::Step(spec_stage_at(k)),
                workgroups: (if k == 0 {
                    div_ceil(2 * width + 2 * height, WORKGROUP_SIZE as int)
                } else {
                    div_ceil(width * height, WORKGROUP_SIZE as int)
                }) as u32,
            },
    )
}

impl HeatSession {
    /// Width of the grid.
    pub closed spec fn spec_width(&self) -> nat {
        self.width as nat
    }

    /// Height of the grid.
    pub closed spec fn spec_height(&self) -> nat {
        self.height as nat
    }

    /// Integration steps per batch.
    pub closed spec fn spec_iterations(&self) -> nat {
        self.iterations as nat
    }

    /// What the device was last handed, if anything.
    pub closed spec fn spec_progress(&self) -> Option<ComputeRelevantEvent> {
        self.progress
    }

    /// The grid is one that a session accepts, and a batch's dispatches
    /// can be counted.
    pub closed spec fn wf(&self) -> bool {
        &&& grid_fits(self.width as int, self.height as int)
        &&& 6 * self.iterations <= usize::MAX
    }

    /// Sets up a session for a `width` by `height` grid whose initial field
    /// holds `field_len` samples. Fails with `GridTooSmall`, then
    /// `GridTooLarge`, then `SizeMismatch` when `field_len` is not
    /// `width * height`. A new session runs one step per batch and has
    /// handed the device nothing.
    pub fn new(width: u32, height: u32, field_len: usize) -> (r: Result<Self, SessionError>)
        ensures
            r is Ok <==> grid_fits(width as int, height as int) && field_len == width * height,
            match r {
                Ok(s) => {
                    &&& grid_fits(width as int, height as int)
                    &&& field_len == width * height
                    &&& s.wf()
                    &&& s.spec_width() == width
                    &&& s.spec_height() == height
                    &&& s.spec_iterations() == 1
                    &&& s.spec_progress() is None
                },
                Err(e) => e == if width < 3 || height < 3 {
                    SessionError::GridTooSmall { width, height }
                } else if !grid_fits(width as int, height as int) {
                    SessionError::GridTooLarge { width, height }
                } else {
                    SessionError::SizeMismatch {
                        expected: (width * height) as u64,
                        actual: field_len as u64,
                    }
                },
            },
    {
        if width < 3 || height < 3 {
            return Err(SessionError::GridTooSmall { width, height });
        }
        proof {
            assert(width * height <= u32::MAX * u32::MAX) by (nonlinear_arith)
                requires
                    width <= u32::MAX,
                    height <= u32::MAX,
            ;
        }
        let cells: u64 = (width as u64) * (height as u64);
        let edges: u64 = 2 * (width as u64) + 2 * (height as u64);
        if cells > u32::MAX as u64 || edges > u32::MAX as u64 {
            return Err(SessionError::GridTooLarge { width, height });
        }
        if field_len as u64 != cells {
            return Err(SessionError::SizeMismatch { expected: cells, actual: field_len as u64 });
        }
        Ok(HeatSession { width, height, iterations: 1, progress: None })
    }

    /// Width of the grid.
    pub fn width(&self) -> (r: u32)
        ensures
            r == self.spec_width(),
    {
        self.width
    }

    /// Height of the grid.
    pub fn height(&self) -> (r: u32)
        ensures
            r == self.spec_height(),
    {
        self.height
    }

    /// Integration steps per batch.
    pub fn iterations(&self) -> (r: u32)
        ensures
            r == self.spec_iterations(),
    {
        self.iterations
    }

    /// What the device was last handed, if anything.
    pub fn progress(&self) -> (r: Option<ComputeRelevantEvent>)
        ensures
            r == self.spec_progress(),
    {
        self.progress
    }

    /// No work handed to the device is still outstanding.
    pub fn is_idle(&self) -> (r: bool)
        ensures
            r == match self.spec_progress() {
                Some(e) => !e.spec_is_working(),
                None => true,
            },
    {
        match self.progress {
            Some(e) => !e.is_working(),
            None => true,
        }
    }

    /// Bytes of each field buffer.
    pub fn field_bytes(&self) -> (r: u64)
        requires
            self.wf(),
        ensures
            r == self.spec_width() * self.spec_height() * 4,
    {
        field_buffer_bytes(self.width, self.height)
    }

    /// Bytes of the colour map buffer, rows padded to the copy alignment.
    pub fn colormap_bytes(&self) -> (r: u64)
        requires
            self.wf(),
        ensures
            r == spec_padded_row_bytes(self.spec_width() as int) * self.spec_height(),
    {
        colormap_buffer_bytes(self.width, self.height)
    }

    /// Sets the number of integration steps that each batch runs; it takes
    /// effect from the next batch.
    pub fn set_iterations(&mut self, n: u32)
        requires
            old(self).wf(),
            6 * n <= usize::MAX,
        ensures
            final(self).wf(),
            final(self).spec_iterations() == n,
            final(self).spec_width() == old(self).spec_width(),
            final(self).spec_height() == old(self).spec_height(),
            final(self).spec_progress() == old(self).spec_progress(),
    {
        self.iterations = n;
    }

    /// The dispatches of one integration step, in order: the boundary fix
    /// over the edge cells, then the Laplacian, midpoint step, midpoint
    /// Laplacian, full step and rotation over every cell.
    pub fn step_dispatches(&self) -> (r: Vec<Dispatch>)
        requires
            self.wf(),
        ensures
            r@ == spec_step_dispatches(self.spec_width() as int, self.spec_height() as int),
    {
        let mut out: Vec<Dispatch> = Vec::new();
        let mut k: usize = 0;
        while k < STAGES_PER_STEP
            invariant
                k <= STAGES_PER_STEP,
                self.wf(),
                out@.len() == k,
                forall|m: int|
                    0 <= m < k ==> #[trigger] out@[m] == spec_step_dispatches(
                        self.spec_width() as int,
                        self.spec_height() as int,
                    )[m],
            decreases STAGES_PER_STEP - k,
        {
            let stage = stage_at(k);
            let workgroups = stage.workgroups(self.width, self.height);
            out.push(Dispatch { pass: Pass::Step(stage), workgroups });
            k = k + 1;
        }
        assert(out@ =~= spec_step_dispatches(self.spec_width() as int, self.spec_height() as int));
        out
    }

    /// Starts a batch: the dispatches of the configured number of
    /// integration steps, step after step, each as `step_dispatches` gives
    /// it. The batch is then submitted, even an empty one: with zero steps
    /// nothing is dispatched and no buffer is written, and the batch still
    /// retires like any other.
    pub fn run_iterations(&mut self) -> (r: Vec<Dispatch>)
        requires
            old(self).wf(),
        ensures
            final(self).wf(),
            final(self).spec_width() == old(self).spec_width(),
            final(self).spec_height() == old(self).spec_height(),
            final(self).spec_iterations() == old(self).spec_iterations(),
            r@.len() == 6 * old(self).spec_iterations(),
            forall|k: int|
                0 <= k < r@.len() ==> #[trigger] r@[k] == spec_step_dispatches(
                    old(self).spec_width() as int,
                    old(self).spec_height() as int,
                )[k % 6],
            forall|k: int|
                0 <= k < r@.len() ==> r@[k].pass == Pass::Step(
                    spec_plan(old(self).spec_iterations())[k],
                ),
            final(self).spec_progress() == Some(ComputeRelevantEvent::ComputeIsWorking),
    {
        let step = self.step_dispatches();
        let ghost want = spec_step_dispatches(self.width as int, self.height as int);
        assert(want.len() == 6);
        let n = self.iterations;
        let mut out: Vec<Dispatch> = Vec::new();
        let mut done: u32 = 0;
        while done < n
            invariant
                done <= n,
                6 * n <= usize::MAX,
                step@ == want,
                want.len() == 6,
                out@.len() == 6 * done,
                forall|k: int| 0 <= k < out@.len() ==> #[trigger] out@[k] == want[k % 6],
            decreases n - done,
        {
            let mut k: usize = 0;
            while k < STAGES_PER_STEP
                invariant
                    k <= STAGES_PER_STEP,
                    done < n,
                    6 * n <= usize::MAX,
                    step@ == want,
                    want.len() == 6,
                    out@.len() == 6 * done + k,
                    forall|m: int| 0 <= m < out@.len() ==> #[trigger] out@[m] == want[m % 6],
                decreases STAGES_PER_STEP - k,
            {
                proof {
                    assert((6 * done + k) % 6 == k as int) by (nonlinear_arith)
                        requires
                            k < 6,
                    ;
                }
                out.push(step[k]);
                k = k + 1;
            }
            done = done + 1;
        }
        self.progress = Some(ComputeRelevantEvent::ComputeIsWorking);
        out
    }

    /// The dispatch of the colour map over every cell; the colour map is
    /// then submitted.
    pub fn run_colormap(&mut self) -> (r: Dispatch)
        requires
            old(self).wf(),
        ensures
            final(self).wf(),
            final(self).spec_width() == old(self).spec_width(),
            final(self).spec_height() == old(self).spec_height(),
            final(self).spec_iterations() == old(self).spec_iterations(),
            r == (Dispatch {
                pass: Pass::Colormap,
                workgroups: div_ceil(
                    (old(self).spec_width() * old(self).spec_height()) as int,
                    WORKGROUP_SIZE as int,
                ) as u32,
            }),
            final(self).spec_progress() == Some(ComputeRelevantEvent::ColorIsWorking),
    {
        let workgroups = field_workgroups(self.width, self.height);
        self.progress = Some(ComputeRelevantEvent::ColorIsWorking);
        Dispatch { pass: Pass::Colormap, workgroups }
    }

    /// The layout of a copy of the colour map into a texture, which uses
    /// the padded row stride; the copy is then submitted.
    pub fn copy_colormap(&mut self) -> (r: CopyLayout)
        requires
            old(self).wf(),
        ensures
            final(self).wf(),
            final(self).spec_width() == old(self).spec_width(),
            final(self).spec_height() == old(self).spec_height(),
            final(self).spec_iterations() == old(self).spec_iterations(),
            r.bytes_per_row == spec_padded_row_bytes(old(self).spec_width() as int),
            r.rows == old(self).spec_height(),
            final(self).spec_progress() == Some(ComputeRelevantEvent::ColorIsCopying),
    {
        let bytes_per_row = padded_row_bytes(self.width);
        self.progress = Some(ComputeRelevantEvent::ColorIsCopying);
        CopyLayout { bytes_per_row, rows: self.height }
    }

    /// The device reports that the submitted work has retired.
    pub fn work_done(&mut self)
        requires
            old(self).wf(),
        ensures
            final(self).wf(),
            final(self).spec_width() == old(self).spec_width(),
            final(self).spec_height() == old(self).spec_height(),
            final(self).spec_iterations() == old(self).spec_iterations(),
            final(self).spec_progress() == match old(self).spec_progress() {
                Some(e) => Some(e.spec_on_work_done()),
                None => None,
            },
    {
        if let Some(e) = self.progress {
            self.progress = Some(e.on_work_done());
        }
    }
}

} // verus!
