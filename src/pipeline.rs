use vstd::prelude::*;
use crate::layout::{boundary_workgroups, div_ceil, field_workgroups, WORKGROUP_SIZE};

verus! {

/// A buffer that the solver's kernels bind: one of the field buffers, the
/// colour map, or a parameter.
#[derive(Debug, Clone, Copy, PartialEq, Eq, Structural)]
pub enum BufferRole {
    Data,
    Laplacian,
    Midpoint,
    MidpointLaplacian,
    Output,
    Colormap,
    Width,
    Height,
    Kappa,
    DeltaT,
    HalfDeltaT,
    MinT,
    MaxT,
}

/// A compute program of the solver.
#[derive(Debug, Clone, Copy, PartialEq, Eq, Structural)]
pub enum Kernel {
    /// Mirrors the edge cells of its field.
    Boundary,
    /// Five-point Laplacian of its input into its output.
    Laplacian,
    /// `out = field + step * kappa * rate`.
    Iterate,
    /// Copies its input into its output.
    Move,
    /// Colour map of the field.
    Heatmap,
}

/// One stage of an integration step.
#[derive(Debug, Clone, Copy, PartialEq, Eq, Structural)]
pub enum Stage {
    BoundaryFix,
    Laplacian,
    MidpointStep,
    MidpointLaplacian,
    FullStep,
    Rotate,
}

/// Stages in one integration step.
pub const STAGES_PER_STEP: usize = 6;

/// Stage `k` of an integration step, `k < 6`, in the order the step runs
/// them.
pub open spec fn spec_stage_at(k: int) -> Stage {
    if k == 0 {
        Stage::BoundaryFix
    } else if k == 1 {
        Stage::Laplacian
    } else if k == 2 {
        Stage::MidpointStep
    } else if k == 3 {
        Stage::MidpointLaplacian
    } else if k == 4 {
        Stage::FullStep
    } else {
        Stage::Rotate
    }
}

/// The program that a stage runs.
pub open spec fn spec_kernel_of(stage: Stage) -> Kernel {
    match stage {
        Stage::BoundaryFix => Kernel::Boundary,
        Stage::Laplacian => Kernel::Laplacian,
        Stage::MidpointStep => Kernel::Iterate,
        Stage::MidpointLaplacian => Kernel::Laplacian,
        Stage::FullStep => Kernel::Iterate,
        Stage::Rotate => Kernel::Move,
    }
}

/// The buffers a stage binds, in binding order.
pub open spec fn spec_bindings(stage: Stage) -> Seq<BufferRole> {
    match stage {
        Stage::BoundaryFix => seq![BufferRole::Data, BufferRole::Width, BufferRole::Height],
        Stage::Laplacian => seq![
            BufferRole::Data,
            BufferRole::Laplacian,
            BufferRole::Width,
            BufferRole::Height,
        ],
        Stage::MidpointStep => seq![
            BufferRole::Data,
            BufferRole::Laplacian,
            BufferRole::Midpoint,
            BufferRole::Width,
            BufferRole::Height,
            BufferRole::Kappa,
            BufferRole::HalfDeltaT,
        ],
        Stage::MidpointLaplacian => seq![
            BufferRole::Midpoint,
            BufferRole::MidpointLaplacian,
            BufferRole::Width,
            BufferRole::Height,
        ],
        Stage::FullStep => seq![
            BufferRole::Data,
            BufferRole::MidpointLaplacian,
            BufferRole::Output,
            BufferRole::Width,
            BufferRole::Height,
            BufferRole::Kappa,
            BufferRole::DeltaT,
        ],
        Stage::Rotate => seq![
            BufferRole::Output,
            BufferRole::Data,
            BufferRole::Width,
            BufferRole::Height,
        ],
    }
}

/// The field buffers a stage reads.
pub open spec fn spec_reads(stage: Stage) -> Seq<BufferRole> {
    match stage {
        Stage::BoundaryFix => seq![BufferRole::Data],
        Stage::Laplacian => seq![BufferRole::Data],
        Stage::MidpointStep => seq![BufferRole::Data, BufferRole::Laplacian],
        Stage::MidpointLaplacian => seq![BufferRole::Midpoint],
        Stage::FullStep => seq![BufferRole::Data, BufferRole::MidpointLaplacian],
        Stage::Rotate => seq![BufferRole::Output],
    }
}

/// The field buffer a stage writes.
pub open spec fn spec_writes(stage: Stage) -> BufferRole {
    match stage {
        Stage::BoundaryFix => BufferRole::Data,
        Stage::Laplacian => BufferRole::Laplacian,
        Stage::MidpointStep => BufferRole::Midpoint,
        Stage::MidpointLaplacian => BufferRole::MidpointLaplacian,
        Stage::FullStep => BufferRole::Output,
        Stage::Rotate => BufferRole::Data,
    }
}

/// The stages of `n` integration steps, one after another.
pub open spec fn spec_plan(n: nat) -> Seq<Stage> {
    Seq::new(6 * n, |k: int| spec_stage_at(k % 6))
}

/// The buffers the colour map stage binds, in binding order.
pub open spec fn spec_colormap_bindings() -> Seq<BufferRole> {
    seq![
        BufferRole::Data,
        BufferRole::Colormap,
        BufferRole::Width,
        BufferRole::Height,
        BufferRole::MinT,
        BufferRole::MaxT,
    ]
}

/// Stage `k` of an integration step.
pub fn stage_at(k: usize) -> (r: Stage)
    requires
        k < STAGES_PER_STEP,
    ensures
        r == spec_stage_at(k as int),
{
    if k == 0 {
        Stage::BoundaryFix
    } else if k == 1 {
        Stage::Laplacian
    } else if k == 2 {
        Stage::MidpointStep
    } else if k == 3 {
        Stage::MidpointLaplacian
    } else if k == 4 {
        Stage::FullStep
    } else {
        Stage::Rotate
    }
}

impl Stage {
    /// The program this stage runs.
    pub fn kernel(self) -> (r: Kernel)
        ensures
            r == spec_kernel_of(self),
    {
        match self {
            Stage::BoundaryFix => Kernel::Boundary,
            Stage::Laplacian => Kernel::Laplacian,
            Stage::MidpointStep => Kernel::Iterate,
            Stage::MidpointLaplacian => Kernel::Laplacian,
            Stage::FullStep => Kernel::Iterate,
            Stage::Rotate => Kernel::Move,
        }
    }

    /// The buffers this stage binds, in binding order.
    pub fn bindings(self) -> (r: Vec<BufferRole>)
        ensures
            r@ == spec_bindings(self),
    {
        let r = match self {
            Stage::BoundaryFix => vec![BufferRole::Data, BufferRole::Width, BufferRole::Height],
            Stage::Laplacian => vec![
                BufferRole::Data,
                BufferRole::Laplacian,
                BufferRole::Width,
                BufferRole::Height,
            ],
            Stage::MidpointStep => vec![
                BufferRole::Data,
                BufferRole::Laplacian,
                BufferRole::Midpoint,
                BufferRole::Width,
                BufferRole::Height,
                BufferRole::Kappa,
                BufferRole::HalfDeltaT,
            ],
            Stage::MidpointLaplacian => vec![
                BufferRole::Midpoint,
                BufferRole::MidpointLaplacian,
                BufferRole::Width,
                BufferRole::Height,
            ],
            Stage::FullStep => vec![
                BufferRole::Data,
                BufferRole::MidpointLaplacian,
                BufferRole::Output,
                BufferRole::Width,
                BufferRole::Height,
                BufferRole::Kappa,
                BufferRole::DeltaT,
            ],
            Stage::Rotate => vec![
                BufferRole::Output,
                BufferRole::Data,
                BufferRole::Width,
                BufferRole::Height,
            ],
        };
        assert(r@ =~= spec_bindings(self));
        r
    }

    /// Workgroups of one dispatch of this stage on a `width` by `height`
    /// grid: one lane per edge cell for the boundary fix, one per cell
    /// otherwise.
    pub fn workgroups(self, width: u32, height: u32) -> (r: u32)
        requires
            width * height <= u32::MAX,
            2 * width + 2 * height <= u32::MAX,
        ensures
            r == if self == Stage::BoundaryFix {
                div_ceil(2 * width + 2 * height, WORKGROUP_SIZE as int)
            } else {
                div_ceil(width * height, WORKGROUP_SIZE as int)
            },
    {
        match self {
            Stage::BoundaryFix => boundary_workgroups(width, height),
            _ => field_workgroups(width, height),
        }
    }
}

/// The buffers the colour map stage binds, in binding order.
pub fn colormap_bindings() -> (r: Vec<BufferRole>)
    ensures
        r@ == spec_colormap_bindings(),
{
    let r = vec![
        BufferRole::Data,
        BufferRole::Colormap,
        BufferRole::Width,
        BufferRole::Height,
        BufferRole::MinT,
        BufferRole::MaxT,
    ];
    assert(r@ =~= spec_colormap_bindings());
    r
}

/// The stages of `n` integration steps in the order they are dispatched:
/// each step runs boundary fix, Laplacian, midpoint step, midpoint
/// Laplacian, full step and rotation, and the next step starts after the
/// rotation. No step, no stage.
pub fn iteration_plan(n: usize) -> (r: Vec<Stage>)
    requires
        6 * n <= usize::MAX,
    ensures
        r@ == spec_plan(n as nat),
{
    let mut plan: Vec<Stage> = Vec::new();
    let mut step: usize = 0;
    while step < n
        invariant
            step <= n,
            6 * n <= usize::MAX,
            plan@ =~= spec_plan(step as nat),
        decreases n - step,
    {
        let mut k: usize = 0;
        while k < STAGES_PER_STEP
            invariant
                k <= STAGES_PER_STEP,
                step < n,
                6 * n <= usize::MAX,
                plan@.len() == 6 * step + k,
                forall|m: int| 0 <= m < 6 * step + k ==> #[trigger] plan@[m] == spec_stage_at(m % 6),
            decreases STAGES_PER_STEP - k,
        {
            proof {
                assert((6 * step + k) % 6 == k as int) by (nonlinear_arith)
                    requires
                        k < 6,
                ;
            }
            plan.push(stage_at(k));
            k = k + 1;
        }
        step = step + 1;
    }
    plan
}

/// Within one integration step every field buffer that a stage reads,
/// other than the data buffer, was written by an earlier stage of the same
/// step; and no stage between the boundary fix and the rotation writes the
/// data buffer, so the midpoint and full steps both start from the field
/// as the step found it, edges fixed.
pub proof fn lemma_plan_reads_follow_writes(n: nat, k: int, b: BufferRole)
    requires
        0 <= k < spec_plan(n).len(),
        spec_reads(spec_plan(n)[k]).contains(b),
    ensures
        b != BufferRole::Data ==> exists|m: int|
            k - k % 6 <= m < k && #[trigger] spec_writes(spec_plan(n)[m]) == b,
        0 < k % 6 < 5 ==> spec_writes(spec_plan(n)[k]) != BufferRole::Data,
{
    let base = k - k % 6;
    assert(0 <= k % 6 < 6);
    let reads = spec_reads(spec_plan(n)[k]);
    if b != BufferRole::Data {
        let off = k % 6;
        assert(reads.contains(b) ==> exists|i: int| 0 <= i < reads.len() && reads[i] == b);
        if off == 2 {
            assert((base + 1) % 6 == 1) by (nonlinear_arith)
                requires
                    base == k - k % 6,
            ;
            assert(spec_writes(spec_plan(n)[base + 1]) == b);
        } else if off == 3 {
            assert((base + 2) % 6 == 2) by (nonlinear_arith)
                requires
                    base == k - k % 6,
            ;
            assert(spec_writes(spec_plan(n)[base + 2]) == b);
        } else if off == 4 {
            assert((base + 3) % 6 == 3) by (nonlinear_arith)
                requires
                    base == k - k % 6,
            ;
            assert(spec_writes(spec_plan(n)[base + 3]) == b);
        } else if off == 5 {
            assert((base + 4) % 6 == 4) by (nonlinear_arith)
                requires
                    base == k - k % 6,
            ;
            assert(spec_writes(spec_plan(n)[base + 4]) == b);
        }
    }
}

/// Zero integration steps dispatch no stage, so no buffer is written and
/// the field stays as it was.
pub proof fn lemma_zero_steps_dispatch_nothing()
    ensures
        spec_plan(0) =~= Seq::<Stage>::empty(),
{
}

} // verus!
