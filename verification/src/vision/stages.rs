//! Splitting a pipeline's image operations into the sample stage, run per
//! sample (possibly on workers), and the batch stage, run on stacked
//! batches; with the optional deferral of a trailing run of flips and
//! resized crops into a fused device kernel.

use vstd::prelude::*;
use crate::text::{owned, push_str};
use crate::vision::compile::{
    BatchKernel, CompiledNormalize, CompiledSampleOp, RandomOccurrences, SampleKernel,
    batch_kernel_name, batch_transition, bumped, compile_sample_op, compiled_op_ok, count_of, key_in_scope, kind_count,
    lemma_kind_count_bound, sample_kernel_name, sample_out, seq_fits, op_fits, copy_compiled_ops,
    same_kernels,
};
use crate::vision::errors::{VisionError, error_text};
use crate::vision::image_op::{
    ExecutionKind, ImageOp, PipelineImageState, config_valid, execution_kind_spec, leaf_transition,
    name_spec, random_kind_spec,
};
use crate::vision::inference::state_axis;
use crate::vision::transforms::{DType, ImageAxisOrder, InterpolationMode};

verus! {

pub fn state_axis_order(state: PipelineImageState) -> (r: ImageAxisOrder)
    ensures
        r == state_axis(state),
{
    match state {
        PipelineImageState::Encoded => ImageAxisOrder::Hwc,
        PipelineImageState::Decoded { axis_order, .. } => axis_order,
    }
}

/// Filter identifier of an interpolation mode in the fused device kernel.
pub fn interpolation_id(interpolation: InterpolationMode) -> (r: i32)
    ensures
        r == match interpolation {
            InterpolationMode::Nearest => 0i32,
            InterpolationMode::Bilinear => 1i32,
            InterpolationMode::Bicubic => 2i32,
            InterpolationMode::Lanczos3 => 3i32,
        },
{
    match interpolation {
        InterpolationMode::Nearest => 0,
        InterpolationMode::Bilinear => 1,
        InterpolationMode::Bicubic => 2,
        InterpolationMode::Lanczos3 => 3,
    }
}

// ---------------------------------------------------------------------------
// Device augmentation prefix
// ---------------------------------------------------------------------------

pub open spec fn is_cuda_augmentation_spec(op: ImageOp) -> bool {
    op is Flip || op is RandomHorizontalFlip || op is RandomResizedCrop
}

pub fn is_cuda_augmentation(op: &ImageOp) -> (r: bool)
    ensures
        r == is_cuda_augmentation_spec(*op),
{
    match op {
        ImageOp::Flip(_) | ImageOp::RandomHorizontalFlip { .. } | ImageOp::RandomResizedCrop(_) => true,
        _ => false,
    }
}

pub open spec fn is_chw_layout(op: ImageOp) -> bool {
    match op {
        ImageOp::Layout { axis_order } => axis_order == ImageAxisOrder::Chw,
        _ => false,
    }
}

/// Start of the run of device augmentations that ends just before `k`.
pub open spec fn run_start(ops: Seq<ImageOp>, k: nat) -> nat
    decreases k,
{
    if k > 0 && k <= ops.len() && is_cuda_augmentation_spec(ops[k - 1]) {
        run_start(ops, (k - 1) as nat)
    } else {
        k
    }
}

/// Number of resized crops among `ops[a..b]`.
pub open spec fn resized_crops(ops: Seq<ImageOp>, a: int, b: int) -> nat
    decreases b - a,
{
    if b <= a {
        0
    } else {
        resized_crops(ops, a, b - 1) + if ops[b - 1] is RandomResizedCrop {
            1nat
        } else {
            0nat
        }
    }
}

/// The index range of the operations deferred into the fused device
/// kernel: the non-empty run of flips and resized crops (at most one of
/// the latter) just before a final `Normalize` followed by a CHW layout.
pub open spec fn cuda_prefix_spec(ops: Seq<ImageOp>) -> Option<(int, int)> {
    if ops.len() < 2 {
        None
    } else {
        let ni = (ops.len() - 2) as nat;
        let start = run_start(ops, ni);
        if !(ops[ni as int] is Normalize) || !is_chw_layout(ops[ni + 1int]) {
            None
        } else if start == ni {
            None
        } else if resized_crops(ops, start as int, ni as int) > 1 {
            None
        } else {
            Some((start as int, ni as int))
        }
    }
}

pub fn cuda_augmentation_prefix(ops: &Vec<ImageOp>) -> (r: Option<core::ops::Range<usize>>)
    ensures
        match r {
            None => cuda_prefix_spec(ops@) is None,
            Some(range) => cuda_prefix_spec(ops@) == Some((range.start as int, range.end as int)),
        },
{
    if ops.len() < 2 {
        return None;
    }
    let normalize_index = ops.len() - 2;
    let is_normalize = match &ops[normalize_index] {
        ImageOp::Normalize { .. } => true,
        _ => false,
    };
    let chw = match &ops[normalize_index + 1] {
        ImageOp::Layout { axis_order } => *axis_order == ImageAxisOrder::Chw,
        _ => false,
    };
    if !is_normalize || !chw {
        return None;
    }
    let mut start = normalize_index;
    while start > 0 && is_cuda_augmentation(&ops[start - 1])
        invariant
            start <= normalize_index,
            normalize_index == ops@.len() - 2,
            run_start(ops@, start as nat) == run_start(ops@, normalize_index as nat),
        decreases start,
    {
        start -= 1;
    }
    if start == normalize_index {
        return None;
    }
    let mut crops: usize = 0;
    let mut j: usize = start;
    while j < normalize_index
        invariant
            start <= j <= normalize_index,
            normalize_index == ops@.len() - 2,
            crops == resized_crops(ops@, start as int, j as int),
            crops <= j - start,
        decreases normalize_index - j,
    {
        match &ops[j] {
            ImageOp::RandomResizedCrop(_) => {
                crops += 1;
            },
            _ => {},
        }
        j += 1;
    }
    if crops > 1 {
        return None;
    }
    Some(start..normalize_index)
}

// ---------------------------------------------------------------------------
// Stage split
// ---------------------------------------------------------------------------

/// Progress of the stage split: the current image state, the state at the
/// start of the batch stage once it has started, and the names of the
/// kernels compiled so far.
pub struct StagePlan {
    pub state: PipelineImageState,
    pub pre_batch: Option<PipelineImageState>,
    pub batch_started: bool,
    pub sample_names: Seq<Seq<char>>,
    /// For each sample kernel, the index of the operation it compiles;
    /// `-1` for a normalization kept on the sample stage.
    pub sample_origins: Seq<int>,
    /// The image state each sample kernel reads.
    pub sample_inputs: Seq<PipelineImageState>,
    pub deferred_names: Seq<Seq<char>>,
    pub batch_names: Seq<Seq<char>>,
    pub batch_kernels: Seq<BatchKernelV>,
}

/// A batch kernel as plain values; a fused kernel names the deferred
/// augmentations it runs.
pub enum BatchKernelV {
    Normalize { mean: Seq<u32>, std: Seq<u32>, input_layout: ImageAxisOrder },
    NormalizeToChw { mean: Seq<u32>, std: Seq<u32>, input_layout: ImageAxisOrder },
    NormalizeToChwWithCudaAugmentations {
        mean: Seq<u32>,
        std: Seq<u32>,
        input_layout: ImageAxisOrder,
        augmentations: Seq<Seq<char>>,
    },
    ConvertImageDtype { dtype: DType, input_layout: ImageAxisOrder },
    Layout { axis_order: ImageAxisOrder, input_layout: ImageAxisOrder },
}

pub open spec fn batch_kernel_view(k: BatchKernel) -> BatchKernelV {
    match k {
        BatchKernel::Normalize(n) => BatchKernelV::Normalize {
            mean: n.mean_bits@,
            std: n.std_bits@,
            input_layout: n.input_layout,
        },
        BatchKernel::NormalizeToChw(n) => BatchKernelV::NormalizeToChw {
            mean: n.mean_bits@,
            std: n.std_bits@,
            input_layout: n.input_layout,
        },
        BatchKernel::NormalizeToChwWithCudaAugmentations { normalize, augmentations } =>
            BatchKernelV::NormalizeToChwWithCudaAugmentations {
            mean: normalize.mean_bits@,
            std: normalize.std_bits@,
            input_layout: normalize.input_layout,
            augmentations: sample_names_of(augmentations@),
        },
        BatchKernel::ConvertImageDtype { dtype, input_layout } => BatchKernelV::ConvertImageDtype { dtype, input_layout },
        BatchKernel::Layout { axis_order, input_layout } => BatchKernelV::Layout { axis_order, input_layout },
    }
}

/// The per-channel mean and standard deviation of a normalization.
pub open spec fn norm_params(op: ImageOp) -> (Seq<u32>, Seq<u32>) {
    match op {
        ImageOp::Normalize { mean_bits, std_bits } => (mean_bits@, std_bits@),
        _ => (Seq::empty(), Seq::empty()),
    }
}

/// The batch kernel compiled for the batch operation `op` on state `s`.
pub open spec fn batch_kernel_for(op: ImageOp, s: PipelineImageState) -> BatchKernelV {
    match op {
        ImageOp::Normalize { mean_bits, std_bits } => BatchKernelV::Normalize {
            mean: mean_bits@,
            std: std_bits@,
            input_layout: state_axis(s),
        },
        ImageOp::ConvertImageDtype { dtype } => BatchKernelV::ConvertImageDtype { dtype, input_layout: state_axis(s) },
        ImageOp::Layout { axis_order } => BatchKernelV::Layout { axis_order, input_layout: state_axis(s) },
        _ => BatchKernelV::Layout { axis_order: state_axis(s), input_layout: state_axis(s) },
    }
}

pub open spec fn in_range(d: Option<(int, int)>, i: int) -> bool {
    match d {
        Some((a, b)) => a <= i < b,
        None => false,
    }
}

pub open spec fn u8_hwc() -> PipelineImageState {
    PipelineImageState::Decoded { dtype: DType::U8, axis_order: ImageAxisOrder::Hwc }
}

pub open spec fn f32_chw() -> PipelineImageState {
    PipelineImageState::Decoded { dtype: DType::F32, axis_order: ImageAxisOrder::Chw }
}

pub open spec fn start_batch(p: StagePlan) -> Option<PipelineImageState> {
    if p.batch_started {
        p.pre_batch
    } else {
        Some(p.state)
    }
}

pub open spec fn layout_noop(op: ImageOp, s: PipelineImageState) -> bool {
    match op {
        ImageOp::Layout { axis_order } => match s {
            PipelineImageState::Decoded { axis_order: current, .. } => current == axis_order,
            _ => false,
        },
        _ => false,
    }
}

/// One step of the stage split at operation `i`: the plan after it and
/// whether the following layout was fused in as well; `None` when
/// compilation fails there. `workers` is the number of sample workers and
/// `d` the deferred range.
pub open spec fn stage_step(
    ops: Seq<ImageOp>,
    p: StagePlan,
    i: int,
    workers: nat,
    d: Option<(int, int)>,
) -> Option<(StagePlan, bool)> {
    let op = ops[i];
    if !config_valid(op) {
        None
    } else if in_range(d, i) {
        match sample_out(op, p.state) {
            None => None,
            Some(t) => Some(
                (StagePlan { state: t, deferred_names: p.deferred_names.push(name_spec(op)), ..p }, false),
            ),
        }
    } else if op is Normalize && workers > 0 && p.sample_names.len() > 0 && p.deferred_names.len() == 0 {
        match leaf_transition(op, p.state) {
            None => None,
            Some(t) => Some(
                (
                    StagePlan {
                        state: t,
                        sample_names: p.sample_names.push("NormalizeSample"@),
                        sample_origins: p.sample_origins.push(i),
                        sample_inputs: p.sample_inputs.push(p.state),
                        ..p
                    },
                    false,
                ),
            ),
        }
    } else if op is Normalize && p.state == u8_hwc() && i + 1 < ops.len() && is_chw_layout(ops[i + 1]) {
        Some(
            (
                StagePlan {
                    state: f32_chw(),
                    pre_batch: start_batch(p),
                    batch_started: true,
                    batch_names: p.batch_names.push(
                        if p.deferred_names.len() == 0 {
                            "NormalizeToChw"@
                        } else {
                            "VisionAugmentNormalizeToChw"@
                        },
                    ),
                    batch_kernels: p.batch_kernels.push(
                        if p.deferred_names.len() == 0 {
                            BatchKernelV::NormalizeToChw {
                                mean: norm_params(op).0,
                                std: norm_params(op).1,
                                input_layout: ImageAxisOrder::Hwc,
                            }
                        } else {
                            BatchKernelV::NormalizeToChwWithCudaAugmentations {
                                mean: norm_params(op).0,
                                std: norm_params(op).1,
                                input_layout: ImageAxisOrder::Hwc,
                                augmentations: p.deferred_names,
                            }
                        },
                    ),
                    ..p
                },
                true,
            ),
        )
    } else if layout_noop(op, p.state) {
        Some((p, false))
    } else if execution_kind_spec(op) == ExecutionKind::Sample {
        if p.batch_started {
            None
        } else {
            match sample_out(op, p.state) {
                None => None,
                Some(t) => Some(
                    (
                        StagePlan {
                            state: t,
                            sample_names: p.sample_names.push(name_spec(op)),
                            sample_origins: p.sample_origins.push(i),
                            sample_inputs: p.sample_inputs.push(p.state),
                            ..p
                        },
                        false,
                    ),
                ),
            }
        }
    } else {
        match leaf_transition(op, p.state) {
            None => None,
            Some(t) => Some(
                (
                    StagePlan {
                        state: t,
                        pre_batch: start_batch(p),
                        batch_started: true,
                        batch_names: p.batch_names.push(name_spec(op)),
                        batch_kernels: p.batch_kernels.push(batch_kernel_for(op, p.state)),
                        ..p
                    },
                    false,
                ),
            ),
        }
    }
}

/// The stage split from operation `i` on, starting from plan `p`.
pub open spec fn stage_run(ops: Seq<ImageOp>, i: int, p: StagePlan, workers: nat, d: Option<(int, int)>) -> Option<StagePlan>
    decreases ops.len() - i,
{
    if i < 0 || i >= ops.len() {
        Some(p)
    } else {
        match stage_step(ops, p, i, workers, d) {
            None => None,
            Some((q, fused)) => if !fused {
                stage_run(ops, i + 1, q, workers, d)
            } else if i + 2 <= ops.len() {
                stage_run(ops, i + 2, q, workers, d)
            } else {
                Some(q)
            },
        }
    }
}

/// The message of the stage split's failure at operation `i`, where it is
/// a sample operation placed after the batch stage has started.
pub open spec fn step_error(ops: Seq<ImageOp>, p: StagePlan, i: int, workers: nat, d: Option<(int, int)>) -> Option<Seq<char>> {
    let op = ops[i];
    if config_valid(op) && !in_range(d, i) && !(op is Normalize && workers > 0 && p.sample_names.len() > 0
        && p.deferred_names.len() == 0) && !(op is Normalize && p.state == u8_hwc() && i + 1 < ops.len()
        && is_chw_layout(ops[i + 1])) && !layout_noop(op, p.state) && execution_kind_spec(op)
        == ExecutionKind::Sample && p.batch_started {
        Some(batch_error_text(name_spec(op)))
    } else {
        None
    }
}

/// The message of the stage split's failure from operation `i` on, where
/// it is a sample operation after the batch stage.
pub open spec fn stage_error_run(ops: Seq<ImageOp>, i: int, p: StagePlan, workers: nat, d: Option<(int, int)>) -> Option<Seq<char>>
    decreases ops.len() - i,
{
    if i < 0 || i >= ops.len() {
        None
    } else {
        match stage_step(ops, p, i, workers, d) {
            None => step_error(ops, p, i, workers, d),
            Some((q, fused)) => if !fused {
                stage_error_run(ops, i + 1, q, workers, d)
            } else if i + 2 <= ops.len() {
                stage_error_run(ops, i + 2, q, workers, d)
            } else {
                None
            },
        }
    }
}

/// The message with which compiling `ops` fails, for two failures: a
/// sample operation after the batch stage, and images still encoded at
/// the end.
pub open spec fn stage_error(ops: Seq<ImageOp>, initial: PipelineImageState, workers: nat, defer: bool) -> Option<Seq<char>> {
    let d = if defer {
        cuda_prefix_spec(ops)
    } else {
        None
    };
    match stage_run(ops, 0, initial_plan(initial), workers, d) {
        None => stage_error_run(ops, 0, initial_plan(initial), workers, d),
        Some(p) => if p.state is Encoded {
            Some("pipeline must decode images before batching"@)
        } else {
            None
        },
    }
}

pub open spec fn initial_plan(s: PipelineImageState) -> StagePlan {
    StagePlan {
        state: s,
        pre_batch: None,
        batch_started: false,
        sample_names: Seq::empty(),
        sample_origins: Seq::empty(),
        sample_inputs: Seq::empty(),
        deferred_names: Seq::empty(),
        batch_names: Seq::empty(),
        batch_kernels: Seq::empty(),
    }
}

/// The outcome of splitting `ops` into stages from `initial`: `None` when
/// compilation fails, including when the images are still encoded at the
/// end.
pub open spec fn stage_split(ops: Seq<ImageOp>, initial: PipelineImageState, workers: nat, defer: bool) -> Option<
    StagePlan,
> {
    let d = if defer {
        cuda_prefix_spec(ops)
    } else {
        None
    };
    match stage_run(ops, 0, initial_plan(initial), workers, d) {
        None => None,
        Some(p) => if p.state is Encoded {
            None
        } else {
            Some(p)
        },
    }
}

/// Each sample kernel compiles the operation its origin names, keyed in
/// the pipeline's top-level scope; a sample normalization carries that
/// operation's parameters and the layout of its input.
pub open spec fn sample_keys_ok(compiled: Seq<CompiledSampleOp>, origins: Seq<int>, ops: Seq<ImageOp>) -> bool {
    &&& origins.len() == compiled.len()
    &&& forall|t: int|
        0 <= t < compiled.len() ==> 0 <= origins[t] < ops.len() && match (#[trigger] compiled[t]).kernel {
            SampleKernel::SampleNormalize(n) => ops[origins[t]] is Normalize && (n.mean_bits@, n.std_bits@)
                == norm_params(ops[origins[t]]) && n.input_layout == state_axis(compiled[t].input_state),
            _ => compiled_op_ok(
                compiled[t],
                ops[origins[t]],
                compiled[t].input_state,
                key_in_scope(ops, origins[t], Seq::empty()),
            ),
        }
}

/// The image state each kernel reads.
pub open spec fn sample_inputs_of(s: Seq<CompiledSampleOp>) -> Seq<PipelineImageState> {
    s.map_values(|c: CompiledSampleOp| c.input_state)
}

/// The batch kernels as plain values.
pub open spec fn batch_views_of(s: Seq<BatchKernel>) -> Seq<BatchKernelV> {
    s.map_values(|k: BatchKernel| batch_kernel_view(k))
}

pub open spec fn sample_names_of(s: Seq<CompiledSampleOp>) -> Seq<Seq<char>> {
    s.map_values(|c: CompiledSampleOp| sample_kernel_name(c.kernel))
}

pub open spec fn batch_names_of(s: Seq<BatchKernel>) -> Seq<Seq<char>> {
    s.map_values(|k: BatchKernel| batch_kernel_name(k))
}

/// The two stages of a compiled pipeline and the image states at their
/// boundary and at the end.
#[derive(Debug)]
pub struct CompiledImageOps {
    pub sample_ops: Vec<CompiledSampleOp>,
    pub batch_ops: Vec<BatchKernel>,
    pub pre_batch_state: PipelineImageState,
    pub output_state: PipelineImageState,
}

pub open spec fn plan_of(
    state: PipelineImageState,
    pre_batch: Option<PipelineImageState>,
    started: bool,
    sample_ops: Seq<CompiledSampleOp>,
    origins: Seq<int>,
    deferred: Seq<Seq<char>>,
    batch_ops: Seq<BatchKernel>,
) -> StagePlan {
    StagePlan {
        state,
        pre_batch,
        batch_started: started,
        sample_names: sample_names_of(sample_ops),
        sample_origins: origins,
        sample_inputs: sample_inputs_of(sample_ops),
        deferred_names: deferred,
        batch_names: batch_names_of(batch_ops),
        batch_kernels: batch_views_of(batch_ops),
    }
}

proof fn lemma_kind_count_same(ops: Seq<ImageOp>, i: nat)
    requires
        i < ops.len(),
        random_kind_spec(ops[i as int]) is None,
    ensures
        forall|k: Seq<char>| #[trigger] kind_count(ops, k, i + 1) == kind_count(ops, k, i),
{
}

proof fn lemma_counts_bumped(
    before: Seq<(Seq<char>, u32)>,
    after: Seq<(Seq<char>, u32)>,
    ops: Seq<ImageOp>,
    i: nat,
)
    requires
        i < ops.len(),
        forall|k: Seq<char>| #[trigger] count_of(before, k) == kind_count(ops, k, i),
        bumped(before, after, ops[i as int]),
    ensures
        forall|k: Seq<char>| #[trigger] count_of(after, k) == kind_count(ops, k, i + 1),
{
    assert forall|k: Seq<char>| #[trigger] count_of(after, k) == kind_count(ops, k, i + 1) by {
        assert(count_of(before, k) == kind_count(ops, k, i));
    }
}

/// Text of the error for a sample operation named `name` placed after the
/// batch stage has started.
pub open spec fn batch_error_text(name: Seq<char>) -> Seq<char> {
    name
        + " cannot follow the batch stage; move sample operations before normalize/layout (sample ops require uint8 HWC input)"@
}

fn batch_error(name: &str) -> (r: VisionError)
    ensures
        r is InvalidPipeline,
        error_text(r) == batch_error_text(name@),
{
    let mut message = owned(name);
    push_str(
        &mut message,
        " cannot follow the batch stage; move sample operations before normalize/layout (sample ops require uint8 HWC input)",
    );
    VisionError::InvalidPipeline(message)
}

/// Splits `ops` into a sample stage and a batch stage, starting from the
/// source's image state. `num_workers` sample workers make a `Normalize`
/// that follows sample work stay on them; a `Normalize` on uint8 HWC
/// images directly followed by a CHW layout fuses into one batch kernel,
/// together with the deferred device augmentations when
/// `defer_cuda_augmentations` holds.
#[verifier::loop_isolation(false)]
#[verifier::rlimit(60)]
pub fn compile_image_ops(
    ops: Vec<ImageOp>,
    initial_state: PipelineImageState,
    num_workers: usize,
    defer_cuda_augmentations: bool,
) -> (r: Result<CompiledImageOps, VisionError>)
    requires
        seq_fits(ops@),
    ensures
        r is Ok <==> stage_split(ops@, initial_state, num_workers as nat, defer_cuda_augmentations) is Some,
        stage_error(ops@, initial_state, num_workers as nat, defer_cuda_augmentations) matches Some(m)
            ==> (r matches Err(e) && error_text(e) == m),
        r matches Ok(c) ==> ({
            let p = stage_split(ops@, initial_state, num_workers as nat, defer_cuda_augmentations).unwrap();
            &&& c.output_state == p.state
            &&& c.pre_batch_state == match p.pre_batch {
                Some(s) => s,
                None => p.state,
            }
            &&& sample_names_of(c.sample_ops@) == p.sample_names
            &&& sample_inputs_of(c.sample_ops@) == p.sample_inputs
            &&& batch_names_of(c.batch_ops@) == p.batch_names
            &&& batch_views_of(c.batch_ops@) == p.batch_kernels
            &&& sample_keys_ok(c.sample_ops@, p.sample_origins, ops@)
        }),
{
    let ghost all = ops@;
    let deferred = if defer_cuda_augmentations {
        cuda_augmentation_prefix(&ops)
    } else {
        None
    };
    let ghost d: Option<(int, int)> = if defer_cuda_augmentations {
        cuda_prefix_spec(all)
    } else {
        None
    };
    let n = ops.len();
    let mut rest = ops;
    let mut state = initial_state;
    let mut sample_ops: Vec<CompiledSampleOp> = Vec::new();
    let mut occurrences = RandomOccurrences::new();
    let mut batch_ops: Vec<BatchKernel> = Vec::new();
    let mut cuda_augmentations: Vec<CompiledSampleOp> = Vec::new();
    let mut deferred_count: usize = 0;
    let ghost mut deferred_names: Seq<Seq<char>> = Seq::empty();
    let ghost mut origins: Seq<int> = Seq::empty();
    let mut pre_batch_state: Option<PipelineImageState> = None;
    let mut batch_stage_started = false;
    let mut i: usize = 0;
    proof {
        assert(sample_names_of(sample_ops@) =~= Seq::<Seq<char>>::empty());
        assert(batch_names_of(batch_ops@) =~= Seq::<Seq<char>>::empty());
        assert(sample_inputs_of(sample_ops@) =~= Seq::<PipelineImageState>::empty());
        assert(batch_views_of(batch_ops@) =~= Seq::<BatchKernelV>::empty());
        assert(sample_names_of(cuda_augmentations@) =~= Seq::<Seq<char>>::empty());
    }
    while i < n
        invariant
            i <= n,
            n == all.len(),
            seq_fits(all),
            rest@ == all.subrange(i as int, n as int),
            deferred_count == deferred_names.len(),
            deferred_count <= i,
            sample_names_of(cuda_augmentations@) == deferred_names,
            match deferred {
                None => d is None,
                Some(range) => d == Some((range.start as int, range.end as int)),
            },
            forall|k: Seq<char>| #[trigger] count_of(occurrences@, k) == kind_count(all, k, i as nat),
            sample_keys_ok(sample_ops@, origins, all),
            stage_run(all, 0, initial_plan(initial_state), num_workers as nat, d) == stage_run(
                all,
                i as int,
                plan_of(state, pre_batch_state, batch_stage_started, sample_ops@, origins, deferred_names, batch_ops@),
                num_workers as nat,
                d,
            ),
            stage_run(all, 0, initial_plan(initial_state), num_workers as nat, d) is None ==> stage_error_run(
                all,
                0,
                initial_plan(initial_state),
                num_workers as nat,
                d,
            ) == stage_error_run(
                all,
                i as int,
                plan_of(state, pre_batch_state, batch_stage_started, sample_ops@, origins, deferred_names, batch_ops@),
                num_workers as nat,
                d,
            ),
        decreases n - i,
    {
        let ghost p = plan_of(state, pre_batch_state, batch_stage_started, sample_ops@, origins, deferred_names, batch_ops@);
        let op = rest.remove(0);
        proof {
            assert(op == all[i as int]);
            assert(op_fits(op));
            if let Some(k) = random_kind_spec(op) {
                lemma_kind_count_bound(all, k, i as nat);
            }
        }
        match op.validate() {
            Err(e) => {
                proof {
                    assert(stage_step(all, p, i as int, num_workers as nat, d) is None);
                }
                return Err(e);
            },
            Ok(()) => {},
        }
        let deferred_here = match &deferred {
            Some(range) => range.start <= i && i < range.end,
            None => false,
        };
        if deferred_here {
            let ghost before = occurrences@;
            let ghost name = name_spec(op);
            match compile_sample_op(op, state, None, &mut occurrences) {
                Err(e) => {
                    proof {
                        assert(stage_step(all, p, i as int, num_workers as nat, d) is None);
                    }
                    return Err(e);
                },
                Ok((compiled, out)) => {
                    proof {
                        lemma_counts_bumped(before, occurrences@, all, i as nat);
                        deferred_names = deferred_names.push(name);
                    }
                    state = out;
                    let ghost aug_before = cuda_augmentations@;
                    cuda_augmentations.push(compiled);
                    proof {
                        assert(sample_names_of(cuda_augmentations@) =~= sample_names_of(aug_before).push(name));
                    }
                    deferred_count += 1;
                },
            }
            i += 1;
            continue;
        }
        let is_normalize = match &op {
            ImageOp::Normalize { .. } => true,
            _ => false,
        };
        if is_normalize {
            if num_workers > 0 && sample_ops.len() > 0 && deferred_count == 0 {
                let input_state = state;
                match op.transition(input_state) {
                    Err(e) => {
                        proof {
                            assert(stage_step(all, p, i as int, num_workers as nat, d) is None);
                        }
                        return Err(e);
                    },
                    Ok(next) => {
                        state = next;
                    },
                }
                let input_layout = state_axis_order(input_state);
                let ghost old_samples = sample_ops@;
                match op {
                    ImageOp::Normalize { mean_bits, std_bits } => {
                        sample_ops.push(
                            CompiledSampleOp {
                                kernel: SampleKernel::SampleNormalize(
                                    CompiledNormalize { mean_bits, std_bits, input_layout },
                                ),
                                random_key: None,
                                input_state,
                            },
                        );
                    },
                    _ => {},
                }
                proof {
                    origins = origins.push(i as int);
                    assert(sample_names_of(sample_ops@) =~= sample_names_of(old_samples).push(
                        "NormalizeSample"@,
                    ));
                    assert(sample_inputs_of(sample_ops@) =~= sample_inputs_of(old_samples).push(input_state));
                    lemma_kind_count_same(all, i as nat);
                }
                i += 1;
                continue;
            }
            let next_is_chw = if rest.len() > 0 {
                match &rest[0] {
                    ImageOp::Layout { axis_order } => *axis_order == ImageAxisOrder::Chw,
                    _ => false,
                }
            } else {
                false
            };
            let u8_hwc_state = match state {
                PipelineImageState::Decoded { dtype: DType::U8, axis_order: ImageAxisOrder::Hwc } => true,
                _ => false,
            };
            if u8_hwc_state && next_is_chw {
                let layout = rest.remove(0);
                proof {
                    assert(layout == all[i + 1]);
                }
                match layout.validate() {
                    Err(e) => {
                        return Err(e);
                    },
                    Ok(()) => {},
                }
                if !batch_stage_started {
                    pre_batch_state = Some(state);
                    batch_stage_started = true;
                }
                let ghost old_batch = batch_ops@;
                match op {
                    ImageOp::Normalize { mean_bits, std_bits } => {
                        let normalize = CompiledNormalize {
                            mean_bits,
                            std_bits,
                            input_layout: ImageAxisOrder::Hwc,
                        };
                        if deferred_count == 0 {
                            batch_ops.push(BatchKernel::NormalizeToChw(normalize));
                        } else {
                            let augmentations = copy_compiled_ops(&cuda_augmentations);
                            proof {
                                assert(sample_names_of(augmentations@) =~= sample_names_of(cuda_augmentations@));
                            }
                            batch_ops.push(
                                BatchKernel::NormalizeToChwWithCudaAugmentations { normalize, augmentations },
                            );
                        }
                    },
                    _ => {},
                }
                state = PipelineImageState::Decoded { dtype: DType::F32, axis_order: ImageAxisOrder::Chw };
                proof {
                    assert(batch_names_of(batch_ops@) =~= batch_names_of(old_batch).push(
                        if deferred_names.len() == 0 {
                            "NormalizeToChw"@
                        } else {
                            "VisionAugmentNormalizeToChw"@
                        },
                    ));
                    assert(batch_views_of(batch_ops@) =~= batch_views_of(old_batch).push(
                        if deferred_names.len() == 0 {
                            BatchKernelV::NormalizeToChw {
                                mean: norm_params(all[i as int]).0,
                                std: norm_params(all[i as int]).1,
                                input_layout: ImageAxisOrder::Hwc,
                            }
                        } else {
                            BatchKernelV::NormalizeToChwWithCudaAugmentations {
                                mean: norm_params(all[i as int]).0,
                                std: norm_params(all[i as int]).1,
                                input_layout: ImageAxisOrder::Hwc,
                                augmentations: deferred_names,
                            }
                        },
                    ));
                    lemma_kind_count_same(all, i as nat);
                    lemma_kind_count_same(all, (i + 1) as nat);
                    assert forall|k: Seq<char>| #[trigger] count_of(occurrences@, k) == kind_count(
                        all,
                        k,
                        (i + 2) as nat,
                    ) by {
                        assert(kind_count(all, k, (i + 1) as nat) == kind_count(all, k, i as nat));
                        assert(kind_count(all, k, (i + 2) as nat) == kind_count(all, k, (i + 1) as nat));
                    }
                }
                i += 2;
                continue;
            }
        }
        let noop = match &op {
            ImageOp::Layout { axis_order } => match state {
                PipelineImageState::Decoded { axis_order: current, .. } => current == *axis_order,
                _ => false,
            },
            _ => false,
        };
        if noop {
            proof {
                lemma_kind_count_same(all, i as nat);
            }
            i += 1;
            continue;
        }
        match op.execution_kind() {
            ExecutionKind::Sample => {
                if batch_stage_started {
                    proof {
                        assert(stage_step(all, p, i as int, num_workers as nat, d) is None);
                        assert(step_error(all, p, i as int, num_workers as nat, d) == Some(
                            batch_error_text(name_spec(op)),
                        ));
                    }
                    return Err(batch_error(op.name()));
                }
                let ghost before = occurrences@;
                let ghost old_samples = sample_ops@;
                let ghost state_before_sample = state;
                match compile_sample_op(op, state, None, &mut occurrences) {
                    Err(e) => {
                        proof {
                            assert(stage_step(all, p, i as int, num_workers as nat, d) is None);
                        }
                        return Err(e);
                    },
                    Ok((compiled, out)) => {
                        proof {
                            lemma_counts_bumped(before, occurrences@, all, i as nat);
                        }
                        state = out;
                        sample_ops.push(compiled);
                        proof {
                            origins = origins.push(i as int);
                            assert(sample_names_of(sample_ops@) =~= sample_names_of(old_samples).push(
                                name_spec(all[i as int]),
                            ));
                            assert(sample_inputs_of(sample_ops@) =~= sample_inputs_of(old_samples).push(
                                state_before_sample,
                            ));
                        }
                    },
                }
            },
            ExecutionKind::Batch => {
                let ghost started_before = batch_stage_started;
                let ghost state_before = state;
                let ghost pre_before = pre_batch_state;
                if !batch_stage_started {
                    pre_batch_state = Some(state);
                    batch_stage_started = true;
                }
                let input_layout = state_axis_order(state);
                let ghost op_value = op;
                let kernel = match op {
                    ImageOp::Normalize { mean_bits, std_bits } => BatchKernel::Normalize(
                        CompiledNormalize { mean_bits, std_bits, input_layout },
                    ),
                    ImageOp::ConvertImageDtype { dtype } => BatchKernel::ConvertImageDtype { dtype, input_layout },
                    ImageOp::Layout { axis_order } => BatchKernel::Layout { axis_order, input_layout },
                    _ => {
                        proof {
                            assert(false);
                        }
                        BatchKernel::Layout { axis_order: input_layout, input_layout }
                    },
                };
                proof {
                    assert(batch_transition(kernel, state) == leaf_transition(op_value, state));
                    assert(batch_kernel_name(kernel) == name_spec(op_value));
                    assert(batch_kernel_view(kernel) == batch_kernel_for(op_value, state));
                }
                match kernel.transition(state) {
                    Err(e) => {
                        proof {
                            assert(stage_step(all, p, i as int, num_workers as nat, d) is None);
                        }
                        return Err(e);
                    },
                    Ok(next) => {
                        state = next;
                    },
                }
                let ghost old_batch = batch_ops@;
                batch_ops.push(kernel);
                proof {
                    assert(batch_names_of(batch_ops@) =~= batch_names_of(old_batch).push(name_spec(op_value)));
                    assert(batch_views_of(batch_ops@) =~= batch_views_of(old_batch).push(
                        batch_kernel_for(op_value, state_before),
                    ));
                    lemma_kind_count_same(all, i as nat);
                }
            },
        }
        i += 1;
    }
    let pre_batch = match pre_batch_state {
        Some(s) => s,
        None => state,
    };
    match state {
        PipelineImageState::Encoded => {
            proof {
                reveal_strlit("pipeline must decode images before batching");
            }
            Err(VisionError::InvalidPipeline(owned("pipeline must decode images before batching")))
        },
        PipelineImageState::Decoded { .. } => Ok(
            CompiledImageOps { sample_ops, batch_ops, pre_batch_state: pre_batch, output_state: state },
        ),
    }
}

} // verus!
