//! Image operations: their execution stage, names, configuration checks and
//! the image state they require and produce.

use vstd::prelude::*;
use crate::text::{owned, push_str};
use crate::vision::errors::{VisionError, error_text};
use crate::vision::transforms::{
    ArbitraryRotateConfig, CenterCropConfig, ColorJitterConfig, CropConfig, DType, ElasticTransformConfig,
    FlipAxis, ImageAxisOrder, InterpolationMode, PadConfig, PerspectiveConfig, Point2,
    RandomAffineConfig, RandomCropConfig, RandomErasingConfig, RandomPerspectiveConfig,
    RandomResizedCropConfig, ResizeConfig, RotationAngle, axis_text, default_resized_crop, f32_finite, f32_finite_nonneg,
    f32_is_finite, f32_is_finite_nonneg, f64_is_unit, f64_unit,
};

verus! {

#[derive(Clone, Copy, Debug, PartialEq, Eq, Structural)]
pub enum ExecutionKind {
    Sample,
    Batch,
}

/// Image state along a pipeline: encoded bytes, or a decoded tensor with an
/// element type and axis order.
#[derive(Clone, Copy, Debug, PartialEq, Eq, Structural)]
pub enum PipelineImageState {
    Encoded,
    Decoded { dtype: DType, axis_order: ImageAxisOrder },
}

#[derive(Debug)]
pub enum ImageOp {
    Decode,
    Resize(ResizeConfig),
    Crop(CropConfig),
    CenterCrop(CenterCropConfig),
    Pad(PadConfig),
    Flip(FlipAxis),
    RandomCrop(RandomCropConfig),
    RandomResizedCrop(RandomResizedCropConfig),
    /// Probability, `f64` bits.
    RandomHorizontalFlip { probability_bits: u64 },
    Brightness { value: i32 },
    /// Contrast factor, `f32` bits.
    Contrast { value_bits: u32 },
    Hue { degrees: i32 },
    ColorJitter(ColorJitterConfig),
    Invert,
    Posterize { bits: u8 },
    Solarize { threshold: u8 },
    Autocontrast,
    Equalize,
    /// Sharpness amount, `f32` bits.
    Sharpness { amount_bits: u32 },
    ArbitraryRotate(ArbitraryRotateConfig),
    RandomAffine(RandomAffineConfig),
    Perspective(PerspectiveConfig),
    RandomPerspective(RandomPerspectiveConfig),
    ElasticTransform(ElasticTransformConfig),
    /// Apply `ops` with probability given by `f64` bits.
    RandomApply { probability_bits: u64, ops: Vec<ImageOp> },
    RandomChoice { choices: Vec<Vec<ImageOp>> },
    RandomOrder { ops: Vec<ImageOp> },
    /// Blur sigma, `f32` bits.
    GaussianBlur { sigma_bits: u32 },
    Grayscale { num_output_channels: u8 },
    RandomGrayscale { probability_bits: u64, num_output_channels: u8 },
    RandomErasing(RandomErasingConfig),
    ConvertImageDtype { dtype: DType },
    Rotate { angle: RotationAngle },
    /// Per-channel mean and standard deviation, `f32` bits.
    Normalize { mean_bits: Vec<u32>, std_bits: Vec<u32> },
    Layout { axis_order: ImageAxisOrder },
}

/// An operation with its nested sequences and vectors seen as their
/// contents: two operations with equal deep views are the same operation.
pub enum ImageOpDeep {
    /// An operation without nested sequences or vectors.
    Leaf(ImageOp),
    RandomApply(u64, Seq<ImageOpDeep>),
    RandomChoice(Seq<Seq<ImageOpDeep>>),
    RandomOrder(Seq<ImageOpDeep>),
    Normalize(Seq<u32>, Seq<u32>),
}

pub open spec fn deep_op(op: ImageOp) -> ImageOpDeep
    decreases op, 1int,
{
    match op {
        ImageOp::RandomApply { probability_bits, ops } => ImageOpDeep::RandomApply(
            probability_bits,
            deep_prefix(ops@, ops@.len()),
        ),
        ImageOp::RandomChoice { choices } => ImageOpDeep::RandomChoice(
            deep_choices(choices@, choices@.len()),
        ),
        ImageOp::RandomOrder { ops } => ImageOpDeep::RandomOrder(deep_prefix(ops@, ops@.len())),
        ImageOp::Normalize { mean_bits, std_bits } => ImageOpDeep::Normalize(mean_bits@, std_bits@),
        _ => ImageOpDeep::Leaf(op),
    }
}

/// Deep views of the first `n` operations.
pub open spec fn deep_prefix(ops: Seq<ImageOp>, n: nat) -> Seq<ImageOpDeep>
    decreases ops, n as int,
{
    if n == 0 || n > ops.len() {
        Seq::empty()
    } else {
        deep_prefix(ops, (n - 1) as nat).push(deep_op(ops[n - 1]))
    }
}

/// Deep views of the first `n` choices.
pub open spec fn deep_choices(choices: Seq<Vec<ImageOp>>, n: nat) -> Seq<Seq<ImageOpDeep>>
    decreases choices, n as int,
{
    if n == 0 || n > choices.len() {
        Seq::empty()
    } else {
        deep_choices(choices, (n - 1) as nat).push(deep_prefix(choices[n - 1]@, choices[n - 1]@.len()))
    }
}

pub open spec fn deep_ops(ops: Seq<ImageOp>) -> Seq<ImageOpDeep> {
    deep_prefix(ops, ops.len())
}

pub proof fn lemma_deep_prefix_index(ops: Seq<ImageOp>, n: nat)
    requires
        n <= ops.len(),
    ensures
        deep_prefix(ops, n).len() == n,
        forall|k: int| 0 <= k < n ==> deep_prefix(ops, n)[k] == deep_op(#[trigger] ops[k]),
    decreases n,
{
    if n > 0 {
        lemma_deep_prefix_index(ops, (n - 1) as nat);
    }
}

/// Two sequences whose first `n` operations have equal deep views have
/// equal deep prefixes.
proof fn lemma_deep_prefix_pointwise(a: Seq<ImageOp>, b: Seq<ImageOp>, n: nat)
    requires
        n <= a.len(),
        n <= b.len(),
        forall|i: int| 0 <= i < n ==> deep_op(#[trigger] a[i]) == deep_op(b[i]),
    ensures
        deep_prefix(a, n) == deep_prefix(b, n),
    decreases n,
{
    if n > 0 {
        lemma_deep_prefix_pointwise(a, b, (n - 1) as nat);
    }
}

/// A copy of a sequence of operations.
pub fn copy_ops(ops: &Vec<ImageOp>) -> (r: Vec<ImageOp>)
    ensures
        r@.len() == ops@.len(),
        deep_ops(r@) == deep_ops(ops@),
    decreases ops@, 2int,
{
    let mut out: Vec<ImageOp> = Vec::new();
    let mut i: usize = 0;
    while i < ops.len()
        invariant
            0 <= i <= ops@.len(),
            out@.len() == i,
            forall|k: int| 0 <= k < i ==> deep_op(#[trigger] out@[k]) == deep_op(ops@[k]),
        decreases ops@.len() - i,
    {
        proof {
            assert(decreases_to!(ops@ => ops@[i as int]));
        }
        let c = copy_op(&ops[i]);
        out.push(c);
        i += 1;
    }
    proof {
        lemma_deep_prefix_pointwise(out@, ops@, ops@.len());
    }
    out
}

/// A copy of an operation, nested sequences included.
#[verifier::loop_isolation(false)]
pub fn copy_op(op: &ImageOp) -> (r: ImageOp)
    ensures
        deep_op(r) == deep_op(*op),
    decreases *op, 1int,
{
    match op {
        ImageOp::Decode => ImageOp::Decode,
        ImageOp::Resize(c) => ImageOp::Resize(*c),
        ImageOp::Crop(c) => ImageOp::Crop(*c),
        ImageOp::CenterCrop(c) => ImageOp::CenterCrop(*c),
        ImageOp::Pad(c) => ImageOp::Pad(*c),
        ImageOp::Flip(a) => ImageOp::Flip(*a),
        ImageOp::RandomCrop(c) => ImageOp::RandomCrop(*c),
        ImageOp::RandomResizedCrop(c) => ImageOp::RandomResizedCrop(*c),
        ImageOp::RandomHorizontalFlip { probability_bits } => ImageOp::RandomHorizontalFlip {
            probability_bits: *probability_bits,
        },
        ImageOp::Brightness { value } => ImageOp::Brightness { value: *value },
        ImageOp::Contrast { value_bits } => ImageOp::Contrast { value_bits: *value_bits },
        ImageOp::Hue { degrees } => ImageOp::Hue { degrees: *degrees },
        ImageOp::ColorJitter(c) => ImageOp::ColorJitter(*c),
        ImageOp::Invert => ImageOp::Invert,
        ImageOp::Posterize { bits } => ImageOp::Posterize { bits: *bits },
        ImageOp::Solarize { threshold } => ImageOp::Solarize { threshold: *threshold },
        ImageOp::Autocontrast => ImageOp::Autocontrast,
        ImageOp::Equalize => ImageOp::Equalize,
        ImageOp::Sharpness { amount_bits } => ImageOp::Sharpness { amount_bits: *amount_bits },
        ImageOp::ArbitraryRotate(c) => ImageOp::ArbitraryRotate(*c),
        ImageOp::RandomAffine(c) => ImageOp::RandomAffine(*c),
        ImageOp::Perspective(c) => ImageOp::Perspective(*c),
        ImageOp::RandomPerspective(c) => ImageOp::RandomPerspective(*c),
        ImageOp::ElasticTransform(c) => ImageOp::ElasticTransform(*c),
        ImageOp::RandomApply { probability_bits, ops } => ImageOp::RandomApply {
            probability_bits: *probability_bits,
            ops: copy_ops(ops),
        },
        ImageOp::RandomChoice { choices } => {
            let mut out: Vec<Vec<ImageOp>> = Vec::new();
            let mut i: usize = 0;
            while i < choices.len()
                invariant
                    0 <= i <= choices@.len(),
                    out@.len() == i,
                    deep_choices(out@, i as nat) == deep_choices(choices@, i as nat),
                decreases choices@.len() - i,
            {
                proof {
                    assert(decreases_to!(*op => choices));
                }
                let ghost before = out@;
                let c = copy_ops(&choices[i]);
                out.push(c);
                proof {
                    lemma_deep_choices_prefix(before, out@, i as nat);
                }
                i += 1;
            }
            ImageOp::RandomChoice { choices: out }
        },
        ImageOp::RandomOrder { ops } => ImageOp::RandomOrder { ops: copy_ops(ops) },
        ImageOp::GaussianBlur { sigma_bits } => ImageOp::GaussianBlur { sigma_bits: *sigma_bits },
        ImageOp::Grayscale { num_output_channels } => ImageOp::Grayscale {
            num_output_channels: *num_output_channels,
        },
        ImageOp::RandomGrayscale { probability_bits, num_output_channels } => {
            ImageOp::RandomGrayscale {
                probability_bits: *probability_bits,
                num_output_channels: *num_output_channels,
            }
        },
        ImageOp::RandomErasing(c) => ImageOp::RandomErasing(*c),
        ImageOp::ConvertImageDtype { dtype } => ImageOp::ConvertImageDtype { dtype: *dtype },
        ImageOp::Rotate { angle } => ImageOp::Rotate { angle: *angle },
        ImageOp::Normalize { mean_bits, std_bits } => ImageOp::Normalize {
            mean_bits: copy_bits(mean_bits),
            std_bits: copy_bits(std_bits),
        },
        ImageOp::Layout { axis_order } => ImageOp::Layout { axis_order: *axis_order },
    }
}

/// Extending a sequence of choices keeps the deep views of its prefix.
proof fn lemma_deep_choices_prefix(before: Seq<Vec<ImageOp>>, after: Seq<Vec<ImageOp>>, n: nat)
    requires
        n == before.len(),
        after.len() == n + 1,
        forall|k: int| 0 <= k < n ==> #[trigger] after[k] == before[k],
    ensures
        deep_choices(after, n) == deep_choices(before, n),
    decreases n,
{
    if n > 0 {
        lemma_deep_choices_prefix(before.drop_last(), after.drop_last(), (n - 1) as nat);
        assert(deep_choices(after, (n - 1) as nat) == deep_choices(after.drop_last(), (n - 1) as nat)) by {
            lemma_deep_choices_drop(after, (n - 1) as nat);
        }
        assert(deep_choices(before, (n - 1) as nat) == deep_choices(before.drop_last(), (n - 1) as nat)) by {
            lemma_deep_choices_drop(before, (n - 1) as nat);
        }
    }
}

proof fn lemma_deep_choices_drop(s: Seq<Vec<ImageOp>>, n: nat)
    requires
        s.len() > 0,
        n <= s.len() - 1,
    ensures
        deep_choices(s, n) == deep_choices(s.drop_last(), n),
    decreases n,
{
    if n > 0 {
        lemma_deep_choices_drop(s, (n - 1) as nat);
    }
}

fn copy_bits(v: &Vec<u32>) -> (r: Vec<u32>)
    ensures
        r@ == v@,
{
    let mut out: Vec<u32> = Vec::new();
    let mut i: usize = 0;
    while i < v.len()
        invariant
            0 <= i <= v@.len(),
            out@ == v@.subrange(0, i as int),
        decreases v@.len() - i,
    {
        out.push(v[i]);
        i += 1;
    }
    assert(out@ =~= v@);
    out
}

impl Clone for ImageOp {
    fn clone(&self) -> (r: Self)
        ensures
            deep_op(r) == deep_op(*self),
    {
        copy_op(self)
    }
}

pub open spec fn execution_kind_spec(op: ImageOp) -> ExecutionKind {
    match op {
        ImageOp::Normalize { .. } | ImageOp::ConvertImageDtype { .. } | ImageOp::Layout { .. } => {
            ExecutionKind::Batch
        },
        _ => ExecutionKind::Sample,
    }
}

pub open spec fn name_spec(op: ImageOp) -> Seq<char> {
    match op {
        ImageOp::Decode => "Decode"@,
        ImageOp::Resize(_) => "Resize"@,
        ImageOp::Crop(_) => "Crop"@,
        ImageOp::CenterCrop(_) => "CenterCrop"@,
        ImageOp::Pad(_) => "Pad"@,
        ImageOp::Flip(_) => "Flip"@,
        ImageOp::RandomCrop(_) => "RandomCrop"@,
        ImageOp::RandomResizedCrop(_) => "RandomResizedCrop"@,
        ImageOp::RandomHorizontalFlip { .. } => "RandomHorizontalFlip"@,
        ImageOp::Brightness { .. } => "Brightness"@,
        ImageOp::Contrast { .. } => "Contrast"@,
        ImageOp::Hue { .. } => "Hue"@,
        ImageOp::ColorJitter(_) => "ColorJitter"@,
        ImageOp::Invert => "Invert"@,
        ImageOp::Posterize { .. } => "Posterize"@,
        ImageOp::Solarize { .. } => "Solarize"@,
        ImageOp::Autocontrast => "Autocontrast"@,
        ImageOp::Equalize => "Equalize"@,
        ImageOp::Sharpness { .. } => "Sharpness"@,
        ImageOp::ArbitraryRotate(_) => "ArbitraryRotate"@,
        ImageOp::RandomAffine(_) => "RandomAffine"@,
        ImageOp::Perspective(_) => "Perspective"@,
        ImageOp::RandomPerspective(_) => "RandomPerspective"@,
        ImageOp::ElasticTransform(_) => "ElasticTransform"@,
        ImageOp::RandomApply { .. } => "RandomApply"@,
        ImageOp::RandomChoice { .. } => "RandomChoice"@,
        ImageOp::RandomOrder { .. } => "RandomOrder"@,
        ImageOp::GaussianBlur { .. } => "GaussianBlur"@,
        ImageOp::Grayscale { .. } => "Grayscale"@,
        ImageOp::RandomGrayscale { .. } => "RandomGrayscale"@,
        ImageOp::RandomErasing(_) => "RandomErasing"@,
        ImageOp::ConvertImageDtype { .. } => "ConvertImageDtype"@,
        ImageOp::Rotate { .. } => "Rotate"@,
        ImageOp::Normalize { .. } => "Normalize"@,
        ImageOp::Layout { .. } => "Layout"@,
    }
}

/// Whether an operation draws from its own random stream, and the stream
/// kind that keys it.
pub open spec fn random_kind_spec(op: ImageOp) -> Option<Seq<char>> {
    match op {
        ImageOp::RandomCrop(_) | ImageOp::RandomResizedCrop(_)
        | ImageOp::RandomHorizontalFlip { .. } | ImageOp::ColorJitter(_)
        | ImageOp::RandomAffine(_) | ImageOp::RandomPerspective(_)
        | ImageOp::ElasticTransform(_) | ImageOp::RandomApply { .. }
        | ImageOp::RandomChoice { .. } | ImageOp::RandomOrder { .. }
        | ImageOp::RandomGrayscale { .. } | ImageOp::RandomErasing(_) => Some(name_spec(op)),
        _ => None,
    }
}

pub open spec fn dtype_text(d: DType) -> Seq<char> {
    match d {
        DType::U8 => "U8"@,
        DType::I16 => "I16"@,
        DType::U32 => "U32"@,
        DType::I32 => "I32"@,
        DType::I64 => "I64"@,
        DType::BF16 => "BF16"@,
        DType::F16 => "F16"@,
        DType::F32 => "F32"@,
        DType::F64 => "F64"@,
    }
}

pub fn dtype_str(d: DType) -> (r: &'static str)
    ensures
        r@ == dtype_text(d),
{
    proof {
        reveal_strlit("U8");
        reveal_strlit("I16");
        reveal_strlit("U32");
        reveal_strlit("I32");
        reveal_strlit("I64");
        reveal_strlit("BF16");
        reveal_strlit("F16");
        reveal_strlit("F32");
        reveal_strlit("F64");
    }
    match d {
        DType::U8 => "U8",
        DType::I16 => "I16",
        DType::U32 => "U32",
        DType::I32 => "I32",
        DType::I64 => "I64",
        DType::BF16 => "BF16",
        DType::F16 => "F16",
        DType::F32 => "F32",
        DType::F64 => "F64",
    }
}

// ---------------------------------------------------------------------------
// State requirements
// ---------------------------------------------------------------------------

/// What an operation requires of its input image state.
#[derive(Clone, Copy, Debug, PartialEq, Eq, Structural)]
pub enum StateRequirement {
    /// Any decoded image.
    Decoded,
    /// A decoded `u8` image.
    U8,
    /// A decoded `u8` or `f32` image.
    U8OrF32,
    /// A decoded `u8` image in HWC order.
    U8Hwc,
}

pub open spec fn requirement_holds(req: StateRequirement, s: PipelineImageState) -> bool {
    match s {
        PipelineImageState::Encoded => false,
        PipelineImageState::Decoded { dtype, axis_order } => match req {
            StateRequirement::Decoded => true,
            StateRequirement::U8 => dtype == DType::U8,
            StateRequirement::U8OrF32 => dtype == DType::U8 || dtype == DType::F32,
            StateRequirement::U8Hwc => dtype == DType::U8 && axis_order == ImageAxisOrder::Hwc,
        },
    }
}

pub open spec fn requirement_words(req: StateRequirement) -> Seq<char> {
    match req {
        StateRequirement::Decoded => "a decoded image"@,
        StateRequirement::U8 => "uint8 input"@,
        StateRequirement::U8OrF32 => "uint8 or float32 input"@,
        StateRequirement::U8Hwc => "uint8 HWC input"@,
    }
}

/// Message of a failed requirement: the operation, what it needs, and the
/// current state.
pub open spec fn requirement_message(name: Seq<char>, req: StateRequirement, s: PipelineImageState) -> Seq<char> {
    match s {
        PipelineImageState::Encoded => name + " requires a decoded image, current state is encoded"@,
        PipelineImageState::Decoded { dtype, axis_order } => name + " requires "@
            + requirement_words(req) + ", current state is "@ + dtype_text(dtype) + " "@
            + axis_text(axis_order),
    }
}

/// Checks `req` against `state`; the error names operation `name`.
pub fn require_state(state: PipelineImageState, req: StateRequirement, name: &str) -> (r: Result<
    (),
    VisionError,
>)
    ensures
        r is Ok <==> requirement_holds(req, state),
        r matches Err(e) ==> e is InvalidPipeline && error_text(e) == requirement_message(
            name@,
            req,
            state,
        ),
{
    proof {
        reveal_strlit(" requires a decoded image, current state is encoded");
        reveal_strlit(" requires ");
        reveal_strlit(", current state is ");
        reveal_strlit(" ");
        reveal_strlit("a decoded image");
        reveal_strlit("uint8 input");
        reveal_strlit("uint8 or float32 input");
        reveal_strlit("uint8 HWC input");
    }
    let ok = match state {
        PipelineImageState::Encoded => false,
        PipelineImageState::Decoded { dtype, axis_order } => match req {
            StateRequirement::Decoded => true,
            StateRequirement::U8 => dtype == DType::U8,
            StateRequirement::U8OrF32 => dtype == DType::U8 || dtype == DType::F32,
            StateRequirement::U8Hwc => dtype == DType::U8 && axis_order == ImageAxisOrder::Hwc,
        },
    };
    if ok {
        return Ok(());
    }
    let mut message = owned(name);
    match state {
        PipelineImageState::Encoded => {
            push_str(&mut message, " requires a decoded image, current state is encoded");
        },
        PipelineImageState::Decoded { dtype, axis_order } => {
            push_str(&mut message, " requires ");
            let words: &str = match req {
                StateRequirement::Decoded => "a decoded image",
                StateRequirement::U8 => "uint8 input",
                StateRequirement::U8OrF32 => "uint8 or float32 input",
                StateRequirement::U8Hwc => "uint8 HWC input",
            };
            push_str(&mut message, words);
            push_str(&mut message, ", current state is ");
            push_str(&mut message, dtype_str(dtype));
            push_str(&mut message, " ");
            push_str(&mut message, axis_order.as_str());
        },
    }
    assert(message@ =~= requirement_message(name@, req, state));
    Err(VisionError::InvalidPipeline(message))
}

/// The state requirement of a leaf (non-control) operation other than
/// `Decode`.
pub open spec fn leaf_requirement(op: ImageOp) -> StateRequirement {
    match op {
        ImageOp::Resize(_) | ImageOp::RandomCrop(_) | ImageOp::RandomResizedCrop(_)
        | ImageOp::Brightness { .. } | ImageOp::Contrast { .. } | ImageOp::Hue { .. }
        | ImageOp::ColorJitter(_) | ImageOp::Rotate { .. } | ImageOp::GaussianBlur { .. } => {
            StateRequirement::U8Hwc
        },
        ImageOp::Pad(_) | ImageOp::RandomErasing(_) => StateRequirement::U8OrF32,
        ImageOp::ConvertImageDtype { .. } | ImageOp::Normalize { .. } | ImageOp::Layout { .. } => {
            StateRequirement::Decoded
        },
        _ => StateRequirement::U8,
    }
}

pub open spec fn is_control(op: ImageOp) -> bool {
    op is RandomApply || op is RandomChoice || op is RandomOrder
}

/// Output state of a leaf operation whose requirement holds.
pub open spec fn leaf_output(op: ImageOp, s: PipelineImageState) -> PipelineImageState {
    match s {
        PipelineImageState::Encoded => s,
        PipelineImageState::Decoded { dtype, axis_order } => match op {
            ImageOp::ConvertImageDtype { dtype: target } => PipelineImageState::Decoded {
                dtype: target,
                axis_order,
            },
            ImageOp::Normalize { .. } => PipelineImageState::Decoded { dtype: DType::F32, axis_order },
            ImageOp::Layout { axis_order: target } => PipelineImageState::Decoded {
                dtype,
                axis_order: target,
            },
            _ => s,
        },
    }
}

/// State transition of a leaf operation: `None` when the input state is
/// not accepted.
pub open spec fn leaf_transition(op: ImageOp, s: PipelineImageState) -> Option<PipelineImageState> {
    match op {
        ImageOp::Decode => match s {
            PipelineImageState::Encoded => Some(
                PipelineImageState::Decoded { dtype: DType::U8, axis_order: ImageAxisOrder::Hwc },
            ),
            _ => None,
        },
        _ => if requirement_holds(leaf_requirement(op), s) {
            Some(leaf_output(op, s))
        } else {
            None
        },
    }
}

pub fn leaf_requirement_of(op: &ImageOp) -> (r: StateRequirement)
    ensures
        r == leaf_requirement(*op),
{
    match op {
        ImageOp::Resize(_) | ImageOp::RandomCrop(_) | ImageOp::RandomResizedCrop(_)
        | ImageOp::Brightness { .. } | ImageOp::Contrast { .. } | ImageOp::Hue { .. }
        | ImageOp::ColorJitter(_) | ImageOp::Rotate { .. } | ImageOp::GaussianBlur { .. } => {
            StateRequirement::U8Hwc
        },
        ImageOp::Pad(_) | ImageOp::RandomErasing(_) => StateRequirement::U8OrF32,
        ImageOp::ConvertImageDtype { .. } | ImageOp::Normalize { .. } | ImageOp::Layout { .. } => {
            StateRequirement::Decoded
        },
        _ => StateRequirement::U8,
    }
}

/// Message when `Decode` meets a decoded image.
pub open spec fn double_decode_message() -> Seq<char> {
    "Decode requires an encoded image, current state is decoded"@
}

// ---------------------------------------------------------------------------
// Configuration validity
// ---------------------------------------------------------------------------

pub open spec fn all_f32_finite(v: Seq<u32>) -> bool {
    forall|i: int| 0 <= i < v.len() ==> f32_finite(#[trigger] v[i])
}

pub open spec fn all_f32_nonzero_finite(v: Seq<u32>) -> bool {
    forall|i: int| 0 <= i < v.len() ==> f32_finite(#[trigger] v[i]) && v[i] & 0x7fff_ffffu32 != 0
}

/// `f32` bits of a value in `[0.0, 1.0]`.
pub open spec fn f32_unit(bits: u32) -> bool {
    bits <= 0x3f80_0000u32 || bits == 0x8000_0000u32
}

/// Validity of an operation's own configuration (not of its position in a
/// pipeline). Nested sequences of control operations must be valid
/// sample-stage operations.
pub open spec fn config_valid(op: ImageOp) -> bool
    decreases op,
{
    match op {
        ImageOp::Resize(c) => c.width > 0 && c.height > 0,
        ImageOp::Crop(c) => c.width > 0 && c.height > 0,
        ImageOp::CenterCrop(c) => c.width > 0 && c.height > 0,
        ImageOp::RandomCrop(c) => c.width > 0 && c.height > 0,
        ImageOp::RandomResizedCrop(c) => c.width > 0 && c.height > 0,
        ImageOp::RandomHorizontalFlip { probability_bits } => f64_unit(probability_bits),
        ImageOp::Contrast { value_bits } => f32_finite_nonneg(value_bits),
        ImageOp::ColorJitter(c) => c.brightness >= 0 && c.hue >= 0 && f32_finite_nonneg(
            c.contrast_bits,
        ),
        ImageOp::Posterize { bits } => 1 <= bits <= 8,
        ImageOp::Sharpness { amount_bits } => f32_finite_nonneg(amount_bits),
        ImageOp::GaussianBlur { sigma_bits } => f32_finite_nonneg(sigma_bits),
        ImageOp::Grayscale { num_output_channels } => num_output_channels == 1
            || num_output_channels == 3,
        ImageOp::RandomGrayscale { probability_bits, num_output_channels } => f64_unit(
            probability_bits,
        ) && (num_output_channels == 1 || num_output_channels == 3),
        ImageOp::RandomErasing(c) => f64_unit(c.probability_bits),
        ImageOp::ArbitraryRotate(c) => f32_finite(c.angle_bits),
        ImageOp::RandomAffine(c) => f32_finite_nonneg(c.degrees_bits),
        ImageOp::RandomPerspective(c) => f32_unit(c.distortion_scale_bits) && f64_unit(
            c.probability_bits,
        ),
        ImageOp::ElasticTransform(c) => f32_finite_nonneg(c.alpha_bits) && f32_finite_nonneg(
            c.sigma_bits,
        ),
        ImageOp::Normalize { mean_bits, std_bits } => mean_bits@.len() == std_bits@.len()
            && all_f32_finite(mean_bits@) && all_f32_nonzero_finite(std_bits@),
        ImageOp::RandomApply { probability_bits, ops } => f64_unit(probability_bits)
            && nested_valid(ops@),
        ImageOp::RandomChoice { choices } => choices@.len() > 0 && forall|i: int|
            0 <= i < choices@.len() ==> nested_valid(#[trigger] choices@[i]@),
        ImageOp::RandomOrder { ops } => nested_valid(ops@),
        _ => true,
    }
}

/// Every operation of a nested sequence is a valid sample-stage operation.
pub open spec fn nested_valid(ops: Seq<ImageOp>) -> bool
    decreases ops,
{
    forall|i: int|
        0 <= i < ops.len() ==> execution_kind_spec(#[trigger] ops[i]) == ExecutionKind::Sample
            && config_valid(ops[i])
}

#[derive(Clone, Copy, Debug, PartialEq, Eq, Structural)]
pub struct BatchConfig {
    pub size: usize,
    pub drop_last: bool,
}

impl BatchConfig {
    /// Raw configuration; pipeline compilation validates it.
    pub fn new(size: usize, drop_last: bool) -> (r: Self)
        ensures
            r.size == size && r.drop_last == drop_last,
    {
        BatchConfig { size, drop_last }
    }

    pub fn validate(&self) -> (r: Result<(), VisionError>)
        ensures
            r is Ok <==> self.size > 0,
            r matches Err(e) ==> e is InvalidArgument && error_text(e)
                == "batch size must be greater than 0"@,
    {
        if self.size == 0 {
            proof {
                reveal_strlit("batch size must be greater than 0");
            }
            return Err(VisionError::InvalidArgument(owned("batch size must be greater than 0")));
        }
        Ok(())
    }
}

fn argument_error(message: &str) -> (r: VisionError)
    ensures
        r is InvalidArgument && error_text(r) == message@,
{
    VisionError::InvalidArgument(owned(message))
}

impl ImageOp {
    pub fn execution_kind(&self) -> (r: ExecutionKind)
        ensures
            r == execution_kind_spec(*self),
    {
        match self {
            ImageOp::Normalize { .. } | ImageOp::ConvertImageDtype { .. } | ImageOp::Layout {
                ..
            } => ExecutionKind::Batch,
            _ => ExecutionKind::Sample,
        }
    }

    pub fn name(&self) -> (r: &'static str)
        ensures
            r@ == name_spec(*self),
    {
        proof {
            reveal_strlit("Decode");
            reveal_strlit("Resize");
            reveal_strlit("Crop");
            reveal_strlit("CenterCrop");
            reveal_strlit("Pad");
            reveal_strlit("Flip");
            reveal_strlit("RandomCrop");
            reveal_strlit("RandomResizedCrop");
            reveal_strlit("RandomHorizontalFlip");
            reveal_strlit("Brightness");
            reveal_strlit("Contrast");
            reveal_strlit("Hue");
            reveal_strlit("ColorJitter");
            reveal_strlit("Invert");
            reveal_strlit("Posterize");
            reveal_strlit("Solarize");
            reveal_strlit("Autocontrast");
            reveal_strlit("Equalize");
            reveal_strlit("Sharpness");
            reveal_strlit("ArbitraryRotate");
            reveal_strlit("RandomAffine");
            reveal_strlit("Perspective");
            reveal_strlit("RandomPerspective");
            reveal_strlit("ElasticTransform");
            reveal_strlit("RandomApply");
            reveal_strlit("RandomChoice");
            reveal_strlit("RandomOrder");
            reveal_strlit("GaussianBlur");
            reveal_strlit("Grayscale");
            reveal_strlit("RandomGrayscale");
            reveal_strlit("RandomErasing");
            reveal_strlit("ConvertImageDtype");
            reveal_strlit("Rotate");
            reveal_strlit("Normalize");
            reveal_strlit("Layout");
        }
        match self {
            ImageOp::Decode => "Decode",
            ImageOp::Resize(_) => "Resize",
            ImageOp::Crop(_) => "Crop",
            ImageOp::CenterCrop(_) => "CenterCrop",
            ImageOp::Pad(_) => "Pad",
            ImageOp::Flip(_) => "Flip",
            ImageOp::RandomCrop(_) => "RandomCrop",
            ImageOp::RandomResizedCrop(_) => "RandomResizedCrop",
            ImageOp::RandomHorizontalFlip { .. } => "RandomHorizontalFlip",
            ImageOp::Brightness { .. } => "Brightness",
            ImageOp::Contrast { .. } => "Contrast",
            ImageOp::Hue { .. } => "Hue",
            ImageOp::ColorJitter(_) => "ColorJitter",
            ImageOp::Invert => "Invert",
            ImageOp::Posterize { .. } => "Posterize",
            ImageOp::Solarize { .. } => "Solarize",
            ImageOp::Autocontrast => "Autocontrast",
            ImageOp::Equalize => "Equalize",
            ImageOp::Sharpness { .. } => "Sharpness",
            ImageOp::ArbitraryRotate(_) => "ArbitraryRotate",
            ImageOp::RandomAffine(_) => "RandomAffine",
            ImageOp::Perspective(_) => "Perspective",
            ImageOp::RandomPerspective(_) => "RandomPerspective",
            ImageOp::ElasticTransform(_) => "ElasticTransform",
            ImageOp::RandomApply { .. } => "RandomApply",
            ImageOp::RandomChoice { .. } => "RandomChoice",
            ImageOp::RandomOrder { .. } => "RandomOrder",
            ImageOp::GaussianBlur { .. } => "GaussianBlur",
            ImageOp::Grayscale { .. } => "Grayscale",
            ImageOp::RandomGrayscale { .. } => "RandomGrayscale",
            ImageOp::RandomErasing(_) => "RandomErasing",
            ImageOp::ConvertImageDtype { .. } => "ConvertImageDtype",
            ImageOp::Rotate { .. } => "Rotate",
            ImageOp::Normalize { .. } => "Normalize",
            ImageOp::Layout { .. } => "Layout",
        }
    }

    /// The random-stream kind of a stochastic operation; `None` for
    /// deterministic ones.
    pub fn random_key_kind(&self) -> (r: Option<&'static str>)
        ensures
            r is Some <==> random_kind_spec(*self) is Some,
            r matches Some(k) ==> k@ == random_kind_spec(*self)->0,
    {
        match self {
            ImageOp::RandomCrop(_) | ImageOp::RandomResizedCrop(_)
            | ImageOp::RandomHorizontalFlip { .. } | ImageOp::ColorJitter(_)
            | ImageOp::RandomAffine(_) | ImageOp::RandomPerspective(_)
            | ImageOp::ElasticTransform(_) | ImageOp::RandomApply { .. }
            | ImageOp::RandomChoice { .. } | ImageOp::RandomOrder { .. }
            | ImageOp::RandomGrayscale { .. } | ImageOp::RandomErasing(_) => Some(self.name()),
            _ => None,
        }
    }

    /// State transition of a leaf operation. Control operations compose the
    /// transitions of their nested sequences when compiled, so here they
    /// are reported as not being leaves.
    pub fn transition(&self, input: PipelineImageState) -> (r: Result<
        PipelineImageState,
        VisionError,
    >)
        ensures
            is_control(*self) ==> (r matches Err(e) && e is InvalidPipeline),
            !is_control(*self) ==> (r is Ok <==> leaf_transition(*self, input) is Some),
            !is_control(*self) ==> (r matches Ok(s) ==> leaf_transition(*self, input) == Some(s)),
            !is_control(*self) && !(*self is Decode) ==> (r matches Err(e) ==> e is InvalidPipeline
                && error_text(e) == requirement_message(
                name_spec(*self),
                leaf_requirement(*self),
                input,
            )),
            *self is Decode ==> (r matches Err(e) ==> e is InvalidPipeline && error_text(e)
                == double_decode_message()),
    {
        match self {
            ImageOp::RandomApply { .. } | ImageOp::RandomChoice { .. } | ImageOp::RandomOrder {
                ..
            } => {
                let mut message = owned(self.name());
                push_str(&mut message, " has no single-operation state transition");
                return Err(VisionError::InvalidPipeline(message));
            },
            ImageOp::Decode => {
                return match input {
                    PipelineImageState::Encoded => Ok(
                        PipelineImageState::Decoded {
                            dtype: DType::U8,
                            axis_order: ImageAxisOrder::Hwc,
                        },
                    ),
                    _ => {
                        proof {
                            reveal_strlit(
                                "Decode requires an encoded image, current state is decoded",
                            );
                        }
                        Err(
                            VisionError::InvalidPipeline(
                                owned("Decode requires an encoded image, current state is decoded"),
                            ),
                        )
                    },
                };
            },
            _ => {},
        }
        let req = leaf_requirement_of(self);
        match require_state(input, req, self.name()) {
            Err(e) => return Err(e),
            Ok(()) => {},
        }
        let output = match input {
            PipelineImageState::Encoded => input,
            PipelineImageState::Decoded { dtype, axis_order } => match self {
                ImageOp::ConvertImageDtype { dtype: target } => PipelineImageState::Decoded {
                    dtype: *target,
                    axis_order,
                },
                ImageOp::Normalize { .. } => PipelineImageState::Decoded {
                    dtype: DType::F32,
                    axis_order,
                },
                ImageOp::Layout { axis_order: target } => PipelineImageState::Decoded {
                    dtype,
                    axis_order: *target,
                },
                _ => input,
            },
        };
        Ok(output)
    }

    pub fn decode() -> (r: Self)
        ensures
            r is Decode,
    {
        ImageOp::Decode
    }

    pub fn resize(width: u32, height: u32) -> (r: Self)
        ensures
            r == ImageOp::Resize(
                ResizeConfig { width, height, interpolation: InterpolationMode::Bilinear },
            ),
    {
        ImageOp::Resize(ResizeConfig { width, height, interpolation: InterpolationMode::Bilinear })
    }

    pub fn resize_with_interpolation(width: u32, height: u32, interpolation: InterpolationMode) -> (r: Self)
        ensures
            r == ImageOp::Resize(ResizeConfig { width, height, interpolation }),
    {
        ImageOp::Resize(ResizeConfig { width, height, interpolation })
    }

    pub fn crop(x: u32, y: u32, width: u32, height: u32) -> (r: Self)
        ensures
            r == ImageOp::Crop(CropConfig { x, y, width, height }),
    {
        ImageOp::Crop(CropConfig { x, y, width, height })
    }

    pub fn center_crop(width: u32, height: u32) -> (r: Self)
        ensures
            r == ImageOp::CenterCrop(CenterCropConfig { width, height }),
    {
        ImageOp::CenterCrop(CenterCropConfig { width, height })
    }

    /// Padding of `padding` pixels on every side, filled with zero.
    pub fn pad(padding: u32) -> (r: Self)
        ensures
            r == ImageOp::Pad(
                PadConfig {
                    left: padding,
                    top: padding,
                    right: padding,
                    bottom: padding,
                    fill_bits: 0,
                },
            ),
    {
        ImageOp::Pad(
            PadConfig { left: padding, top: padding, right: padding, bottom: padding, fill_bits: 0 },
        )
    }

    pub fn random_crop(width: u32, height: u32, padding: u32) -> (r: Self)
        ensures
            r == ImageOp::RandomCrop(RandomCropConfig { width, height, padding }),
    {
        ImageOp::RandomCrop(RandomCropConfig { width, height, padding })
    }

    pub fn random_resized_crop(width: u32, height: u32) -> (r: Self)
        ensures
            r == ImageOp::RandomResizedCrop(default_resized_crop(width, height)),
    {
        ImageOp::RandomResizedCrop(RandomResizedCropConfig::new(width, height))
    }

    pub fn random_resized_crop_with_config(config: RandomResizedCropConfig) -> (r: Self)
        ensures
            r == ImageOp::RandomResizedCrop(config),
    {
        ImageOp::RandomResizedCrop(config)
    }

    pub fn horizontal_flip() -> (r: Self)
        ensures
            r == ImageOp::Flip(FlipAxis::Horizontal),
    {
        ImageOp::Flip(FlipAxis::Horizontal)
    }

    pub fn vertical_flip() -> (r: Self)
        ensures
            r == ImageOp::Flip(FlipAxis::Vertical),
    {
        ImageOp::Flip(FlipAxis::Vertical)
    }

    pub fn brightness(value: i32) -> (r: Self)
        ensures
            r == (ImageOp::Brightness { value }),
    {
        ImageOp::Brightness { value }
    }

    pub fn hue(degrees: i32) -> (r: Self)
        ensures
            r == (ImageOp::Hue { degrees }),
    {
        ImageOp::Hue { degrees }
    }

    pub fn invert() -> (r: Self)
        ensures
            r is Invert,
    {
        ImageOp::Invert
    }

    pub fn posterize(bits: u8) -> (r: Self)
        ensures
            r == (ImageOp::Posterize { bits }),
    {
        ImageOp::Posterize { bits }
    }

    pub fn solarize(threshold: u8) -> (r: Self)
        ensures
            r == (ImageOp::Solarize { threshold }),
    {
        ImageOp::Solarize { threshold }
    }

    pub fn autocontrast() -> (r: Self)
        ensures
            r is Autocontrast,
    {
        ImageOp::Autocontrast
    }

    pub fn equalize() -> (r: Self)
        ensures
            r is Equalize,
    {
        ImageOp::Equalize
    }

    pub fn grayscale(num_output_channels: u8) -> (r: Self)
        ensures
            r == (ImageOp::Grayscale { num_output_channels }),
    {
        ImageOp::Grayscale { num_output_channels }
    }

    pub fn convert_image_dtype(dtype: DType) -> (r: Self)
        ensures
            r == (ImageOp::ConvertImageDtype { dtype }),
    {
        ImageOp::ConvertImageDtype { dtype }
    }

    pub fn rotate(angle: RotationAngle) -> (r: Self)
        ensures
            r == (ImageOp::Rotate { angle }),
    {
        ImageOp::Rotate { angle }
    }

    pub fn random_affine_with_config(config: RandomAffineConfig) -> (r: Self)
        ensures
            r == ImageOp::RandomAffine(config),
    {
        ImageOp::RandomAffine(config)
    }

    pub fn perspective(start_points: [Point2; 4], end_points: [Point2; 4]) -> (r: Self)
        ensures
            r matches ImageOp::Perspective(c) && c.start_points == start_points && c.end_points
                == end_points && c.interpolation == InterpolationMode::Bilinear && c.fill == 0,
    {
        ImageOp::Perspective(
            PerspectiveConfig {
                start_points,
                end_points,
                interpolation: InterpolationMode::Bilinear,
                fill: 0,
            },
        )
    }

    pub fn perspective_with_config(config: PerspectiveConfig) -> (r: Self)
        ensures
            r == ImageOp::Perspective(config),
    {
        ImageOp::Perspective(config)
    }

    pub fn random_perspective_with_config(config: RandomPerspectiveConfig) -> (r: Self)
        ensures
            r == ImageOp::RandomPerspective(config),
    {
        ImageOp::RandomPerspective(config)
    }

    pub fn elastic_transform_with_config(config: ElasticTransformConfig) -> (r: Self)
        ensures
            r == ImageOp::ElasticTransform(config),
    {
        ImageOp::ElasticTransform(config)
    }

    pub fn random_erasing_with_config(config: RandomErasingConfig) -> (r: Self)
        ensures
            r == ImageOp::RandomErasing(config),
    {
        ImageOp::RandomErasing(config)
    }

    pub fn hwc_to_chw() -> (r: Self)
        ensures
            r == (ImageOp::Layout { axis_order: ImageAxisOrder::Chw }),
    {
        ImageOp::Layout { axis_order: ImageAxisOrder::Chw }
    }

    pub fn chw_to_hwc() -> (r: Self)
        ensures
            r == (ImageOp::Layout { axis_order: ImageAxisOrder::Hwc }),
    {
        ImageOp::Layout { axis_order: ImageAxisOrder::Hwc }
    }

    pub fn random_choice(choices: Vec<Vec<ImageOp>>) -> (r: Self)
        ensures
            r == (ImageOp::RandomChoice { choices }),
    {
        ImageOp::RandomChoice { choices }
    }

    pub fn random_order(ops: Vec<ImageOp>) -> (r: Self)
        ensures
            r == (ImageOp::RandomOrder { ops }),
    {
        ImageOp::RandomOrder { ops }
    }

    /// Validate the op's own configuration (not its position in the
    /// pipeline; that is `transition`'s job).
    #[verifier::loop_isolation(false)]
    pub fn validate(&self) -> (r: Result<(), VisionError>)
        ensures
            r is Ok <==> config_valid(*self),
            r matches Err(e) ==> e is InvalidArgument,
        decreases *self,
    {
        proof {
            reveal_strlit("resize width and height must be greater than 0");
        }
        match self {
            ImageOp::Resize(c) => {
                if c.width == 0 || c.height == 0 {
                    return Err(argument_error("resize width and height must be greater than 0"));
                }
            },
            ImageOp::Crop(c) => {
                if c.width == 0 || c.height == 0 {
                    return Err(argument_error("crop width and height must be greater than 0"));
                }
            },
            ImageOp::CenterCrop(c) => {
                if c.width == 0 || c.height == 0 {
                    return Err(
                        argument_error("center_crop width and height must be greater than 0"),
                    );
                }
            },
            ImageOp::RandomCrop(c) => {
                if c.width == 0 || c.height == 0 {
                    return Err(
                        argument_error("random_crop width and height must be greater than 0"),
                    );
                }
            },
            ImageOp::RandomResizedCrop(c) => {
                if c.width == 0 || c.height == 0 {
                    return Err(
                        argument_error(
                            "random_resized_crop width and height must be greater than 0",
                        ),
                    );
                }
            },
            ImageOp::RandomHorizontalFlip { probability_bits } => {
                if !f64_is_unit(*probability_bits) {
                    return Err(
                        argument_error("random_horizontal_flip probability must be in [0.0, 1.0]"),
                    );
                }
            },
            ImageOp::Contrast { value_bits } => {
                if !f32_is_finite_nonneg(*value_bits) {
                    return Err(argument_error("contrast factor must be finite and non-negative"));
                }
            },
            ImageOp::ColorJitter(c) => {
                if c.brightness < 0 || c.hue < 0 {
                    return Err(argument_error("color_jitter brightness/hue must be non-negative"));
                }
                if !f32_is_finite_nonneg(c.contrast_bits) {
                    return Err(
                        argument_error("color_jitter contrast must be finite and non-negative"),
                    );
                }
            },
            ImageOp::Posterize { bits } => {
                if *bits < 1 || *bits > 8 {
                    return Err(argument_error("posterize bits must be in [1, 8]"));
                }
            },
            ImageOp::Sharpness { amount_bits } => {
                if !f32_is_finite_nonneg(*amount_bits) {
                    return Err(
                        argument_error("sharpness amount must be finite and non-negative"),
                    );
                }
            },
            ImageOp::GaussianBlur { sigma_bits } => {
                if !f32_is_finite_nonneg(*sigma_bits) {
                    return Err(
                        argument_error("gaussian_blur sigma must be finite and non-negative"),
                    );
                }
            },
            ImageOp::Grayscale { num_output_channels } => {
                if *num_output_channels != 1 && *num_output_channels != 3 {
                    return Err(argument_error("grayscale num_output_channels must be 1 or 3"));
                }
            },
            ImageOp::RandomGrayscale { probability_bits, num_output_channels } => {
                if !f64_is_unit(*probability_bits) {
                    return Err(
                        argument_error("random_grayscale probability must be in [0.0, 1.0]"),
                    );
                }
                if *num_output_channels != 1 && *num_output_channels != 3 {
                    return Err(
                        argument_error("random_grayscale num_output_channels must be 1 or 3"),
                    );
                }
            },
            ImageOp::RandomErasing(c) => {
                if !f64_is_unit(c.probability_bits) {
                    return Err(argument_error("random_erasing probability must be in [0.0, 1.0]"));
                }
            },
            ImageOp::ArbitraryRotate(c) => {
                if !f32_is_finite(c.angle_bits) {
                    return Err(argument_error("arbitrary_rotate angle must be finite"));
                }
            },
            ImageOp::RandomAffine(c) => {
                if !f32_is_finite_nonneg(c.degrees_bits) {
                    return Err(
                        argument_error("random_affine degrees must be finite and non-negative"),
                    );
                }
            },
            ImageOp::RandomPerspective(c) => {
                if !(c.distortion_scale_bits <= 0x3f80_0000u32 || c.distortion_scale_bits
                    == 0x8000_0000u32) {
                    return Err(
                        argument_error("random_perspective distortion_scale must be in [0.0, 1.0]"),
                    );
                }
                if !f64_is_unit(c.probability_bits) {
                    return Err(
                        argument_error("random_perspective probability must be in [0.0, 1.0]"),
                    );
                }
            },
            ImageOp::ElasticTransform(c) => {
                if !f32_is_finite_nonneg(c.alpha_bits) {
                    return Err(
                        argument_error("elastic_transform alpha must be finite and non-negative"),
                    );
                }
                if !f32_is_finite_nonneg(c.sigma_bits) {
                    return Err(
                        argument_error("elastic_transform sigma must be finite and non-negative"),
                    );
                }
            },
            ImageOp::Normalize { mean_bits, std_bits } => {
                if mean_bits.len() != std_bits.len() {
                    return Err(argument_error("normalize mean and std must have the same length"));
                }
                let mut i: usize = 0;
                while i < mean_bits.len()
                    invariant
                        0 <= i <= mean_bits@.len(),
                        mean_bits@.len() == std_bits@.len(),
                        forall|k: int| 0 <= k < i ==> f32_finite(#[trigger] mean_bits@[k]),
                        forall|k: int|
                            0 <= k < i ==> f32_finite(#[trigger] std_bits@[k]) && std_bits@[k]
                                & 0x7fff_ffffu32 != 0,
                    decreases mean_bits@.len() - i,
                {
                    if !f32_is_finite(mean_bits[i]) {
                        return Err(argument_error("normalize mean values must be finite"));
                    }
                    if !f32_is_finite(std_bits[i]) || std_bits[i] & 0x7fff_ffffu32 == 0 {
                        return Err(argument_error("normalize std values must be finite and non-zero"));
                    }
                    i += 1;
                }
            },
            ImageOp::RandomApply { probability_bits, ops } => {
                if !f64_is_unit(*probability_bits) {
                    return Err(argument_error("random_apply probability must be in [0.0, 1.0]"));
                }
                return validate_nested(ops, "RandomApply");
            },
            ImageOp::RandomChoice { choices } => {
                if choices.len() == 0 {
                    return Err(argument_error("random_choice requires at least one choice"));
                }
                let mut i: usize = 0;
                while i < choices.len()
                    invariant
                        0 <= i <= choices@.len(),
                        forall|k: int| 0 <= k < i ==> nested_valid(#[trigger] choices@[k]@),
                    decreases choices@.len() - i,
                {
                    proof {
                        assert(decreases_to!(*self => choices));
                    }
                    match validate_nested(&choices[i], "RandomChoice") {
                        Err(e) => return Err(e),
                        Ok(()) => {},
                    }
                    i += 1;
                }
            },
            ImageOp::RandomOrder { ops } => {
                return validate_nested(ops, "RandomOrder");
            },
            _ => {},
        }
        Ok(())
    }
}

/// Validates a nested sequence of a control operation named `parent`.
pub fn validate_nested(ops: &Vec<ImageOp>, parent: &str) -> (r: Result<(), VisionError>)
    ensures
        r is Ok <==> nested_valid(ops@),
        r matches Err(e) ==> e is InvalidArgument,
    decreases ops@,
{
    let mut i: usize = 0;
    while i < ops.len()
        invariant
            0 <= i <= ops@.len(),
            forall|k: int|
                0 <= k < i ==> execution_kind_spec(#[trigger] ops@[k]) == ExecutionKind::Sample
                    && config_valid(ops@[k]),
        decreases ops@.len() - i,
    {
        let op = &ops[i];
        match op.validate() {
            Err(e) => return Err(e),
            Ok(()) => {},
        }
        if op.execution_kind() != ExecutionKind::Sample {
            let mut message = owned(parent);
            push_str(&mut message, " nested transforms must be sample-stage operations; ");
            push_str(&mut message, op.name());
            push_str(&mut message, " is batch-stage");
            return Err(VisionError::InvalidArgument(message));
        }
        i += 1;
    }
    Ok(())
}

} // verus!
