//! The image pipeline builder and its lowering to, and restoration from,
//! a logical plan.

use vstd::prelude::*;
use crate::plan::{LogicalNode, LogicalPlan, NodeId, NodeKind, PlanError, kind_name, kind_text};
use crate::text::{decimal, owned, push_decimal, push_str};
use crate::optimizer::{plan_error_message, plan_error_text};
use crate::properties::{InferenceError, PropertyAnnotations, annotations_of, inferred_prefix};
use crate::vision::inference::VisionPropertyInference;
use crate::vision::errors::{VisionError, error_text};
use crate::vision::image_op::{
    BatchConfig, ImageOp, ImageOpDeep, PipelineImageState, copy_op, deep_op, deep_ops, deep_prefix,
    lemma_deep_prefix_index,
};
use crate::vision::index_op::{IndexOp, SamplerWindow, compile_sampler_window, shuffle_count, window_after};
use crate::vision::compile::{batch_kernel_name, sample_kernel_name, seq_fits};
use crate::vision::stages::{
    CompiledImageOps, batch_names_of, batch_views_of, compile_image_ops, sample_inputs_of,
    sample_keys_ok, sample_names_of, stage_error, stage_split,
};
use crate::vision::logical::{ImagePipelineContext, SourceOp, VisionPayload};
use crate::vision::runtime::RuntimeConfig;
use crate::vision::transform::TransformSequence;
use crate::vision::transforms::{
    CenterCropConfig, CropConfig, DType, ElasticTransformConfig, FlipAxis, ImageAxisOrder,
    InterpolationMode, PadConfig, PerspectiveConfig, RandomAffineConfig, RandomCropConfig,
    RandomErasingConfig, RandomPerspectiveConfig, RandomResizedCropConfig, ResizeConfig,
    RotationAngle, default_resized_crop,
};

verus! {

/// A source, index operations, image operations, an optional batch
/// configuration and runtime settings, in declaration order.
#[derive(Debug)]
pub struct ImagePipeline {
    pub source: SourceOp,
    pub index_ops: Vec<IndexOp>,
    pub ops: Vec<ImageOp>,
    pub batch: Option<BatchConfig>,
    pub runtime: RuntimeConfig,
    pub epoch: u64,
    pub global_seed: Option<u64>,
}

/// Everything but the image operations is the same.
pub open spec fn same_settings(a: ImagePipeline, b: ImagePipeline) -> bool {
    &&& a.source == b.source
    &&& a.index_ops@ == b.index_ops@
    &&& a.batch == b.batch
    &&& a.runtime == b.runtime
    &&& a.epoch == b.epoch
    &&& a.global_seed == b.global_seed
}

/// Everything but the index operations is the same.
pub open spec fn same_image_side(a: ImagePipeline, b: ImagePipeline) -> bool {
    &&& a.source == b.source
    &&& a.ops@ == b.ops@
    &&& a.batch == b.batch
    &&& a.runtime == b.runtime
    &&& a.epoch == b.epoch
    &&& a.global_seed == b.global_seed
}

/// What a pipeline is, up to copies of its operations: the shape a logical
/// plan records.
pub struct PipelineShape {
    pub source: SourceOp,
    pub index_ops: Seq<IndexOp>,
    pub ops: Seq<ImageOpDeep>,
    pub batch: Option<BatchConfig>,
    pub context: ImagePipelineContext,
}

pub open spec fn context_of(p: ImagePipeline) -> ImagePipelineContext {
    ImagePipelineContext { runtime: p.runtime, epoch: p.epoch, global_seed: p.global_seed }
}

pub open spec fn shape_of(p: ImagePipeline) -> PipelineShape {
    PipelineShape {
        source: p.source,
        index_ops: p.index_ops@,
        ops: deep_ops(p.ops@),
        batch: p.batch,
        context: context_of(p),
    }
}

impl ImagePipeline {
    pub fn from_source(source: SourceOp) -> (r: Self)
        ensures
            r.source == source,
            r.index_ops@.len() == 0,
            r.ops@.len() == 0,
            r.batch is None,
            r.runtime == (RuntimeConfig {
                num_workers: 0,
                prefetch_batches: 2,
                stage_queue_max_bytes: 536870912,
            }),
            r.epoch == 0,
            r.global_seed is None,
    {
        ImagePipeline {
            source,
            index_ops: Vec::new(),
            ops: Vec::new(),
            batch: None,
            runtime: RuntimeConfig::default(),
            epoch: 0,
            global_seed: None,
        }
    }

    /// This pipeline with `op` appended.
    pub fn with_op(self, op: ImageOp) -> (r: Self)
        ensures
            r.ops@ == self.ops@.push(op),
            same_settings(r, self),
    {
        let mut out = self;
        out.ops.push(op);
        out
    }

    /// Appends the operations of a reusable sequence.
    pub fn compose(self, sequence: TransformSequence) -> (r: Self)
        ensures
            r.ops@ == self.ops@ + sequence.ops@,
            same_settings(r, self),
    {
        let mut out = self;
        let mut tail = sequence.into_ops();
        out.ops.append(&mut tail);
        out
    }

    pub fn random_resized_crop(self, width: u32, height: u32) -> (r: Self)
        ensures
            r.ops@ == self.ops@.push(ImageOp::RandomResizedCrop(default_resized_crop(width, height))),
            same_settings(r, self),
    {
        let op = ImageOp::random_resized_crop(width, height);
        self.with_op(op)
    }

    /// `sequence`, applied in a random order per sample.
    pub fn random_order(self, sequence: TransformSequence) -> (r: Self)
        ensures
            r.ops@ == self.ops@.push(ImageOp::RandomOrder { ops: sequence.ops }),
            same_settings(r, self),
    {
        let op = ImageOp::RandomOrder { ops: sequence.ops };
        self.with_op(op)
    }

    /// Applies `sequence` with the probability whose `f64` bits are given.
    pub fn random_apply_with_bits(self, probability_bits: u64, sequence: TransformSequence) -> (r: Self)
        ensures
            r.ops@ == self.ops@.push(ImageOp::RandomApply { probability_bits, ops: sequence.ops }),
            same_settings(r, self),
    {
        let op = ImageOp::RandomApply { probability_bits, ops: sequence.ops };
        self.with_op(op)
    }

    /// One of `choices`, chosen per sample.
    pub fn random_choice(self, choices: Vec<TransformSequence>) -> (r: Self)
        ensures
            r.ops@.len() == self.ops@.len() + 1,
            r.ops@.drop_last() == self.ops@,
            r.ops@.last() matches ImageOp::RandomChoice { choices: c } && c@.len() == choices@.len()
                && forall|i: int| 0 <= i < c@.len() ==> (#[trigger] c@[i])@ == choices@[i].ops@,
            same_settings(r, self),
    {
        let sequence = TransformSequence::new().random_choice(choices);
        let mut ops = sequence.into_ops();
        let op = ops.pop().unwrap();
        self.with_op(op)
    }

    /// Skips the first `count` samples of the source.
    pub fn skip(self, count: usize) -> (r: Self)
        ensures
            r.index_ops@ == self.index_ops@.push(IndexOp::Skip { count }),
            same_image_side(r, self),
    {
        let mut out = self;
        out.index_ops.push(IndexOp::Skip { count });
        out
    }

    /// Keeps at most `count` samples.
    pub fn take(self, count: usize) -> (r: Self)
        ensures
            r.index_ops@ == self.index_ops@.push(IndexOp::Take { count }),
            same_image_side(r, self),
    {
        let mut out = self;
        out.index_ops.push(IndexOp::Take { count });
        out
    }

    /// Deterministically shuffles the sampled window with `seed`.
    pub fn shuffle(self, seed: u64) -> (r: Self)
        ensures
            r.index_ops@ == self.index_ops@.push(IndexOp::Shuffle { seed }),
            same_image_side(r, self),
    {
        let mut out = self;
        out.index_ops.push(IndexOp::Shuffle { seed });
        out
    }

    /// Sets the pipeline-owned seed of sampling and transforms.
    pub fn seed(self, seed: u64) -> (r: Self)
        ensures
            r.global_seed == Some(seed),
            r.source == self.source && r.index_ops@ == self.index_ops@ && r.ops@ == self.ops@,
            r.batch == self.batch && r.runtime == self.runtime && r.epoch == self.epoch,
    {
        let mut out = self;
        out.global_seed = Some(seed);
        out
    }

    /// Sets the epoch of the sampler and transform namespaces.
    pub fn epoch(self, epoch: u64) -> (r: Self)
        ensures
            r.epoch == epoch,
            r.source == self.source && r.index_ops@ == self.index_ops@ && r.ops@ == self.ops@,
            r.batch == self.batch && r.runtime == self.runtime && r.global_seed == self.global_seed,
    {
        let mut out = self;
        out.epoch = epoch;
        out
    }

    pub fn batch(self, size: usize, drop_last: bool) -> (r: Self)
        ensures
            r.batch == Some(BatchConfig { size, drop_last }),
            r.source == self.source && r.index_ops@ == self.index_ops@ && r.ops@ == self.ops@,
            r.runtime == self.runtime && r.epoch == self.epoch && r.global_seed == self.global_seed,
    {
        let mut out = self;
        out.batch = Some(BatchConfig::new(size, drop_last));
        out
    }

    /// Loads samples on `num_workers` worker threads; zero loads inline.
    pub fn workers(self, num_workers: usize) -> (r: Self)
        ensures
            r.runtime == (RuntimeConfig { num_workers, ..self.runtime }),
            r.source == self.source && r.index_ops@ == self.index_ops@ && r.ops@ == self.ops@,
            r.batch == self.batch && r.epoch == self.epoch && r.global_seed == self.global_seed,
    {
        let mut out = self;
        out.runtime.num_workers = num_workers;
        out
    }

    /// Prepares up to `prefetch_batches` future batches ahead.
    pub fn prefetch_batches(self, prefetch_batches: usize) -> (r: Self)
        ensures
            r.runtime == (RuntimeConfig { prefetch_batches, ..self.runtime }),
            r.source == self.source && r.index_ops@ == self.index_ops@ && r.ops@ == self.ops@,
            r.batch == self.batch && r.epoch == self.epoch && r.global_seed == self.global_seed,
    {
        let mut out = self;
        out.runtime.prefetch_batches = prefetch_batches;
        out
    }

    /// Bounds the payload bytes retained on each stage edge.
    pub fn stage_queue_max_bytes(self, bytes: usize) -> (r: Self)
        ensures
            r.runtime == (RuntimeConfig { stage_queue_max_bytes: bytes, ..self.runtime }),
            r.source == self.source && r.index_ops@ == self.index_ops@ && r.ops@ == self.ops@,
            r.batch == self.batch && r.epoch == self.epoch && r.global_seed == self.global_seed,
    {
        let mut out = self;
        out.runtime.stage_queue_max_bytes = bytes;
        out
    }

    pub fn decode_image(self) -> (r: Self)
        ensures
            r.ops@ == self.ops@.push(ImageOp::Decode),
            same_settings(r, self),
    {
        let op = ImageOp::decode();
        self.with_op(op)
    }

    pub fn resize(self, width: u32, height: u32) -> (r: Self)
        ensures
            r.ops@ == self.ops@.push(ImageOp::Resize(ResizeConfig { width, height, interpolation: InterpolationMode::Bilinear })),
            same_settings(r, self),
    {
        let op = ImageOp::resize(width, height);
        self.with_op(op)
    }

    pub fn resize_with_interpolation(self, width: u32, height: u32, interpolation: InterpolationMode) -> (r: Self)
        ensures
            r.ops@ == self.ops@.push(ImageOp::Resize(ResizeConfig { width, height, interpolation })),
            same_settings(r, self),
    {
        let op = ImageOp::resize_with_interpolation(width, height, interpolation);
        self.with_op(op)
    }

    pub fn crop(self, x: u32, y: u32, width: u32, height: u32) -> (r: Self)
        ensures
            r.ops@ == self.ops@.push(ImageOp::Crop(CropConfig { x, y, width, height })),
            same_settings(r, self),
    {
        let op = ImageOp::crop(x, y, width, height);
        self.with_op(op)
    }

    pub fn center_crop(self, width: u32, height: u32) -> (r: Self)
        ensures
            r.ops@ == self.ops@.push(ImageOp::CenterCrop(CenterCropConfig { width, height })),
            same_settings(r, self),
    {
        let op = ImageOp::center_crop(width, height);
        self.with_op(op)
    }

    pub fn pad(self, padding: u32) -> (r: Self)
        ensures
            r.ops@ == self.ops@.push(ImageOp::Pad(PadConfig { left: padding, top: padding, right: padding, bottom: padding, fill_bits: 0 })),
            same_settings(r, self),
    {
        let op = ImageOp::pad(padding);
        self.with_op(op)
    }

    pub fn horizontal_flip(self) -> (r: Self)
        ensures
            r.ops@ == self.ops@.push(ImageOp::Flip(FlipAxis::Horizontal)),
            same_settings(r, self),
    {
        let op = ImageOp::horizontal_flip();
        self.with_op(op)
    }

    pub fn vertical_flip(self) -> (r: Self)
        ensures
            r.ops@ == self.ops@.push(ImageOp::Flip(FlipAxis::Vertical)),
            same_settings(r, self),
    {
        let op = ImageOp::vertical_flip();
        self.with_op(op)
    }

    pub fn random_crop(self, width: u32, height: u32, padding: u32) -> (r: Self)
        ensures
            r.ops@ == self.ops@.push(ImageOp::RandomCrop(RandomCropConfig { width, height, padding })),
            same_settings(r, self),
    {
        let op = ImageOp::random_crop(width, height, padding);
        self.with_op(op)
    }

    pub fn brightness(self, value: i32) -> (r: Self)
        ensures
            r.ops@ == self.ops@.push(ImageOp::Brightness { value }),
            same_settings(r, self),
    {
        let op = ImageOp::brightness(value);
        self.with_op(op)
    }

    pub fn hue(self, degrees: i32) -> (r: Self)
        ensures
            r.ops@ == self.ops@.push(ImageOp::Hue { degrees }),
            same_settings(r, self),
    {
        let op = ImageOp::hue(degrees);
        self.with_op(op)
    }

    pub fn invert(self) -> (r: Self)
        ensures
            r.ops@ == self.ops@.push(ImageOp::Invert),
            same_settings(r, self),
    {
        let op = ImageOp::invert();
        self.with_op(op)
    }

    pub fn posterize(self, bits: u8) -> (r: Self)
        ensures
            r.ops@ == self.ops@.push(ImageOp::Posterize { bits }),
            same_settings(r, self),
    {
        let op = ImageOp::posterize(bits);
        self.with_op(op)
    }

    pub fn solarize(self, threshold: u8) -> (r: Self)
        ensures
            r.ops@ == self.ops@.push(ImageOp::Solarize { threshold }),
            same_settings(r, self),
    {
        let op = ImageOp::solarize(threshold);
        self.with_op(op)
    }

    pub fn autocontrast(self) -> (r: Self)
        ensures
            r.ops@ == self.ops@.push(ImageOp::Autocontrast),
            same_settings(r, self),
    {
        let op = ImageOp::autocontrast();
        self.with_op(op)
    }

    pub fn equalize(self) -> (r: Self)
        ensures
            r.ops@ == self.ops@.push(ImageOp::Equalize),
            same_settings(r, self),
    {
        let op = ImageOp::equalize();
        self.with_op(op)
    }

    pub fn grayscale(self, num_output_channels: u8) -> (r: Self)
        ensures
            r.ops@ == self.ops@.push(ImageOp::Grayscale { num_output_channels }),
            same_settings(r, self),
    {
        let op = ImageOp::grayscale(num_output_channels);
        self.with_op(op)
    }

    pub fn convert_image_dtype(self, dtype: DType) -> (r: Self)
        ensures
            r.ops@ == self.ops@.push(ImageOp::ConvertImageDtype { dtype }),
            same_settings(r, self),
    {
        let op = ImageOp::convert_image_dtype(dtype);
        self.with_op(op)
    }

    pub fn rotate(self, angle: RotationAngle) -> (r: Self)
        ensures
            r.ops@ == self.ops@.push(ImageOp::Rotate { angle }),
            same_settings(r, self),
    {
        let op = ImageOp::rotate(angle);
        self.with_op(op)
    }

    pub fn random_resized_crop_with_config(self, config: RandomResizedCropConfig) -> (r: Self)
        ensures
            r.ops@ == self.ops@.push(ImageOp::RandomResizedCrop(config)),
            same_settings(r, self),
    {
        let op = ImageOp::random_resized_crop_with_config(config);
        self.with_op(op)
    }

    pub fn random_affine_with_config(self, config: RandomAffineConfig) -> (r: Self)
        ensures
            r.ops@ == self.ops@.push(ImageOp::RandomAffine(config)),
            same_settings(r, self),
    {
        let op = ImageOp::random_affine_with_config(config);
        self.with_op(op)
    }

    pub fn perspective_with_config(self, config: PerspectiveConfig) -> (r: Self)
        ensures
            r.ops@ == self.ops@.push(ImageOp::Perspective(config)),
            same_settings(r, self),
    {
        let op = ImageOp::perspective_with_config(config);
        self.with_op(op)
    }

    pub fn random_perspective_with_config(self, config: RandomPerspectiveConfig) -> (r: Self)
        ensures
            r.ops@ == self.ops@.push(ImageOp::RandomPerspective(config)),
            same_settings(r, self),
    {
        let op = ImageOp::random_perspective_with_config(config);
        self.with_op(op)
    }

    pub fn elastic_transform_with_config(self, config: ElasticTransformConfig) -> (r: Self)
        ensures
            r.ops@ == self.ops@.push(ImageOp::ElasticTransform(config)),
            same_settings(r, self),
    {
        let op = ImageOp::elastic_transform_with_config(config);
        self.with_op(op)
    }

    pub fn random_erasing_with_config(self, config: RandomErasingConfig) -> (r: Self)
        ensures
            r.ops@ == self.ops@.push(ImageOp::RandomErasing(config)),
            same_settings(r, self),
    {
        let op = ImageOp::random_erasing_with_config(config);
        self.with_op(op)
    }

    pub fn hwc_to_chw(self) -> (r: Self)
        ensures
            r.ops@ == self.ops@.push(ImageOp::Layout { axis_order: ImageAxisOrder::Chw }),
            same_settings(r, self),
    {
        let op = ImageOp::hwc_to_chw();
        self.with_op(op)
    }

    pub fn chw_to_hwc(self) -> (r: Self)
        ensures
            r.ops@ == self.ops@.push(ImageOp::Layout { axis_order: ImageAxisOrder::Hwc }),
            same_settings(r, self),
    {
        let op = ImageOp::chw_to_hwc();
        self.with_op(op)
    }
}

/// `plan` is the chain a pipeline of shape `s` lowers to: its context,
/// then a source node, one node per index operation, one per image
/// operation, a batch node when batching, and the sink as root, each
/// reading the one before.
pub open spec fn chain_of(plan: LogicalPlan<VisionPayload>, s: PipelineShape) -> bool {
    let nodes = plan.spec_nodes();
    let ni = s.index_ops.len() as int;
    let no = s.ops.len() as int;
    let nb: int = if s.batch is Some {
        1
    } else {
        0
    };
    let total = ni + no + nb + 2;
    &&& nodes.len() == total
    &&& plan.spec_root() == Some(NodeId((total - 1) as usize))
    &&& plan.spec_context() == Some(VisionPayload::Context(s.context))
    &&& nodes[0].kind == NodeKind::Source
    &&& nodes[0].inputs@.len() == 0
    &&& nodes[0].payload == Some(VisionPayload::Source(s.source))
    &&& forall|k: int| 1 <= k < total ==> (#[trigger] nodes[k]).inputs@ == seq![NodeId((k - 1) as usize)]
    &&& forall|k: int|
        1 <= k < 1 + ni ==> (#[trigger] nodes[k]).kind == NodeKind::Index && nodes[k].payload == Some(
            VisionPayload::Index(s.index_ops[k - 1]),
        )
    &&& forall|k: int|
        1 + ni <= k < 1 + ni + no ==> (#[trigger] nodes[k]).kind == NodeKind::Op && (
        nodes[k].payload matches Some(VisionPayload::Image(op)) && deep_op(op) == s.ops[k - 1 - ni])
    &&& (s.batch matches Some(b) ==> nodes[1 + ni + no].kind == NodeKind::Batch && nodes[1 + ni
        + no].payload == Some(VisionPayload::Batch(b)))
    &&& nodes[total - 1].kind == NodeKind::Sink
    &&& nodes[total - 1].payload is None
}

/// A chain is a valid plan.
pub proof fn lemma_chain_valid(plan: LogicalPlan<VisionPayload>, s: PipelineShape)
    requires
        chain_of(plan, s),
    ensures
        plan.valid(),
{
    let nodes = plan.spec_nodes();
    assert forall|i: int, j: int|
        0 <= i < nodes.len() && 0 <= j < nodes[i].inputs@.len() implies (
        #[trigger] nodes[i].inputs@[j]).0 < i by {
        if i >= 1 {
            assert(nodes[i].inputs@ == seq![NodeId((i - 1) as usize)]);
        }
    }
}

/// A plan lowered from a pipeline determines that pipeline: two pipelines
/// with the same chain have the same shape. Restoring a pipeline from the
/// plan it lowers to therefore gives it back.
pub proof fn law_chain_determines_pipeline(plan: LogicalPlan<VisionPayload>, s: PipelineShape, t: PipelineShape)
    requires
        chain_of(plan, s),
        chain_of(plan, t),
    ensures
        s == t,
{
    let nodes = plan.spec_nodes();
    let si = s.index_ops.len() as int;
    let ti = t.index_ops.len() as int;
    let so = s.ops.len() as int;
    let to = t.ops.len() as int;
    let total = nodes.len() as int;
    if si < ti {
        assert(nodes[1 + si].kind == NodeKind::Index);
        if so > 0 {
            assert(nodes[1 + si].kind == NodeKind::Op);
        } else if s.batch is Some {
            assert(nodes[1 + si].kind == NodeKind::Batch);
        } else {
            assert(1 + si == total - 1);
        }
    }
    if ti < si {
        assert(nodes[1 + ti].kind == NodeKind::Index);
        if to > 0 {
            assert(nodes[1 + ti].kind == NodeKind::Op);
        } else if t.batch is Some {
            assert(nodes[1 + ti].kind == NodeKind::Batch);
        } else {
            assert(1 + ti == total - 1);
        }
    }
    assert(si == ti);
    if so < to {
        assert(nodes[1 + si + so].kind == NodeKind::Op);
        if s.batch is Some {
            assert(nodes[1 + si + so].kind == NodeKind::Batch);
        } else {
            assert(1 + si + so == total - 1);
        }
    }
    if to < so {
        assert(nodes[1 + si + to].kind == NodeKind::Op);
        if t.batch is Some {
            assert(nodes[1 + si + to].kind == NodeKind::Batch);
        } else {
            assert(1 + si + to == total - 1);
        }
    }
    assert(so == to);
    assert(s.index_ops =~= t.index_ops) by {
        assert forall|i: int| 0 <= i < si implies s.index_ops[i] == t.index_ops[i] by {
            assert(nodes[1 + i].payload == Some(VisionPayload::Index(s.index_ops[i])));
        }
    }
    assert(s.ops =~= t.ops) by {
        assert forall|i: int| 0 <= i < so implies s.ops[i] == t.ops[i] by {
            assert(nodes[1 + si + i].kind == NodeKind::Op);
        }
    }
    if s.batch is Some || t.batch is Some {
        assert(nodes[1 + si + so].kind == NodeKind::Batch || nodes[1 + si + so].kind == NodeKind::Sink);
    }
    assert(plan.spec_context() == Some(VisionPayload::Context(s.context)));
}

fn single_input_vec(id: NodeId) -> (r: Vec<NodeId>)
    ensures
        r@ == seq![id],
{
    let mut v: Vec<NodeId> = Vec::new();
    v.push(id);
    assert(v@ =~= seq![id]);
    v
}

impl ImagePipeline {
    /// Lowers the pipeline to a logical plan: a chain from the source to a
    /// sink, with the runtime settings as the plan's context.
    pub fn to_logical_plan(&self) -> (plan: LogicalPlan<VisionPayload>)
        ensures
            chain_of(plan, shape_of(*self)),
            plan.valid(),
    {
        let ghost s = shape_of(*self);
        let ni = self.index_ops.len();
        let no = self.ops.len();
        let mut plan: LogicalPlan<VisionPayload> = LogicalPlan::new();
        plan.set_context(
            VisionPayload::Context(
                ImagePipelineContext {
                    runtime: self.runtime,
                    epoch: self.epoch,
                    global_seed: self.global_seed,
                },
            ),
        );
        let mut previous = plan.add_node(
            LogicalNode::new(NodeKind::Source, Vec::new(), Some(VisionPayload::Source(self.source))),
        );
        let mut i: usize = 0;
        while i < ni
            invariant
                0 <= i <= ni,
                ni == self.index_ops@.len(),
                plan.spec_nodes().len() == 1 + i,
                previous.0 == i,
                plan.spec_context() == Some(VisionPayload::Context(s.context)),
                s == shape_of(*self),
                plan.spec_nodes()[0].kind == NodeKind::Source,
                plan.spec_nodes()[0].inputs@.len() == 0,
                plan.spec_nodes()[0].payload == Some(VisionPayload::Source(s.source)),
                forall|k: int|
                    1 <= k < 1 + i ==> (#[trigger] plan.spec_nodes()[k]).inputs@ == seq![
                        NodeId((k - 1) as usize),
                    ],
                forall|k: int|
                    1 <= k < 1 + i ==> (#[trigger] plan.spec_nodes()[k]).kind == NodeKind::Index
                        && plan.spec_nodes()[k].payload == Some(VisionPayload::Index(s.index_ops[k - 1])),
            decreases ni - i,
        {
            let node = LogicalNode::new(
                NodeKind::Index,
                single_input_vec(previous),
                Some(VisionPayload::Index(self.index_ops[i])),
            );
            previous = plan.add_node(node);
            i += 1;
        }
        proof {
            crate::vision::image_op::lemma_deep_prefix_index(self.ops@, self.ops@.len());
        }
        let mut j: usize = 0;
        while j < no
            invariant
                0 <= j <= no,
                ni == self.index_ops@.len(),
                no == self.ops@.len(),
                plan.spec_nodes().len() == 1 + ni + j,
                previous.0 == ni + j,
                plan.spec_context() == Some(VisionPayload::Context(s.context)),
                s == shape_of(*self),
                s.ops.len() == no,
                forall|t: int| 0 <= t < no ==> s.ops[t] == deep_op(#[trigger] self.ops@[t]),
                plan.spec_nodes()[0].kind == NodeKind::Source,
                plan.spec_nodes()[0].inputs@.len() == 0,
                plan.spec_nodes()[0].payload == Some(VisionPayload::Source(s.source)),
                forall|k: int|
                    1 <= k < 1 + ni + j ==> (#[trigger] plan.spec_nodes()[k]).inputs@ == seq![
                        NodeId((k - 1) as usize),
                    ],
                forall|k: int|
                    1 <= k < 1 + ni ==> (#[trigger] plan.spec_nodes()[k]).kind == NodeKind::Index
                        && plan.spec_nodes()[k].payload == Some(VisionPayload::Index(s.index_ops[k - 1])),
                forall|k: int|
                    1 + ni <= k < 1 + ni + j ==> (#[trigger] plan.spec_nodes()[k]).kind == NodeKind::Op
                        && (plan.spec_nodes()[k].payload matches Some(VisionPayload::Image(op))
                        && deep_op(op) == s.ops[k - 1 - ni]),
            decreases no - j,
        {
            let op = copy_op(&self.ops[j]);
            let node = LogicalNode::new(NodeKind::Op, single_input_vec(previous), Some(VisionPayload::Image(op)));
            previous = plan.add_node(node);
            j += 1;
        }
        match self.batch {
            Some(b) => {
                let node = LogicalNode::new(NodeKind::Batch, single_input_vec(previous), Some(VisionPayload::Batch(b)));
                previous = plan.add_node(node);
            },
            None => {},
        }
        let root = plan.add_node(LogicalNode::new(NodeKind::Sink, single_input_vec(previous), None));
        let _ = plan.set_root(root);
        proof {
            lemma_chain_valid(plan, s);
        }
        plan
    }
}

/// The pipeline error for an invalid logical plan.
pub fn plan_error(error: PlanError) -> (r: VisionError)
    ensures
        r is InvalidPipeline,
        error_text(r) == "invalid logical plan: "@ + plan_error_text(error),
{
    proof {
        reveal_strlit("invalid logical plan: ");
    }
    let mut m = owned("invalid logical plan: ");
    let text = plan_error_message(error);
    push_str(&mut m, text.as_str());
    VisionError::InvalidPipeline(m)
}

pub open spec fn incompatible_text(node: usize) -> Seq<char> {
    "logical node %"@ + decimal(node as nat) + " has an incompatible payload"@
}

pub open spec fn unexpected_text(kind: NodeKind, node: usize) -> Seq<char> {
    "unexpected "@ + kind_text(kind) + " node at %"@ + decimal(node as nat) + " in vision logical plan"@
}

/// The nodes from `id` back through single inputs to a node without
/// inputs, `id` first; `Err` names the first node with several inputs.
pub open spec fn input_path(nodes: Seq<LogicalNode<VisionPayload>>, id: NodeId) -> Result<Seq<NodeId>, usize>
    decreases id.0,
{
    if id.0 >= nodes.len() || nodes[id.0 as int].inputs@.len() == 0 {
        Ok(seq![id])
    } else if nodes[id.0 as int].inputs@.len() != 1 {
        Err(id.0)
    } else if nodes[id.0 as int].inputs@[0].0 >= id.0 {
        Ok(seq![id])
    } else {
        match input_path(nodes, nodes[id.0 as int].inputs@[0]) {
            Ok(p) => Ok(seq![id] + p),
            Err(e) => Err(e),
        }
    }
}

/// What restoring a pipeline has read so far.
pub struct RestoredParts {
    pub source: Option<SourceOp>,
    pub index_ops: Seq<IndexOp>,
    pub ops: Seq<ImageOpDeep>,
    pub batch: Option<BatchConfig>,
}

/// Reading node `id` on top of `st`; `last` is the root, the one place a
/// sink may stand.
pub open spec fn read_node(
    nodes: Seq<LogicalNode<VisionPayload>>,
    last: NodeId,
    st: RestoredParts,
    id: NodeId,
) -> Result<RestoredParts, Seq<char>> {
    let node = nodes[id.0 as int];
    match node.kind {
        NodeKind::Source => if st.source is Some {
            Err(unexpected_text(node.kind, id.0))
        } else {
            match node.payload {
                Some(VisionPayload::Source(src)) => Ok(RestoredParts { source: Some(src), ..st }),
                _ => Err(incompatible_text(id.0)),
            }
        },
        NodeKind::Index => match node.payload {
            Some(VisionPayload::Index(op)) => Ok(RestoredParts { index_ops: st.index_ops.push(op), ..st }),
            _ => Err(incompatible_text(id.0)),
        },
        NodeKind::Op => match node.payload {
            Some(VisionPayload::FusionGroup(g)) => Ok(RestoredParts { ops: st.ops + deep_ops(g.ops@), ..st }),
            Some(VisionPayload::Image(op)) => Ok(RestoredParts { ops: st.ops.push(deep_op(op)), ..st }),
            _ => Err(incompatible_text(id.0)),
        },
        NodeKind::Batch => if st.batch is Some {
            Err(unexpected_text(node.kind, id.0))
        } else {
            match node.payload {
                Some(VisionPayload::Batch(b)) => Ok(RestoredParts { batch: Some(b), ..st }),
                _ => Err(incompatible_text(id.0)),
            }
        },
        NodeKind::Sink => if id.0 != last.0 {
            Err(unexpected_text(node.kind, id.0))
        } else {
            Ok(st)
        },
        _ => Err(unexpected_text(node.kind, id.0)),
    }
}

/// Reading the last `k` nodes of `path`, from its end (the source) on.
pub open spec fn read_path(
    nodes: Seq<LogicalNode<VisionPayload>>,
    last: NodeId,
    path: Seq<NodeId>,
    k: nat,
) -> Result<RestoredParts, Seq<char>>
    decreases k,
{
    if k == 0 || k > path.len() {
        Ok(RestoredParts { source: None, index_ops: Seq::empty(), ops: Seq::empty(), batch: None })
    } else {
        match read_path(nodes, last, path, (k - 1) as nat) {
            Ok(st) => read_node(nodes, last, st, path[path.len() - k]),
            Err(e) => Err(e),
        }
    }
}

proof fn lemma_read_path_err_sticks(
    nodes: Seq<LogicalNode<VisionPayload>>,
    last: NodeId,
    path: Seq<NodeId>,
    a: nat,
    b: nat,
)
    requires
        a <= b <= path.len(),
        read_path(nodes, last, path, a) is Err,
    ensures
        read_path(nodes, last, path, b) == read_path(nodes, last, path, a),
    decreases b - a,
{
    if b > a {
        lemma_read_path_err_sticks(nodes, last, path, a, (b - 1) as nat);
    }
}

/// The pipeline restored from a valid plan with context `ctx`, or the
/// message of the error restoring it reports.
pub open spec fn restored_shape(
    nodes: Seq<LogicalNode<VisionPayload>>,
    root: NodeId,
    ctx: ImagePipelineContext,
) -> Result<PipelineShape, Seq<char>> {
    match input_path(nodes, root) {
        Err(node) => Err("vision lowering expects one input at node %"@ + decimal(node as nat)),
        Ok(path) => match read_path(nodes, root, path, path.len()) {
            Err(m) => Err(m),
            Ok(st) => match st.source {
                None => Err("logical plan has no source node"@),
                Some(src) => Ok(
                    PipelineShape { source: src, index_ops: st.index_ops, ops: st.ops, batch: st.batch, context: ctx },
                ),
            },
        },
    }
}

fn incompatible_payload(id: NodeId) -> (r: VisionError)
    ensures
        r is InvalidPipeline,
        error_text(r) == incompatible_text(id.0),
{
    proof {
        reveal_strlit("logical node %");
        reveal_strlit(" has an incompatible payload");
    }
    let mut m = owned("logical node %");
    push_decimal(&mut m, id.0);
    push_str(&mut m, " has an incompatible payload");
    VisionError::InvalidPipeline(m)
}

fn unexpected_node(kind: NodeKind, id: NodeId) -> (r: VisionError)
    ensures
        r is InvalidPipeline,
        error_text(r) == unexpected_text(kind, id.0),
{
    proof {
        reveal_strlit("unexpected ");
        reveal_strlit(" node at %");
        reveal_strlit(" in vision logical plan");
    }
    let mut m = owned("unexpected ");
    push_str(&mut m, kind_name(kind));
    push_str(&mut m, " node at %");
    push_decimal(&mut m, id.0);
    push_str(&mut m, " in vision logical plan");
    VisionError::InvalidPipeline(m)
}

/// The restored state after the first `j` nodes of a chain of shape `s`:
/// how many index and image operations, and whether the batch node, have
/// been read.
pub open spec fn read_index_ops(s: PipelineShape, j: int) -> int {
    let ni = s.index_ops.len() as int;
    if j <= 1 {
        0
    } else if j - 1 <= ni {
        j - 1
    } else {
        ni
    }
}

pub open spec fn read_ops(s: PipelineShape, j: int) -> int {
    let ni = s.index_ops.len() as int;
    let no = s.ops.len() as int;
    if j <= 1 + ni {
        0
    } else if j - 1 - ni <= no {
        j - 1 - ni
    } else {
        no
    }
}

impl ImagePipeline {
    /// Restores a pipeline from a logical plan: walks from the root through
    /// single inputs back to the source, then reads the nodes from the
    /// source on. Fused operation groups contribute their operations.
    #[verifier::loop_isolation(false)]
    #[verifier::rlimit(40)]
    pub fn from_logical_plan(plan: &LogicalPlan<VisionPayload>) -> (r: Result<Self, VisionError>)
        ensures
            (exists|s: PipelineShape| chain_of(*plan, s)) ==> (r matches Ok(p) && chain_of(
                *plan,
                shape_of(p),
            )),
            !plan.valid() ==> (r matches Err(e) && exists|pe: PlanError| plan.validate_error(pe)
                && error_text(e) == "invalid logical plan: "@ + plan_error_text(pe)),
            plan.valid() && !(plan.spec_context() matches Some(VisionPayload::Context(_))) ==> (r matches Err(
                e,
            ) && error_text(e) == "logical plan has no vision pipeline context"@),
            r matches Err(e) ==> e is InvalidPipeline,
            plan.valid() ==> (plan.spec_context() matches Some(VisionPayload::Context(c)) ==> match restored_shape(
                plan.spec_nodes(),
                plan.spec_root().unwrap(),
                c,
            ) {
                Ok(sh) => (r matches Ok(p) && shape_of(p) == sh),
                Err(m) => (r matches Err(e) && error_text(e) == m),
            }),
    {
        match plan.validate() {
            Err(e) => return Err(plan_error(e)),
            Ok(()) => {},
        }
        let context = match plan.context() {
            Some(VisionPayload::Context(c)) => *c,
            _ => {
                proof {
                    reveal_strlit("logical plan has no vision pipeline context");
                }
                return Err(VisionError::InvalidPipeline(owned("logical plan has no vision pipeline context")));
            },
        };
        let ghost chained = exists|s: PipelineShape| chain_of(*plan, s);
        let ghost s = choose|s: PipelineShape| chain_of(*plan, s);
        let ghost nodes = plan.spec_nodes();
        let ghost total = nodes.len() as int;
        let root = plan.root().unwrap();
        proof {
            plan.lemma_len_bound();
            if chained {
                assert(chain_of(*plan, s));
                assert(root == plan.spec_root().unwrap());
                assert(nodes.len() == s.index_ops.len() + s.ops.len() + (if s.batch is Some {
                    1int
                } else {
                    0int
                }) + 2);
                assert(plan.spec_root() == Some(NodeId((total - 1) as usize)));
                assert(root.0 == total - 1);
            }
        }
        let mut reversed: Vec<NodeId> = Vec::new();
        let mut current = root;
        proof {
            match input_path(nodes, root) {
                Ok(p) => {
                    assert(reversed@ + p =~= p);
                },
                Err(_) => {},
            }
        }
        #[verifier::loop_isolation(true)]
        loop
            invariant_except_break
                current.0 < nodes.len(),
                match input_path(nodes, current) {
                    Ok(p) => input_path(nodes, root) == Ok::<Seq<NodeId>, usize>(reversed@ + p),
                    Err(e) => input_path(nodes, root) == Err::<Seq<NodeId>, usize>(e),
                },
                chained ==> current.0 == total - 1 - reversed@.len(),
                reversed@.len() == 0 ==> current == root,
            invariant
                plan.valid(),
                plan.spec_context() matches Some(VisionPayload::Context(_)),
                nodes == plan.spec_nodes(),
                total == nodes.len(),
                chained == (exists|s: PipelineShape| chain_of(*plan, s)),
                chained ==> chain_of(*plan, s),
                reversed@.len() > 0 ==> reversed@[0] == root,
                forall|k: int| 0 <= k < reversed@.len() ==> (#[trigger] reversed@[k]).0 < nodes.len(),
                chained ==> forall|k: int| 0 <= k < reversed@.len() ==> (#[trigger] reversed@[k]).0 == total - 1 - k,
                root == plan.spec_root().unwrap(),
                chained ==> root.0 == total - 1,
            ensures
                input_path(nodes, root) == Ok::<Seq<NodeId>, usize>(reversed@),
                chained ==> reversed@.len() == total,
                forall|k: int| 0 <= k < reversed@.len() ==> (#[trigger] reversed@[k]).0 < nodes.len(),
                reversed@.len() > 0,
                reversed@[0] == root,
            decreases current.0,
        {
            let node = match plan.node(current) {
                Ok(n) => n,
                Err(e) => {
                    return Err(VisionError::InvalidPipeline(plan_error_message(e)));
                },
            };
            let ghost rev_old = reversed@;
            reversed.push(current);
            if node.inputs.len() == 0 {
                proof {
                    assert(rev_old + seq![current] =~= reversed@);
                    if chained {
                        if current.0 > 0 {
                            assert(nodes[current.0 as int].inputs@ == seq![NodeId((current.0 - 1) as usize)]);
                        }
                    }
                }
                break;
            }
            if node.inputs.len() != 1 {
                proof {
                    reveal_strlit("vision lowering expects one input at node %");
                }
                let mut m = owned("vision lowering expects one input at node %");
                push_decimal(&mut m, current.0);
                return Err(VisionError::InvalidPipeline(m));
            }
            let next = node.inputs[0];
            proof {
                assert(nodes[current.0 as int].inputs@[0].0 < current.0);
                match input_path(nodes, next) {
                    Ok(p) => {
                        assert(rev_old + (seq![current] + p) =~= reversed@ + p);
                    },
                    Err(_) => {},
                }
                if chained {
                    assert(nodes[current.0 as int].inputs@ == seq![NodeId((current.0 - 1) as usize)]);
                }
            }
            current = next;
        }
        let last = reversed[0];
        let mut source: Option<SourceOp> = None;
        let mut index_ops: Vec<IndexOp> = Vec::new();
        let mut ops: Vec<ImageOp> = Vec::new();
        let mut batch: Option<BatchConfig> = None;
        let n = reversed.len();
        let mut k: usize = n;
        let ghost mut gops: Seq<ImageOpDeep> = Seq::empty();
        while k > 0
            invariant
                0 <= k <= n,
                n == reversed@.len(),
                plan.valid(),
                input_path(nodes, root) == Ok::<Seq<NodeId>, usize>(reversed@),
                last == root,
                read_path(nodes, root, reversed@, (n - k) as nat) == Ok::<RestoredParts, Seq<char>>(
                    (RestoredParts { source, index_ops: index_ops@, ops: gops, batch }),
                ),
                ops@.len() == gops.len(),
                forall|t: int| 0 <= t < ops@.len() ==> deep_op(#[trigger] ops@[t]) == gops[t],
                nodes == plan.spec_nodes(),
                forall|t: int| 0 <= t < reversed@.len() ==> (#[trigger] reversed@[t]).0 < nodes.len(),
                last == reversed@[0],
                chained ==> chain_of(*plan, s),
                chained ==> n == total,
                chained ==> forall|t: int| 0 <= t < reversed@.len() ==> (#[trigger] reversed@[t]).0 == total - 1 - t,
                chained ==> (source is Some <==> n - k >= 1),
                chained ==> (source matches Some(src) ==> src == s.source),
                chained ==> index_ops@ == s.index_ops.subrange(0, read_index_ops(s, n - k)),
                chained ==> ops@.len() == read_ops(s, n - k),
                chained ==> forall|t: int| 0 <= t < ops@.len() ==> deep_op(#[trigger] ops@[t]) == s.ops[t],
                chained ==> (batch is Some <==> (s.batch is Some && n - k >= 2 + s.index_ops.len() + s.ops.len())),
                chained ==> (batch is Some ==> batch == s.batch),
            decreases k,
        {
            let id = reversed[k - 1];
            let node = match plan.node(id) {
                Ok(n) => n,
                Err(e) => {
                    return Err(VisionError::InvalidPipeline(plan_error_message(e)));
                },
            };
            let ghost j = n - k;
            let ghost st = RestoredParts { source, index_ops: index_ops@, ops: gops, batch };
            let ghost gops_before = gops;
            let ghost index_before = index_ops@;
            proof {
                if chained {
                    assert(id.0 == j);
                }
                assert(reversed@[reversed@.len() - (j + 1)] == id);
                assert(read_path(nodes, root, reversed@, (j + 1) as nat) == read_node(nodes, root, st, id));
                if read_node(nodes, root, st, id) is Err {
                    lemma_read_path_err_sticks(nodes, root, reversed@, (j + 1) as nat, n as nat);
                }
            }
            match node.kind {
                NodeKind::Source => {
                    if source.is_some() {
                        return Err(unexpected_node(node.kind, id));
                    }
                    match &node.payload {
                        Some(VisionPayload::Source(src)) => {
                            source = Some(*src);
                        },
                        _ => {
                            return Err(incompatible_payload(id));
                        },
                    }
                },
                NodeKind::Index => match &node.payload {
                    Some(VisionPayload::Index(op)) => {
                        proof {
                            if chained {
                                assert(1 <= j < 1 + s.index_ops.len());
                                assert(s.index_ops.subrange(0, read_index_ops(s, j + 1)) =~= s.index_ops.subrange(
                                    0,
                                    read_index_ops(s, j),
                                ).push(s.index_ops[j - 1]));
                            }
                        }
                        index_ops.push(*op);
                    },
                    _ => {
                        return Err(incompatible_payload(id));
                    },
                },
                NodeKind::Op => match &node.payload {
                    Some(VisionPayload::FusionGroup(group)) => {
                        proof {
                            if chained {
                                assert(false);
                            }
                        }
                        let mut g: usize = 0;
                        proof {
                            lemma_deep_prefix_index(group.ops@, group.ops@.len());
                        }
                        while g < group.ops.len()
                            invariant
                                !chained,
                                0 <= g <= group.ops@.len(),
                                ops@.len() == gops_before.len() + g,
                                forall|t: int| 0 <= t < ops@.len() ==> deep_op(#[trigger] ops@[t]) == (gops_before + deep_ops(group.ops@))[t],
                                deep_ops(group.ops@).len() == group.ops@.len(),
                                forall|t: int| 0 <= t < group.ops@.len() ==> deep_ops(group.ops@)[t] == deep_op(#[trigger] group.ops@[t]),
                            decreases group.ops@.len() - g,
                        {
                            let ghost before = ops@;
                            ops.push(copy_op(&group.ops[g]));
                            proof {
                                assert forall|t: int| 0 <= t < ops@.len() implies deep_op(#[trigger] ops@[t]) == (gops_before + deep_ops(group.ops@))[t] by {
                                    if t < before.len() {
                                        assert(ops@[t] == before[t]);
                                    }
                                }
                            }
                            g += 1;
                        }
                        proof {
                            gops = gops_before + deep_ops(group.ops@);
                        }
                    },
                    Some(VisionPayload::Image(op)) => {
                        proof {
                            if chained {
                                assert(1 + s.index_ops.len() <= j < 1 + s.index_ops.len() + s.ops.len());
                            }
                        }
                        let ghost before = ops@;
                        ops.push(copy_op(op));
                        proof {
                            gops = gops_before.push(deep_op(*op));
                            assert forall|t: int| 0 <= t < ops@.len() implies deep_op(#[trigger] ops@[t]) == gops[t] by {
                                if t < before.len() {
                                    assert(ops@[t] == before[t]);
                                }
                            }
                        }
                    },
                    _ => {
                        return Err(incompatible_payload(id));
                    },
                },
                NodeKind::Batch => {
                    if batch.is_some() {
                        return Err(unexpected_node(node.kind, id));
                    }
                    match &node.payload {
                        Some(VisionPayload::Batch(b)) => {
                            proof {
                                if chained {
                                    assert(j == 1 + s.index_ops.len() + s.ops.len());
                                }
                            }
                            batch = Some(*b);
                        },
                        _ => {
                            return Err(incompatible_payload(id));
                        },
                    }
                },
                NodeKind::Sink => {
                    if id.0 != last.0 {
                        return Err(unexpected_node(node.kind, id));
                    }
                    proof {
                        if chained {
                            assert(j == total - 1);
                        }
                    }
                },
                _ => {
                    return Err(unexpected_node(node.kind, id));
                },
            }
            proof {
                assert(index_ops@ =~= match read_node(nodes, root, st, id) {
                    Ok(x) => x.index_ops,
                    Err(_) => index_ops@,
                });
                assert(read_path(nodes, root, reversed@, (j + 1) as nat) == Ok::<RestoredParts, Seq<char>>(
                    (RestoredParts { source, index_ops: index_ops@, ops: gops, batch }),
                ));
            }
            k -= 1;
        }
        let source = match source {
            Some(src) => src,
            None => {
                proof {
                    reveal_strlit("logical plan has no source node");
                }
                return Err(VisionError::InvalidPipeline(owned("logical plan has no source node")));
            },
        };
        let restored = ImagePipeline {
            source,
            index_ops,
            ops,
            batch,
            runtime: context.runtime,
            epoch: context.epoch,
            global_seed: context.global_seed,
        };
        proof {
            crate::vision::image_op::lemma_deep_prefix_index(restored.ops@, restored.ops@.len());
            assert forall|t: int| 0 <= t < gops.len() implies #[trigger] deep_ops(restored.ops@)[t] == gops[t] by {
                assert(deep_op(restored.ops@[t]) == gops[t]);
            }
            assert(deep_ops(restored.ops@) =~= gops);
            if chained {
                assert(read_ops(s, n as int) == s.ops.len());
                assert(restored.ops@.len() == s.ops.len());
                assert forall|t: int| 0 <= t < s.ops.len() implies #[trigger] deep_ops(restored.ops@)[t] == s.ops[t] by {
                    assert(deep_op(restored.ops@[t]) == s.ops[t]);
                }
                assert(deep_ops(restored.ops@) =~= s.ops);
                assert(restored.index_ops@ =~= s.index_ops);
                assert(shape_of(restored) == s);
            }
        }
        Ok(restored)
    }
}

/// Seed of the first shuffle among `ops`; zero when there is none.
pub open spec fn first_shuffle_seed(ops: Seq<IndexOp>) -> u64
    decreases ops.len(),
{
    if ops.len() == 0 {
        0
    } else {
        match ops[0] {
            IndexOp::Shuffle { seed } => seed,
            _ => first_shuffle_seed(ops.drop_first()),
        }
    }
}

pub fn shuffle_seed(index_ops: &Vec<IndexOp>) -> (r: u64)
    ensures
        r == first_shuffle_seed(index_ops@),
{
    let mut i: usize = 0;
    assert(index_ops@.subrange(0, index_ops@.len() as int) =~= index_ops@);
    while i < index_ops.len()
        invariant
            0 <= i <= index_ops@.len(),
            first_shuffle_seed(index_ops@) == first_shuffle_seed(index_ops@.subrange(i as int, index_ops@.len() as int)),
        decreases index_ops@.len() - i,
    {
        let ghost rest = index_ops@.subrange(i as int, index_ops@.len() as int);
        match index_ops[i] {
            IndexOp::Shuffle { seed } => {
                return seed;
            },
            _ => {
                assert(rest.drop_first() =~= index_ops@.subrange(i + 1, index_ops@.len() as int));
            },
        }
        i += 1;
    }
    0
}

/// Everything the loader needs from a pipeline besides its source and
/// the sampler's permutation: the two compiled stages, the batch
/// configuration, the sampled window, the seed of the random namespace
/// and the epoch.
#[derive(Debug)]
pub struct CompiledPipeline {
    pub source: SourceOp,
    pub stages: CompiledImageOps,
    pub batch: BatchConfig,
    pub window: SamplerWindow,
    pub seed: u64,
    pub epoch: u64,
    pub input_state: PipelineImageState,
}

impl CompiledPipeline {
    /// Number of sample kernels produced by the compiler.
    pub fn sample_op_count(&self) -> (r: usize)
        ensures
            r == self.stages.sample_ops@.len(),
    {
        self.stages.sample_ops.len()
    }

    /// Number of batch kernels produced by the compiler.
    pub fn batch_op_count(&self) -> (r: usize)
        ensures
            r == self.stages.batch_ops@.len(),
    {
        self.stages.batch_ops.len()
    }

    /// Name of the first compiled sample kernel, for diagnostics.
    pub fn first_sample_op_name(&self) -> (r: Option<&'static str>)
        ensures
            r is None <==> self.stages.sample_ops@.len() == 0,
            r matches Some(n) ==> n@ == sample_kernel_name(self.stages.sample_ops@[0].kernel),
    {
        if self.stages.sample_ops.len() == 0 {
            None
        } else {
            Some(self.stages.sample_ops[0].name())
        }
    }

    /// Name of the first compiled batch kernel, for diagnostics.
    pub fn first_batch_op_name(&self) -> (r: Option<&'static str>)
        ensures
            r is None <==> self.stages.batch_ops@.len() == 0,
            r matches Some(n) ==> n@ == batch_kernel_name(self.stages.batch_ops@[0]),
    {
        if self.stages.batch_ops.len() == 0 {
            None
        } else {
            Some(self.stages.batch_ops[0].name())
        }
    }

    /// Whole batches can be read from the source when no sample kernel runs
    /// and the source serves batch reads.
    pub fn can_use_batch_native(&self) -> (r: bool)
        ensures
            r == (self.stages.sample_ops@.len() == 0 && self.source.batch_read),
    {
        self.stages.sample_ops.len() == 0 && self.source.supports_batch_read()
    }
}

impl ImagePipeline {
    /// Compiles the pipeline's operations, batch configuration and index
    /// operations. The seed is the pipeline's own, else the first shuffle's,
    /// else zero.
    pub fn compile_stages(self, defer_cuda_augmentations: bool) -> (r: Result<CompiledPipeline, VisionError>)
        requires
            seq_fits(self.ops@),
        ensures
            r is Ok <==> ({
                &&& stage_split(
                    self.ops@,
                    self.source.state,
                    self.runtime.num_workers as nat,
                    defer_cuda_augmentations,
                ) is Some
                &&& self.batch matches Some(b) && b.size > 0
                &&& shuffle_count(self.index_ops@, self.index_ops@.len()) <= 1
            }),
            r matches Ok(c) ==> ({
                let p = stage_split(
                    self.ops@,
                    self.source.state,
                    self.runtime.num_workers as nat,
                    defer_cuda_augmentations,
                ).unwrap();
                &&& c.stages.output_state == p.state
                &&& c.stages.pre_batch_state == match p.pre_batch {
                    Some(s) => s,
                    None => p.state,
                }
                &&& batch_names_of(c.stages.batch_ops@) == p.batch_names
                &&& batch_views_of(c.stages.batch_ops@) == p.batch_kernels
                &&& sample_names_of(c.stages.sample_ops@) == p.sample_names
                &&& sample_inputs_of(c.stages.sample_ops@) == p.sample_inputs
                &&& sample_keys_ok(c.stages.sample_ops@, p.sample_origins, self.ops@)
                &&& c.batch == self.batch.unwrap()
                &&& (c.window.start as int, c.window.end as int) == window_after(
                    self.index_ops@,
                    self.source.len as int,
                    self.index_ops@.len(),
                )
                &&& c.seed == match self.global_seed {
                    Some(s) => s,
                    None => first_shuffle_seed(self.index_ops@),
                }
                &&& c.epoch == self.epoch
                &&& c.input_state == self.source.state
                &&& c.source == self.source
            }),
            stage_error(self.ops@, self.source.state, self.runtime.num_workers as nat, defer_cuda_augmentations)
                matches Some(m) ==> (r matches Err(e) && error_text(e) == m),
            stage_split(self.ops@, self.source.state, self.runtime.num_workers as nat, defer_cuda_augmentations)
                is Some && self.batch is None ==> (r matches Err(e) && error_text(e)
                == "pipeline requires .batch(size)"@),
    {
        let input_state = self.source.state();
        let stages = match compile_image_ops(self.ops, input_state, self.runtime.num_workers, defer_cuda_augmentations) {
            Ok(s) => s,
            Err(e) => return Err(e),
        };
        let batch = match self.batch {
            Some(b) => b,
            None => {
                proof {
                    reveal_strlit("pipeline requires .batch(size)");
                }
                return Err(VisionError::InvalidPipeline(owned("pipeline requires .batch(size)")));
            },
        };
        match batch.validate() {
            Err(e) => return Err(e),
            Ok(()) => {},
        }
        let seed = match self.global_seed {
            Some(s) => s,
            None => shuffle_seed(&self.index_ops),
        };
        let window = match compile_sampler_window(self.source.len(), self.index_ops.as_slice()) {
            Ok(w) => w,
            Err(e) => return Err(e),
        };
        Ok(CompiledPipeline { source: self.source, stages, batch, window, seed, epoch: self.epoch, input_state })
    }
}

pub open spec fn inference_error_text(e: InferenceError) -> Seq<char> {
    match e {
        InferenceError::InvalidPlan(pe) => "invalid logical plan: "@ + plan_error_text(pe),
        InferenceError::Node { node, message } => "property inference failed at node %"@ + decimal(
            node.0 as nat,
        ) + ": "@ + message@,
        InferenceError::Cycle(node) => "property inference found a cycle at node %"@ + decimal(
            node.0 as nat,
        ),
    }
}

/// Text of a property inference error.
pub fn inference_error_message(error: InferenceError) -> (r: String)
    ensures
        r@ == inference_error_text(error),
{
    proof {
        reveal_strlit("invalid logical plan: ");
        reveal_strlit("property inference failed at node %");
        reveal_strlit(": ");
        reveal_strlit("property inference found a cycle at node %");
    }
    let mut m = String::new();
    match error {
        InferenceError::InvalidPlan(pe) => {
            push_str(&mut m, "invalid logical plan: ");
            let text = plan_error_message(pe);
            push_str(&mut m, text.as_str());
        },
        InferenceError::Node { node, message } => {
            push_str(&mut m, "property inference failed at node %");
            push_decimal(&mut m, node.0);
            push_str(&mut m, ": ");
            push_str(&mut m, message.as_str());
        },
        InferenceError::Cycle(node) => {
            push_str(&mut m, "property inference found a cycle at node %");
            push_decimal(&mut m, node.0);
        },
    }
    m
}

/// The pipeline error for a failed property inference.
pub fn inference_error(error: InferenceError) -> (r: VisionError)
    ensures
        r is InvalidPipeline,
        error_text(r) == inference_error_text(error),
{
    VisionError::InvalidPipeline(inference_error_message(error))
}

impl ImagePipeline {
    /// Infers the properties of every node of the plan the pipeline lowers
    /// to, with its own number of sample workers.
    pub fn infer_properties(&self) -> (r: Result<PropertyAnnotations, VisionError>)
        ensures
            exists|plan: LogicalPlan<VisionPayload>|
                {
                    &&& #[trigger] chain_of(plan, shape_of(*self))
                    &&& (r is Ok <==> inferred_prefix(
                        VisionPropertyInference { num_workers: self.runtime.num_workers },
                        plan.spec_nodes(),
                        plan.spec_nodes().len(),
                    ) is Some)
                    &&& (r matches Ok(a) ==> a@ == annotations_of(
                        inferred_prefix(
                            VisionPropertyInference { num_workers: self.runtime.num_workers },
                            plan.spec_nodes(),
                            plan.spec_nodes().len(),
                        ).unwrap(),
                    ))
                },
            r matches Err(e) ==> e is InvalidPipeline,
    {
        let plan = self.to_logical_plan();
        let inference = VisionPropertyInference::new(self.runtime.num_workers);
        let r = match plan.infer_properties(&inference) {
            Ok(a) => Ok(a),
            Err(e) => Err(inference_error(e)),
        };
        proof {
            assert(chain_of(plan, shape_of(*self)));
        }
        r
    }
}

} // verus!
