use lib::optimizer::{optimize, OptimizerError, PlanRegistry};
use lib::plan::{LogicalNode, LogicalPlan, NodeKind};
use lib::vision::passes::VisionPlanningPlugin;
use lib::vision::image_op::{ImageOp, PipelineImageState};
use lib::vision::index_op::IndexOp;
use lib::vision::logical::{FusionGroupPayload, ImagePipelineContext, SourceOp, VisionPayload};
use lib::vision::runtime::RuntimeConfig;
use lib::vision::pipeline::ImagePipeline;
use lib::vision::transforms::{DType, ImageAxisOrder};

fn stub(len: usize) -> ImagePipeline {
    ImagePipeline::from_source(SourceOp::new(PipelineImageState::Encoded, len, false))
}

fn normalize(mean: &[f32], std: &[f32]) -> ImageOp {
    ImageOp::Normalize {
        mean_bits: mean.iter().map(|v| v.to_bits()).collect(),
        std_bits: std.iter().map(|v| v.to_bits()).collect(),
    }
}

#[test]
fn image_pipeline_logical_round_trip_preserves_builder_configuration() {
    let built = stub(10)
        .skip(2)
        .take(5)
        .shuffle(17)
        .decode_image()
        .resize(8, 6)
        .with_op(ImageOp::RandomHorizontalFlip { probability_bits: 0.25f64.to_bits() })
        .with_op(normalize(&[0.1, 0.2, 0.3], &[1.0; 3]))
        .hwc_to_chw()
        .workers(3)
        .prefetch_batches(4)
        .stage_queue_max_bytes(16_384)
        .seed(91)
        .epoch(7)
        .batch(2, true);

    let logical = built.to_logical_plan();
    let explain = logical.explain().unwrap();
    assert!(explain.contains("LogicalPlan(root="));
    assert!(explain.contains("Source vision::Source"));
    assert!(explain.contains("Op vision::ImageOp"));
    assert!(explain.contains("Batch vision::BatchConfig"));
    assert!(explain.contains("Sink <-"));

    let restored = ImagePipeline::from_logical_plan(&logical).unwrap();
    assert_eq!(restored.index_ops.len(), 3);
    assert_eq!(
        restored.ops.iter().map(|op| op.name()).collect::<Vec<_>>(),
        ["Decode", "Resize", "RandomHorizontalFlip", "Normalize", "Layout"]
    );
    assert_eq!(restored.batch.unwrap().size, 2);
    assert!(restored.batch.unwrap().drop_last);
    assert_eq!(restored.runtime.num_workers, 3);
    assert_eq!(restored.runtime.prefetch_batches, 4);
    assert_eq!(restored.runtime.stage_queue_max_bytes, 16_384);
    assert_eq!(restored.epoch, 7);
    assert_eq!(restored.global_seed, Some(91));
}

#[test]
fn restoring_requires_a_vision_context() {
    let mut plan: LogicalPlan<VisionPayload> = LogicalPlan::new();
    let source = plan.add_node(LogicalNode::new(
        NodeKind::Source,
        vec![],
        Some(VisionPayload::Source(SourceOp::new(PipelineImageState::Encoded, 1, false))),
    ));
    plan.set_root(source).unwrap();
    let err = ImagePipeline::from_logical_plan(&plan).unwrap_err().to_text();
    assert_eq!(err, "invalid pipeline: logical plan has no vision pipeline context");
}

#[test]
fn restoring_rejects_an_invalid_plan() {
    let plan: LogicalPlan<VisionPayload> = LogicalPlan::new();
    let err = ImagePipeline::from_logical_plan(&plan).unwrap_err().to_text();
    assert_eq!(err, "invalid pipeline: invalid logical plan: plan has no root");
}

#[test]
fn compile_stages_requires_a_batch() {
    let err = stub(4).decode_image().compile_stages(false).unwrap_err().to_text();
    assert!(err.contains("pipeline requires .batch(size)"), "got: {err}");
}

#[test]
fn zero_batch_size_rejected_at_compile() {
    let err = stub(4).decode_image().batch(0, false).compile_stages(false).unwrap_err().to_text();
    assert!(err.contains("batch size must be greater than 0"), "got: {err}");
}

#[test]
fn compile_stages_uses_shuffle_seed_when_pipeline_seed_is_absent() {
    let compiled = stub(10)
        .skip(2)
        .take(5)
        .shuffle(17)
        .decode_image()
        .batch(2, false)
        .compile_stages(false)
        .unwrap();
    assert_eq!(compiled.seed, 17);
    assert_eq!(compiled.window.start, 2);
    assert_eq!(compiled.window.end, 7);
    assert_eq!(compiled.window.shuffle_seed, Some(17));
    assert_eq!(
        compiled.stages.output_state,
        PipelineImageState::Decoded { dtype: DType::U8, axis_order: ImageAxisOrder::Hwc }
    );

    let seeded = stub(10).shuffle(17).seed(5).decode_image().batch(2, false).compile_stages(false).unwrap();
    assert_eq!(seeded.seed, 5);
    let unshuffled = stub(10).decode_image().batch(2, false).compile_stages(false).unwrap();
    assert_eq!(unshuffled.seed, 0);
    assert_eq!(unshuffled.window.shuffle_seed, None);
}

#[test]
fn skip_take_shuffle_are_compiled_before_source_reads() {
    let compiled = stub(10)
        .skip(3)
        .take(4)
        .shuffle(9)
        .decode_image()
        .batch(2, false)
        .compile_stages(false)
        .unwrap();
    assert_eq!((compiled.window.start, compiled.window.end), (3, 7));
    let err = stub(10).shuffle(1).shuffle(2).decode_image().batch(2, false).compile_stages(false).unwrap_err();
    assert!(err.to_text().contains("multiple shuffle ops are not supported"));
}

#[test]
fn property_inference_tracks_resize_layout_and_batch_properties() {
    let annotations = stub(4)
        .decode_image()
        .resize(8, 6)
        .hwc_to_chw()
        .batch(2, false)
        .infer_properties()
        .unwrap();
    assert_eq!(annotations.iter().len(), 6);
}

#[test]
fn logical_plan_nodes_follow_declaration_order() {
    let pipeline = stub(3).skip(1).decode_image().batch(1, false);
    let plan = pipeline.to_logical_plan();
    assert_eq!(plan.len(), 5);
    let kinds: Vec<NodeKind> = (0..plan.len())
        .map(|i| plan.node(lib::plan::NodeId(i)).unwrap().kind())
        .collect();
    assert_eq!(
        kinds,
        [NodeKind::Source, NodeKind::Index, NodeKind::Op, NodeKind::Batch, NodeKind::Sink]
    );
    match plan.node(lib::plan::NodeId(1)).unwrap().payload() {
        Some(VisionPayload::Index(IndexOp::Skip { count })) => assert_eq!(*count, 1),
        _ => panic!("expected the skip operation"),
    }
}

#[test]
fn compiled_pipeline_reports_its_kernels() {
    let compiled = stub(4).decode_image().batch(2, false).compile_stages(false).unwrap();
    assert_eq!(compiled.sample_op_count(), 1);
    assert_eq!(compiled.batch_op_count(), 0);
    assert_eq!(compiled.first_sample_op_name(), Some("Decode"));
    assert_eq!(compiled.first_batch_op_name(), None);
    assert!(!compiled.can_use_batch_native());

    let decoded = PipelineImageState::Decoded { dtype: DType::U8, axis_order: ImageAxisOrder::Hwc };
    let native = ImagePipeline::from_source(SourceOp::new(decoded, 4, true))
        .batch(2, false)
        .compile_stages(false)
        .unwrap();
    assert_eq!(native.sample_op_count(), 0);
    assert_eq!(native.first_sample_op_name(), None);
    assert!(native.can_use_batch_native());

    let normalized = ImagePipeline::from_source(SourceOp::new(decoded, 4, false))
        .with_op(normalize(&[0.5; 3], &[0.5; 3]))
        .batch(2, false)
        .compile_stages(false)
        .unwrap();
    assert_eq!(normalized.batch_op_count(), 1);
    assert_eq!(normalized.first_batch_op_name(), Some("Normalize"));
    assert!(!normalized.can_use_batch_native());
}

fn context_plan() -> LogicalPlan<VisionPayload> {
    let mut plan: LogicalPlan<VisionPayload> = LogicalPlan::new();
    plan.set_context(VisionPayload::Context(ImagePipelineContext {
        runtime: RuntimeConfig::default(),
        epoch: 3,
        global_seed: None,
    }));
    plan
}

#[test]
fn restoring_reads_fusion_groups_and_reports_structural_errors() {
    let mut plan = context_plan();
    let source = plan.add_node(LogicalNode::new(
        NodeKind::Source,
        vec![],
        Some(VisionPayload::Source(SourceOp::new(PipelineImageState::Encoded, 5, false))),
    ));
    let group = plan.add_node(LogicalNode::new(
        NodeKind::Op,
        vec![source],
        Some(VisionPayload::FusionGroup(FusionGroupPayload {
            name: "group",
            ops: vec![ImageOp::Decode, ImageOp::Grayscale { num_output_channels: 1 }],
        })),
    ));
    let sink = plan.add_node(LogicalNode::new(NodeKind::Sink, vec![group], None));
    plan.set_root(sink).unwrap();
    let restored = ImagePipeline::from_logical_plan(&plan).unwrap();
    assert_eq!(restored.ops.iter().map(|op| op.name()).collect::<Vec<_>>(), ["Decode", "Grayscale"]);
    assert_eq!(restored.epoch, 3);
    assert!(restored.batch.is_none());

    let mut joined = context_plan();
    let a = joined.add_node(LogicalNode::new(NodeKind::Source, vec![], None));
    let b = joined.add_node(LogicalNode::new(NodeKind::Source, vec![], None));
    let join = joined.add_node(LogicalNode::new(NodeKind::Op, vec![a, b], None));
    joined.set_root(join).unwrap();
    let err = ImagePipeline::from_logical_plan(&joined).unwrap_err().to_text();
    assert_eq!(err, "invalid pipeline: vision lowering expects one input at node %2");

    let mut sourceless = context_plan();
    let op = sourceless.add_node(LogicalNode::new(NodeKind::Op, vec![], Some(VisionPayload::Image(ImageOp::Decode))));
    sourceless.set_root(op).unwrap();
    let err = ImagePipeline::from_logical_plan(&sourceless).unwrap_err().to_text();
    assert_eq!(err, "invalid pipeline: logical plan has no source node");

    let mut bare = context_plan();
    let s = bare.add_node(LogicalNode::new(NodeKind::Source, vec![], None));
    bare.set_root(s).unwrap();
    let err = ImagePipeline::from_logical_plan(&bare).unwrap_err().to_text();
    assert_eq!(err, "invalid pipeline: logical node %0 has an incompatible payload");
}

#[test]
fn deferred_flips_fuse_into_the_normalize_kernel() {
    let decoded = PipelineImageState::Decoded { dtype: DType::U8, axis_order: ImageAxisOrder::Hwc };
    let pipeline = || {
        ImagePipeline::from_source(SourceOp::new(decoded, 4, false))
            .horizontal_flip()
            .with_op(normalize(&[0.5; 3], &[0.5; 3]))
            .hwc_to_chw()
            .batch(2, false)
    };
    let fused = pipeline().compile_stages(true).unwrap();
    assert_eq!(fused.sample_op_count(), 0);
    assert_eq!(fused.first_batch_op_name(), Some("VisionAugmentNormalizeToChw"));
    assert_eq!(
        fused.stages.output_state,
        PipelineImageState::Decoded { dtype: DType::F32, axis_order: ImageAxisOrder::Chw }
    );
    let plain = pipeline().compile_stages(false).unwrap();
    assert_eq!(plain.first_sample_op_name(), Some("Flip"));
    assert_eq!(plain.first_batch_op_name(), Some("NormalizeToChw"));
}

fn decoded_stub() -> ImagePipeline {
    ImagePipeline::from_source(SourceOp::new(
        PipelineImageState::Decoded { dtype: DType::U8, axis_order: ImageAxisOrder::Hwc },
        1,
        false,
    ))
}

fn vision_registry(workers: usize) -> PlanRegistry<VisionPayload> {
    let mut registry = PlanRegistry::default();
    registry.register_plugin(&VisionPlanningPlugin { workers });
    registry
}

#[test]
fn logical_round_trip_preserves_compile_errors() {
    let invalid = || stub(10).resize(8, 8).batch(4, false);
    let legacy_error = match invalid().compile_stages(false) {
        Err(error) => error.to_text(),
        Ok(_) => panic!("expected a legacy compile error"),
    };
    let mut plan = invalid().to_logical_plan();
    let logical_error = match optimize(&mut plan, &vision_registry(0)) {
        Err(OptimizerError::Pass { message, .. }) => message,
        _ => panic!("expected a logical compile error"),
    };
    assert!(logical_error.contains("node %1"), "got: {logical_error}");
    assert!(
        logical_error.contains(legacy_error.strip_prefix("invalid pipeline: ").unwrap_or(&legacy_error)),
        "legacy error: {legacy_error}; logical error: {logical_error}"
    );
}

#[test]
fn known_full_image_crop_is_removed_before_following_resize() {
    let original = decoded_stub().resize(1, 1).crop(0, 0, 1, 1).resize(2, 2).batch(1, false);
    let mut plan = original.to_logical_plan();
    let (context, _) = optimize(&mut plan, &vision_registry(0)).unwrap();
    assert!(context.diagnostics.iter().any(|diagnostic| {
        diagnostic.code == "rewrite.identity-crop" && diagnostic.message.contains("known input shape")
    }));
    let optimized = ImagePipeline::from_logical_plan(&plan).unwrap();
    assert_eq!(optimized.ops.iter().map(|op| op.name()).collect::<Vec<_>>(), ["Resize", "Resize"]);
}

#[test]
fn registering_a_plugin_appends_its_hooks_in_order() {
    let mut registry = vision_registry(0);
    assert_eq!(registry.passes().len(), 10);
    assert_eq!(registry.fusion_rules().len(), 1);
    assert!(registry.inference().is_some());
    registry.register_plugin(&VisionPlanningPlugin { workers: 2 });
    assert_eq!(registry.passes().len(), 20);
    let names: Vec<&str> = registry.passes().iter().map(|pass| pass.name()).collect();
    assert_eq!(names[0], "property-inference-validation");
    assert_eq!(names[7], "fusion-discovery");
    assert_eq!(names[10..], names[..10]);
    assert_eq!(registry.fusion_rules()[1].name(), "normalize-layout");
}
