use lib::optimizer::PhysicalCandidate;
use lib::placement::{
    byte_size, compatible_kernels, first_min, kernel_parallelism, KernelClass, PlacementError,
    PlacementWalk, place_node,
};
use lib::plan::{LogicalNode, LogicalPlan, NodeId, NodeKind};
use lib::properties::{
    AxisOrder, Contiguity, DataType, DeviceClass, OperatorProperties, OperatorStage,
    PropertyAnnotations, ShapeDim, ValueProperties, ValueShape,
};
use lib::vision::image_op::{ImageOp, PipelineImageState};
use lib::vision::logical::{SourceOp, VisionPayload};
use lib::vision::planner::{
    crop_resize_candidate, flip_normalize_candidate, index_pushdown, is_identity_crop,
    is_identity_layout, normalize_layout_candidate, physical_candidate, pushdown_message,
    rewrite_diagnostic, semantic_rewrite, vision_kernel_capabilities, SemanticRewrite,
};
use lib::vision::transforms::{DType, ImageAxisOrder};

fn image(dtype: DataType, axis: AxisOrder, dims: Vec<ShapeDim>) -> ValueProperties {
    let mut p = ValueProperties::unknown().with_shape(dims);
    p.dtype = Some(dtype);
    p.axis_order = Some(axis);
    p
}

fn hwc_u8(h: usize, w: usize) -> ValueProperties {
    image(DataType::U8, AxisOrder::Hwc, vec![ShapeDim::Known(h), ShapeDim::Known(w), ShapeDim::Known(3)])
}

#[test]
fn known_full_image_crop_is_identity() {
    let p = hwc_u8(6, 8);
    assert!(is_identity_crop(&ImageOp::crop(0, 0, 8, 6), &p));
    assert!(is_identity_crop(&ImageOp::center_crop(8, 6), &p));
    assert!(!is_identity_crop(&ImageOp::crop(1, 0, 8, 6), &p));
    assert!(!is_identity_crop(&ImageOp::center_crop(6, 8), &p));
    let chw = image(DataType::U8, AxisOrder::Chw, vec![ShapeDim::Known(3), ShapeDim::Known(6), ShapeDim::Known(8)]);
    assert!(is_identity_crop(&ImageOp::center_crop(8, 6), &chw));
    let dynamic = image(DataType::U8, AxisOrder::Hwc, vec![ShapeDim::Dynamic, ShapeDim::Known(8), ShapeDim::Known(3)]);
    assert!(!is_identity_crop(&ImageOp::center_crop(8, 6), &dynamic));
}

#[test]
fn identity_dtype_conversion_is_removed() {
    let p = hwc_u8(2, 2);
    assert_eq!(
        semantic_rewrite(&ImageOp::convert_image_dtype(DType::U8), Some(&p), 0, false),
        Some(SemanticRewrite::IdentityDtype)
    );
    assert_eq!(semantic_rewrite(&ImageOp::convert_image_dtype(DType::U8), None, 0, false), None);
}

#[test]
fn late_dtype_promotion_needs_a_single_normalize_consumer() {
    let p = hwc_u8(2, 2);
    assert_eq!(
        semantic_rewrite(&ImageOp::convert_image_dtype(DType::F32), Some(&p), 0, true),
        Some(SemanticRewrite::LatePromotion)
    );
    assert_eq!(semantic_rewrite(&ImageOp::convert_image_dtype(DType::F32), Some(&p), 0, false), None);
}

#[test]
fn late_dtype_promotion_preserves_worker_batch_barrier() {
    let mut p = hwc_u8(2, 2);
    p.operator = Some(OperatorProperties { stage: OperatorStage::Sample, sample_stage_has_work: true });
    assert_eq!(semantic_rewrite(&ImageOp::convert_image_dtype(DType::F32), Some(&p), 2, true), None);
    assert_eq!(semantic_rewrite(&ImageOp::convert_image_dtype(DType::U8), Some(&p), 2, true), None);
    assert_eq!(
        semantic_rewrite(&ImageOp::convert_image_dtype(DType::F32), Some(&p), 0, true),
        Some(SemanticRewrite::LatePromotion)
    );
}

#[test]
fn rewrite_diagnostics_name_the_node() {
    let (code, message) = rewrite_diagnostic(SemanticRewrite::IdentityDtype, NodeId(12));
    assert_eq!(code, "rewrite.identity-dtype");
    assert_eq!(message, "removed identity ConvertImageDtype at node %12");
    let (code, message) = rewrite_diagnostic(SemanticRewrite::IdentityCrop, NodeId(3));
    assert_eq!(code, "rewrite.identity-crop");
    assert!(message.starts_with("removed full-image crop at node %3 using known input shape"));
}

#[test]
fn identity_layout_matches_input_axis_order() {
    let p = hwc_u8(2, 2);
    assert!(is_identity_layout(&ImageOp::chw_to_hwc(), Some(&p)));
    assert!(!is_identity_layout(&ImageOp::hwc_to_chw(), Some(&p)));
    assert!(!is_identity_layout(&ImageOp::chw_to_hwc(), None));
}

#[test]
fn index_nodes_must_precede_image_nodes() {
    let ok = vec![
        (NodeId(0), NodeKind::Source, false),
        (NodeId(1), NodeKind::Index, true),
        (NodeId(2), NodeKind::Index, true),
        (NodeId(3), NodeKind::Op, false),
        (NodeId(4), NodeKind::Sink, false),
    ];
    assert_eq!(index_pushdown(&ok), Ok(2));
    assert_eq!(
        pushdown_message(2),
        "2 Skip/Take/Shuffle operation(s) are compiled into the source sampler before reads and image transforms"
    );
    let late = vec![
        (NodeId(0), NodeKind::Source, false),
        (NodeId(1), NodeKind::Op, false),
        (NodeId(2), NodeKind::Index, true),
    ];
    assert_eq!(
        index_pushdown(&late).unwrap_err(),
        "index node %2 occurs after an image transform; source pushdown cannot preserve the declared plan order"
    );
    let missing = vec![(NodeId(0), NodeKind::Source, false), (NodeId(1), NodeKind::Index, false)];
    assert_eq!(index_pushdown(&missing).unwrap_err(), "index node %1 has no vision IndexOp");
}

#[test]
fn optimizer_discovers_legal_normalize_layout_fusion() {
    let p = hwc_u8(2, 2);
    let candidate = normalize_layout_candidate(NodeId(2), NodeId(3), ImageAxisOrder::Chw, Some(&p), 0);
    assert!(candidate.legal);
    assert_eq!(candidate.name, "NormalizeToChw");
    assert_eq!(candidate.nodes, vec![NodeId(2), NodeId(3)]);
    assert!(candidate.reason.ends_with("properties satisfy the rule"));
}

#[test]
fn optimizer_rejects_normalize_layout_fusion_after_worker_sample_ops() {
    let mut p = hwc_u8(2, 2);
    p.operator = Some(OperatorProperties { stage: OperatorStage::Sample, sample_stage_has_work: true });
    let candidate = normalize_layout_candidate(NodeId(2), NodeId(3), ImageAxisOrder::Chw, Some(&p), 4);
    assert!(!candidate.legal);
    assert!(candidate.reason.ends_with("inferred properties do not satisfy the rule"));
}

#[test]
fn fusion_discovery_records_unsafe_or_unimplemented_reorders() {
    let crop = crop_resize_candidate(NodeId(1), NodeId(2));
    assert!(!crop.legal);
    assert_eq!(crop.name, "CropResize");
    let p = hwc_u8(2, 2);
    let flip = flip_normalize_candidate(NodeId(2), NodeId(3), Some(&p));
    assert!(!flip.legal);
    assert!(flip.reason.starts_with("spatial flip commutes"));
    let unknown = flip_normalize_candidate(NodeId(2), NodeId(3), None);
    assert!(unknown.reason.starts_with("requires known U8 HWC input"));
}

#[test]
fn physical_candidates_follow_node_kind_and_payload() {
    let source = VisionPayload::Source(SourceOp::new(PipelineImageState::Encoded, 1, false));
    assert_eq!(physical_candidate(NodeKind::Source, Some(&source), None), Some("vision-source-read"));
    assert_eq!(physical_candidate(NodeKind::Sink, None, None), Some("vision-output-sink"));
    let op = VisionPayload::Image(ImageOp::invert());
    assert_eq!(physical_candidate(NodeKind::Op, Some(&op), None), None);
    let p = hwc_u8(1, 1);
    assert_eq!(physical_candidate(NodeKind::Op, Some(&op), Some(&p)), Some("vision-image-cpu"));
    let _unused = PhysicalCandidate { name: String::new(), backend: String::new() };
}

#[test]
fn vision_kernels_cover_every_node_kind() {
    let caps = vision_kernel_capabilities(64);
    let kernels = caps.iter();
    assert_eq!(kernels.len(), 10);
    assert_eq!(kernels[0].name, "vision::Source-cpu-Source");
    assert_eq!(kernels[3].fusion_tags, vec!["Normalize".to_owned(), "Layout".to_owned()]);
    assert_eq!(kernels[8].name, "rivet::Sink-cpu-Batch");
    assert_eq!(kernels[9].class, KernelClass::Fused);
    assert_eq!(kernels[9].alignment_bytes, 64);
}

fn sink_plan() -> LogicalPlan<VisionPayload> {
    let mut plan = LogicalPlan::new();
    let source = plan.add_node(LogicalNode::new(
        NodeKind::Source,
        vec![],
        Some(VisionPayload::Source(SourceOp::new(PipelineImageState::Encoded, 1, false))),
    ));
    let sink = plan.add_node(LogicalNode::new(NodeKind::Sink, vec![source], None));
    plan.set_root(sink).unwrap();
    plan
}

fn staged(stage: OperatorStage) -> ValueProperties {
    let mut p = ValueProperties::unknown();
    p.operator = Some(OperatorProperties { stage, sample_stage_has_work: false });
    p
}

#[test]
fn unregistered_kernel_is_not_selected() {
    let plan = sink_plan();
    let caps = vision_kernel_capabilities(64);
    let mut annotations = PropertyAnnotations::new();
    annotations.insert(NodeId(0), staged(OperatorStage::Source));
    annotations.insert(NodeId(1), staged(OperatorStage::Source));
    let devices = vec![DeviceClass::Cpu];
    let source = compatible_kernels(&plan, NodeId(0), &annotations, &caps, &devices, &None, false).unwrap();
    assert_eq!(source.len(), 1);
    assert_eq!(source[0].name, "vision::Source-cpu-Source");
    let sink = compatible_kernels(&plan, NodeId(1), &annotations, &caps, &devices, &None, true).unwrap();
    assert_eq!(sink.len(), 1);
    assert_eq!(sink[0].name, "rivet::Sink-cpu-Source");
    let none = vec![];
    match compatible_kernels(&plan, NodeId(0), &annotations, &caps, &none, &None, false) {
        Err(PlacementError::NoKernel { node, reason }) => {
            assert_eq!(node, 0);
            assert_eq!(reason, "registered kernels do not match properties or available devices");
        }
        _ => panic!("expected no kernel"),
    }
}

#[test]
fn placement_rejects_cuda_sink_without_registered_cuda_kernels() {
    let plan = sink_plan();
    let caps = vision_kernel_capabilities(64);
    let mut annotations = PropertyAnnotations::new();
    annotations.insert(NodeId(1), staged(OperatorStage::Source));
    let devices = vec![DeviceClass::Cpu, DeviceClass::Cuda];
    match compatible_kernels(&plan, NodeId(1), &annotations, &caps, &devices, &Some(DeviceClass::Cuda), true) {
        Err(PlacementError::SinkDeviceUnavailable { device }) => assert_eq!(device, DeviceClass::Cuda),
        _ => panic!("expected an unavailable sink device"),
    }
}

#[test]
fn cheapest_candidate_wins_and_ties_keep_the_first() {
    assert_eq!(first_min(&vec![5, 3, 3, 9]), 1);
    assert_eq!(first_min(&vec![7]), 0);
    assert_eq!(first_min(&vec![-1, -4, 0]), 1);
}

#[test]
fn parallel_kernels_use_every_cpu_thread() {
    assert_eq!(kernel_parallelism(true, 8), 8);
    assert_eq!(kernel_parallelism(true, 0), 1);
    assert_eq!(kernel_parallelism(false, 8), 1);
}

#[test]
fn cuda_sink_placement_costs_one_explicit_transfer_boundary() {
    let mut walk = PlacementWalk::new();
    assert!(!walk.visit(NodeId(0), &DeviceClass::Cpu));
    assert!(!walk.visit(NodeId(1), &DeviceClass::Cpu));
    assert!(walk.visit(NodeId(2), &DeviceClass::Cuda));
    let boundaries = walk.finish().unwrap();
    assert_eq!(boundaries.len(), 1);
    assert_eq!(boundaries[0].0, NodeId(2));

    let mut back_and_forth = PlacementWalk::new();
    back_and_forth.visit(NodeId(0), &DeviceClass::Cpu);
    back_and_forth.visit(NodeId(1), &DeviceClass::Cuda);
    back_and_forth.visit(NodeId(2), &DeviceClass::Cpu);
    assert!(matches!(back_and_forth.finish(), Err(PlacementError::TooManyTransferBoundaries)));
}

#[test]
fn byte_size_multiplies_known_dims_by_element_width() {
    assert_eq!(byte_size(&hwc_u8(4, 5)), Some(60));
    let f32_image = image(DataType::F32, AxisOrder::Chw, vec![ShapeDim::Known(3), ShapeDim::Known(2), ShapeDim::Known(2)]);
    assert_eq!(byte_size(&f32_image), Some(48));
    let dynamic = image(DataType::U8, AxisOrder::Hwc, vec![ShapeDim::Dynamic]);
    assert_eq!(byte_size(&dynamic), None);
    let huge = image(DataType::F64, AxisOrder::Hwc, vec![ShapeDim::Known(usize::MAX), ShapeDim::Known(usize::MAX)]);
    assert_eq!(byte_size(&huge), None);
    let _ = ValueShape(vec![]);
    let _ = Contiguity::Unknown;
}

#[test]
fn placement_step_takes_the_first_cheapest_kernel() {
    let caps = vision_kernel_capabilities(64);
    let kernels = caps.iter();
    let compatible = vec![&kernels[8], &kernels[0], &kernels[9]];
    let mut walk = PlacementWalk::new();
    let (index, parallelism) = place_node(&mut walk, NodeId(4), &compatible, &vec![9, 2, 2], 8);
    assert_eq!(index, 1);
    assert_eq!(parallelism, if kernels[0].parallel { 8 } else { 1 });
    assert_eq!(walk.previous, Some(kernels[0].device.clone()));
    assert!(walk.boundaries.is_empty());
}
