use lib::optimizer::{
    absorb_result, fixed_point_step, optimize, pass_error, record_pass, runs_fusion_rules, Diagnostic,
    FixedPointStep, FusionRule, OptimizerContext, OptimizerError, OptimizerPass, PassResult,
    PhysicalCandidateProvider, PlanRegistry,
};
use lib::plan::{LogicalNode, LogicalPlan, NoPayload, NodeId, NodeKind, PlanError};
use lib::vision::image_op::{ImageOp, PipelineImageState};
use lib::vision::inference::VisionPropertyInference;
use lib::vision::logical::{SourceOp, VisionPayload};
use lib::vision::passes::{
    EliminateDeadNodes, EliminateIdentityLayout, FusionDiscovery, IndexSourcePushdown, InferProperties,
    NormalizeLayoutFusion, SemanticRewritePass, VisionPhysicalCandidates,
};
use lib::vision::pipeline::ImagePipeline;
use lib::vision::transforms::DType;

fn stub() -> ImagePipeline {
    ImagePipeline::from_source(SourceOp::new(PipelineImageState::Encoded, 4, false))
}

fn normalize() -> ImageOp {
    ImageOp::Normalize {
        mean_bits: vec![0.5f32.to_bits(); 3],
        std_bits: vec![0.5f32.to_bits(); 3],
    }
}

fn infer(plan: &mut LogicalPlan<VisionPayload>, context: &mut OptimizerContext, workers: usize) {
    InferProperties(VisionPropertyInference::new(workers)).run(plan, context).unwrap();
}

#[test]
fn preorder_lists_root_first_and_each_node_once() {
    let mut plan: LogicalPlan<NoPayload> = LogicalPlan::new();
    let a = plan.add_node(LogicalNode::new(NodeKind::Source, vec![], None));
    let b = plan.add_node(LogicalNode::new(NodeKind::Op, vec![a], None));
    let c = plan.add_node(LogicalNode::new(NodeKind::Op, vec![a, b], None));
    let _dead = plan.add_node(LogicalNode::new(NodeKind::Op, vec![a], None));
    let root = plan.add_node(LogicalNode::new(NodeKind::Sink, vec![c], None));
    plan.set_root(root).unwrap();
    assert_eq!(plan.preorder().unwrap(), vec![root, c, a, b]);
    assert!(matches!(LogicalPlan::<NoPayload>::new().preorder(), Err(PlanError::MissingRoot)));
}

#[test]
fn redirect_uses_rewires_consumers_and_root() {
    let mut plan: LogicalPlan<NoPayload> = LogicalPlan::new();
    let a = plan.add_node(LogicalNode::new(NodeKind::Source, vec![], None));
    let b = plan.add_node(LogicalNode::new(NodeKind::Op, vec![a], None));
    let c = plan.add_node(LogicalNode::new(NodeKind::Sink, vec![b, b], None));
    plan.set_root(c).unwrap();
    assert_eq!(plan.children(b).unwrap(), vec![c]);
    plan.redirect_uses(b, a).unwrap();
    assert_eq!(plan.node(c).unwrap().inputs(), &[a, a]);
    assert_eq!(plan.children(a).unwrap(), vec![b, c]);
    assert!(plan.children(b).unwrap().is_empty());
    assert!(matches!(plan.redirect_uses(NodeId(9), a), Err(PlanError::UnknownNode { index: 9 })));
}

#[test]
fn prune_unreachable_drops_dead_nodes_and_renumbers() {
    let mut plan: LogicalPlan<NoPayload> = LogicalPlan::new();
    let a = plan.add_node(LogicalNode::new(NodeKind::Source, vec![], None));
    let dead = plan.add_node(LogicalNode::new(NodeKind::Op, vec![a], None));
    let b = plan.add_node(LogicalNode::new(NodeKind::Op, vec![a], None));
    let _dead_too = plan.add_node(LogicalNode::new(NodeKind::Op, vec![dead], None));
    let root = plan.add_node(LogicalNode::new(NodeKind::Sink, vec![b, a], None));
    plan.set_root(root).unwrap();
    let map = plan.prune_unreachable().unwrap();
    assert_eq!(map, vec![Some(NodeId(0)), None, Some(NodeId(1)), None, Some(NodeId(2))]);
    assert_eq!(plan.len(), 3);
    assert_eq!(plan.root(), Some(NodeId(2)));
    assert_eq!(plan.node(NodeId(1)).unwrap().inputs(), &[NodeId(0)]);
    assert_eq!(plan.node(NodeId(2)).unwrap().inputs(), &[NodeId(1), NodeId(0)]);
    assert_eq!(plan.node(NodeId(2)).unwrap().kind(), NodeKind::Sink);
    assert!(plan.validate().is_ok());
    // A second pass keeps every node where it is.
    assert_eq!(plan.prune_unreachable().unwrap(), vec![Some(NodeId(0)), Some(NodeId(1)), Some(NodeId(2))]);
    assert!(matches!(LogicalPlan::<NoPayload>::new().prune_unreachable(), Err(PlanError::MissingRoot)));
}

#[test]
fn dead_node_elimination_reports_change_and_clears_annotations() {
    let mut plan = stub().decode_image().chw_to_hwc().batch(1, false).to_logical_plan();
    let mut context = OptimizerContext::new();
    infer(&mut plan, &mut context, 0);
    let unchanged = OptimizerPass::<VisionPayload>::run(&EliminateDeadNodes, &mut plan, &mut context).unwrap();
    assert!(!unchanged.changed);
    assert!(!context.annotations().iter().is_empty());
    EliminateIdentityLayout.run(&mut plan, &mut context).unwrap();
    infer(&mut plan, &mut context, 0);
    let len = plan.len();
    let result = OptimizerPass::<VisionPayload>::run(&EliminateDeadNodes, &mut plan, &mut context).unwrap();
    assert!(result.changed);
    assert_eq!(plan.len(), len - 1);
    assert!(context.annotations().iter().is_empty());
    assert_eq!(OptimizerPass::<VisionPayload>::name(&EliminateDeadNodes), "dead-node-elimination");
}

#[test]
fn inference_walks_dependencies_before_consumers() {
    let plan = stub().decode_image().resize(4, 4).batch(2, false).to_logical_plan();
    let properties = plan.infer_properties(&VisionPropertyInference::new(0)).unwrap();
    assert_eq!(properties.iter().len(), 5);
    assert!(properties.get(NodeId(0)).is_some());
}

#[test]
fn identity_layout_is_removed() {
    let mut plan = stub().decode_image().chw_to_hwc().batch(1, false).to_logical_plan();
    let mut context = OptimizerContext::new();
    infer(&mut plan, &mut context, 0);
    let result = EliminateIdentityLayout.run(&mut plan, &mut context).unwrap();
    assert!(result.changed);
    assert_eq!(context.diagnostics[0].code, "rewrite.identity-layout");
    assert_eq!(context.diagnostics[0].message, "removed redundant Layout at node %2");
    assert_eq!(plan.node(NodeId(3)).unwrap().inputs(), &[NodeId(1)]);
    assert!(context.annotations().iter().is_empty());
}

#[test]
fn identity_dtype_conversion_is_removed_from_the_plan() {
    let mut plan = stub()
        .decode_image()
        .convert_image_dtype(DType::U8)
        .batch(1, false)
        .to_logical_plan();
    let mut context = OptimizerContext::new();
    infer(&mut plan, &mut context, 0);
    let result = SemanticRewritePass { workers: 0 }.run(&mut plan, &mut context).unwrap();
    assert!(result.changed);
    assert_eq!(context.diagnostics[0].code, "rewrite.identity-dtype");
    assert_eq!(plan.node(NodeId(3)).unwrap().inputs(), &[NodeId(1)]);
}

#[test]
fn late_dtype_promotion_bypasses_conversion_before_normalize() {
    let mut plan = stub()
        .decode_image()
        .convert_image_dtype(DType::F32)
        .with_op(normalize())
        .batch(1, false)
        .to_logical_plan();
    let mut context = OptimizerContext::new();
    infer(&mut plan, &mut context, 0);
    let result = SemanticRewritePass { workers: 0 }.run(&mut plan, &mut context).unwrap();
    assert!(result.changed);
    assert_eq!(context.diagnostics[0].code, "rewrite.dtype-late-promotion");
    assert_eq!(plan.node(NodeId(3)).unwrap().inputs(), &[NodeId(1)]);
}

#[test]
fn index_pushdown_reports_index_operations() {
    let mut plan = stub().skip(1).take(2).decode_image().batch(1, false).to_logical_plan();
    let mut context = OptimizerContext::new();
    let result = IndexSourcePushdown.run(&mut plan, &mut context).unwrap();
    assert!(!result.changed);
    assert_eq!(result.diagnostics[0].code, "rewrite.index-source-pushdown");
    assert!(result.diagnostics[0].message.starts_with("2 Skip/Take/Shuffle operation(s)"));
    assert!(FusionDiscovery.run(&mut plan, &mut context).unwrap().diagnostics.is_empty());
}

#[test]
fn normalize_layout_fusion_is_discovered() {
    let mut plan = stub()
        .decode_image()
        .with_op(normalize())
        .hwc_to_chw()
        .batch(1, false)
        .to_logical_plan();
    let mut context = OptimizerContext::new();
    infer(&mut plan, &mut context, 0);
    let candidates = NormalizeLayoutFusion { workers: 0 }
        .discover(&plan, context.annotations())
        .unwrap();
    assert_eq!(candidates.len(), 1);
    assert!(candidates[0].legal);
    assert_eq!(candidates[0].nodes, vec![NodeId(2), NodeId(3)]);
}

#[test]
fn physical_candidates_name_cpu_kernels() {
    let plan = stub().decode_image().batch(1, false).to_logical_plan();
    let source = VisionPhysicalCandidates.candidates(plan.node(NodeId(0)).unwrap(), None);
    assert_eq!(source.len(), 1);
    assert_eq!(source[0].name, "vision-source-read");
    assert_eq!(source[0].backend, "cpu");
    let op = VisionPhysicalCandidates.candidates(plan.node(NodeId(1)).unwrap(), None);
    assert!(op.is_empty());
}

#[test]
fn optimizer_runs_vision_passes_in_order() {
    let mut plan = stub().decode_image().chw_to_hwc().batch(1, false).to_logical_plan();
    let mut registry: PlanRegistry<VisionPayload> = PlanRegistry::new();
    registry.register_pass(Box::new(InferProperties(VisionPropertyInference::new(0))));
    registry.register_pass(Box::new(EliminateIdentityLayout));
    let (context, report) = optimize(&mut plan, &registry).unwrap();
    assert_eq!(report.passes_run, ["property-inference-validation", "simplify-identity-layout"]);
    assert_eq!(context.snapshots.len(), 2);
}

#[test]
fn optimize_with_no_passes_leaves_the_plan_and_an_empty_context() {
    let mut plan = stub().decode_image().batch(1, false).to_logical_plan();
    let registry: PlanRegistry<VisionPayload> = PlanRegistry::new();
    let (context, report) = optimize(&mut plan, &registry).unwrap();
    assert!(report.passes_run.is_empty());
    assert!(context.diagnostics.is_empty());
    assert!(context.snapshots.is_empty());
    assert!(context.annotations().iter().is_empty());
    assert_eq!(plan.len(), 4);
}

#[test]
fn fixed_point_step_decides_from_each_result() {
    assert_eq!(fixed_point_step(false, 1, 4), FixedPointStep::Converged(1));
    assert_eq!(fixed_point_step(true, 1, 4), FixedPointStep::Again);
    assert_eq!(fixed_point_step(true, 3, 3), FixedPointStep::Exhausted(3));
    assert_eq!(fixed_point_step(false, 3, 3), FixedPointStep::Converged(3));
}

#[test]
fn optimizer_steps_record_results_in_order() {
    let mut context = OptimizerContext::new();
    let result = PassResult::unchanged().diagnostic("a", "first".to_owned());
    assert!(!absorb_result(&mut context, result));
    assert_eq!(context.diagnostics[0].code, "a");

    let mut passes_run: Vec<&'static str> = Vec::new();
    let result = PassResult::changed().diagnostic("b", "second".to_owned());
    let fusion = vec![Diagnostic { code: "fusion.legal", message: "third".to_owned() }];
    record_pass(&mut context, &mut passes_run, "p", result, fusion, "plan\n".to_owned(), "  lines\n".to_owned());
    assert_eq!(passes_run, vec!["p"]);
    assert_eq!(
        context.diagnostics.iter().map(|d| d.code).collect::<Vec<_>>(),
        ["a", "b", "fusion.legal"]
    );
    assert_eq!(context.snapshots, vec![("p".to_owned(), "plan\n  lines\n".to_owned())]);

    assert!(runs_fusion_rules("fusion-discovery"));
    assert!(!runs_fusion_rules("semantic-rewrite"));
    match pass_error("p", "boom".to_owned()) {
        OptimizerError::Pass { pass, message } => assert_eq!((pass.as_str(), message.as_str()), ("p", "boom")),
        other => panic!("unexpected {other:?}"),
    }
}

#[test]
fn install_hooks_appends_in_order() {
    let mut registry: PlanRegistry<VisionPayload> = PlanRegistry::new();
    registry.install_hooks(None, vec![Box::new(FusionDiscovery)], vec![], vec![Box::new(VisionPhysicalCandidates)]);
    registry.install_hooks(None, vec![Box::new(EliminateIdentityLayout)], vec![], vec![]);
    let names: Vec<&str> = registry.passes().iter().map(|p| p.name()).collect();
    assert_eq!(names, ["fusion-discovery", "simplify-identity-layout"]);
    assert!(registry.inference().is_none());
}
