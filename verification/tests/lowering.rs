use lib::plan::{NodeId, NodeKind};
use lib::properties::{DeviceClass, OperatorProperties, OperatorStage, PropertyAnnotations, ValueProperties};
use lib::vision::lowering::{
    defer_cuda_augmentations, ExecutionLane, KernelStage, PhysicalNodeKind, VisionPhysicalLowering,
};

fn lowering(ordinal: Option<usize>) -> VisionPhysicalLowering {
    let mut annotations = PropertyAnnotations::new();
    let mut batch_op = ValueProperties::unknown();
    batch_op.operator = Some(OperatorProperties { stage: OperatorStage::Batch, sample_stage_has_work: false });
    annotations.insert(NodeId(3), batch_op);
    VisionPhysicalLowering { annotations, sink_device_ordinal: ordinal }
}

#[test]
fn lowering_maps_node_kinds_to_default_lanes() {
    let l = lowering(None);
    assert_eq!(l.lower_node(NodeId(0), NodeKind::Source, None).unwrap(), (PhysicalNodeKind::Source, ExecutionLane::Io));
    assert_eq!(l.lower_node(NodeId(1), NodeKind::Index, None).unwrap(), (PhysicalNodeKind::Sampler, ExecutionLane::Cpu));
    assert_eq!(
        l.lower_node(NodeId(2), NodeKind::Op, None).unwrap(),
        (PhysicalNodeKind::Kernel(KernelStage::Sample), ExecutionLane::Cpu)
    );
    assert_eq!(
        l.lower_node(NodeId(3), NodeKind::Op, None).unwrap(),
        (PhysicalNodeKind::Kernel(KernelStage::Batch), ExecutionLane::Cpu)
    );
    assert_eq!(l.lower_node(NodeId(4), NodeKind::Batch, None).unwrap(), (PhysicalNodeKind::Batch, ExecutionLane::Cpu));
    assert_eq!(l.lower_node(NodeId(5), NodeKind::Cache, None).unwrap(), (PhysicalNodeKind::Cache, ExecutionLane::Io));
    assert_eq!(l.lower_node(NodeId(6), NodeKind::Sink, Some(&DeviceClass::Cpu)).unwrap(), (PhysicalNodeKind::Sink, ExecutionLane::Cpu));
}

#[test]
fn cuda_sink_and_batch_kernel_run_on_the_requested_device() {
    let l = lowering(Some(1));
    assert_eq!(
        l.lower_node(NodeId(6), NodeKind::Sink, Some(&DeviceClass::Cuda)).unwrap(),
        (PhysicalNodeKind::Sink, ExecutionLane::Device { ordinal: 1 })
    );
    assert_eq!(
        l.lower_node(NodeId(3), NodeKind::Op, Some(&DeviceClass::Cuda)).unwrap(),
        (PhysicalNodeKind::Kernel(KernelStage::Batch), ExecutionLane::Device { ordinal: 1 })
    );
}

#[test]
fn cuda_placement_errors() {
    let without = lowering(None);
    assert_eq!(
        without.lower_node(NodeId(6), NodeKind::Sink, Some(&DeviceClass::Cuda)).unwrap_err(),
        "CUDA sink placement has no requested device ordinal"
    );
    assert_eq!(
        without.lower_node(NodeId(3), NodeKind::Op, Some(&DeviceClass::Cuda)).unwrap_err(),
        "CUDA batch kernel placement has no requested device ordinal"
    );
    let with = lowering(Some(0));
    assert_eq!(
        with.lower_node(NodeId(12), NodeKind::Op, Some(&DeviceClass::Cuda)).unwrap_err(),
        "CUDA execution for logical node %12 is not implemented in this phase"
    );
}

#[test]
fn augmentations_defer_only_with_a_device_batch_kernel() {
    let device_graph = [
        (PhysicalNodeKind::Source, ExecutionLane::Io),
        (PhysicalNodeKind::Kernel(KernelStage::Batch), ExecutionLane::Device { ordinal: 0 }),
    ];
    let cpu_graph = [
        (PhysicalNodeKind::Source, ExecutionLane::Io),
        (PhysicalNodeKind::Kernel(KernelStage::Batch), ExecutionLane::Cpu),
    ];
    assert!(defer_cuda_augmentations(&device_graph, Some(0), true));
    assert!(!defer_cuda_augmentations(&device_graph, None, true));
    assert!(!defer_cuda_augmentations(&device_graph, Some(0), false));
    assert!(!defer_cuda_augmentations(&cpu_graph, Some(0), true));
}
