//! The per-node decision of physical lowering: which physical node a
//! logical node becomes and on which lane it runs, and whether the stage
//! compiler may defer leading augmentations to a device batch kernel.

use vstd::prelude::*;
use crate::plan::{NodeId, NodeKind};
use crate::properties::{DeviceClass, OperatorStage, PropertyAnnotations, ValuePropertiesV};
use crate::text::{decimal, owned, push_decimal, push_str};

verus! {

/// Which per-element stage a kernel runs in.
#[derive(Clone, Copy, Debug, PartialEq, Eq, Structural)]
pub enum KernelStage {
    Sample,
    Batch,
}

/// The kind of a physical node.
#[derive(Clone, Copy, Debug, PartialEq, Eq, Structural)]
pub enum PhysicalNodeKind {
    Source,
    Sampler,
    Kernel(KernelStage),
    Batch,
    Cache,
    Sink,
}

/// Where a physical node runs.
#[derive(Clone, Copy, Debug, PartialEq, Eq, Structural)]
pub enum ExecutionLane {
    Io,
    Cpu,
    Device { ordinal: usize },
}

/// The stage recorded for node `id` in `annotations`, `Sample` when none is.
pub open spec fn annotated_stage(annotations: Map<usize, ValuePropertiesV>, id: NodeId) -> OperatorStage {
    if annotations.contains_key(id.0) && annotations[id.0].operator is Some {
        annotations[id.0].operator->0.stage
    } else {
        OperatorStage::Sample
    }
}

/// The physical kind of a node of kind `kind` in stage `stage`, with the
/// lane it runs on when no device is selected for it; `None` for a kind
/// that has no physical node of its own.
pub open spec fn default_lowering(kind: NodeKind, stage: OperatorStage) -> Option<(PhysicalNodeKind, ExecutionLane)> {
    match kind {
        NodeKind::Source => Some((PhysicalNodeKind::Source, ExecutionLane::Io)),
        NodeKind::Index => Some((PhysicalNodeKind::Sampler, ExecutionLane::Cpu)),
        NodeKind::Op => Some((
            PhysicalNodeKind::Kernel(
                if stage == OperatorStage::Batch {
                    KernelStage::Batch
                } else {
                    KernelStage::Sample
                },
            ),
            ExecutionLane::Cpu,
        )),
        NodeKind::Batch => Some((PhysicalNodeKind::Batch, ExecutionLane::Cpu)),
        NodeKind::Cache => Some((PhysicalNodeKind::Cache, ExecutionLane::Io)),
        NodeKind::Sink => Some((PhysicalNodeKind::Sink, ExecutionLane::Cpu)),
        NodeKind::DeviceCut => None,
    }
}

/// Lowering of node `id` of kind `kind` in stage `stage`, where `cuda`
/// says whether placement selected CUDA for it and `ordinal` is the
/// requested sink device: a CUDA sink or CUDA batch kernel runs on that
/// device, and fails without one; CUDA for any other node fails; otherwise
/// the node keeps its default lane.
pub open spec fn lowering_spec(
    id: NodeId,
    kind: NodeKind,
    stage: OperatorStage,
    cuda: bool,
    ordinal: Option<usize>,
) -> Result<(PhysicalNodeKind, ExecutionLane), Seq<char>> {
    match default_lowering(kind, stage) {
        None => Err("device cut node %"@ + decimal(id.0 as nat) + " has no physical lowering"@),
        Some((physical, lane)) => if !cuda {
            Ok((physical, lane))
        } else if kind == NodeKind::Sink {
            match ordinal {
                Some(o) => Ok((physical, ExecutionLane::Device { ordinal: o })),
                None => Err("CUDA sink placement has no requested device ordinal"@),
            }
        } else if physical == PhysicalNodeKind::Kernel(KernelStage::Batch) {
            match ordinal {
                Some(o) => Ok((physical, ExecutionLane::Device { ordinal: o })),
                None => Err("CUDA batch kernel placement has no requested device ordinal"@),
            }
        } else {
            Err("CUDA execution for logical node %"@ + decimal(id.0 as nat)
                + " is not implemented in this phase"@)
        },
    }
}

/// The vision lowering of logical nodes to physical ones, from the
/// inferred properties of the plan and the requested sink device.
pub struct VisionPhysicalLowering {
    pub annotations: PropertyAnnotations,
    pub sink_device_ordinal: Option<usize>,
}

impl VisionPhysicalLowering {
    /// Lowers node `logical_id` of kind `kind`, for which placement
    /// selected `selected_device`, if any.
    pub fn lower_node(
        &self,
        logical_id: NodeId,
        kind: NodeKind,
        selected_device: Option<&DeviceClass>,
    ) -> (r: Result<(PhysicalNodeKind, ExecutionLane), String>)
        ensures
            ({
                let expected = lowering_spec(
                    logical_id,
                    kind,
                    annotated_stage(self.annotations@, logical_id),
                    selected_device matches Some(d) && *d is Cuda,
                    self.sink_device_ordinal,
                );
                match r {
                    Ok(x) => expected == Ok::<(PhysicalNodeKind, ExecutionLane), Seq<char>>(x),
                    Err(m) => expected == Err::<(PhysicalNodeKind, ExecutionLane), Seq<char>>(m@),
                }
            }),
    {
        let stage = match self.annotations.get(logical_id) {
            Some(properties) => match properties.operator {
                Some(operator) => operator.stage,
                None => OperatorStage::Sample,
            },
            None => OperatorStage::Sample,
        };
        proof {
            reveal_strlit("device cut node %");
            reveal_strlit(" has no physical lowering");
            reveal_strlit("CUDA sink placement has no requested device ordinal");
            reveal_strlit("CUDA batch kernel placement has no requested device ordinal");
            reveal_strlit("CUDA execution for logical node %");
            reveal_strlit(" is not implemented in this phase");
        }
        let (physical, lane) = match kind {
            NodeKind::Source => (PhysicalNodeKind::Source, ExecutionLane::Io),
            NodeKind::Index => (PhysicalNodeKind::Sampler, ExecutionLane::Cpu),
            NodeKind::Op => {
                let kernel = match stage {
                    OperatorStage::Batch => KernelStage::Batch,
                    OperatorStage::Sample | OperatorStage::Source => KernelStage::Sample,
                };
                (PhysicalNodeKind::Kernel(kernel), ExecutionLane::Cpu)
            },
            NodeKind::Batch => (PhysicalNodeKind::Batch, ExecutionLane::Cpu),
            NodeKind::Cache => (PhysicalNodeKind::Cache, ExecutionLane::Io),
            NodeKind::Sink => (PhysicalNodeKind::Sink, ExecutionLane::Cpu),
            NodeKind::DeviceCut => {
                let mut message = String::new();
                push_str(&mut message, "device cut node %");
                push_decimal(&mut message, logical_id.0);
                push_str(&mut message, " has no physical lowering");
                assert(message@ =~= "device cut node %"@ + decimal(logical_id.0 as nat)
                    + " has no physical lowering"@);
                return Err(message);
            },
        };
        let cuda = match selected_device {
            Some(DeviceClass::Cuda) => true,
            _ => false,
        };
        if !cuda {
            return Ok((physical, lane));
        }
        let is_sink = match kind {
            NodeKind::Sink => true,
            _ => false,
        };
        let batch_kernel = match physical {
            PhysicalNodeKind::Kernel(KernelStage::Batch) => true,
            _ => false,
        };
        if is_sink || batch_kernel {
            match self.sink_device_ordinal {
                Some(ordinal) => Ok((physical, ExecutionLane::Device { ordinal })),
                None => {
                    if is_sink {
                        Err(owned("CUDA sink placement has no requested device ordinal"))
                    } else {
                        Err(owned("CUDA batch kernel placement has no requested device ordinal"))
                    }
                },
            }
        } else {
            let mut message = String::new();
            push_str(&mut message, "CUDA execution for logical node %");
            push_decimal(&mut message, logical_id.0);
            push_str(&mut message, " is not implemented in this phase");
            assert(message@ =~= "CUDA execution for logical node %"@ + decimal(logical_id.0 as nat)
                + " is not implemented in this phase"@);
            Err(message)
        }
    }
}

/// Some node of `nodes` is a batch kernel that runs on a device.
pub open spec fn has_device_batch_kernel(nodes: Seq<(PhysicalNodeKind, ExecutionLane)>) -> bool {
    exists|i: int|
        0 <= i < nodes.len() && #[trigger] nodes[i].0 == PhysicalNodeKind::Kernel(KernelStage::Batch)
            && nodes[i].1 is Device
}

/// Whether the stage compiler defers leading augmentations to the device:
/// only when the lowered graph `nodes` holds a batch kernel on a device, a
/// sink device was requested, and the source serves batch reads.
pub fn defer_cuda_augmentations(
    nodes: &[(PhysicalNodeKind, ExecutionLane)],
    sink_device_ordinal: Option<usize>,
    supports_batch_read: bool,
) -> (r: bool)
    ensures
        r == (has_device_batch_kernel(nodes@) && sink_device_ordinal is Some && supports_batch_read),
{
    let enabled = sink_device_ordinal.is_some() && supports_batch_read;
    let mut found = false;
    let mut i: usize = 0;
    while i < nodes.len()
        invariant
            0 <= i <= nodes@.len(),
            found <==> exists|j: int|
                0 <= j < i && #[trigger] nodes@[j].0 == PhysicalNodeKind::Kernel(KernelStage::Batch)
                    && nodes@[j].1 is Device,
        decreases nodes@.len() - i,
    {
        let (physical, lane) = nodes[i];
        let device = match lane {
            ExecutionLane::Device { .. } => true,
            _ => false,
        };
        if physical == PhysicalNodeKind::Kernel(KernelStage::Batch) && device {
            found = true;
        }
        i += 1;
    }
    found && enabled
}

} // verus!
