//! Vision payloads of logical plan nodes.

use vstd::prelude::*;
use crate::plan::PlanPayload;
use crate::properties::DeviceClass;
use crate::vision::image_op::{BatchConfig, ImageOp, PipelineImageState};
use crate::vision::index_op::IndexOp;
use crate::vision::runtime::RuntimeConfig;

verus! {

/// What the planner knows of an image source: the image state it yields,
/// its length, and whether it serves whole batches in one read.
#[derive(Clone, Copy, Debug, PartialEq, Eq, Structural)]
pub struct SourceOp {
    pub state: PipelineImageState,
    pub len: usize,
    pub batch_read: bool,
}

impl SourceOp {
    pub fn new(state: PipelineImageState, len: usize, batch_read: bool) -> (r: Self)
        ensures
            r == (SourceOp { state, len, batch_read }),
    {
        SourceOp { state, len, batch_read }
    }

    pub fn len(&self) -> (r: usize)
        ensures
            r == self.len,
    {
        self.len
    }

    pub fn state(&self) -> (r: PipelineImageState)
        ensures
            r == self.state,
    {
        self.state
    }

    pub fn supports_batch_read(&self) -> (r: bool)
        ensures
            r == self.batch_read,
    {
        self.batch_read
    }
}

/// Operations fused into one node, in application order.
#[derive(Debug)]
pub struct FusionGroupPayload {
    pub name: &'static str,
    pub ops: Vec<ImageOp>,
}

/// A transfer of the value to a device.
#[derive(Debug)]
pub struct DeviceCut {
    pub target: DeviceClass,
}

/// Pipeline-wide settings carried by a vision plan's context.
#[derive(Clone, Copy, Debug, PartialEq, Eq, Structural)]
pub struct ImagePipelineContext {
    pub runtime: RuntimeConfig,
    pub epoch: u64,
    pub global_seed: Option<u64>,
}

/// Payload of a vision plan node, or of the plan's context.
#[derive(Debug)]
pub enum VisionPayload {
    Source(SourceOp),
    Index(IndexOp),
    Image(ImageOp),
    FusionGroup(FusionGroupPayload),
    Batch(BatchConfig),
    DeviceCut(DeviceCut),
    Context(ImagePipelineContext),
}

pub open spec fn payload_name(p: VisionPayload) -> Seq<char> {
    match p {
        VisionPayload::Source(_) => "Source"@,
        VisionPayload::Index(_) => "IndexOp"@,
        VisionPayload::Image(_) => "ImageOp"@,
        VisionPayload::FusionGroup(_) => "FusionGroup"@,
        VisionPayload::Batch(_) => "BatchConfig"@,
        VisionPayload::DeviceCut(_) => "DeviceCut"@,
        VisionPayload::Context(_) => "ImagePipelineContext"@,
    }
}

impl PlanPayload for VisionPayload {
    open spec fn domain_text(&self) -> Seq<char> {
        "vision"@
    }

    open spec fn name_text(&self) -> Seq<char> {
        payload_name(*self)
    }

    fn domain(&self) -> (r: &'static str) {
        proof {
            reveal_strlit("vision");
        }
        "vision"
    }

    fn name(&self) -> (r: &'static str) {
        proof {
            reveal_strlit("Source");
            reveal_strlit("IndexOp");
            reveal_strlit("ImageOp");
            reveal_strlit("FusionGroup");
            reveal_strlit("BatchConfig");
            reveal_strlit("DeviceCut");
            reveal_strlit("ImagePipelineContext");
        }
        match self {
            VisionPayload::Source(_) => "Source",
            VisionPayload::Index(_) => "IndexOp",
            VisionPayload::Image(_) => "ImageOp",
            VisionPayload::FusionGroup(_) => "FusionGroup",
            VisionPayload::Batch(_) => "BatchConfig",
            VisionPayload::DeviceCut(_) => "DeviceCut",
            VisionPayload::Context(_) => "ImagePipelineContext",
        }
    }
}

} // verus!
