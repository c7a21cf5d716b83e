//! Static kernel capability matching and the integer side of device
//! placement: which registered kernels may run a node, what value size a
//! node produces, and where placement must fail.

use vstd::prelude::*;
use crate::plan::{LogicalNode, LogicalPlan, NodeId, NodeKind, PlanError, PlanPayload};
use crate::properties::{
    AxisOrder, AxisOrderV, Contiguity, DataType, DataTypeV, DeviceClass, DeviceClassV, Mutability,
    OperatorStage, PropertyAnnotations, Representation, RepresentationV, Residency, ResidencyV,
    ShapeDim, ValueGranularity, ValueProperties, ValuePropertiesV, opt_view,
};
use crate::text::{owned, push_str};

verus! {

#[derive(Clone, Copy, Debug, PartialEq, Eq, Structural, Hash)]
pub enum KernelClass {
    Source,
    Sample,
    Batch,
    Fused,
    Sink,
}

/// Properties a kernel requires of its input and output values; `None`
/// places no requirement.
#[derive(Debug)]
pub struct KernelRequirements {
    pub input_representation: Option<Representation>,
    pub input_dtype: Option<DataType>,
    pub input_axis_order: Option<AxisOrder>,
    pub input_granularity: Option<ValueGranularity>,
    pub input_contiguity: Option<Contiguity>,
    pub input_residency: Option<Residency>,
    pub input_mutability: Option<Mutability>,
    pub input_stage: Option<OperatorStage>,
    pub output_representation: Option<Representation>,
    pub output_contiguity: Option<Contiguity>,
    pub output_residency: Option<Residency>,
    pub output_mutability: Option<Mutability>,
    pub output_stage: Option<OperatorStage>,
    pub output_dtype: Option<DataType>,
    pub output_axis_order: Option<AxisOrder>,
    pub output_granularity: Option<ValueGranularity>,
}

impl KernelRequirements {
    /// Requirements that accept any value.
    pub fn none() -> (r: Self)
        ensures
            !has_input_requirements(r),
            r.output_representation is None && r.output_contiguity is None
                && r.output_residency is None && r.output_mutability is None
                && r.output_stage is None && r.output_dtype is None
                && r.output_axis_order is None && r.output_granularity is None,
    {
        KernelRequirements {
            input_representation: None,
            input_dtype: None,
            input_axis_order: None,
            input_granularity: None,
            input_contiguity: None,
            input_residency: None,
            input_mutability: None,
            input_stage: None,
            output_representation: None,
            output_contiguity: None,
            output_residency: None,
            output_mutability: None,
            output_stage: None,
            output_dtype: None,
            output_axis_order: None,
            output_granularity: None,
        }
    }
}

#[derive(Debug)]
pub struct KernelCapability {
    pub name: String,
    /// Domain and payload name; `rivet::Sink` is used for a payload-free sink.
    pub operator: String,
    pub node_kind: NodeKind,
    pub device: DeviceClass,
    pub class: KernelClass,
    pub requirements: KernelRequirements,
    pub fusion_tags: Vec<String>,
    pub alignment_bytes: usize,
    pub contiguity: Contiguity,
    pub temporary_bytes: usize,
    pub in_place: bool,
    pub parallel: bool,
}

/// The registered kernels, in registration order.
#[derive(Debug)]
pub struct KernelCapabilities {
    kernels: Vec<KernelCapability>,
}

/// The kernels behind a list of references.
pub open spec fn deref_all(s: Seq<&KernelCapability>) -> Seq<KernelCapability> {
    s.map_values(|k: &KernelCapability| *k)
}

/// `domain::name`.
pub open spec fn payload_operator(domain: Seq<char>, name: Seq<char>) -> Seq<char> {
    domain + "::"@ + name
}

/// Registered kernels implementing nodes of `kind` with operator `op`.
pub open spec fn kernels_for_spec(ks: Seq<KernelCapability>, kind: NodeKind, op: Seq<char>) -> Seq<KernelCapability> {
    ks.filter(|k: KernelCapability| implements(k, kind, op))
}

/// Kernel `k` implements nodes of `kind` whose operator text is `op`.
pub open spec fn implements(k: KernelCapability, kind: NodeKind, op: Seq<char>) -> bool {
    k.node_kind == kind && k.operator@ == op
}

/// Registered kernels (of `ks`) that implement node `id` of `plan`.
pub open spec fn node_kernels<P: PlanPayload>(ks: Seq<KernelCapability>, plan: LogicalPlan<P>, id: NodeId) -> Seq<KernelCapability> {
    let node = plan.spec_nodes()[id.0 as int];
    kernels_for_spec(ks, node.kind, node_operator(node))
}

pub open spec fn node_operator<P: PlanPayload>(node: LogicalNode<P>) -> Seq<char> {
    match node.payload {
        Some(p) => payload_operator(p.domain_text(), p.name_text()),
        None => operator_text(node.kind, None),
    }
}

/// Operator text of a node: `domain::name` of its payload, `rivet::Sink`
/// for a payload-free sink, and empty otherwise.
pub open spec fn operator_text(kind: NodeKind, payload: Option<(Seq<char>, Seq<char>)>) -> Seq<char> {
    match payload {
        Some((domain, name)) => payload_operator(domain, name),
        None => if kind == NodeKind::Sink {
            "rivet::Sink"@
        } else {
            Seq::empty()
        },
    }
}

#[derive(Debug)]
pub enum PlacementError {
    Plan(PlanError),
    NoKernel { node: usize, reason: String },
    TooManyTransferBoundaries,
    SinkDeviceUnavailable { device: DeviceClass },
}

impl KernelCapabilities {
    pub closed spec fn spec_kernels(&self) -> Seq<KernelCapability> {
        self.kernels@
    }

    pub fn new() -> (r: Self)
        ensures
            r.spec_kernels().len() == 0,
    {
        KernelCapabilities { kernels: Vec::new() }
    }

    pub fn register(&mut self, capability: KernelCapability)
        ensures
            final(self).spec_kernels() == old(self).spec_kernels().push(capability),
    {
        self.kernels.push(capability);
    }

    /// The registered kernels in registration order.
    pub fn iter(&self) -> (r: &[KernelCapability])
        ensures
            r@ == self.spec_kernels(),
    {
        self.kernels.as_slice()
    }

    /// Registered kernels for nodes of `kind` with operator text `operator`,
    /// in registration order.
    pub fn kernels_for(&self, kind: NodeKind, operator: &str) -> (r: Vec<&KernelCapability>)
        ensures
            deref_all(r@) == kernels_for_spec(self.spec_kernels(), kind, operator@),
    {
        let ghost pred = |k: KernelCapability| implements(k, kind, operator@);
        let mut out: Vec<&KernelCapability> = Vec::new();
        let mut i: usize = 0;
        while i < self.kernels.len()
            invariant
                0 <= i <= self.kernels@.len(),
                pred == (|k: KernelCapability| implements(k, kind, operator@)),
                deref_all(out@) == self.kernels@.subrange(0, i as int).filter(pred),
            decreases self.kernels@.len() - i,
        {
            reveal(Seq::filter);
            let kernel = &self.kernels[i];
            assert(self.kernels@.subrange(0, i + 1).drop_last() =~= self.kernels@.subrange(0, i as int));
            assert(self.kernels@.subrange(0, i + 1).last() == *kernel);
            let same_operator = kernel.operator == owned(operator);
            let ghost before = out@;
            assert(pred(*kernel) == (kernel.node_kind == kind && kernel.operator@ == operator@));
            if kernel.node_kind == kind && same_operator {
                out.push(kernel);
                assert(deref_all(out@) =~= deref_all(before).push(*kernel));
                assert(deref_all(out@) == self.kernels@.subrange(0, i + 1).filter(pred));
            } else {
                assert(deref_all(out@) == self.kernels@.subrange(0, i + 1).filter(pred));
            }
            i += 1;
        }
        assert(self.kernels@.subrange(0, i as int) =~= self.kernels@);
        out
    }

    /// Registered kernels that can run node `id`: same node kind and the
    /// node's operator text.
    pub fn for_node<P: PlanPayload>(&self, plan: &LogicalPlan<P>, id: NodeId) -> (r: Result<
        Vec<&KernelCapability>,
        PlacementError,
    >)
        ensures
            r is Ok <==> id.0 < plan.spec_nodes().len(),
            r matches Err(e) ==> e == PlacementError::Plan(PlanError::UnknownNode { index: id.0 }),
            r matches Ok(v) ==> deref_all(v@) == node_kernels(self.spec_kernels(), *plan, id),
    {
        let node = match plan.node(id) {
            Ok(node) => node,
            Err(e) => return Err(PlacementError::Plan(e)),
        };
        proof {
            reveal_strlit("::");
            reveal_strlit("rivet::Sink");
            reveal_strlit("");
        }
        let mut operator = String::new();
        match node.payload() {
            Some(payload) => {
                let domain = payload.domain();
                let name = payload.name();
                push_str(&mut operator, domain);
                push_str(&mut operator, "::");
                push_str(&mut operator, name);
                let found = self.kernels_for(node.kind(), operator.as_str());
                assert(operator@ =~= payload_operator(domain@, name@));
                return Ok(found);
            },
            None => {
                if node.kind() == NodeKind::Sink {
                    push_str(&mut operator, "rivet::Sink");
                }
            },
        }
        assert(operator@ =~= operator_text(node.kind, None));
        Ok(self.kernels_for(node.kind(), operator.as_str()))
    }
}

// ---------------------------------------------------------------------------
// Requirement matching
// ---------------------------------------------------------------------------

/// A requirement is met when absent, or when the actual value is known and
/// equal to it.
pub open spec fn field_ok<T>(required: Option<T>, actual: Option<T>) -> bool {
    required is None || actual == required
}

pub open spec fn stage_ok(required: Option<OperatorStage>, p: ValuePropertiesV) -> bool {
    match required {
        None => true,
        Some(v) => p.operator matches Some(op) && op.stage == v,
    }
}

pub open spec fn has_input_requirements(req: KernelRequirements) -> bool {
    req.input_representation is Some || req.input_dtype is Some || req.input_axis_order is Some
        || req.input_granularity is Some || req.input_contiguity is Some
        || req.input_residency is Some || req.input_mutability is Some
        || req.input_stage is Some
}

pub open spec fn input_matches(req: KernelRequirements, actual: Option<ValuePropertiesV>) -> bool {
    match actual {
        None => false,
        Some(p) => {
            &&& field_ok(opt_view(req.input_representation), p.representation)
            &&& field_ok(opt_view(req.input_dtype), p.dtype)
            &&& field_ok(opt_view(req.input_axis_order), p.axis_order)
            &&& field_ok(req.input_granularity, p.granularity)
            &&& field_ok(req.input_contiguity, p.contiguity)
            &&& field_ok(opt_view(req.input_residency), p.residency)
            &&& field_ok(req.input_mutability, p.mutability)
            &&& stage_ok(req.input_stage, p)
        },
    }
}

pub open spec fn output_matches(req: KernelRequirements, actual: Option<ValuePropertiesV>) -> bool {
    match actual {
        None => false,
        Some(p) => {
            &&& field_ok(opt_view(req.output_representation), p.representation)
            &&& field_ok(opt_view(req.output_dtype), p.dtype)
            &&& field_ok(opt_view(req.output_axis_order), p.axis_order)
            &&& field_ok(req.output_granularity, p.granularity)
            &&& field_ok(req.output_contiguity, p.contiguity)
            &&& field_ok(opt_view(req.output_residency), p.residency)
            &&& field_ok(req.output_mutability, p.mutability)
            &&& stage_ok(req.output_stage, p)
        },
    }
}

/// The annotation of `id`, when present.
pub open spec fn annotation_of(a: Map<usize, ValuePropertiesV>, id: usize) -> Option<ValuePropertiesV> {
    if a.contains_key(id) {
        Some(a[id])
    } else {
        None
    }
}

/// Kernel requirements hold for node `id`: its output always, and, when
/// any input requirement is set, the properties of its first input.
pub open spec fn requirements_hold<P>(
    req: KernelRequirements,
    plan: LogicalPlan<P>,
    id: NodeId,
    annotations: Map<usize, ValuePropertiesV>,
) -> bool {
    if id.0 >= plan.spec_nodes().len() {
        false
    } else {
        let node = plan.spec_nodes()[id.0 as int];
        let input = if node.inputs@.len() > 0 {
            annotation_of(annotations, node.inputs@[0].0)
        } else {
            None
        };
        (!has_input_requirements(req) || input_matches(req, input)) && output_matches(
            req,
            annotation_of(annotations, id.0),
        )
    }
}

fn stage_matches(required: Option<OperatorStage>, p: &ValueProperties) -> (r: bool)
    ensures
        r == stage_ok(required, p@),
{
    match required {
        None => true,
        Some(v) => match p.operator {
            Some(op) => op.stage == v,
            None => false,
        },
    }
}

fn input_fields_match(req: &KernelRequirements, p: &ValueProperties) -> (r: bool)
    ensures
        r == input_matches(*req, Some(p@)),
{
    (req.input_representation.is_none() || p.representation == req.input_representation)
        && (req.input_dtype.is_none() || p.dtype == req.input_dtype)
        && (req.input_axis_order.is_none() || p.axis_order == req.input_axis_order)
        && (req.input_granularity.is_none() || p.granularity == req.input_granularity)
        && (req.input_contiguity.is_none() || p.contiguity == req.input_contiguity)
        && (req.input_residency.is_none() || p.residency == req.input_residency)
        && (req.input_mutability.is_none() || p.mutability == req.input_mutability)
        && stage_matches(req.input_stage, p)
}

fn output_fields_match(req: &KernelRequirements, p: &ValueProperties) -> (r: bool)
    ensures
        r == output_matches(*req, Some(p@)),
{
    (req.output_representation.is_none() || p.representation == req.output_representation)
        && (req.output_dtype.is_none() || p.dtype == req.output_dtype)
        && (req.output_axis_order.is_none() || p.axis_order == req.output_axis_order)
        && (req.output_granularity.is_none() || p.granularity == req.output_granularity)
        && (req.output_contiguity.is_none() || p.contiguity == req.output_contiguity)
        && (req.output_residency.is_none() || p.residency == req.output_residency)
        && (req.output_mutability.is_none() || p.mutability == req.output_mutability)
        && stage_matches(req.output_stage, p)
}

/// Whether `req` holds for node `id` under `annotations`; false for a node
/// the plan does not have.
pub fn properties_match<P>(
    req: &KernelRequirements,
    plan: &LogicalPlan<P>,
    id: NodeId,
    annotations: &PropertyAnnotations,
) -> (r: bool)
    ensures
        r == requirements_hold(*req, *plan, id, annotations@),
{
    let node = match plan.node(id) {
        Ok(node) => node,
        Err(_) => return false,
    };
    let input = if node.inputs.len() > 0 {
        annotations.get(node.inputs[0])
    } else {
        None
    };
    let output = annotations.get(id);
    let matches_output = match output {
        Some(p) => output_fields_match(req, p),
        None => false,
    };
    let has_input = req.input_representation.is_some() || req.input_dtype.is_some()
        || req.input_axis_order.is_some() || req.input_granularity.is_some()
        || req.input_contiguity.is_some() || req.input_residency.is_some()
        || req.input_mutability.is_some() || req.input_stage.is_some();
    let matches_input = match input {
        Some(p) => input_fields_match(req, p),
        None => false,
    };
    (!has_input || matches_input) && matches_output
}

// ---------------------------------------------------------------------------
// Value sizes
// ---------------------------------------------------------------------------

/// Product of known dimensions; `None` when one is dynamic.
pub open spec fn element_count(dims: Seq<ShapeDim>) -> Option<int>
    decreases dims.len(),
{
    if dims.len() == 0 {
        Some(1)
    } else {
        match element_count(dims.drop_last()) {
            None => None,
            Some(n) => match dims.last() {
                ShapeDim::Known(v) => Some(n * v),
                ShapeDim::Dynamic => None,
            },
        }
    }
}

/// Bytes per element of a data type, when fixed.
pub open spec fn dtype_width(dtype: DataTypeV) -> Option<int> {
    match dtype {
        DataTypeV::U8 | DataTypeV::I8 | DataTypeV::Bool => Some(1),
        DataTypeV::U16 | DataTypeV::I16 | DataTypeV::F16 | DataTypeV::BF16 => Some(2),
        DataTypeV::U32 | DataTypeV::I32 | DataTypeV::F32 => Some(4),
        DataTypeV::U64 | DataTypeV::I64 | DataTypeV::F64 => Some(8),
        DataTypeV::Other(_) => None,
    }
}

/// Whether the running products of the dims all fit in a `u64`.
pub open spec fn prefix_products_fit(dims: Seq<ShapeDim>) -> bool
    decreases dims.len(),
{
    if dims.len() == 0 {
        true
    } else {
        prefix_products_fit(dims.drop_last()) && match element_count(dims) {
            Some(n) => n <= u64::MAX,
            None => true,
        }
    }
}

/// Byte size of a value: element count times element width, when shape
/// and dtype are known and the arithmetic fits in a `u64`.
pub open spec fn byte_size_spec(p: ValuePropertiesV) -> Option<u64> {
    match (p.shape, p.dtype) {
        (Some(dims), Some(dtype)) => match (element_count(dims), dtype_width(dtype)) {
            (Some(n), Some(w)) => if prefix_products_fit(dims) && n * w <= u64::MAX {
                Some((n * w) as u64)
            } else {
                None
            },
            _ => None,
        },
        _ => None,
    }
}

proof fn lemma_count_nonneg(dims: Seq<ShapeDim>)
    ensures
        element_count(dims) matches Some(n) ==> n >= 0,
    decreases dims.len(),
{
    if dims.len() > 0 {
        lemma_count_nonneg(dims.drop_last());
        if let Some(n) = element_count(dims.drop_last()) {
            if let ShapeDim::Known(v) = dims.last() {
                assert(n * v >= 0) by (nonlinear_arith)
                    requires
                        n >= 0,
                        v >= 0,
                ;
            }
        }
    }
}

/// Byte size of a value with known shape and dtype, or `None` when either
/// is unknown, a dimension is dynamic, the dtype has no fixed width, or the
/// size overflows a `u64`.
pub fn byte_size(properties: &ValueProperties) -> (r: Option<u64>)
    ensures
        r == byte_size_spec(properties@),
{
    let shape = match &properties.shape {
        Some(shape) => shape,
        None => return None,
    };
    let dims = shape.dims();
    let mut elements: u64 = 1;
    let mut i: usize = 0;
    while i < dims.len()
        invariant
            0 <= i <= dims@.len(),
            dims@ == shape@,
            properties@.shape == Some(dims@),
            element_count(dims@.subrange(0, i as int)) == Some(elements as int),
            prefix_products_fit(dims@.subrange(0, i as int)),
        decreases dims@.len() - i,
    {
        let ghost prefix = dims@.subrange(0, i + 1);
        assert(prefix.drop_last() =~= dims@.subrange(0, i as int));
        assert(prefix.last() == dims@[i as int]);
        match dims[i] {
            ShapeDim::Known(value) => {
                match elements.checked_mul(value as u64) {
                    Some(product) => {
                        elements = product;
                    },
                    None => {
                        proof {
                            assert(element_count(prefix) == Some(elements * value));
                            assert(!prefix_products_fit(prefix));
                            lemma_not_fit_extends(dims@, i as int + 1);
                        }
                        return None;
                    },
                }
            },
            ShapeDim::Dynamic => {
                proof {
                    assert(element_count(prefix) is None);
                    lemma_none_extends(dims@, i as int + 1);
                }
                return None;
            },
        }
        i += 1;
    }
    assert(dims@.subrange(0, i as int) =~= dims@);
    let width: u64 = match &properties.dtype {
        None => return None,
        Some(DataType::U8) | Some(DataType::I8) | Some(DataType::Bool) => 1,
        Some(DataType::U16) | Some(DataType::I16) | Some(DataType::F16) | Some(DataType::BF16) => 2,
        Some(DataType::U32) | Some(DataType::I32) | Some(DataType::F32) => 4,
        Some(DataType::U64) | Some(DataType::I64) | Some(DataType::F64) => 8,
        Some(DataType::Other(_)) => return None,
    };
    elements.checked_mul(width)
}

proof fn lemma_none_extends(dims: Seq<ShapeDim>, k: int)
    requires
        0 < k <= dims.len(),
        element_count(dims.subrange(0, k)) is None,
    ensures
        element_count(dims) is None,
    decreases dims.len() - k,
{
    if k < dims.len() {
        assert(dims.subrange(0, k + 1).drop_last() =~= dims.subrange(0, k));
        lemma_none_extends(dims, k + 1);
    } else {
        assert(dims.subrange(0, k) =~= dims);
    }
}

proof fn lemma_not_fit_extends(dims: Seq<ShapeDim>, k: int)
    requires
        0 < k <= dims.len(),
        !prefix_products_fit(dims.subrange(0, k)),
    ensures
        !prefix_products_fit(dims),
    decreases dims.len() - k,
{
    if k < dims.len() {
        assert(dims.subrange(0, k + 1).drop_last() =~= dims.subrange(0, k));
        lemma_not_fit_extends(dims, k + 1);
    } else {
        assert(dims.subrange(0, k) =~= dims);
    }
}


// ---------------------------------------------------------------------------
// Placement decisions
// ---------------------------------------------------------------------------

pub open spec fn device_views(devices: Seq<DeviceClass>) -> Seq<DeviceClassV> {
    devices.map_values(|d: DeviceClass| d@)
}

/// Kernel `k` can run node `id`: its device is available, its property
/// requirements hold, and its contiguity is unknown or the node's own.
pub open spec fn kernel_fits<P>(
    k: KernelCapability,
    devices: Seq<DeviceClassV>,
    plan: LogicalPlan<P>,
    id: NodeId,
    annotations: Map<usize, ValuePropertiesV>,
) -> bool {
    &&& devices.contains(k.device@)
    &&& requirements_hold(k.requirements, plan, id, annotations)
    &&& (k.contiguity == Contiguity::Unknown || (annotation_of(annotations, id.0) matches Some(p)
        && p.contiguity == Some(k.contiguity)))
}

/// The kernels of `ks` that fit node `id`.
pub open spec fn fitting<P>(
    ks: Seq<KernelCapability>,
    devices: Seq<DeviceClassV>,
    plan: LogicalPlan<P>,
    id: NodeId,
    annotations: Map<usize, ValuePropertiesV>,
) -> Seq<KernelCapability> {
    ks.filter(|k: KernelCapability| kernel_fits(k, devices, plan, id, annotations))
}

/// The kernels of `ks` on `device`.
pub open spec fn on_device(ks: Seq<KernelCapability>, device: DeviceClassV) -> Seq<KernelCapability> {
    ks.filter(|k: KernelCapability| k.device@ == device)
}

pub open spec fn no_kernel_reason(registered: bool) -> Seq<char> {
    if !registered {
        "no implementation registered"@
    } else {
        "registered kernels do not match properties or available devices"@
    }
}

fn device_available(devices: &Vec<DeviceClass>, device: &DeviceClass) -> (r: bool)
    ensures
        r == device_views(devices@).contains(device@),
{
    let mut i: usize = 0;
    while i < devices.len()
        invariant
            0 <= i <= devices@.len(),
            forall|j: int| 0 <= j < i ==> devices@[j]@ != device@,
        decreases devices@.len() - i,
    {
        if devices[i] == *device {
            proof {
                assert(device_views(devices@)[i as int] == device@);
            }
            return true;
        }
        i += 1;
    }
    proof {
        if device_views(devices@).contains(device@) {
            let j = choose|j: int| 0 <= j < devices@.len() && device_views(devices@)[j] == device@;
            assert(devices@[j]@ == device@);
        }
    }
    false
}

/// The kernels that can run node `id`, in registration order: registered
/// for it, on an available device, with matching properties and
/// contiguity; for a sink with a preferred device, only the kernels on
/// that device. `is_last` marks the last node placed: there the preferred
/// sink device, when set, is what is missing if nothing fits.
#[verifier::loop_isolation(false)]
pub fn compatible_kernels<'a, P: PlanPayload>(
    plan: &LogicalPlan<P>,
    id: NodeId,
    annotations: &PropertyAnnotations,
    capabilities: &'a KernelCapabilities,
    available_devices: &Vec<DeviceClass>,
    preferred_sink_device: &Option<DeviceClass>,
    is_last: bool,
) -> (r: Result<Vec<&'a KernelCapability>, PlacementError>)
    ensures
        id.0 >= plan.spec_nodes().len() ==> (r matches Err(e) && e == PlacementError::Plan(
            PlanError::UnknownNode { index: id.0 },
        )),
        id.0 < plan.spec_nodes().len() ==> ({
            let avail = node_kernels(capabilities.spec_kernels(), *plan, id);
            let fit = fitting(avail, device_views(available_devices@), *plan, id, annotations@);
            let sink_node = plan.spec_nodes()[id.0 as int].kind == NodeKind::Sink;
            &&& fit.len() == 0 && is_last && preferred_sink_device is Some ==> (r matches Err(e)
                && e matches PlacementError::SinkDeviceUnavailable { device }
                && device@ == preferred_sink_device.unwrap()@)
            &&& fit.len() == 0 && !(is_last && preferred_sink_device is Some) ==> (r matches Err(e)
                && e matches PlacementError::NoKernel { node, reason } && node == id.0
                && reason@ == no_kernel_reason(avail.len() > 0))
            &&& fit.len() > 0 && !(sink_node && preferred_sink_device is Some) ==> (r matches Ok(v)
                && deref_all(v@) == fit)
            &&& fit.len() > 0 && sink_node && preferred_sink_device is Some ==> ({
                let narrowed = on_device(fit, preferred_sink_device.unwrap()@);
                &&& narrowed.len() == 0 ==> (r matches Err(e)
                    && e matches PlacementError::SinkDeviceUnavailable { device }
                    && device@ == preferred_sink_device.unwrap()@)
                &&& narrowed.len() > 0 ==> (r matches Ok(v) && deref_all(v@) == narrowed)
            })
        }),
{
    let available = match capabilities.for_node(plan, id) {
        Ok(v) => v,
        Err(e) => return Err(e),
    };
    let node = match plan.node(id) {
        Ok(node) => node,
        Err(e) => return Err(PlacementError::Plan(e)),
    };
    let props = annotations.get(id);
    let ghost devices = device_views(available_devices@);
    let ghost pred = |k: KernelCapability| kernel_fits(k, devices, *plan, id, annotations@);
    let mut compatible: Vec<&KernelCapability> = Vec::new();
    let mut i: usize = 0;
    while i < available.len()
        invariant
            0 <= i <= available@.len(),
            id.0 < plan.spec_nodes().len(),
            deref_all(available@) == node_kernels(capabilities.spec_kernels(), *plan, id),
            props is Some <==> annotations@.contains_key(id.0),
            props matches Some(v) ==> v@ == annotations@[id.0],
            devices == device_views(available_devices@),
            pred == (|k: KernelCapability| kernel_fits(k, devices, *plan, id, annotations@)),
            deref_all(compatible@) == deref_all(available@).subrange(0, i as int).filter(pred),
        decreases available@.len() - i,
    {
        reveal(Seq::filter);
        let kernel = available[i];
        assert(deref_all(available@).subrange(0, i + 1).drop_last() =~= deref_all(available@).subrange(
            0,
            i as int,
        ));
        assert(deref_all(available@).subrange(0, i + 1).last() == *kernel);
        let on_available = device_available(available_devices, &kernel.device);
        let matches = properties_match(&kernel.requirements, plan, id, annotations);
        let contiguous = match kernel.contiguity {
            Contiguity::Unknown => true,
            _ => match props {
                Some(p) => match p.contiguity {
                    Some(c) => c == kernel.contiguity,
                    None => false,
                },
                None => false,
            },
        };
        let ghost before = compatible@;
        proof {
            assert(annotation_of(annotations@, id.0) == (match props {
                Some(p) => Some(p@),
                None => None::<ValuePropertiesV>,
            }));
            assert(pred(*kernel) == (on_available && matches && contiguous));
        }
        if on_available && matches && contiguous {
            compatible.push(kernel);
            assert(deref_all(compatible@) =~= deref_all(before).push(*kernel));
        }
        i += 1;
    }
    assert(deref_all(available@).subrange(0, i as int) =~= deref_all(available@));
    assert(deref_all(compatible@) == fitting(
        node_kernels(capabilities.spec_kernels(), *plan, id),
        device_views(available_devices@),
        *plan,
        id,
        annotations@,
    ));
    if compatible.len() == 0 {
        if is_last {
            match preferred_sink_device {
                Some(device) => {
                    return Err(PlacementError::SinkDeviceUnavailable { device: device.clone() });
                },
                None => {},
            }
        }
        proof {
            reveal_strlit("no implementation registered");
            reveal_strlit("registered kernels do not match properties or available devices");
        }
        let reason = if available.len() == 0 {
            owned("no implementation registered")
        } else {
            owned("registered kernels do not match properties or available devices")
        };
        return Err(PlacementError::NoKernel { node: id.0, reason });
    }
    if node.kind() == NodeKind::Sink {
        match preferred_sink_device {
            Some(sink_device) => {
                let ghost sinkv = sink_device@;
                let ghost fit = deref_all(compatible@);
                let ghost on_sink = |k: KernelCapability| k.device@ == sinkv;
                let mut kept: Vec<&KernelCapability> = Vec::new();
                let mut j: usize = 0;
                while j < compatible.len()
                    invariant
                        0 <= j <= compatible@.len(),
                        fit == deref_all(compatible@),
                        on_sink == (|k: KernelCapability| k.device@ == sinkv),
                        sinkv == sink_device@,
                        deref_all(kept@) == fit.subrange(0, j as int).filter(on_sink),
                    decreases compatible@.len() - j,
                {
                    reveal(Seq::filter);
                    let kernel = compatible[j];
                    assert(fit.subrange(0, j + 1).drop_last() =~= fit.subrange(0, j as int));
                    assert(fit.subrange(0, j + 1).last() == *kernel);
                    let ghost before = kept@;
                    if kernel.device == *sink_device {
                        kept.push(kernel);
                        assert(deref_all(kept@) =~= deref_all(before).push(*kernel));
                    }
                    j += 1;
                }
                assert(fit.subrange(0, j as int) =~= fit);
                assert(preferred_sink_device.unwrap()@ == sinkv);
                assert(on_sink =~= (|k: KernelCapability| k.device@ == preferred_sink_device.unwrap()@));
                assert(deref_all(kept@) == on_device(fit, preferred_sink_device.unwrap()@));
                if kept.len() == 0 {
                    return Err(PlacementError::SinkDeviceUnavailable { device: sink_device.clone() });
                }
                return Ok(kept);
            },
            None => {},
        }
    }
    Ok(compatible)
}

/// Index of the first smallest key; keys order candidates by score, the
/// cheapest first.
pub fn first_min(keys: &Vec<i64>) -> (r: usize)
    requires
        keys@.len() > 0,
    ensures
        r < keys@.len(),
        forall|j: int| 0 <= j < keys@.len() ==> keys@[r as int] <= keys@[j],
        forall|j: int| 0 <= j < r ==> keys@[j] > keys@[r as int],
{
    let mut best: usize = 0;
    let mut i: usize = 1;
    while i < keys.len()
        invariant
            1 <= i <= keys@.len(),
            best < i,
            forall|j: int| 0 <= j < i ==> keys@[best as int] <= keys@[j],
            forall|j: int| 0 <= j < best ==> keys@[j] > keys@[best as int],
        decreases keys@.len() - i,
    {
        if keys[i] < keys[best] {
            best = i;
        }
        i += 1;
    }
    best
}

/// Threads a selected kernel runs with: all CPU threads (at least one)
/// for a parallel kernel, one otherwise.
pub fn kernel_parallelism(parallel: bool, cpu_threads: usize) -> (r: usize)
    ensures
        r == if !parallel {
            1
        } else if cpu_threads == 0 {
            1
        } else {
            cpu_threads as int
        },
{
    if parallel {
        if cpu_threads == 0 {
            1
        } else {
            cpu_threads
        }
    } else {
        1
    }
}

/// The devices chosen along a placement walk and the transfer boundaries
/// between consecutive nodes on different devices.
#[derive(Debug)]
pub struct PlacementWalk {
    pub previous: Option<DeviceClass>,
    pub boundaries: Vec<(NodeId, DeviceClass, DeviceClass)>,
}

pub open spec fn boundary_view(b: (NodeId, DeviceClass, DeviceClass)) -> (usize, DeviceClassV, DeviceClassV) {
    (b.0.0, b.1@, b.2@)
}

impl PlacementWalk {
    pub open spec fn boundary_views(&self) -> Seq<(usize, DeviceClassV, DeviceClassV)> {
        self.boundaries@.map_values(|b: (NodeId, DeviceClass, DeviceClass)| boundary_view(b))
    }

    pub fn new() -> (r: Self)
        ensures
            r.previous is None,
            r.boundary_views() == Seq::<(usize, DeviceClassV, DeviceClassV)>::empty(),
    {
        let r = PlacementWalk { previous: None, boundaries: Vec::new() };
        assert(r.boundary_views() =~= Seq::<(usize, DeviceClassV, DeviceClassV)>::empty());
        r
    }

    /// Places node `id` on `device`: a boundary is recorded when the
    /// previous node ran on another device.
    pub fn visit(&mut self, id: NodeId, device: &DeviceClass) -> (crossed: bool)
        ensures
            crossed == (old(self).previous matches Some(from) && from@ != device@),
            final(self).previous matches Some(d) && d@ == device@,
            crossed ==> final(self).boundary_views() == old(self).boundary_views().push(
                (id.0, old(self).previous.unwrap()@, device@),
            ),
            !crossed ==> final(self).boundary_views() == old(self).boundary_views(),
    {
        let ghost before = self.boundary_views();
        let crossed = match &self.previous {
            Some(from) => {
                if *from != *device {
                    self.boundaries.push((id, from.clone(), device.clone()));
                    true
                } else {
                    false
                }
            },
            None => false,
        };
        if crossed {
            assert(self.boundary_views() =~= before.push((id.0, old(self).previous.unwrap()@, device@)));
        }
        self.previous = Some(device.clone());
        crossed
    }

    /// A plan may cross between devices at most once.
    pub fn finish(self) -> (r: Result<Vec<(NodeId, DeviceClass, DeviceClass)>, PlacementError>)
        ensures
            r is Ok <==> self.boundaries@.len() <= 1,
            r matches Ok(b) ==> b@ == self.boundaries@,
            r matches Err(e) ==> e is TooManyTransferBoundaries,
    {
        if self.boundaries.len() > 1 {
            return Err(PlacementError::TooManyTransferBoundaries);
        }
        Ok(self.boundaries)
    }
}

/// One step of placement for node `id`: among the `compatible` kernels,
/// whose costs are ordered by the integer `keys` (lower is cheaper), the
/// first cheapest is chosen, the walk moves to its device, and its index
/// and its parallelism on `cpu_threads` threads are returned.
pub fn place_node(
    walk: &mut PlacementWalk,
    id: NodeId,
    compatible: &Vec<&KernelCapability>,
    keys: &Vec<i64>,
    cpu_threads: usize,
) -> (r: (usize, usize))
    requires
        keys@.len() == compatible@.len(),
        keys@.len() > 0,
    ensures
        r.0 < keys@.len(),
        forall|j: int| 0 <= j < keys@.len() ==> keys@[r.0 as int] <= #[trigger] keys@[j],
        forall|j: int| 0 <= j < r.0 ==> #[trigger] keys@[j] > keys@[r.0 as int],
        r.1 == if !compatible@[r.0 as int].parallel || cpu_threads == 0 {
            1
        } else {
            cpu_threads as int
        },
        ({
            let device = compatible@[r.0 as int].device@;
            let crossed = old(walk).previous matches Some(from) && from@ != device;
            &&& final(walk).previous matches Some(d) && d@ == device
            &&& crossed ==> final(walk).boundary_views() == old(walk).boundary_views().push(
                (id.0, old(walk).previous.unwrap()@, device),
            )
            &&& !crossed ==> final(walk).boundary_views() == old(walk).boundary_views()
        }),
{
    let index = first_min(keys);
    let selected = compatible[index];
    let parallelism = kernel_parallelism(selected.parallel, cpu_threads);
    walk.visit(id, &selected.device);
    (index, parallelism)
}


/// Integer parts of a kernel's cost estimate.
#[derive(Clone, Copy, Debug, PartialEq, Eq, Structural)]
pub struct CostCounts {
    pub host_bytes: u64,
    pub device_bytes: u64,
    pub transfer_bytes: u64,
    pub temporary_bytes: u64,
    pub allocation_count: u32,
    pub launch_count: u32,
    pub synchronization_count: u32,
}

/// Bytes a kernel touches: the value's size (or `unknown` when it has none)
/// plus the kernel's temporary bytes, saturating at `u64::MAX`.
pub open spec fn touched_bytes(k: KernelCapability, props: Option<ValuePropertiesV>, unknown: u64) -> u64 {
    let value = match props {
        Some(p) => match byte_size_spec(p) {
            Some(b) => b,
            None => unknown,
        },
        None => unknown,
    };
    if value + k.temporary_bytes > u64::MAX {
        u64::MAX
    } else {
        (value + k.temporary_bytes) as u64
    }
}

pub open spec fn crosses(previous: Option<DeviceClassV>, device: DeviceClassV) -> bool {
    previous matches Some(d) && d != device
}

pub open spec fn cost_counts_spec(
    k: KernelCapability,
    props: Option<ValuePropertiesV>,
    unknown: u64,
    previous: Option<DeviceClassV>,
) -> CostCounts {
    let bytes = touched_bytes(k, props, unknown);
    let device = k.device@ != DeviceClassV::Cpu;
    let launches: u32 = if device && k.class != KernelClass::Source && k.class != KernelClass::Sink {
        1
    } else {
        0
    };
    CostCounts {
        host_bytes: if device {
            0
        } else {
            bytes
        },
        device_bytes: if device {
            bytes
        } else {
            0
        },
        transfer_bytes: if crosses(previous, k.device@) {
            bytes
        } else {
            0
        },
        temporary_bytes: k.temporary_bytes as u64,
        allocation_count: if k.in_place {
            0
        } else {
            1
        },
        launch_count: launches,
        synchronization_count: launches,
    }
}

/// Transfers are charged only across devices: a kernel that runs where
/// the previous node ran (or with no previous node) is charged no transfer
/// bytes; one that runs on another device than the previous node is
/// charged a transfer of every byte it touches.
pub proof fn law_transfer_only_across_devices(
    k: KernelCapability,
    props: Option<ValuePropertiesV>,
    unknown: u64,
    previous: Option<DeviceClassV>,
)
    ensures
        previous is None || previous == Some(k.device@) ==> cost_counts_spec(
            k,
            props,
            unknown,
            previous,
        ).transfer_bytes == 0,
        previous matches Some(d) && d != k.device@ ==> {
            let r = cost_counts_spec(k, props, unknown, previous);
            r.transfer_bytes == r.host_bytes + r.device_bytes
        },
{
}

/// The integer parts of running `kernel` on a value with properties
/// `props` after a node placed on `previous`: bytes on the host or the
/// device, bytes moved across a device change, allocations, launches and
/// synchronizations.
pub fn cost_counts(
    kernel: &KernelCapability,
    props: Option<&ValueProperties>,
    unknown_value_bytes: u64,
    previous: Option<&DeviceClass>,
) -> (r: CostCounts)
    ensures
        r == cost_counts_spec(
            *kernel,
            match props {
                Some(p) => Some(p@),
                None => None,
            },
            unknown_value_bytes,
            match previous {
                Some(d) => Some(d@),
                None => None,
            },
        ),
        previous matches Some(d) && d@ == kernel.device@ ==> r.transfer_bytes == 0,
        previous is None ==> r.transfer_bytes == 0,
        previous matches Some(d) && d@ != kernel.device@ ==> r.transfer_bytes == r.host_bytes
            + r.device_bytes,
{
    proof {
        law_transfer_only_across_devices(
            *kernel,
            match props {
                Some(p) => Some(p@),
                None => None,
            },
            unknown_value_bytes,
            match previous {
                Some(d) => Some(d@),
                None => None,
            },
        );
    }
    let value = match props {
        Some(p) => match byte_size(p) {
            Some(b) => b,
            None => unknown_value_bytes,
        },
        None => unknown_value_bytes,
    };
    let temporary = kernel.temporary_bytes as u64;
    let bytes = match value.checked_add(temporary) {
        Some(b) => b,
        None => u64::MAX,
    };
    let device = match &kernel.device {
        DeviceClass::Cpu => false,
        _ => true,
    };
    let crossing = match previous {
        Some(d) => *d != kernel.device,
        None => false,
    };
    let launches: u32 = if device && kernel.class != KernelClass::Source && kernel.class != KernelClass::Sink {
        1
    } else {
        0
    };
    CostCounts {
        host_bytes: if device {
            0
        } else {
            bytes
        },
        device_bytes: if device {
            bytes
        } else {
            0
        },
        transfer_bytes: if crossing {
            bytes
        } else {
            0
        },
        temporary_bytes: temporary,
        allocation_count: if kernel.in_place {
            0
        } else {
            1
        },
        launch_count: launches,
        synchronization_count: launches,
    }
}

} // verus!
