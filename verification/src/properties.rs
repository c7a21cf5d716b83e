//! Logical value properties inferred along a plan's edges.
//!
//! Types that can carry a free-form name hold it as a `String`; their views
//! replace each name by its characters, so equality of values is equality of
//! views.

use vstd::prelude::*;
use vstd::std_specs::cmp::PartialEqSpecImpl;
use crate::plan::{LogicalNode, LogicalPlan, NodeId, PlanError};

verus! {

/// Semantic representation carried by a pipeline edge.
#[derive(Debug)]
pub enum Representation {
    EncodedImage,
    Image,
    Tensor,
    Bytes,
    Scalar,
    Other(String),
}

pub enum RepresentationV {
    EncodedImage,
    Image,
    Tensor,
    Bytes,
    Scalar,
    Other(Seq<char>),
}

impl View for Representation {
    type V = RepresentationV;

    open spec fn view(&self) -> RepresentationV {
        match self {
            Representation::EncodedImage => RepresentationV::EncodedImage,
            Representation::Image => RepresentationV::Image,
            Representation::Tensor => RepresentationV::Tensor,
            Representation::Bytes => RepresentationV::Bytes,
            Representation::Scalar => RepresentationV::Scalar,
            Representation::Other(s) => RepresentationV::Other(s@),
        }
    }
}

impl Clone for Representation {
    fn clone(&self) -> (r: Self)
        ensures
            r@ == self@,
    {
        match self {
            Representation::EncodedImage => Representation::EncodedImage,
            Representation::Image => Representation::Image,
            Representation::Tensor => Representation::Tensor,
            Representation::Bytes => Representation::Bytes,
            Representation::Scalar => Representation::Scalar,
            Representation::Other(s) => Representation::Other(s.clone()),
        }
    }
}

impl PartialEq for Representation {
    fn eq(&self, other: &Self) -> (r: bool) {
        match (self, other) {
            (Representation::EncodedImage, Representation::EncodedImage) => true,
            (Representation::Image, Representation::Image) => true,
            (Representation::Tensor, Representation::Tensor) => true,
            (Representation::Bytes, Representation::Bytes) => true,
            (Representation::Scalar, Representation::Scalar) => true,
            (Representation::Other(a), Representation::Other(b)) => *a == *b,
            _ => false,
        }
    }
}

impl PartialEqSpecImpl for Representation {
    open spec fn obeys_eq_spec() -> bool {
        true
    }

    open spec fn eq_spec(&self, other: &Self) -> bool {
        self@ == other@
    }
}

impl Eq for Representation {}

/// Backend-independent scalar element type.
#[derive(Debug)]
pub enum DataType {
    U8,
    I8,
    U16,
    I16,
    U32,
    I32,
    U64,
    I64,
    BF16,
    F16,
    F32,
    F64,
    Bool,
    Other(String),
}

pub enum DataTypeV {
    U8,
    I8,
    U16,
    I16,
    U32,
    I32,
    U64,
    I64,
    BF16,
    F16,
    F32,
    F64,
    Bool,
    Other(Seq<char>),
}

impl View for DataType {
    type V = DataTypeV;

    open spec fn view(&self) -> DataTypeV {
        match self {
            DataType::U8 => DataTypeV::U8,
            DataType::I8 => DataTypeV::I8,
            DataType::U16 => DataTypeV::U16,
            DataType::I16 => DataTypeV::I16,
            DataType::U32 => DataTypeV::U32,
            DataType::I32 => DataTypeV::I32,
            DataType::U64 => DataTypeV::U64,
            DataType::I64 => DataTypeV::I64,
            DataType::BF16 => DataTypeV::BF16,
            DataType::F16 => DataTypeV::F16,
            DataType::F32 => DataTypeV::F32,
            DataType::F64 => DataTypeV::F64,
            DataType::Bool => DataTypeV::Bool,
            DataType::Other(s) => DataTypeV::Other(s@),
        }
    }
}

impl Clone for DataType {
    fn clone(&self) -> (r: Self)
        ensures
            r@ == self@,
    {
        match self {
            DataType::U8 => DataType::U8,
            DataType::I8 => DataType::I8,
            DataType::U16 => DataType::U16,
            DataType::I16 => DataType::I16,
            DataType::U32 => DataType::U32,
            DataType::I32 => DataType::I32,
            DataType::U64 => DataType::U64,
            DataType::I64 => DataType::I64,
            DataType::BF16 => DataType::BF16,
            DataType::F16 => DataType::F16,
            DataType::F32 => DataType::F32,
            DataType::F64 => DataType::F64,
            DataType::Bool => DataType::Bool,
            DataType::Other(s) => DataType::Other(s.clone()),
        }
    }
}

impl PartialEq for DataType {
    fn eq(&self, other: &Self) -> (r: bool) {
        match (self, other) {
            (DataType::U8, DataType::U8) => true,
            (DataType::I8, DataType::I8) => true,
            (DataType::U16, DataType::U16) => true,
            (DataType::I16, DataType::I16) => true,
            (DataType::U32, DataType::U32) => true,
            (DataType::I32, DataType::I32) => true,
            (DataType::U64, DataType::U64) => true,
            (DataType::I64, DataType::I64) => true,
            (DataType::BF16, DataType::BF16) => true,
            (DataType::F16, DataType::F16) => true,
            (DataType::F32, DataType::F32) => true,
            (DataType::F64, DataType::F64) => true,
            (DataType::Bool, DataType::Bool) => true,
            (DataType::Other(a), DataType::Other(b)) => *a == *b,
            _ => false,
        }
    }
}

impl PartialEqSpecImpl for DataType {
    open spec fn obeys_eq_spec() -> bool {
        true
    }

    open spec fn eq_spec(&self, other: &Self) -> bool {
        self@ == other@
    }
}

impl Eq for DataType {}

/// A dimension whose extent may be known only after reading a value.
#[derive(Clone, Copy, Debug, PartialEq, Eq, Structural, Hash)]
pub enum ShapeDim {
    Known(usize),
    Dynamic,
}

/// Shape can be unknown by rank, or known-rank with dynamic dimensions.
#[derive(Debug)]
pub struct ValueShape(pub Vec<ShapeDim>);

impl View for ValueShape {
    type V = Seq<ShapeDim>;

    open spec fn view(&self) -> Seq<ShapeDim> {
        self.0@
    }
}

impl Clone for ValueShape {
    fn clone(&self) -> (r: Self)
        ensures
            r@ == self@,
    {
        let mut dims: Vec<ShapeDim> = Vec::new();
        let mut i: usize = 0;
        while i < self.0.len()
            invariant
                0 <= i <= self.0@.len(),
                dims@ == self.0@.subrange(0, i as int),
            decreases self.0@.len() - i,
        {
            dims.push(self.0[i]);
            i += 1;
        }
        ValueShape(dims)
    }
}

impl PartialEq for ValueShape {
    fn eq(&self, other: &Self) -> (r: bool) {
        if self.0.len() != other.0.len() {
            return false;
        }
        let mut i: usize = 0;
        while i < self.0.len()
            invariant
                0 <= i <= self.0@.len(),
                self.0@.len() == other.0@.len(),
                self.0@.subrange(0, i as int) == other.0@.subrange(0, i as int),
            decreases self.0@.len() - i,
        {
            if self.0[i] != other.0[i] {
                assert(self.0@[i as int] != other.0@[i as int]);
                return false;
            }
            assert(self.0@.subrange(0, i + 1) =~= self.0@.subrange(0, i as int).push(self.0@[i as int]));
            assert(other.0@.subrange(0, i + 1) =~= other.0@.subrange(0, i as int).push(other.0@[i as int]));
            i += 1;
        }
        assert(self.0@ =~= self.0@.subrange(0, i as int));
        assert(other.0@ =~= other.0@.subrange(0, i as int));
        true
    }
}

impl PartialEqSpecImpl for ValueShape {
    open spec fn obeys_eq_spec() -> bool {
        true
    }

    open spec fn eq_spec(&self, other: &Self) -> bool {
        self@ == other@
    }
}

impl Eq for ValueShape {}

impl ValueShape {
    pub fn rank(&self) -> (r: usize)
        ensures
            r == self@.len(),
    {
        self.0.len()
    }

    pub fn dims(&self) -> (r: &[ShapeDim])
        ensures
            r@ == self@,
    {
        self.0.as_slice()
    }
}

/// Semantic axis labels; independent from physical contiguity.
#[derive(Debug)]
pub enum AxisOrder {
    Hwc,
    Chw,
    Nhwc,
    Nchw,
    Other(Vec<String>),
}

pub enum AxisOrderV {
    Hwc,
    Chw,
    Nhwc,
    Nchw,
    Other(Seq<Seq<char>>),
}

pub open spec fn names_view(names: Seq<String>) -> Seq<Seq<char>> {
    names.map_values(|s: String| s@)
}

impl View for AxisOrder {
    type V = AxisOrderV;

    open spec fn view(&self) -> AxisOrderV {
        match self {
            AxisOrder::Hwc => AxisOrderV::Hwc,
            AxisOrder::Chw => AxisOrderV::Chw,
            AxisOrder::Nhwc => AxisOrderV::Nhwc,
            AxisOrder::Nchw => AxisOrderV::Nchw,
            AxisOrder::Other(names) => AxisOrderV::Other(names_view(names@)),
        }
    }
}

fn clone_names(names: &Vec<String>) -> (r: Vec<String>)
    ensures
        names_view(r@) == names_view(names@),
{
    let mut out: Vec<String> = Vec::new();
    let mut i: usize = 0;
    while i < names.len()
        invariant
            0 <= i <= names@.len(),
            out@.len() == i,
            forall|k: int| 0 <= k < i ==> (#[trigger] out@[k])@ == names@[k]@,
        decreases names@.len() - i,
    {
        let s = names[i].clone();
        out.push(s);
        i += 1;
    }
    assert(names_view(out@) =~= names_view(names@));
    out
}

fn names_equal(a: &Vec<String>, b: &Vec<String>) -> (r: bool)
    ensures
        r == (names_view(a@) == names_view(b@)),
{
    if a.len() != b.len() {
        assert(names_view(a@).len() != names_view(b@).len());
        return false;
    }
    let mut i: usize = 0;
    while i < a.len()
        invariant
            0 <= i <= a@.len(),
            a@.len() == b@.len(),
            forall|k: int| 0 <= k < i ==> (#[trigger] a@[k])@ == b@[k]@,
        decreases a@.len() - i,
    {
        if a[i] != b[i] {
            assert(names_view(a@)[i as int] != names_view(b@)[i as int]);
            return false;
        }
        i += 1;
    }
    assert(names_view(a@) =~= names_view(b@));
    true
}

impl Clone for AxisOrder {
    fn clone(&self) -> (r: Self)
        ensures
            r@ == self@,
    {
        match self {
            AxisOrder::Hwc => AxisOrder::Hwc,
            AxisOrder::Chw => AxisOrder::Chw,
            AxisOrder::Nhwc => AxisOrder::Nhwc,
            AxisOrder::Nchw => AxisOrder::Nchw,
            AxisOrder::Other(names) => AxisOrder::Other(clone_names(names)),
        }
    }
}

impl PartialEq for AxisOrder {
    fn eq(&self, other: &Self) -> (r: bool) {
        match (self, other) {
            (AxisOrder::Hwc, AxisOrder::Hwc) => true,
            (AxisOrder::Chw, AxisOrder::Chw) => true,
            (AxisOrder::Nhwc, AxisOrder::Nhwc) => true,
            (AxisOrder::Nchw, AxisOrder::Nchw) => true,
            (AxisOrder::Other(a), AxisOrder::Other(b)) => names_equal(a, b),
            _ => false,
        }
    }
}

impl PartialEqSpecImpl for AxisOrder {
    open spec fn obeys_eq_spec() -> bool {
        true
    }

    open spec fn eq_spec(&self, other: &Self) -> bool {
        self@ == other@
    }
}

impl Eq for AxisOrder {}

#[derive(Clone, Copy, Debug, PartialEq, Eq, Structural, Hash)]
pub enum Contiguity {
    Contiguous,
    Strided,
    Unknown,
}

#[derive(Debug)]
pub enum DeviceClass {
    Cpu,
    Cuda,
    Metal,
    Other(String),
}

pub enum DeviceClassV {
    Cpu,
    Cuda,
    Metal,
    Other(Seq<char>),
}

impl View for DeviceClass {
    type V = DeviceClassV;

    open spec fn view(&self) -> DeviceClassV {
        match self {
            DeviceClass::Cpu => DeviceClassV::Cpu,
            DeviceClass::Cuda => DeviceClassV::Cuda,
            DeviceClass::Metal => DeviceClassV::Metal,
            DeviceClass::Other(s) => DeviceClassV::Other(s@),
        }
    }
}

impl Clone for DeviceClass {
    fn clone(&self) -> (r: Self)
        ensures
            r@ == self@,
    {
        match self {
            DeviceClass::Cpu => DeviceClass::Cpu,
            DeviceClass::Cuda => DeviceClass::Cuda,
            DeviceClass::Metal => DeviceClass::Metal,
            DeviceClass::Other(s) => DeviceClass::Other(s.clone()),
        }
    }
}

impl PartialEq for DeviceClass {
    fn eq(&self, other: &Self) -> (r: bool) {
        match (self, other) {
            (DeviceClass::Cpu, DeviceClass::Cpu) => true,
            (DeviceClass::Cuda, DeviceClass::Cuda) => true,
            (DeviceClass::Metal, DeviceClass::Metal) => true,
            (DeviceClass::Other(a), DeviceClass::Other(b)) => *a == *b,
            _ => false,
        }
    }
}

impl PartialEqSpecImpl for DeviceClass {
    open spec fn obeys_eq_spec() -> bool {
        true
    }

    open spec fn eq_spec(&self, other: &Self) -> bool {
        self@ == other@
    }
}

impl Eq for DeviceClass {}

#[derive(Debug)]
pub enum Residency {
    Host,
    Device(DeviceClass),
    Unknown,
}

pub enum ResidencyV {
    Host,
    Device(DeviceClassV),
    Unknown,
}

impl View for Residency {
    type V = ResidencyV;

    open spec fn view(&self) -> ResidencyV {
        match self {
            Residency::Host => ResidencyV::Host,
            Residency::Device(d) => ResidencyV::Device(d@),
            Residency::Unknown => ResidencyV::Unknown,
        }
    }
}

impl Clone for Residency {
    fn clone(&self) -> (r: Self)
        ensures
            r@ == self@,
    {
        match self {
            Residency::Host => Residency::Host,
            Residency::Device(d) => Residency::Device(d.clone()),
            Residency::Unknown => Residency::Unknown,
        }
    }
}

impl PartialEq for Residency {
    fn eq(&self, other: &Self) -> (r: bool) {
        match (self, other) {
            (Residency::Host, Residency::Host) => true,
            (Residency::Device(a), Residency::Device(b)) => a == b,
            (Residency::Unknown, Residency::Unknown) => true,
            _ => false,
        }
    }
}

impl PartialEqSpecImpl for Residency {
    open spec fn obeys_eq_spec() -> bool {
        true
    }

    open spec fn eq_spec(&self, other: &Self) -> bool {
        self@ == other@
    }
}

impl Eq for Residency {}

#[derive(Clone, Copy, Debug, PartialEq, Eq, Structural, Hash)]
pub enum Mutability {
    Immutable,
    Mutable,
    Unknown,
}

/// Value granularity at this point in a logical pipeline.
#[derive(Clone, Copy, Debug, PartialEq, Eq, Structural, Hash)]
pub enum ValueGranularity {
    Sample,
    Batch,
    Stream,
    Unknown,
}

pub open spec fn granularity_text(g: ValueGranularity) -> Seq<char> {
    match g {
        ValueGranularity::Sample => "sample"@,
        ValueGranularity::Batch => "batch"@,
        ValueGranularity::Stream => "stream"@,
        ValueGranularity::Unknown => "unknown"@,
    }
}

impl ValueGranularity {
    /// Lower-case display name of the granularity.
    pub fn as_str(&self) -> (r: &'static str)
        ensures
            r@ == granularity_text(*self),
    {
        proof {
            reveal_strlit("sample");
            reveal_strlit("batch");
            reveal_strlit("stream");
            reveal_strlit("unknown");
        }
        match self {
            ValueGranularity::Sample => "sample",
            ValueGranularity::Batch => "batch",
            ValueGranularity::Stream => "stream",
            ValueGranularity::Unknown => "unknown",
        }
    }
}

/// Coarse logical execution barrier, kept separate from value granularity.
#[derive(Clone, Copy, Debug, PartialEq, Eq, Structural, Hash)]
pub enum OperatorStage {
    Source,
    Sample,
    Batch,
}

/// Compatibility metadata used while lowering a logical pipeline to the
/// sample/batch execution model.
#[derive(Clone, Copy, Debug, PartialEq, Eq, Structural, Hash)]
pub struct OperatorProperties {
    pub stage: OperatorStage,
    pub sample_stage_has_work: bool,
}

/// Properties inferred for a logical value. `None` means unknown.
#[derive(Debug)]
pub struct ValueProperties {
    pub representation: Option<Representation>,
    pub dtype: Option<DataType>,
    pub shape: Option<ValueShape>,
    pub axis_order: Option<AxisOrder>,
    pub contiguity: Option<Contiguity>,
    pub residency: Option<Residency>,
    pub granularity: Option<ValueGranularity>,
    pub mutability: Option<Mutability>,
    pub operator: Option<OperatorProperties>,
}

pub struct ValuePropertiesV {
    pub representation: Option<RepresentationV>,
    pub dtype: Option<DataTypeV>,
    pub shape: Option<Seq<ShapeDim>>,
    pub axis_order: Option<AxisOrderV>,
    pub contiguity: Option<Contiguity>,
    pub residency: Option<ResidencyV>,
    pub granularity: Option<ValueGranularity>,
    pub mutability: Option<Mutability>,
    pub operator: Option<OperatorProperties>,
}

pub open spec fn opt_view<T: View>(o: Option<T>) -> Option<T::V> {
    match o {
        Some(v) => Some(v@),
        None => None,
    }
}

/// The fully unknown property set.
pub open spec fn unknown_properties() -> ValuePropertiesV {
    ValuePropertiesV {
        representation: None,
        dtype: None,
        shape: None,
        axis_order: None,
        contiguity: None,
        residency: None,
        granularity: None,
        mutability: None,
        operator: None,
    }
}

impl View for ValueProperties {
    type V = ValuePropertiesV;

    open spec fn view(&self) -> ValuePropertiesV {
        ValuePropertiesV {
            representation: opt_view(self.representation),
            dtype: opt_view(self.dtype),
            shape: opt_view(self.shape),
            axis_order: opt_view(self.axis_order),
            contiguity: self.contiguity,
            residency: opt_view(self.residency),
            granularity: self.granularity,
            mutability: self.mutability,
            operator: self.operator,
        }
    }
}

fn clone_representation(o: &Option<Representation>) -> (r: Option<Representation>)
    ensures
        opt_view(r) == opt_view(*o),
{
    match o {
        Some(v) => Some(v.clone()),
        None => None,
    }
}

fn clone_dtype(o: &Option<DataType>) -> (r: Option<DataType>)
    ensures
        opt_view(r) == opt_view(*o),
{
    match o {
        Some(v) => Some(v.clone()),
        None => None,
    }
}

fn clone_shape(o: &Option<ValueShape>) -> (r: Option<ValueShape>)
    ensures
        opt_view(r) == opt_view(*o),
{
    match o {
        Some(v) => Some(v.clone()),
        None => None,
    }
}

fn clone_axis(o: &Option<AxisOrder>) -> (r: Option<AxisOrder>)
    ensures
        opt_view(r) == opt_view(*o),
{
    match o {
        Some(v) => Some(v.clone()),
        None => None,
    }
}

fn clone_residency(o: &Option<Residency>) -> (r: Option<Residency>)
    ensures
        opt_view(r) == opt_view(*o),
{
    match o {
        Some(v) => Some(v.clone()),
        None => None,
    }
}

impl Clone for ValueProperties {
    fn clone(&self) -> (r: Self)
        ensures
            r@ == self@,
    {
        ValueProperties {
            representation: clone_representation(&self.representation),
            dtype: clone_dtype(&self.dtype),
            shape: clone_shape(&self.shape),
            axis_order: clone_axis(&self.axis_order),
            contiguity: self.contiguity,
            residency: clone_residency(&self.residency),
            granularity: self.granularity,
            mutability: self.mutability,
            operator: self.operator,
        }
    }
}

impl PartialEq for ValueProperties {
    fn eq(&self, other: &Self) -> (r: bool) {
        let a = self.representation == other.representation;
        let b = self.dtype == other.dtype;
        let c = self.shape == other.shape;
        let d = self.axis_order == other.axis_order;
        let e = self.contiguity == other.contiguity;
        let f = self.residency == other.residency;
        let g = self.granularity == other.granularity;
        let h = self.mutability == other.mutability;
        let i = self.operator == other.operator;
        a && b && c && d && e && f && g && h && i
    }
}

impl PartialEqSpecImpl for ValueProperties {
    open spec fn obeys_eq_spec() -> bool {
        true
    }

    open spec fn eq_spec(&self, other: &Self) -> bool {
        self@ == other@
    }
}

impl Eq for ValueProperties {}

impl ValueProperties {
    /// Properties with every field unknown.
    pub fn unknown() -> (r: Self)
        ensures
            r@ == unknown_properties(),
    {
        ValueProperties {
            representation: None,
            dtype: None,
            shape: None,
            axis_order: None,
            contiguity: None,
            residency: None,
            granularity: None,
            mutability: None,
            operator: None,
        }
    }

    /// The same properties with the shape replaced by `dims`.
    pub fn with_shape(self, dims: Vec<ShapeDim>) -> (r: Self)
        ensures
            r@ == (ValuePropertiesV { shape: Some(dims@), ..self@ }),
    {
        let mut out = self;
        out.shape = Some(ValueShape(dims));
        out
    }
}

/// Domain supplied property inference hook. `inputs` follow the node's
/// ordered input edges; source nodes receive an empty slice.
pub trait PropertyInference<P> {
    /// The properties inferred for `node` with input properties `inputs`;
    /// `None` when the node is rejected.
    spec fn infer_spec(&self, node: LogicalNode<P>, inputs: Seq<ValuePropertiesV>) -> Option<ValuePropertiesV>;

    fn infer_node(&self, node: &LogicalNode<P>, inputs: &[ValueProperties]) -> (r: Result<
        ValueProperties,
        String,
    >)
        ensures
            r is Ok <==> self.infer_spec(*node, views(inputs@)) is Some,
            r matches Ok(v) ==> self.infer_spec(*node, views(inputs@)) == Some(v@),
    ;
}

/// Results of a logical plan property inference pass, keyed by node index.
#[derive(Debug)]
pub struct PropertyAnnotations {
    values: Vec<Option<ValueProperties>>,
}

impl View for PropertyAnnotations {
    type V = Map<usize, ValuePropertiesV>;

    closed spec fn view(&self) -> Map<usize, ValuePropertiesV> {
        Map::new(
            |k: usize| k < self.values@.len() && self.values@[k as int] is Some,
            |k: usize| self.values@[k as int]->0@,
        )
    }
}

impl Default for PropertyAnnotations {
    fn default() -> (r: Self)
        ensures
            r@ == Map::<usize, ValuePropertiesV>::empty(),
    {
        PropertyAnnotations::new()
    }
}

impl PropertyAnnotations {
    /// No annotations.
    pub fn new() -> (r: Self)
        ensures
            r@ == Map::<usize, ValuePropertiesV>::empty(),
    {
        let r = PropertyAnnotations { values: Vec::new() };
        assert(r@ =~= Map::<usize, ValuePropertiesV>::empty());
        r
    }

    /// The properties recorded for node `id`.
    pub fn get(&self, id: NodeId) -> (r: Option<&ValueProperties>)
        ensures
            r is Some <==> self@.contains_key(id.0),
            r matches Some(v) ==> v@ == self@[id.0],
    {
        if id.0 < self.values.len() {
            match &self.values[id.0] {
                Some(v) => Some(v),
                None => None,
            }
        } else {
            None
        }
    }

    /// Every annotation, in ascending node order.
    pub fn iter(&self) -> (r: Vec<(NodeId, &ValueProperties)>)
        ensures
            forall|i: int, j: int| 0 <= i < j < r@.len() ==> r@[i].0.0 < r@[j].0.0,
            forall|i: int| 0 <= i < r@.len() ==> #[trigger] self@.contains_key(r@[i].0.0)
                && r@[i].1@ == self@[r@[i].0.0],
            forall|k: usize| #[trigger] self@.contains_key(k) ==> exists|i: int|
                0 <= i < r@.len() && r@[i].0.0 == k,
    {
        let mut out: Vec<(NodeId, &ValueProperties)> = Vec::new();
        let mut k: usize = 0;
        while k < self.values.len()
            invariant
                0 <= k <= self.values@.len(),
                forall|i: int, j: int| 0 <= i < j < out@.len() ==> out@[i].0.0 < out@[j].0.0,
                forall|i: int| 0 <= i < out@.len() ==> out@[i].0.0 < k,
                forall|i: int| 0 <= i < out@.len() ==> #[trigger] self@.contains_key(out@[i].0.0)
                    && out@[i].1@ == self@[out@[i].0.0],
                forall|m: usize| m < k && #[trigger] self@.contains_key(m) ==> exists|i: int|
                    0 <= i < out@.len() && out@[i].0.0 == m,
            decreases self.values@.len() - k,
        {
            let ghost prev = out@;
            match &self.values[k] {
                Some(v) => {
                    out.push((NodeId(k), v));
                    proof {
                        assert(self@.contains_key(k));
                        assert(out@[out@.len() - 1].1@ == self@[k]);
                        assert forall|i: int| 0 <= i < out@.len() implies #[trigger] self@.contains_key(out@[i].0.0)
                            && out@[i].1@ == self@[out@[i].0.0] by {
                            if i < prev.len() {
                                assert(out@[i] == prev[i]);
                            }
                        }
                        assert forall|m: usize| m < k + 1 && #[trigger] self@.contains_key(m) implies exists|i: int|
                            0 <= i < out@.len() && out@[i].0.0 == m by {
                            if m == k {
                                assert(out@[out@.len() - 1].0.0 == m);
                            } else {
                                let i = choose|i: int| 0 <= i < prev.len() && prev[i].0.0 == m;
                                assert(out@[i] == prev[i]);
                            }
                        }
                    }
                },
                None => {
                    assert(!self@.contains_key(k));
                },
            }
            k += 1;
        }
        out
    }

    /// Records `properties` for node `id`, returning what was there.
    pub fn insert(&mut self, id: NodeId, properties: ValueProperties) -> (r: Option<ValueProperties>)
        ensures
            final(self)@ == old(self)@.insert(id.0, properties@),
            r is Some <==> old(self)@.contains_key(id.0),
            r matches Some(v) ==> v@ == old(self)@[id.0],
    {
        let ghost before = self.values@;
        while self.values.len() <= id.0
            invariant
                self.values@.len() >= before.len(),
                forall|k: int| 0 <= k < before.len() ==> self.values@[k] == before[k],
                forall|k: int| before.len() <= k < self.values@.len() ==> self.values@[k] is None,
            decreases id.0 + 1 - self.values@.len(),
        {
            self.values.push(None);
        }
        let ghost padded = self.values@;
        assert(self@ =~= old(self)@);
        let mut previous = Some(properties);
        std::mem::swap(&mut self.values[id.0], &mut previous);
        proof {
            assert forall|k: usize| #[trigger] self@.contains_key(k) == old(self)@.insert(id.0, properties@).contains_key(k) by {
                if k != id.0 && k < padded.len() {
                    assert(self.values@[k as int] == padded[k as int]);
                }
            }
            assert(self@ =~= old(self)@.insert(id.0, properties@));
        }
        previous
    }

    /// Drops the properties of node `id`, returning them.
    pub fn remove(&mut self, id: NodeId) -> (r: Option<ValueProperties>)
        ensures
            final(self)@ == old(self)@.remove(id.0),
            r is Some <==> old(self)@.contains_key(id.0),
            r matches Some(v) ==> v@ == old(self)@[id.0],
    {
        if id.0 < self.values.len() {
            let mut previous = None;
            std::mem::swap(&mut self.values[id.0], &mut previous);
            assert(self@ =~= old(self)@.remove(id.0));
            previous
        } else {
            assert(self@ =~= old(self)@.remove(id.0));
            None
        }
    }
}

/// Errors of plan-wide property inference.
#[derive(Debug)]
pub enum InferenceError {
    InvalidPlan(PlanError),
    Node { node: NodeId, message: String },
    Cycle(NodeId),
}


/// Views of a sequence of properties.
pub open spec fn views(s: Seq<ValueProperties>) -> Seq<ValuePropertiesV> {
    s.map_values(|p: ValueProperties| p@)
}

/// Properties of the inputs `ids` among already inferred `vals`.
pub open spec fn input_views(vals: Seq<ValuePropertiesV>, ids: Seq<NodeId>) -> Seq<ValuePropertiesV> {
    ids.map_values(|id: NodeId| vals[id.0 as int])
}

/// Properties of the first `n` nodes, each inferred from those of its
/// inputs; `None` when inference rejects one of them.
pub open spec fn inferred_prefix<P, I: PropertyInference<P>>(
    inference: I,
    nodes: Seq<LogicalNode<P>>,
    n: nat,
) -> Option<Seq<ValuePropertiesV>>
    decreases n,
{
    if n == 0 || n > nodes.len() {
        Some(Seq::empty())
    } else {
        match inferred_prefix(inference, nodes, (n - 1) as nat) {
            None => None,
            Some(vals) => match inference.infer_spec(nodes[n - 1], input_views(vals, nodes[n - 1].inputs@)) {
                None => None,
                Some(v) => Some(vals.push(v)),
            },
        }
    }
}

pub open spec fn annotations_of(vals: Seq<ValuePropertiesV>) -> Map<usize, ValuePropertiesV> {
    Map::new(|k: usize| k < vals.len(), |k: usize| vals[k as int])
}

proof fn lemma_inferred_none_sticks<P, I: PropertyInference<P>>(
    inference: I,
    nodes: Seq<LogicalNode<P>>,
    k: nat,
    n: nat,
)
    requires
        k <= n <= nodes.len(),
        inferred_prefix(inference, nodes, k) is None,
    ensures
        inferred_prefix(inference, nodes, n) is None,
    decreases n - k,
{
    if k < n {
        lemma_inferred_none_sticks(inference, nodes, k + 1, n);
    }
}

proof fn lemma_inferred_len<P, I: PropertyInference<P>>(inference: I, nodes: Seq<LogicalNode<P>>, n: nat)
    requires
        n <= nodes.len(),
        inferred_prefix(inference, nodes, n) is Some,
    ensures
        inferred_prefix(inference, nodes, n).unwrap().len() == n,
    decreases n,
{
    if n > 0 {
        lemma_inferred_len(inference, nodes, (n - 1) as nat);
    }
}

impl<P> LogicalPlan<P> {
    /// Infers the properties of every node, in id order, each from the
    /// properties of its inputs: a valid plan lists every input before its
    /// consumer.
    #[verifier::loop_isolation(false)]
    pub fn infer_properties<I: PropertyInference<P>>(&self, inference: &I) -> (r: Result<
        PropertyAnnotations,
        InferenceError,
    >)
        ensures
            !self.valid() ==> (r matches Err(e) && e matches InferenceError::InvalidPlan(pe)
                && self.validate_error(pe)),
            self.valid() ==> (r is Ok <==> inferred_prefix(
                *inference,
                self.spec_nodes(),
                self.spec_nodes().len(),
            ) is Some),
            r matches Ok(a) ==> a@ == annotations_of(
                inferred_prefix(*inference, self.spec_nodes(), self.spec_nodes().len()).unwrap(),
            ),
            self.valid() ==> (r matches Err(e) ==> (e matches InferenceError::Node { node, .. } && node.0
                < self.spec_nodes().len() && inferred_prefix(*inference, self.spec_nodes(), node.0 as nat)
                is Some && inferred_prefix(*inference, self.spec_nodes(), (node.0 + 1) as nat) is None)),
    {
        match self.validate() {
            Err(e) => return Err(InferenceError::InvalidPlan(e)),
            Ok(()) => {},
        }
        let ghost nodes = self.spec_nodes();
        let n = self.len();
        let mut computed: Vec<ValueProperties> = Vec::new();
        let mut annotations = PropertyAnnotations::new();
        let mut i: usize = 0;
        while i < n
            invariant
                0 <= i <= n,
                n == nodes.len(),
                self.valid(),
                inferred_prefix(*inference, nodes, i as nat) == Some(views(computed@)),
                computed@.len() == i,
                annotations@ == annotations_of(views(computed@)),
            decreases n - i,
        {
            let node = match self.node(NodeId(i)) {
                Ok(node) => node,
                Err(e) => return Err(InferenceError::InvalidPlan(e)),
            };
            let mut inputs: Vec<ValueProperties> = Vec::new();
            let mut j: usize = 0;
            while j < node.inputs.len()
                invariant
                    0 <= j <= node.inputs@.len(),
                    *node == nodes[i as int],
                    inputs@.len() == j,
                    forall|t: int| 0 <= t < j ==> (#[trigger] inputs@[t])@ == views(computed@)[node.inputs@[t].0 as int],
                decreases node.inputs@.len() - j,
            {
                let input = node.inputs[j];
                assert(input.0 < i);
                inputs.push(computed[input.0].clone());
                j += 1;
            }
            assert(views(inputs@) =~= input_views(views(computed@), nodes[i as int].inputs@));
            match inference.infer_node(node, inputs.as_slice()) {
                Err(message) => {
                    proof {
                        lemma_inferred_none_sticks(*inference, nodes, (i + 1) as nat, n as nat);
                    }
                    return Err(InferenceError::Node { node: NodeId(i), message });
                },
                Ok(v) => {
                    let ghost before = computed@;
                    annotations.insert(NodeId(i), v.clone());
                    computed.push(v);
                    proof {
                        assert(views(computed@) =~= views(before).push(computed@[i as int]@));
                        assert(annotations@ =~= annotations_of(views(computed@)));
                    }
                },
            }
            i += 1;
        }
        Ok(annotations)
    }
}

} // verus!
