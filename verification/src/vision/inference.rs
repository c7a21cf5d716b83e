//! Vision-specific value-property inference and validation.
//!
//! Each image operation maps the properties of its input value to those of
//! its output; `infer_op` states that map and `infer_image_op_with_workers`
//! computes it.

use vstd::prelude::*;
use crate::plan::{LogicalNode, NodeKind};
use crate::properties::{
    AxisOrder, AxisOrderV, Contiguity, DataType, DataTypeV, Mutability, OperatorProperties,
    OperatorStage, PropertyInference, Representation, views, RepresentationV, Residency, ResidencyV,
    ShapeDim, ValueGranularity, ValueProperties, ValuePropertiesV, ValueShape, opt_view,
};
use crate::text::{owned, push_decimal, push_str};
use crate::vision::errors::{VisionError, error_text};
use crate::vision::image_op::{
    BatchConfig, ExecutionKind, ImageOp, PipelineImageState, StateRequirement, config_valid,
    execution_kind_spec, leaf_requirement, name_spec, require_state, requirement_holds,
    requirement_message,
};
use crate::properties::granularity_text;
use crate::vision::stages::batch_error_text;
use crate::vision::logical::{DeviceCut, FusionGroupPayload, VisionPayload};
use crate::vision::transforms::{DType, ImageAxisOrder, PadConfig, RotationAngle};

verus! {

// ---------------------------------------------------------------------------
// Conversions between image states and properties
// ---------------------------------------------------------------------------

pub open spec fn image_axis_spec(a: Option<AxisOrderV>) -> Option<ImageAxisOrder> {
    match a {
        Some(AxisOrderV::Hwc) | Some(AxisOrderV::Nhwc) => Some(ImageAxisOrder::Hwc),
        Some(AxisOrderV::Chw) | Some(AxisOrderV::Nchw) => Some(ImageAxisOrder::Chw),
        _ => None,
    }
}

pub open spec fn axis_property_spec(a: ImageAxisOrder) -> AxisOrderV {
    match a {
        ImageAxisOrder::Hwc => AxisOrderV::Hwc,
        ImageAxisOrder::Chw => AxisOrderV::Chw,
    }
}

pub open spec fn core_dtype_spec(d: DType) -> DataTypeV {
    match d {
        DType::U8 => DataTypeV::U8,
        DType::I16 => DataTypeV::I16,
        DType::U32 => DataTypeV::U32,
        DType::I32 => DataTypeV::I32,
        DType::I64 => DataTypeV::I64,
        DType::BF16 => DataTypeV::BF16,
        DType::F16 => DataTypeV::F16,
        DType::F32 => DataTypeV::F32,
        DType::F64 => DataTypeV::F64,
    }
}

pub open spec fn dtype_from_property_spec(d: DataTypeV) -> Option<DType> {
    match d {
        DataTypeV::U8 => Some(DType::U8),
        DataTypeV::I16 => Some(DType::I16),
        DataTypeV::U32 => Some(DType::U32),
        DataTypeV::I32 => Some(DType::I32),
        DataTypeV::I64 => Some(DType::I64),
        DataTypeV::BF16 => Some(DType::BF16),
        DataTypeV::F16 => Some(DType::F16),
        DataTypeV::F32 => Some(DType::F32),
        DataTypeV::F64 => Some(DType::F64),
        _ => None,
    }
}

pub fn image_axis(axis: Option<&AxisOrder>) -> (r: Option<ImageAxisOrder>)
    ensures
        r == image_axis_spec(match axis {
            Some(a) => Some(a@),
            None => None,
        }),
{
    match axis {
        Some(AxisOrder::Hwc) | Some(AxisOrder::Nhwc) => Some(ImageAxisOrder::Hwc),
        Some(AxisOrder::Chw) | Some(AxisOrder::Nchw) => Some(ImageAxisOrder::Chw),
        _ => None,
    }
}

pub fn axis_property(axis: ImageAxisOrder) -> (r: AxisOrder)
    ensures
        r@ == axis_property_spec(axis),
{
    match axis {
        ImageAxisOrder::Hwc => AxisOrder::Hwc,
        ImageAxisOrder::Chw => AxisOrder::Chw,
    }
}

pub fn core_dtype(dtype: DType) -> (r: DataType)
    ensures
        r@ == core_dtype_spec(dtype),
{
    match dtype {
        DType::U8 => DataType::U8,
        DType::I16 => DataType::I16,
        DType::U32 => DataType::U32,
        DType::I32 => DataType::I32,
        DType::I64 => DataType::I64,
        DType::BF16 => DataType::BF16,
        DType::F16 => DataType::F16,
        DType::F32 => DataType::F32,
        DType::F64 => DataType::F64,
    }
}

pub open spec fn dynamic_shape_spec() -> Seq<ShapeDim> {
    seq![ShapeDim::Dynamic, ShapeDim::Dynamic, ShapeDim::Dynamic]
}

pub fn dynamic_dim() -> (r: ShapeDim)
    ensures
        r == ShapeDim::Dynamic,
{
    ShapeDim::Dynamic
}

/// Rank-3 shape with every dimension dynamic, for either axis order.
pub fn dynamic_image_shape(axis_order: ImageAxisOrder) -> (r: ValueShape)
    ensures
        r@ == dynamic_shape_spec(),
{
    let mut dims: Vec<ShapeDim> = Vec::new();
    dims.push(ShapeDim::Dynamic);
    dims.push(ShapeDim::Dynamic);
    dims.push(ShapeDim::Dynamic);
    assert(dims@ =~= dynamic_shape_spec());
    ValueShape(dims)
}

pub open spec fn source_operator() -> OperatorProperties {
    OperatorProperties { stage: OperatorStage::Source, sample_stage_has_work: false }
}

/// Properties of a host-resident, immutable, sample-granular image at the
/// source stage.
pub open spec fn image_properties_spec(
    dtype: DataTypeV,
    axis_order: ImageAxisOrder,
    shape: Seq<ShapeDim>,
    contiguity: Contiguity,
) -> ValuePropertiesV {
    ValuePropertiesV {
        representation: Some(RepresentationV::Image),
        dtype: Some(dtype),
        shape: Some(shape),
        axis_order: Some(axis_property_spec(axis_order)),
        contiguity: Some(contiguity),
        residency: Some(ResidencyV::Host),
        granularity: Some(ValueGranularity::Sample),
        mutability: Some(Mutability::Immutable),
        operator: Some(source_operator()),
    }
}

pub fn image_properties(
    dtype: DataType,
    axis_order: ImageAxisOrder,
    shape: ValueShape,
    contiguity: Contiguity,
) -> (r: ValueProperties)
    ensures
        r@ == image_properties_spec(dtype@, axis_order, shape@, contiguity),
{
    ValueProperties {
        representation: Some(Representation::Image),
        dtype: Some(dtype),
        shape: Some(shape),
        axis_order: Some(axis_property(axis_order)),
        contiguity: Some(contiguity),
        residency: Some(Residency::Host),
        granularity: Some(ValueGranularity::Sample),
        mutability: Some(Mutability::Immutable),
        operator: Some(
            OperatorProperties { stage: OperatorStage::Source, sample_stage_has_work: false },
        ),
    }
}

/// Properties of the value a source in state `state` produces.
pub open spec fn properties_from_state_spec(state: PipelineImageState) -> ValuePropertiesV {
    match state {
        PipelineImageState::Encoded => ValuePropertiesV {
            representation: Some(RepresentationV::EncodedImage),
            dtype: None,
            shape: Some(seq![ShapeDim::Dynamic]),
            axis_order: None,
            contiguity: Some(Contiguity::Contiguous),
            residency: Some(ResidencyV::Host),
            granularity: Some(ValueGranularity::Sample),
            mutability: Some(Mutability::Immutable),
            operator: Some(source_operator()),
        },
        PipelineImageState::Decoded { dtype, axis_order } => image_properties_spec(
            core_dtype_spec(dtype),
            axis_order,
            dynamic_shape_spec(),
            Contiguity::Contiguous,
        ),
    }
}

pub fn properties_from_state(state: PipelineImageState) -> (r: ValueProperties)
    ensures
        r@ == properties_from_state_spec(state),
{
    match state {
        PipelineImageState::Encoded => {
            let mut dims: Vec<ShapeDim> = Vec::new();
            dims.push(ShapeDim::Dynamic);
            assert(dims@ =~= seq![ShapeDim::Dynamic]);
            ValueProperties {
                representation: Some(Representation::EncodedImage),
                dtype: None,
                shape: Some(ValueShape(dims)),
                axis_order: None,
                contiguity: Some(Contiguity::Contiguous),
                residency: Some(Residency::Host),
                granularity: Some(ValueGranularity::Sample),
                mutability: Some(Mutability::Immutable),
                operator: Some(
                    OperatorProperties { stage: OperatorStage::Source, sample_stage_has_work: false },
                ),
            }
        },
        PipelineImageState::Decoded { dtype, axis_order } => image_properties(
            core_dtype(dtype),
            axis_order,
            dynamic_image_shape(axis_order),
            Contiguity::Contiguous,
        ),
    }
}

/// The image state that properties describe, when they describe one.
pub open spec fn state_from_properties_spec(p: ValuePropertiesV) -> Option<PipelineImageState> {
    match p.representation {
        Some(RepresentationV::EncodedImage) => Some(PipelineImageState::Encoded),
        Some(RepresentationV::Image) => match (p.dtype, image_axis_spec(p.axis_order)) {
            (Some(d), Some(a)) => match dtype_from_property_spec(d) {
                Some(dtype) => Some(PipelineImageState::Decoded { dtype, axis_order: a }),
                None => None,
            },
            _ => None,
        },
        _ => None,
    }
}

/// The image element type of a plan data type, when images use it.
pub fn core_dtype_from_property(dtype: &DataType) -> (r: Result<DType, VisionError>)
    ensures
        r is Ok <==> dtype_from_property_spec(dtype@) is Some,
        r matches Ok(d) ==> dtype_from_property_spec(dtype@) == Some(d),
        r matches Err(e) ==> e is InvalidPipeline && error_text(e)
            == "image properties use an unsupported dtype"@,
{
    proof {
        reveal_strlit("image properties use an unsupported dtype");
    }
    match dtype {
        DataType::U8 => Ok(DType::U8),
        DataType::I16 => Ok(DType::I16),
        DataType::U32 => Ok(DType::U32),
        DataType::I32 => Ok(DType::I32),
        DataType::I64 => Ok(DType::I64),
        DataType::BF16 => Ok(DType::BF16),
        DataType::F16 => Ok(DType::F16),
        DataType::F32 => Ok(DType::F32),
        DataType::F64 => Ok(DType::F64),
        _ => Err(VisionError::InvalidPipeline(owned("image properties use an unsupported dtype"))),
    }
}

pub fn state_from_properties(properties: &ValueProperties) -> (r: Result<
    PipelineImageState,
    VisionError,
>)
    ensures
        r is Ok <==> state_from_properties_spec(properties@) is Some,
        r matches Ok(s) ==> state_from_properties_spec(properties@) == Some(s),
        r matches Err(e) ==> e is InvalidPipeline,
{
    match &properties.representation {
        Some(Representation::EncodedImage) => Ok(PipelineImageState::Encoded),
        Some(Representation::Image) => {
            let dtype = match &properties.dtype {
                Some(d) => d,
                None => {
                    return Err(
                        VisionError::InvalidPipeline(owned("image properties are missing dtype")),
                    );
                },
            };
            let axis_order = match image_axis(properties.axis_order.as_ref()) {
                Some(a) => a,
                None => {
                    return Err(
                        VisionError::InvalidPipeline(
                            owned("image properties are missing axis order"),
                        ),
                    );
                },
            };
            let core = match core_dtype_from_property(dtype) {
                Ok(d) => d,
                Err(e) => return Err(e),
            };
            Ok(PipelineImageState::Decoded { dtype: core, axis_order })
        },
        _ => Err(VisionError::InvalidPipeline(owned("value properties do not describe an image"))),
    }
}

// ---------------------------------------------------------------------------
// Shape edits
// ---------------------------------------------------------------------------

/// Index of the height dimension of a rank-3 image.
pub open spec fn height_index(a: ImageAxisOrder) -> int {
    match a {
        ImageAxisOrder::Hwc => 0,
        ImageAxisOrder::Chw => 1,
    }
}

/// Index of the channel dimension of a rank-3 image.
pub open spec fn channel_index(a: ImageAxisOrder) -> int {
    match a {
        ImageAxisOrder::Hwc => 2,
        ImageAxisOrder::Chw => 0,
    }
}

/// Spatial dims replaced by `h` and `w` when the shape is a rank-3 image
/// with a known axis order; otherwise unchanged.
pub open spec fn set_spatial_spec(p: ValuePropertiesV, h: ShapeDim, w: ShapeDim) -> ValuePropertiesV {
    match (p.shape, image_axis_spec(p.axis_order)) {
        (Some(s), Some(a)) => if s.len() == 3 {
            ValuePropertiesV {
                shape: Some(s.update(height_index(a), h).update(height_index(a) + 1, w)),
                ..p
            }
        } else {
            p
        },
        _ => p,
    }
}

pub open spec fn set_channel_spec(p: ValuePropertiesV, c: ShapeDim) -> ValuePropertiesV {
    match (p.shape, image_axis_spec(p.axis_order)) {
        (Some(s), Some(a)) => if s.len() == 3 {
            ValuePropertiesV { shape: Some(s.update(channel_index(a), c)), ..p }
        } else {
            p
        },
        _ => p,
    }
}

pub open spec fn swap_spatial_spec(p: ValuePropertiesV) -> ValuePropertiesV {
    match (p.shape, image_axis_spec(p.axis_order)) {
        (Some(s), Some(a)) => if s.len() == 3 {
            let h = height_index(a);
            ValuePropertiesV { shape: Some(s.update(h, s[h + 1]).update(h + 1, s[h])), ..p }
        } else {
            p
        },
        _ => p,
    }
}

/// Channel dim of an image shape; dynamic when unknown.
pub open spec fn channel_dim_spec(p: ValuePropertiesV) -> ShapeDim {
    match (p.shape, image_axis_spec(p.axis_order)) {
        (Some(s), Some(a)) => if channel_index(a) < s.len() {
            s[channel_index(a)]
        } else {
            ShapeDim::Dynamic
        },
        _ => ShapeDim::Dynamic,
    }
}

/// A rank-3 shape permuted from axis order `from` to `to`.
pub open spec fn reorder_spec(p: ValuePropertiesV, from: ImageAxisOrder, to: ImageAxisOrder) -> ValuePropertiesV {
    match p.shape {
        Some(s) => if s.len() != 3 || from == to {
            p
        } else if from == ImageAxisOrder::Hwc {
            ValuePropertiesV { shape: Some(seq![s[2], s[0], s[1]]), ..p }
        } else {
            ValuePropertiesV { shape: Some(seq![s[1], s[2], s[0]]), ..p }
        },
        None => p,
    }
}

pub open spec fn add_padding_spec(dim: ShapeDim, before: u32, after: u32) -> ShapeDim {
    match dim {
        ShapeDim::Known(v) => if v + before + after <= usize::MAX {
            ShapeDim::Known((v + before + after) as usize)
        } else {
            ShapeDim::Dynamic
        },
        ShapeDim::Dynamic => ShapeDim::Dynamic,
    }
}

/// Padding of a rank-3 image shape: `top`/`bottom` on the height and
/// `left`/`right` on the width.
pub open spec fn pad_spec(p: ValuePropertiesV, left: u32, top: u32, right: u32, bottom: u32) -> ValuePropertiesV {
    match (p.shape, image_axis_spec(p.axis_order)) {
        (Some(s), Some(a)) => {
            let h = height_index(a);
            ValuePropertiesV {
                shape: Some(
                    s.update(h, add_padding_spec(s[h], top, bottom)).update(
                        h + 1,
                        add_padding_spec(s[h + 1], left, right),
                    ),
                ),
                ..p
            }
        },
        _ => p,
    }
}

/// Padding grows a known image by its sides: when property inference
/// accepts `Pad` on a rank-3 HWC or CHW image, the output keeps the rank
/// and the channel dimension, its height is the input height plus `top`
/// and `bottom`, and its width the input width plus `left` and `right`
/// (wherever the input dimension is known and the sum fits).
pub proof fn law_pad_shape(c: PadConfig, p: ValuePropertiesV, workers: nat)
    requires
        infer_op(ImageOp::Pad(c), p, workers) is Some,
        p.shape matches Some(s) && s.len() == 3,
    ensures
        ({
            let s = p.shape.unwrap();
            let q = infer_op(ImageOp::Pad(c), p, workers).unwrap();
            let (hi, wi, ci) = if image_axis_spec(p.axis_order) == Some(ImageAxisOrder::Hwc) {
                (0int, 1int, 2int)
            } else {
                (1int, 2int, 0int)
            };
            &&& q.axis_order == p.axis_order
            &&& q.shape matches Some(t) && t.len() == 3
            &&& image_axis_spec(p.axis_order) is Some ==> {
                let t = q.shape.unwrap();
                &&& t[ci] == s[ci]
                &&& match s[hi] {
                    ShapeDim::Known(h) => h + c.top + c.bottom <= usize::MAX ==> t[hi] == ShapeDim::Known(
                        (h + c.top + c.bottom) as usize,
                    ),
                    ShapeDim::Dynamic => true,
                }
                &&& match s[wi] {
                    ShapeDim::Known(w) => w + c.left + c.right <= usize::MAX ==> t[wi] == ShapeDim::Known(
                        (w + c.left + c.right) as usize,
                    ),
                    ShapeDim::Dynamic => true,
                }
            }
        }),
{
}

pub open spec fn merge_contiguity_spec(a: Option<Contiguity>, b: Option<Contiguity>) -> Option<Contiguity> {
    if a == b {
        a
    } else {
        Some(Contiguity::Unknown)
    }
}

pub open spec fn merge_dims(a: Seq<ShapeDim>, b: Seq<ShapeDim>) -> Seq<ShapeDim> {
    Seq::new(a.len(), |i: int| if a[i] == b[i] { a[i] } else { ShapeDim::Dynamic })
}

/// `a` with the shape both branches agree on (dims that differ become
/// dynamic; differing ranks give an unknown shape) and merged contiguity.
pub open spec fn merge_spec(a: ValuePropertiesV, b: ValuePropertiesV) -> ValuePropertiesV {
    ValuePropertiesV {
        shape: match (a.shape, b.shape) {
            (Some(x), Some(y)) => if x.len() == y.len() {
                Some(merge_dims(x, y))
            } else {
                None
            },
            _ => None,
        },
        contiguity: merge_contiguity_spec(a.contiguity, b.contiguity),
        ..a
    }
}

pub fn merge_contiguity(a: Option<Contiguity>, b: Option<Contiguity>) -> (r: Option<Contiguity>)
    ensures
        r == merge_contiguity_spec(a, b),
{
    if a == b {
        a
    } else {
        Some(Contiguity::Unknown)
    }
}

pub fn add_padding(dim: ShapeDim, before: u32, after: u32) -> (r: ShapeDim)
    ensures
        r == add_padding_spec(dim, before, after),
{
    match dim {
        ShapeDim::Known(value) => match value.checked_add(before as usize) {
            Some(v) => match v.checked_add(after as usize) {
                Some(w) => ShapeDim::Known(w),
                None => ShapeDim::Dynamic,
            },
            None => ShapeDim::Dynamic,
        },
        ShapeDim::Dynamic => ShapeDim::Dynamic,
    }
}

fn axis_of(p: &ValueProperties) -> (r: Option<ImageAxisOrder>)
    ensures
        r == image_axis_spec(p@.axis_order),
{
    image_axis(p.axis_order.as_ref())
}

pub fn channel_dim(properties: &ValueProperties) -> (r: ShapeDim)
    ensures
        r == channel_dim_spec(properties@),
{
    let shape = match &properties.shape {
        Some(s) => s,
        None => return dynamic_dim(),
    };
    match axis_of(properties) {
        Some(ImageAxisOrder::Hwc) => if shape.0.len() > 2 {
            shape.0[2]
        } else {
            ShapeDim::Dynamic
        },
        Some(ImageAxisOrder::Chw) => if shape.0.len() > 0 {
            shape.0[0]
        } else {
            ShapeDim::Dynamic
        },
        None => dynamic_dim(),
    }
}

pub fn set_spatial_shape(properties: &mut ValueProperties, height: ShapeDim, width: ShapeDim)
    ensures
        final(properties)@ == set_spatial_spec(old(properties)@, height, width),
{
    let axis = axis_of(properties);
    match &mut properties.shape {
        Some(shape) => match axis {
            Some(a) => if shape.0.len() == 3 {
                let h: usize = match a {
                    ImageAxisOrder::Hwc => 0,
                    ImageAxisOrder::Chw => 1,
                };
                shape.0.set(h, height);
                shape.0.set(h + 1, width);
            },
            None => {},
        },
        None => {},
    }
}

pub fn set_channel_dim(properties: &mut ValueProperties, channel: ShapeDim)
    ensures
        final(properties)@ == set_channel_spec(old(properties)@, channel),
{
    let axis = axis_of(properties);
    match &mut properties.shape {
        Some(shape) => match axis {
            Some(a) => if shape.0.len() == 3 {
                let c: usize = match a {
                    ImageAxisOrder::Hwc => 2,
                    ImageAxisOrder::Chw => 0,
                };
                shape.0.set(c, channel);
            },
            None => {},
        },
        None => {},
    }
}

pub fn make_spatial_dynamic(properties: &mut ValueProperties)
    ensures
        final(properties)@ == set_spatial_spec(old(properties)@, ShapeDim::Dynamic, ShapeDim::Dynamic),
{
    set_spatial_shape(properties, ShapeDim::Dynamic, ShapeDim::Dynamic);
}

pub fn swap_spatial_shape(properties: &mut ValueProperties)
    ensures
        final(properties)@ == swap_spatial_spec(old(properties)@),
{
    let axis = axis_of(properties);
    match &mut properties.shape {
        Some(shape) => match axis {
            Some(a) => if shape.0.len() == 3 {
                let h: usize = match a {
                    ImageAxisOrder::Hwc => 0,
                    ImageAxisOrder::Chw => 1,
                };
                let first = shape.0[h];
                let second = shape.0[h + 1];
                shape.0.set(h, second);
                shape.0.set(h + 1, first);
            },
            None => {},
        },
        None => {},
    }
}

pub fn reorder_image_shape(properties: &mut ValueProperties, from: ImageAxisOrder, to: ImageAxisOrder)
    ensures
        final(properties)@ == reorder_spec(old(properties)@, from, to),
{
    match &mut properties.shape {
        Some(shape) => {
            if shape.0.len() != 3 || from == to {
                return;
            }
            let (a, b, c) = if from == ImageAxisOrder::Hwc {
                (shape.0[2], shape.0[0], shape.0[1])
            } else {
                (shape.0[1], shape.0[2], shape.0[0])
            };
            let mut dims: Vec<ShapeDim> = Vec::new();
            dims.push(a);
            dims.push(b);
            dims.push(c);
            shape.0 = dims;
            assert(shape@ =~= reorder_spec(old(properties)@, from, to).shape.unwrap());
        },
        None => {},
    }
}

fn pad_shape(properties: &mut ValueProperties, left: u32, top: u32, right: u32, bottom: u32)
    requires
        old(properties)@.shape matches Some(s) ==> s.len() == 3,
    ensures
        final(properties)@ == pad_spec(old(properties)@, left, top, right, bottom),
{
    let axis = axis_of(properties);
    match &mut properties.shape {
        Some(shape) => match axis {
            Some(a) => {
                let h: usize = match a {
                    ImageAxisOrder::Hwc => 0,
                    ImageAxisOrder::Chw => 1,
                };
                let height = add_padding(shape.0[h], top, bottom);
                let width = add_padding(shape.0[h + 1], left, right);
                shape.0.set(h, height);
                shape.0.set(h + 1, width);
            },
            None => {},
        },
        None => {},
    }
}

/// `a` with the shape both branches agree on and merged contiguity.
pub fn merge_optional_shape(a: &ValueProperties, b: &ValueProperties) -> (r: ValueProperties)
    ensures
        r@ == merge_spec(a@, b@),
{
    let mut result = a.clone();
    result.shape = match (&a.shape, &b.shape) {
        (Some(x), Some(y)) => if x.0.len() == y.0.len() {
            let mut dims: Vec<ShapeDim> = Vec::new();
            let mut i: usize = 0;
            while i < x.0.len()
                invariant
                    0 <= i <= x.0@.len(),
                    x.0@.len() == y.0@.len(),
                    dims@ == merge_dims(x.0@, y.0@).subrange(0, i as int),
                decreases x.0@.len() - i,
            {
                let d = if x.0[i] == y.0[i] {
                    x.0[i]
                } else {
                    ShapeDim::Dynamic
                };
                dims.push(d);
                i += 1;
            }
            assert(dims@ =~= merge_dims(x.0@, y.0@));
            Some(ValueShape(dims))
        } else {
            None
        },
        _ => None,
    };
    result.contiguity = merge_contiguity(a.contiguity, b.contiguity);
    result
}


// ---------------------------------------------------------------------------
// The property transfer function of image operations
// ---------------------------------------------------------------------------

pub open spec fn rank3(p: ValuePropertiesV) -> bool {
    p.shape matches Some(s) && s.len() == 3
}

/// Known `(height, width)` of a rank-3 image value.
pub open spec fn spatial_known(p: ValuePropertiesV) -> Option<(usize, usize)> {
    match (p.shape, image_axis_spec(p.axis_order)) {
        (Some(s), Some(a)) => if s.len() == 3 {
            match (s[height_index(a)], s[height_index(a) + 1]) {
                (ShapeDim::Known(h), ShapeDim::Known(w)) => Some((h, w)),
                _ => None,
            }
        } else {
            None
        },
        _ => None,
    }
}

pub open spec fn crop_fits(p: ValuePropertiesV, x: u32, y: u32, width: u32, height: u32) -> bool {
    match spatial_known(p) {
        Some((h, w)) => x + width <= w && y + height <= h,
        None => true,
    }
}

pub open spec fn center_crop_fits(p: ValuePropertiesV, width: u32, height: u32) -> bool {
    match spatial_known(p) {
        Some((h, w)) => width <= w && height <= h,
        None => true,
    }
}

pub open spec fn random_crop_fits(p: ValuePropertiesV, width: u32, height: u32, padding: u32) -> bool {
    match spatial_known(p) {
        Some((h, w)) => w + 2 * padding <= u32::MAX && h + 2 * padding <= u32::MAX && width <= w + 2
            * padding && height <= h + 2 * padding,
        None => true,
    }
}

pub open spec fn with_contiguity(p: ValuePropertiesV, c: Contiguity) -> ValuePropertiesV {
    ValuePropertiesV { contiguity: Some(c), ..p }
}

pub open spec fn crop_shape(p: ValuePropertiesV, width: u32, height: u32) -> ValuePropertiesV {
    ValuePropertiesV {
        shape: Some(
            seq![ShapeDim::Known(height as usize), ShapeDim::Known(width as usize), channel_dim_spec(p)],
        ),
        ..p
    }
}

pub open spec fn state_axis(s: PipelineImageState) -> ImageAxisOrder {
    match s {
        PipelineImageState::Encoded => ImageAxisOrder::Hwc,
        PipelineImageState::Decoded { axis_order, .. } => axis_order,
    }
}

/// Output properties of an operation before the stage and residency
/// bookkeeping every operation shares; `None` when the operation rejects
/// its input.
pub open spec fn op_body(op: ImageOp, p: ValuePropertiesV, s: PipelineImageState) -> Option<ValuePropertiesV>
    decreases op, 0int,
{
    match op {
        ImageOp::Decode => if s is Encoded {
            Some(
                image_properties_spec(
                    DataTypeV::U8,
                    ImageAxisOrder::Hwc,
                    dynamic_shape_spec(),
                    Contiguity::Contiguous,
                ),
            )
        } else {
            None
        },
        ImageOp::RandomApply { ops, .. } => match seq_spec(ops@, p, ops@.len()) {
            Some(b) => Some(merge_spec(p, b)),
            None => None,
        },
        ImageOp::RandomChoice { choices } => if choices@.len() == 0 {
            None
        } else {
            choice_fold(choices@, p, choices@.len())
        },
        ImageOp::RandomOrder { ops } => order_fold(ops@, p, ops@.len()),
        _ => if !requirement_holds(leaf_requirement(op), s) {
            None
        } else {
            match op {
                ImageOp::Resize(c) => Some(
                    with_contiguity(
                        set_spatial_spec(
                            p,
                            ShapeDim::Known(c.height as usize),
                            ShapeDim::Known(c.width as usize),
                        ),
                        Contiguity::Contiguous,
                    ),
                ),
                ImageOp::Crop(c) => if crop_fits(p, c.x, c.y, c.width, c.height) {
                    Some(
                        with_contiguity(
                            set_spatial_spec(
                                p,
                                ShapeDim::Known(c.height as usize),
                                ShapeDim::Known(c.width as usize),
                            ),
                            Contiguity::Strided,
                        ),
                    )
                } else {
                    None
                },
                ImageOp::CenterCrop(c) => if center_crop_fits(p, c.width, c.height) {
                    Some(
                        with_contiguity(
                            set_spatial_spec(
                                p,
                                ShapeDim::Known(c.height as usize),
                                ShapeDim::Known(c.width as usize),
                            ),
                            Contiguity::Strided,
                        ),
                    )
                } else {
                    None
                },
                ImageOp::Pad(c) => Some(
                    with_contiguity(
                        pad_spec(p, c.left, c.top, c.right, c.bottom),
                        Contiguity::Contiguous,
                    ),
                ),
                ImageOp::RandomCrop(c) => if random_crop_fits(p, c.width, c.height, c.padding) {
                    Some(with_contiguity(crop_shape(p, c.width, c.height), Contiguity::Contiguous))
                } else {
                    None
                },
                ImageOp::RandomResizedCrop(c) => Some(
                    with_contiguity(crop_shape(p, c.width, c.height), Contiguity::Contiguous),
                ),
                ImageOp::RandomHorizontalFlip { .. } => Some(
                    with_contiguity(p, Contiguity::Unknown),
                ),
                ImageOp::ArbitraryRotate(_) | ImageOp::RandomAffine(_) => Some(
                    with_contiguity(
                        set_spatial_spec(p, ShapeDim::Dynamic, ShapeDim::Dynamic),
                        Contiguity::Contiguous,
                    ),
                ),
                ImageOp::Grayscale { num_output_channels } => Some(
                    with_contiguity(
                        set_channel_spec(p, ShapeDim::Known(num_output_channels as usize)),
                        Contiguity::Contiguous,
                    ),
                ),
                ImageOp::RandomGrayscale { num_output_channels, .. } => Some(
                    with_contiguity(
                        set_channel_spec(
                            p,
                            if channel_dim_spec(p) == ShapeDim::Known(num_output_channels as usize) {
                                ShapeDim::Known(num_output_channels as usize)
                            } else {
                                ShapeDim::Dynamic
                            },
                        ),
                        Contiguity::Contiguous,
                    ),
                ),
                ImageOp::ConvertImageDtype { dtype } => Some(
                    ValuePropertiesV {
                        dtype: Some(core_dtype_spec(dtype)),
                        axis_order: Some(axis_property_spec(state_axis(s))),
                        contiguity: Some(Contiguity::Contiguous),
                        ..p
                    },
                ),
                ImageOp::Rotate { angle } => Some(
                    with_contiguity(
                        if angle == RotationAngle::Deg90 || angle == RotationAngle::Deg270 {
                            swap_spatial_spec(p)
                        } else {
                            p
                        },
                        Contiguity::Contiguous,
                    ),
                ),
                ImageOp::Normalize { .. } => Some(
                    ValuePropertiesV {
                        dtype: Some(DataTypeV::F32),
                        axis_order: Some(axis_property_spec(state_axis(s))),
                        contiguity: Some(Contiguity::Contiguous),
                        ..p
                    },
                ),
                ImageOp::Layout { axis_order } => if state_axis(s) != axis_order {
                    Some(
                        with_contiguity(
                            reorder_spec(
                                ValuePropertiesV {
                                    axis_order: Some(axis_property_spec(axis_order)),
                                    ..p
                                },
                                state_axis(s),
                                axis_order,
                            ),
                            Contiguity::Strided,
                        ),
                    )
                } else {
                    Some(ValuePropertiesV { axis_order: Some(axis_property_spec(axis_order)), ..p })
                },
                _ => Some(with_contiguity(p, Contiguity::Contiguous)),
            }
        },
    }
}

/// Inference through the first `n` operations of a nested sequence; each
/// must be a sample-stage operation.
pub open spec fn seq_spec(ops: Seq<ImageOp>, p: ValuePropertiesV, n: nat) -> Option<ValuePropertiesV>
    decreases ops, n as int,
{
    if n == 0 || n > ops.len() {
        Some(p)
    } else {
        match seq_spec(ops, p, (n - 1) as nat) {
            None => None,
            Some(q) => if execution_kind_spec(ops[n - 1]) != ExecutionKind::Sample {
                None
            } else {
                infer_op(ops[n - 1], q, 0)
            },
        }
    }
}

/// Merge of the first `n` choices, which must agree on dtype and axis order.
pub open spec fn choice_fold(choices: Seq<Vec<ImageOp>>, p: ValuePropertiesV, n: nat) -> Option<ValuePropertiesV>
    decreases choices, n as int,
{
    if n == 0 || n > choices.len() {
        None
    } else if n == 1 {
        seq_spec(choices[0]@, p, choices[0]@.len())
    } else {
        match (choice_fold(choices, p, (n - 1) as nat), seq_spec(choices[n - 1]@, p, choices[n - 1]@.len())) {
            (Some(acc), Some(b)) => if acc.dtype == b.dtype && acc.axis_order == b.axis_order {
                Some(merge_spec(acc, b))
            } else {
                None
            },
            _ => None,
        }
    }
}

/// Merge over the first `n` operations of a random order, each inferred
/// from the input and required to keep its dtype and axis order.
pub open spec fn order_fold(ops: Seq<ImageOp>, p: ValuePropertiesV, n: nat) -> Option<ValuePropertiesV>
    decreases ops, n as int,
{
    if n == 0 || n > ops.len() {
        Some(p)
    } else {
        match (order_fold(ops, p, (n - 1) as nat), infer_op(ops[n - 1], p, 0)) {
            (Some(acc), Some(b)) => if b.dtype == p.dtype && b.axis_order == p.axis_order {
                Some(merge_spec(acc, b))
            } else {
                None
            },
            _ => None,
        }
    }
}

/// Operator stage bookkeeping after `op`.
pub open spec fn next_operator(op: ImageOp, p: ValuePropertiesV, incoming: OperatorProperties, workers: nat) -> OperatorProperties {
    let noop_layout = match op {
        ImageOp::Layout { axis_order } => image_axis_spec(p.axis_order) == Some(axis_order),
        _ => false,
    };
    let sample_normalize = op is Normalize && workers > 0 && incoming.sample_stage_has_work
        && incoming.stage != OperatorStage::Batch;
    let is_batch = execution_kind_spec(op) == ExecutionKind::Batch && !sample_normalize;
    if noop_layout {
        incoming
    } else {
        OperatorProperties {
            stage: if is_batch {
                OperatorStage::Batch
            } else {
                OperatorStage::Sample
            },
            sample_stage_has_work: incoming.sample_stage_has_work || execution_kind_spec(op)
                == ExecutionKind::Sample || sample_normalize,
        }
    }
}

pub open spec fn incoming_operator(p: ValuePropertiesV) -> OperatorProperties {
    match p.operator {
        Some(o) => o,
        None => source_operator(),
    }
}

/// Output properties of `op` on input `p` with `workers` sample workers;
/// `None` when inference rejects the operation. The operation's own
/// configuration must be valid, its input host-resident (or unknown),
/// sample-granular and an image whose state the operation accepts, and a
/// sample operation cannot follow the batch stage.
pub open spec fn infer_op(op: ImageOp, p: ValuePropertiesV, workers: nat) -> Option<ValuePropertiesV>
    decreases op, 1int,
{
    let incoming = incoming_operator(p);
    if !config_valid(op) {
        None
    } else if p.residency matches Some(ResidencyV::Device(_)) {
        None
    } else if p.granularity != Some(ValueGranularity::Sample) {
        None
    } else if incoming.stage == OperatorStage::Batch && execution_kind_spec(op) == ExecutionKind::Sample {
        None
    } else {
        match state_from_properties_spec(p) {
            None => None,
            Some(s) => if s is Decoded && !(op is Decode) && !rank3(p) {
                None
            } else {
                match op_body(op, p, s) {
                    None => None,
                    Some(o) => Some(
                        ValuePropertiesV {
                            representation: Some(RepresentationV::Image),
                            granularity: p.granularity,
                            residency: match p.residency {
                                Some(r) => Some(r),
                                None => Some(ResidencyV::Host),
                            },
                            mutability: Some(Mutability::Immutable),
                            operator: Some(next_operator(op, p, incoming, workers)),
                            ..o
                        },
                    ),
                }
            },
        }
    }
}


// ---------------------------------------------------------------------------
// Checks
// ---------------------------------------------------------------------------

fn named_error(name: &str, text: &str) -> (r: String)
    ensures
        r@ == name@ + text@,
{
    let mut message = owned(name);
    push_str(&mut message, text);
    message
}

/// A known rank-3 shape; the error names operation `name`.
pub fn validate_rank(properties: &ValueProperties, name: &str) -> (r: Result<(), VisionError>)
    ensures
        r is Ok <==> rank3(properties@),
{
    match &properties.shape {
        Some(shape) => if shape.rank() != 3 {
            let mut message = named_error(name, " requires a rank-3 image, got rank ");
            push_decimal(&mut message, shape.rank());
            Err(VisionError::InvalidShape(message))
        } else {
            Ok(())
        },
        None => Err(VisionError::InvalidPipeline(named_error(name, " requires a known image rank"))),
    }
}

/// Height and width dims of a rank-3 image with a known axis order.
pub fn spatial_dims(input: &ValueProperties) -> (r: (ShapeDim, ShapeDim))
    requires
        rank3(input@),
        image_axis_spec(input@.axis_order) is Some,
    ensures
        ({
            let s = input@.shape.unwrap();
            let h = height_index(image_axis_spec(input@.axis_order).unwrap());
            r == (s[h], s[h + 1])
        }),
{
    let shape = input.shape.as_ref().unwrap();
    match axis_of(input) {
        Some(ImageAxisOrder::Hwc) => (shape.0[0], shape.0[1]),
        _ => (shape.0[1], shape.0[2]),
    }
}

fn validate_crop_bounds(input: &ValueProperties, x: u32, y: u32, width: u32, height: u32) -> (r: Result<
    (),
    VisionError,
>)
    requires
        rank3(input@),
        image_axis_spec(input@.axis_order) is Some,
    ensures
        r is Ok <==> crop_fits(input@, x, y, width, height),
{
    match spatial_dims(input) {
        (ShapeDim::Known(image_height), ShapeDim::Known(image_width)) => {
            let x_end = (x as usize).checked_add(width as usize);
            let y_end = (y as usize).checked_add(height as usize);
            let outside = match (x_end, y_end) {
                (Some(xe), Some(ye)) => xe > image_width || ye > image_height,
                _ => true,
            };
            if outside {
                let mut message = owned("crop rectangle (");
                push_decimal(&mut message, x as usize);
                push_str(&mut message, ", ");
                push_decimal(&mut message, y as usize);
                push_str(&mut message, ", ");
                push_decimal(&mut message, width as usize);
                push_str(&mut message, ", ");
                push_decimal(&mut message, height as usize);
                push_str(&mut message, ") exceeds image shape ");
                push_decimal(&mut message, image_width);
                push_str(&mut message, "x");
                push_decimal(&mut message, image_height);
                return Err(VisionError::InvalidShape(message));
            }
            Ok(())
        },
        _ => Ok(()),
    }
}

fn validate_center_crop_bounds(input: &ValueProperties, width: u32, height: u32) -> (r: Result<
    (),
    VisionError,
>)
    requires
        rank3(input@),
        image_axis_spec(input@.axis_order) is Some,
    ensures
        r is Ok <==> center_crop_fits(input@, width, height),
{
    match spatial_dims(input) {
        (ShapeDim::Known(image_height), ShapeDim::Known(image_width)) => {
            if width as usize > image_width || height as usize > image_height {
                let mut message = owned("center_crop size ");
                push_decimal(&mut message, width as usize);
                push_str(&mut message, "x");
                push_decimal(&mut message, height as usize);
                push_str(&mut message, " exceeds image shape ");
                push_decimal(&mut message, image_width);
                push_str(&mut message, "x");
                push_decimal(&mut message, image_height);
                return Err(VisionError::InvalidShape(message));
            }
            Ok(())
        },
        _ => Ok(()),
    }
}

fn validate_random_crop_fit(input: &ValueProperties, width: u32, height: u32, padding: u32) -> (r: Result<
    (),
    VisionError,
>)
    requires
        rank3(input@),
        image_axis_spec(input@.axis_order) is Some,
    ensures
        r is Ok <==> random_crop_fits(input@, width, height, padding),
{
    match spatial_dims(input) {
        (ShapeDim::Known(image_height), ShapeDim::Known(image_width)) => {
            let pad: u64 = padding as u64;
            let limit: u64 = 0xffff_ffffu64;
            let too_large = 2 * pad > limit || image_width as u64 > limit - 2 * pad
                || image_height as u64 > limit - 2 * pad;
            if too_large {
                let mut message = owned("random_crop padding ");
                push_decimal(&mut message, padding as usize);
                push_str(&mut message, " makes image ");
                push_decimal(&mut message, image_width);
                push_str(&mut message, "x");
                push_decimal(&mut message, image_height);
                push_str(&mut message, " too large");
                return Err(VisionError::InvalidShape(message));
            }
            let padded_width = image_width as u64 + 2 * pad;
            let padded_height = image_height as u64 + 2 * pad;
            if width as u64 > padded_width || height as u64 > padded_height {
                let mut message = owned("random_crop size ");
                push_decimal(&mut message, width as usize);
                push_str(&mut message, "x");
                push_decimal(&mut message, height as usize);
                push_str(&mut message, " exceeds padded image ");
                push_decimal(&mut message, padded_width as usize);
                push_str(&mut message, "x");
                push_decimal(&mut message, padded_height as usize);
                return Err(VisionError::InvalidShape(message));
            }
            Ok(())
        },
        _ => Ok(()),
    }
}

// ---------------------------------------------------------------------------
// Inference
// ---------------------------------------------------------------------------

/// Inference through a nested sequence of sample-stage operations.
pub fn infer_sequence(ops: &Vec<ImageOp>, input: &ValueProperties) -> (r: Result<
    ValueProperties,
    VisionError,
>)
    ensures
        r is Ok <==> seq_spec(ops@, input@, ops@.len()) is Some,
        r matches Ok(v) ==> seq_spec(ops@, input@, ops@.len()) == Some(v@),
    decreases ops@, 2int,
{
    let mut properties = input.clone();
    let mut i: usize = 0;
    while i < ops.len()
        invariant
            0 <= i <= ops@.len(),
            seq_spec(ops@, input@, i as nat) == Some(properties@),
        decreases ops@.len() - i,
    {
        let op = &ops[i];
        if op.execution_kind() != ExecutionKind::Sample {
            proof {
                lemma_seq_none_extends(ops@, input@, i as nat + 1, ops@.len());
            }
            let mut message = owned(op.name());
            push_str(&mut message, " nested transforms must be sample-stage operations");
            return Err(VisionError::InvalidPipeline(message));
        }
        match infer_image_op_with_workers(op, &properties, 0) {
            Ok(next) => {
                properties = next;
            },
            Err(e) => {
                proof {
                    lemma_seq_none_extends(ops@, input@, i as nat + 1, ops@.len());
                }
                return Err(e);
            },
        }
        i += 1;
    }
    Ok(properties)
}

proof fn lemma_seq_none_extends(ops: Seq<ImageOp>, p: ValuePropertiesV, a: nat, b: nat)
    requires
        0 < a <= b <= ops.len(),
        seq_spec(ops, p, a) is None,
    ensures
        seq_spec(ops, p, b) is None,
    decreases b - a,
{
    if a < b {
        lemma_seq_none_extends(ops, p, a, (b - 1) as nat);
    }
}

proof fn lemma_choice_none_extends(choices: Seq<Vec<ImageOp>>, p: ValuePropertiesV, a: nat, b: nat)
    requires
        0 < a <= b <= choices.len(),
        choice_fold(choices, p, a) is None,
    ensures
        choice_fold(choices, p, b) is None,
    decreases b - a,
{
    if a < b {
        lemma_choice_none_extends(choices, p, a, (b - 1) as nat);
    }
}

proof fn lemma_order_none_extends(ops: Seq<ImageOp>, p: ValuePropertiesV, a: nat, b: nat)
    requires
        0 < a <= b <= ops.len(),
        order_fold(ops, p, a) is None,
    ensures
        order_fold(ops, p, b) is None,
    decreases b - a,
{
    if a < b {
        lemma_order_none_extends(ops, p, a, (b - 1) as nat);
    }
}

fn same_image_state(a: &ValueProperties, b: &ValueProperties) -> (r: bool)
    ensures
        r == (a@.dtype == b@.dtype && a@.axis_order == b@.axis_order),
{
    a.dtype == b.dtype && a.axis_order == b.axis_order
}

/// An operation without nested operations, other than decoding: it is
/// checked against the image state it needs.
pub open spec fn is_leaf(op: ImageOp) -> bool {
    !(op is Decode) && !(op is RandomApply) && !(op is RandomChoice) && !(op is RandomOrder)
}

/// The message with which inference rejects `op` on input `p`, for the
/// rejections made before the operation's own shape checks: a device
/// input, a value that is not one sample, a sample operation after the
/// batch stage, and an image state the operation cannot take.
pub open spec fn infer_rejection(op: ImageOp, p: ValuePropertiesV) -> Option<Seq<char>> {
    let name = name_spec(op);
    if !config_valid(op) {
        None
    } else if p.residency matches Some(ResidencyV::Device(_)) {
        Some(name + " requires host-resident input in the CPU vision planner"@)
    } else if p.granularity is None {
        Some(name + " requires known sample granularity"@)
    } else if p.granularity != Some(ValueGranularity::Sample) {
        Some(name + " requires sample granularity, current granularity is "@ + granularity_text(p.granularity.unwrap()))
    } else if incoming_operator(p).stage == OperatorStage::Batch && execution_kind_spec(op) == ExecutionKind::Sample {
        Some(batch_error_text(name))
    } else {
        match state_from_properties_spec(p) {
            Some(s) => if is_leaf(op) && (!(s is Decoded) || rank3(p)) && !requirement_holds(leaf_requirement(op), s) {
                Some(requirement_message(name, leaf_requirement(op), s))
            } else {
                None
            },
            None => None,
        }
    }
}

/// Output of `op` before the shared stage bookkeeping.
#[verifier::loop_isolation(false)]
fn infer_body(op: &ImageOp, input: &ValueProperties, state: PipelineImageState) -> (r: Result<
    ValueProperties,
    VisionError,
>)
    requires
        state_from_properties_spec(input@) == Some(state),
        state is Decoded && !(*op is Decode) ==> rank3(input@),
    ensures
        r is Ok <==> op_body(*op, input@, state) is Some,
        r matches Ok(v) ==> op_body(*op, input@, state) == Some(v@),
        is_leaf(*op) && !requirement_holds(leaf_requirement(*op), state) ==> (r matches Err(e)
            && error_text(e) == requirement_message(name_spec(*op), leaf_requirement(*op), state)),
    decreases *op, 0int,
{
    let mut output = input.clone();
    match op {
        ImageOp::Decode => {
            return match state {
                PipelineImageState::Encoded => Ok(
                    image_properties(
                        DataType::U8,
                        ImageAxisOrder::Hwc,
                        dynamic_image_shape(ImageAxisOrder::Hwc),
                        Contiguity::Contiguous,
                    ),
                ),
                _ => Err(
                    VisionError::InvalidPipeline(
                        owned("Decode requires an encoded image, current state is decoded"),
                    ),
                ),
            };
        },
        ImageOp::RandomApply { ops, .. } => {
            let branch = match infer_sequence(ops, input) {
                Ok(b) => b,
                Err(e) => return Err(e),
            };
            return Ok(merge_optional_shape(input, &branch));
        },
        ImageOp::RandomChoice { choices } => {
            if choices.len() == 0 {
                return Err(
                    VisionError::InvalidArgument(owned("random_choice requires at least one choice")),
                );
            }
            let mut acc = match infer_sequence(&choices[0], input) {
                Ok(b) => b,
                Err(e) => {
                    proof {
                        lemma_choice_none_extends(choices@, input@, 1, choices@.len());
                    }
                    return Err(e);
                },
            };
            let mut i: usize = 1;
            while i < choices.len()
                invariant
                    1 <= i <= choices@.len(),
                    choice_fold(choices@, input@, i as nat) == Some(acc@),
                decreases choices@.len() - i,
            {
                let branch = match infer_sequence(&choices[i], input) {
                    Ok(b) => b,
                    Err(e) => {
                        proof {
                            lemma_choice_none_extends(choices@, input@, i as nat + 1, choices@.len());
                        }
                        return Err(e);
                    },
                };
                if !same_image_state(&acc, &branch) {
                    proof {
                        lemma_choice_none_extends(choices@, input@, i as nat + 1, choices@.len());
                    }
                    return Err(
                        VisionError::InvalidPipeline(
                            owned("random_choice choices must produce the same image state"),
                        ),
                    );
                }
                acc = merge_optional_shape(&acc, &branch);
                i += 1;
            }
            return Ok(acc);
        },
        ImageOp::RandomOrder { ops } => {
            let mut merged = input.clone();
            let mut i: usize = 0;
            while i < ops.len()
                invariant
                    0 <= i <= ops@.len(),
                    order_fold(ops@, input@, i as nat) == Some(merged@),
                decreases ops@.len() - i,
            {
                let branch = match infer_image_op_with_workers(&ops[i], input, 0) {
                    Ok(b) => b,
                    Err(e) => {
                        proof {
                            lemma_order_none_extends(ops@, input@, i as nat + 1, ops@.len());
                        }
                        return Err(e);
                    },
                };
                if !same_image_state(&branch, input) {
                    proof {
                        lemma_order_none_extends(ops@, input@, i as nat + 1, ops@.len());
                    }
                    return Err(
                        VisionError::InvalidPipeline(
                            owned("RandomOrder nested transforms must preserve image state"),
                        ),
                    );
                }
                merged = merge_optional_shape(&merged, &branch);
                i += 1;
            }
            return Ok(merged);
        },
        _ => {},
    }
    let req = crate::vision::image_op::leaf_requirement_of(op);
    match require_state(state, req, op.name()) {
        Err(e) => return Err(e),
        Ok(()) => {},
    }
    match op {
        ImageOp::Resize(c) => {
            set_spatial_shape(&mut output, ShapeDim::Known(c.height as usize), ShapeDim::Known(c.width as usize));
            output.contiguity = Some(Contiguity::Contiguous);
        },
        ImageOp::Crop(c) => {
            match validate_crop_bounds(input, c.x, c.y, c.width, c.height) {
                Err(e) => return Err(e),
                Ok(()) => {},
            }
            set_spatial_shape(&mut output, ShapeDim::Known(c.height as usize), ShapeDim::Known(c.width as usize));
            output.contiguity = Some(Contiguity::Strided);
        },
        ImageOp::CenterCrop(c) => {
            match validate_center_crop_bounds(input, c.width, c.height) {
                Err(e) => return Err(e),
                Ok(()) => {},
            }
            set_spatial_shape(&mut output, ShapeDim::Known(c.height as usize), ShapeDim::Known(c.width as usize));
            output.contiguity = Some(Contiguity::Strided);
        },
        ImageOp::Pad(c) => {
            pad_shape(&mut output, c.left, c.top, c.right, c.bottom);
            output.contiguity = Some(Contiguity::Contiguous);
        },
        ImageOp::RandomCrop(c) => {
            match validate_random_crop_fit(input, c.width, c.height, c.padding) {
                Err(e) => return Err(e),
                Ok(()) => {},
            }
            output.shape = Some(crop_dims(input, c.width, c.height));
            output.contiguity = Some(Contiguity::Contiguous);
        },
        ImageOp::RandomResizedCrop(c) => {
            output.shape = Some(crop_dims(input, c.width, c.height));
            output.contiguity = Some(Contiguity::Contiguous);
        },
        ImageOp::RandomHorizontalFlip { .. } => {
            output.contiguity = Some(Contiguity::Unknown);
        },
        ImageOp::ArbitraryRotate(_) | ImageOp::RandomAffine(_) => {
            make_spatial_dynamic(&mut output);
            output.contiguity = Some(Contiguity::Contiguous);
        },
        ImageOp::Grayscale { num_output_channels } => {
            set_channel_dim(&mut output, ShapeDim::Known(*num_output_channels as usize));
            output.contiguity = Some(Contiguity::Contiguous);
        },
        ImageOp::RandomGrayscale { num_output_channels, .. } => {
            let current = channel_dim(input);
            let gray = ShapeDim::Known(*num_output_channels as usize);
            set_channel_dim(&mut output, if current == gray { gray } else { ShapeDim::Dynamic });
            output.contiguity = Some(Contiguity::Contiguous);
        },
        ImageOp::ConvertImageDtype { dtype } => {
            output.dtype = Some(core_dtype(*dtype));
            output.axis_order = Some(axis_property(state_axis_of(state)));
            output.contiguity = Some(Contiguity::Contiguous);
        },
        ImageOp::Rotate { angle } => {
            if *angle == RotationAngle::Deg90 || *angle == RotationAngle::Deg270 {
                swap_spatial_shape(&mut output);
            }
            output.contiguity = Some(Contiguity::Contiguous);
        },
        ImageOp::Normalize { .. } => {
            output.dtype = Some(DataType::F32);
            output.axis_order = Some(axis_property(state_axis_of(state)));
            output.contiguity = Some(Contiguity::Contiguous);
        },
        ImageOp::Layout { axis_order } => {
            let input_axis = state_axis_of(state);
            output.axis_order = Some(axis_property(*axis_order));
            if input_axis != *axis_order {
                reorder_image_shape(&mut output, input_axis, *axis_order);
                output.contiguity = Some(Contiguity::Strided);
            }
        },
        _ => {
            output.contiguity = Some(Contiguity::Contiguous);
        },
    }
    Ok(output)
}

fn state_axis_of(state: PipelineImageState) -> (r: ImageAxisOrder)
    ensures
        r == state_axis(state),
{
    match state {
        PipelineImageState::Encoded => ImageAxisOrder::Hwc,
        PipelineImageState::Decoded { axis_order, .. } => axis_order,
    }
}

fn crop_dims(input: &ValueProperties, width: u32, height: u32) -> (r: ValueShape)
    ensures
        Some(r@) == crop_shape(input@, width, height).shape,
{
    let mut dims: Vec<ShapeDim> = Vec::new();
    dims.push(ShapeDim::Known(height as usize));
    dims.push(ShapeDim::Known(width as usize));
    dims.push(channel_dim(input));
    let r = ValueShape(dims);
    assert(r@ =~= crop_shape(input@, width, height).shape.unwrap());
    r
}

/// Inference of `op` with the planner's default of no sample workers.
pub fn infer_image_op(op: &ImageOp, input: &ValueProperties) -> (r: Result<ValueProperties, VisionError>)
    ensures
        r is Ok <==> infer_op(*op, input@, 0) is Some,
        r matches Ok(v) ==> infer_op(*op, input@, 0) == Some(v@),
{
    infer_image_op_with_workers(op, input, 0)
}

/// Output properties of `op` on `input` when `num_workers` sample workers
/// run the sample stage.
pub fn infer_image_op_with_workers(op: &ImageOp, input: &ValueProperties, num_workers: usize) -> (r: Result<
    ValueProperties,
    VisionError,
>)
    ensures
        r is Ok <==> infer_op(*op, input@, num_workers as nat) is Some,
        r matches Ok(v) ==> infer_op(*op, input@, num_workers as nat) == Some(v@),
        infer_rejection(*op, input@) matches Some(m) ==> (r matches Err(e) && error_text(e) == m),
    decreases *op, 1int,
{
    match op.validate() {
        Err(e) => return Err(e),
        Ok(()) => {},
    }
    match &input.residency {
        Some(Residency::Device(_)) => {
            return Err(
                VisionError::InvalidPipeline(
                    named_error(op.name(), " requires host-resident input in the CPU vision planner"),
                ),
            );
        },
        _ => {},
    }
    match input.granularity {
        Some(ValueGranularity::Sample) => {},
        Some(granularity) => {
            let mut message = named_error(op.name(), " requires sample granularity, current granularity is ");
            push_str(&mut message, granularity.as_str());
            return Err(VisionError::InvalidPipeline(message));
        },
        None => {
            return Err(
                VisionError::InvalidPipeline(named_error(op.name(), " requires known sample granularity")),
            );
        },
    }
    let incoming = match input.operator {
        Some(o) => o,
        None => OperatorProperties { stage: OperatorStage::Source, sample_stage_has_work: false },
    };
    if incoming.stage == OperatorStage::Batch && op.execution_kind() == ExecutionKind::Sample {
        return Err(
            VisionError::InvalidPipeline(
                named_error(
                    op.name(),
                    " cannot follow the batch stage; move sample operations before normalize/layout (sample ops require uint8 HWC input)",
                ),
            ),
        );
    }
    let state = match state_from_properties(input) {
        Ok(s) => s,
        Err(e) => return Err(e),
    };
    let is_decode = match op {
        ImageOp::Decode => true,
        _ => false,
    };
    match state {
        PipelineImageState::Decoded { .. } => if !is_decode {
            match validate_rank(input, op.name()) {
                Err(e) => return Err(e),
                Ok(()) => {},
            }
        },
        _ => {},
    }
    let mut output = match infer_body(op, input, state) {
        Ok(o) => o,
        Err(e) => return Err(e),
    };
    output.representation = Some(Representation::Image);
    output.granularity = input.granularity;
    output.residency = match &input.residency {
        Some(r) => Some(r.clone()),
        None => Some(Residency::Host),
    };
    output.mutability = Some(Mutability::Immutable);
    let noop_layout = match op {
        ImageOp::Layout { axis_order } => axis_of(input) == Some(*axis_order),
        _ => false,
    };
    let is_normalize = match op {
        ImageOp::Normalize { .. } => true,
        _ => false,
    };
    let sample_normalize = is_normalize && num_workers > 0 && incoming.sample_stage_has_work
        && incoming.stage != OperatorStage::Batch;
    let is_batch = op.execution_kind() == ExecutionKind::Batch && !sample_normalize;
    output.operator = Some(
        if noop_layout {
            incoming
        } else {
            OperatorProperties {
                stage: if is_batch {
                    OperatorStage::Batch
                } else {
                    OperatorStage::Sample
                },
                sample_stage_has_work: incoming.sample_stage_has_work || op.execution_kind()
                    == ExecutionKind::Sample || sample_normalize,
            }
        },
    );
    Ok(output)
}


// ---------------------------------------------------------------------------
// Batching and plan nodes
// ---------------------------------------------------------------------------

pub open spec fn batch_axis(a: Option<ImageAxisOrder>) -> Option<AxisOrderV> {
    match a {
        Some(ImageAxisOrder::Hwc) => Some(AxisOrderV::Nhwc),
        Some(ImageAxisOrder::Chw) => Some(AxisOrderV::Nchw),
        None => None,
    }
}

/// Properties of batches of `config` built from samples with properties
/// `p`: a leading batch dim (known only when incomplete batches are
/// dropped), batched axis order, batch granularity and stage.
pub open spec fn infer_batch_spec(config: BatchConfig, p: ValuePropertiesV) -> Option<ValuePropertiesV> {
    if config.size == 0 || p.granularity != Some(ValueGranularity::Sample) || p.representation
        != Some(RepresentationV::Image) || !rank3(p) {
        None
    } else {
        Some(
            ValuePropertiesV {
                shape: Some(
                    seq![
                        if config.drop_last {
                            ShapeDim::Known(config.size)
                        } else {
                            ShapeDim::Dynamic
                        },
                    ] + p.shape.unwrap(),
                ),
                axis_order: batch_axis(image_axis_spec(p.axis_order)),
                granularity: Some(ValueGranularity::Batch),
                contiguity: Some(Contiguity::Contiguous),
                operator: Some(
                    OperatorProperties {
                        stage: OperatorStage::Batch,
                        sample_stage_has_work: p.operator matches Some(o)
                            && o.sample_stage_has_work,
                    },
                ),
                ..p
            },
        )
    }
}

pub fn infer_batch(config: &BatchConfig, input: &ValueProperties) -> (r: Result<ValueProperties, VisionError>)
    ensures
        r is Ok <==> infer_batch_spec(*config, input@) is Some,
        r matches Ok(v) ==> infer_batch_spec(*config, input@) == Some(v@),
{
    match config.validate() {
        Err(e) => return Err(e),
        Ok(()) => {},
    }
    match input.granularity {
        Some(ValueGranularity::Sample) => {},
        other => {
            let mut message = owned("batch requires sample granularity, current granularity is ");
            match other {
                Some(g) => push_str(&mut message, g.as_str()),
                None => push_str(&mut message, "unknown"),
            }
            return Err(VisionError::InvalidPipeline(message));
        },
    }
    let is_image = match &input.representation {
        Some(Representation::Image) => true,
        _ => false,
    };
    if !is_image {
        return Err(VisionError::InvalidPipeline(owned("pipeline must decode images before batching")));
    }
    match validate_rank(input, "batch") {
        Err(e) => return Err(e),
        Ok(()) => {},
    }
    let input_shape = input.shape.as_ref().unwrap();
    let mut dims: Vec<ShapeDim> = Vec::new();
    dims.push(if config.drop_last { ShapeDim::Known(config.size) } else { ShapeDim::Dynamic });
    let mut i: usize = 0;
    while i < input_shape.0.len()
        invariant
            0 <= i <= input_shape.0@.len(),
            dims@.len() == i + 1,
            dims@[0] == (if config.drop_last { ShapeDim::Known(config.size) } else { ShapeDim::Dynamic }),
            dims@.subrange(1, i + 1) == input_shape.0@.subrange(0, i as int),
        decreases input_shape.0@.len() - i,
    {
        dims.push(input_shape.0[i]);
        proof {
            assert(dims@.subrange(1, i + 2) =~= dims@.subrange(1, i + 1).push(input_shape.0@[i as int]));
            assert(input_shape.0@.subrange(0, i + 1) =~= input_shape.0@.subrange(0, i as int).push(
                input_shape.0@[i as int],
            ));
        }
        i += 1;
    }
    let mut output = input.clone();
    let ghost expected = infer_batch_spec(*config, input@).unwrap();
    assert(input_shape.0@.subrange(0, i as int) =~= input_shape.0@);
    assert(input@.shape == Some(input_shape.0@));
    assert forall|k: int| 0 <= k < dims@.len() implies dims@[k] == expected.shape.unwrap()[k] by {
        if k > 0 {
            assert(dims@[k] == dims@.subrange(1, i + 1)[k - 1]);
        }
    }
    assert(dims@ =~= expected.shape.unwrap());
    output.shape = Some(ValueShape(dims));
    output.axis_order = match axis_of(input) {
        Some(ImageAxisOrder::Hwc) => Some(AxisOrder::Nhwc),
        Some(ImageAxisOrder::Chw) => Some(AxisOrder::Nchw),
        None => None,
    };
    output.granularity = Some(ValueGranularity::Batch);
    output.contiguity = Some(Contiguity::Contiguous);
    let has_work = match input.operator {
        Some(o) => o.sample_stage_has_work,
        None => false,
    };
    output.operator = Some(OperatorProperties { stage: OperatorStage::Batch, sample_stage_has_work: has_work });
    Ok(output)
}

/// The one input of a node.
pub fn single_input<'a>(inputs: &'a [ValueProperties], kind: NodeKind) -> (r: Result<&'a ValueProperties, String>)
    ensures
        r is Ok <==> inputs@.len() == 1,
        r matches Ok(p) ==> *p == inputs@[0],
{
    if inputs.len() == 1 {
        Ok(&inputs[0])
    } else if inputs.len() == 0 {
        let mut message = owned(crate::plan::kind_name(kind));
        push_str(&mut message, " node requires one input");
        Err(message)
    } else {
        let mut message = owned(crate::plan::kind_name(kind));
        push_str(&mut message, " node requires one input, got ");
        push_decimal(&mut message, inputs.len());
        Err(message)
    }
}

/// Inference through a fusion group's operations, in order.
pub open spec fn group_fold(ops: Seq<ImageOp>, p: ValuePropertiesV, workers: nat, n: nat) -> Option<ValuePropertiesV>
    decreases n,
{
    if n == 0 || n > ops.len() {
        Some(p)
    } else {
        match group_fold(ops, p, workers, (n - 1) as nat) {
            None => None,
            Some(q) => infer_op(ops[n - 1], q, workers),
        }
    }
}

pub open spec fn host_input(p: ValuePropertiesV) -> ValuePropertiesV {
    ValuePropertiesV { residency: Some(ResidencyV::Host), ..p }
}

/// Properties of a plan node's value given its kind, payload and input
/// properties: sources describe their state, index, cache and sink nodes
/// pass their input through, operation nodes apply their operations to a
/// host-resident view of the input and keep the input's residency, batch
/// nodes batch, and device cuts move the value to their device.
pub open spec fn infer_node_spec(
    kind: NodeKind,
    payload: Option<VisionPayload>,
    inputs: Seq<ValuePropertiesV>,
    workers: nat,
) -> Option<ValuePropertiesV> {
    match kind {
        NodeKind::Source => match payload {
            Some(VisionPayload::Source(s)) => Some(properties_from_state_spec(s.state)),
            _ => None,
        },
        _ => if inputs.len() != 1 {
            None
        } else {
            let input = inputs[0];
            match kind {
                NodeKind::Index => match payload {
                    Some(VisionPayload::Index(_)) => Some(input),
                    _ => None,
                },
                NodeKind::Op => match payload {
                    Some(VisionPayload::Image(op)) => match infer_op(op, host_input(input), workers) {
                        Some(o) => Some(ValuePropertiesV { residency: input.residency, ..o }),
                        None => None,
                    },
                    Some(VisionPayload::FusionGroup(g)) => match group_fold(
                        g.ops@,
                        host_input(input),
                        workers,
                        g.ops@.len(),
                    ) {
                        Some(o) => Some(
                            ValuePropertiesV {
                                residency: input.residency,
                                contiguity: if g.name@ == "NormalizeToChw"@ {
                                    Some(Contiguity::Contiguous)
                                } else {
                                    o.contiguity
                                },
                                ..o
                            },
                        ),
                        None => None,
                    },
                    _ => None,
                },
                NodeKind::Batch => match payload {
                    Some(VisionPayload::Batch(b)) => infer_batch_spec(b, input),
                    _ => None,
                },
                NodeKind::DeviceCut => match payload {
                    Some(VisionPayload::DeviceCut(c)) => Some(
                        ValuePropertiesV { residency: Some(ResidencyV::Device(c.target@)), ..input },
                    ),
                    _ => None,
                },
                _ => Some(input),
            }
        },
    }
}


/// Vision property inference for plans whose sample stage runs on
/// `num_workers` workers.
#[derive(Debug)]
pub struct VisionPropertyInference {
    pub num_workers: usize,
}

impl VisionPropertyInference {
    pub fn new(num_workers: usize) -> (r: Self)
        ensures
            r.num_workers == num_workers,
    {
        VisionPropertyInference { num_workers }
    }

    fn infer_group(&self, group: &FusionGroupPayload, input: &ValueProperties) -> (r: Result<
        ValueProperties,
        VisionError,
    >)
        ensures
            r is Ok <==> group_fold(group.ops@, input@, self.num_workers as nat, group.ops@.len()) is Some,
            r matches Ok(v) ==> group_fold(group.ops@, input@, self.num_workers as nat, group.ops@.len())
                == Some(v@),
    {
        let mut properties = input.clone();
        let mut i: usize = 0;
        while i < group.ops.len()
            invariant
                0 <= i <= group.ops@.len(),
                group_fold(group.ops@, input@, self.num_workers as nat, i as nat) == Some(properties@),
            decreases group.ops@.len() - i,
        {
            match infer_image_op_with_workers(&group.ops[i], &properties, self.num_workers) {
                Ok(next) => {
                    properties = next;
                },
                Err(e) => {
                    proof {
                        lemma_group_none_extends(group.ops@, input@, self.num_workers as nat, i as nat + 1, group.ops@.len());
                    }
                    return Err(e);
                },
            }
            i += 1;
        }
        Ok(properties)
    }
}

proof fn lemma_group_none_extends(ops: Seq<ImageOp>, p: ValuePropertiesV, w: nat, a: nat, b: nat)
    requires
        0 < a <= b <= ops.len(),
        group_fold(ops, p, w, a) is None,
    ensures
        group_fold(ops, p, w, b) is None,
    decreases b - a,
{
    if a < b {
        lemma_group_none_extends(ops, p, w, a, (b - 1) as nat);
    }
}

fn with_host_residency(input: &ValueProperties) -> (r: ValueProperties)
    ensures
        r@ == host_input(input@),
{
    let mut semantic = input.clone();
    semantic.residency = Some(Residency::Host);
    semantic
}

fn clone_residency(r: &Option<Residency>) -> (out: Option<Residency>)
    ensures
        opt_view(out) == opt_view(*r),
{
    match r {
        Some(x) => Some(x.clone()),
        None => None,
    }
}

impl PropertyInference<VisionPayload> for VisionPropertyInference {
    open spec fn infer_spec(&self, node: LogicalNode<VisionPayload>, inputs: Seq<ValuePropertiesV>) -> Option<
        ValuePropertiesV,
    > {
        infer_node_spec(node.kind, node.payload, inputs, self.num_workers as nat)
    }

    fn infer_node(&self, node: &LogicalNode<VisionPayload>, inputs: &[ValueProperties]) -> (r: Result<
        ValueProperties,
        String,
    >) {
        proof {
            reveal_strlit("NormalizeToChw");
        }
        match node.kind {
            NodeKind::Source => {
                return match &node.payload {
                    Some(VisionPayload::Source(source)) => Ok(properties_from_state(source.state)),
                    _ => Err(owned("source node is missing its vision SourceOp payload")),
                };
            },
            _ => {},
        }
        let input = match single_input(inputs, node.kind) {
            Ok(i) => i,
            Err(e) => return Err(e),
        };
        assert(views(inputs@)[0] == input@);
        match node.kind {
            NodeKind::Index => match &node.payload {
                Some(VisionPayload::Index(_)) => Ok(input.clone()),
                _ => Err(owned("index node is missing its vision IndexOp payload")),
            },
            NodeKind::Op => {
                let semantic = with_host_residency(input);
                match &node.payload {
                    Some(VisionPayload::Image(op)) => {
                        match infer_image_op_with_workers(op, &semantic, self.num_workers) {
                            Ok(output) => {
                                let mut output = output;
                                output.residency = clone_residency(&input.residency);
                                Ok(output)
                            },
                            Err(e) => Err(e.to_text()),
                        }
                    },
                    Some(VisionPayload::FusionGroup(group)) => {
                        match self.infer_group(group, &semantic) {
                            Ok(output) => {
                                let mut output = output;
                                if crate::text::str_equal(group.name, "NormalizeToChw") {
                                    output.contiguity = Some(Contiguity::Contiguous);
                                }
                                output.residency = clone_residency(&input.residency);
                                Ok(output)
                            },
                            Err(e) => Err(e.to_text()),
                        }
                    },
                    _ => Err(owned("op node is missing its vision ImageOp or FusionGroup payload")),
                }
            },
            NodeKind::Batch => match &node.payload {
                Some(VisionPayload::Batch(batch)) => match infer_batch(batch, input) {
                    Ok(v) => Ok(v),
                    Err(e) => Err(e.to_text()),
                },
                _ => Err(owned("batch node is missing its BatchConfig payload")),
            },
            NodeKind::DeviceCut => match &node.payload {
                Some(VisionPayload::DeviceCut(cut)) => {
                    let mut properties = input.clone();
                    properties.residency = Some(Residency::Device(cut.target.clone()));
                    Ok(properties)
                },
                _ => Err(owned("device cut node is missing its DeviceCut payload")),
            },
            _ => Ok(input.clone()),
        }
    }
}

} // verus!
