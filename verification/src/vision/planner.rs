//! Decisions of the vision planning passes: which rewrites apply to a node
//! given the inferred properties of its input, which fusions are legal,
//! which physical candidates a node has, and the kernels the vision domain
//! registers for placement.

use vstd::prelude::*;
use crate::optimizer::FusionCandidate;
use crate::placement::{KernelCapabilities, KernelCapability, KernelClass, KernelRequirements};
use crate::plan::{NodeId, NodeKind};
use crate::properties::{
    AxisOrder, AxisOrderV, Contiguity, DataType, DataTypeV, DeviceClass, DeviceClassV, OperatorStage,
    Representation, RepresentationV, Residency, ResidencyV, ShapeDim, ValueGranularity,
    ValueProperties, ValuePropertiesV,
};
use crate::text::{decimal, owned, push_decimal, push_str};
use crate::vision::image_op::ImageOp;
use crate::vision::inference::{image_axis, image_axis_spec, infer_op};
use crate::vision::logical::VisionPayload;
use crate::vision::transforms::{DType, ImageAxisOrder};

verus! {

/// Image axis order of a value's properties, when it is an image layout.
pub fn axis_order(properties: &ValueProperties) -> (r: Option<ImageAxisOrder>)
    ensures
        r == image_axis_spec(properties@.axis_order),
{
    image_axis(properties.axis_order.as_ref())
}

/// Known spatial extent `(height, width)` of a rank-3 image value.
pub open spec fn known_spatial(p: ValuePropertiesV) -> Option<(usize, usize)> {
    match p.shape {
        None => None,
        Some(dims) => if dims.len() != 3 {
            None
        } else {
            let hw = match image_axis_spec(p.axis_order) {
                Some(ImageAxisOrder::Hwc) => Some((dims[0], dims[1])),
                Some(ImageAxisOrder::Chw) => Some((dims[1], dims[2])),
                None => None,
            };
            match hw {
                Some((ShapeDim::Known(h), ShapeDim::Known(w))) => Some((h, w)),
                _ => None,
            }
        },
    }
}

/// A crop that keeps the whole image of known extent.
pub open spec fn identity_crop_spec(op: ImageOp, p: ValuePropertiesV) -> bool {
    match known_spatial(p) {
        None => false,
        Some((h, w)) => match op {
            ImageOp::Crop(c) => c.x == 0 && c.y == 0 && c.width == w && c.height == h,
            ImageOp::CenterCrop(c) => c.width == w && c.height == h,
            _ => false,
        },
    }
}

pub fn is_identity_crop(op: &ImageOp, properties: &ValueProperties) -> (r: bool)
    ensures
        r == identity_crop_spec(*op, properties@),
        r ==> (*op matches ImageOp::Crop(c) ==> c.x == 0 && c.y == 0),
        r ==> (properties@.shape matches Some(s) && s.len() == 3),
        r && image_axis_spec(properties@.axis_order) == Some(ImageAxisOrder::Hwc) ==> match *op {
            ImageOp::Crop(c) => properties@.shape.unwrap()[0] == ShapeDim::Known(c.height as usize)
                && properties@.shape.unwrap()[1] == ShapeDim::Known(c.width as usize),
            ImageOp::CenterCrop(c) => properties@.shape.unwrap()[0] == ShapeDim::Known(c.height as usize)
                && properties@.shape.unwrap()[1] == ShapeDim::Known(c.width as usize),
            _ => false,
        },
        r && image_axis_spec(properties@.axis_order) == Some(ImageAxisOrder::Chw) ==> match *op {
            ImageOp::Crop(c) => properties@.shape.unwrap()[1] == ShapeDim::Known(c.height as usize)
                && properties@.shape.unwrap()[2] == ShapeDim::Known(c.width as usize),
            ImageOp::CenterCrop(c) => properties@.shape.unwrap()[1] == ShapeDim::Known(c.height as usize)
                && properties@.shape.unwrap()[2] == ShapeDim::Known(c.width as usize),
            _ => false,
        },
{
    proof {
        if identity_crop_spec(*op, properties@) {
            law_identity_crop_keeps_shape(*op, properties@, 0);
        }
    }
    let shape = match &properties.shape {
        Some(shape) => shape,
        None => return false,
    };
    if shape.0.len() != 3 {
        return false;
    }
    let dims = (match axis_order(properties) {
        Some(ImageAxisOrder::Hwc) => (shape.0[0], shape.0[1]),
        Some(ImageAxisOrder::Chw) => (shape.0[1], shape.0[2]),
        None => return false,
    });
    let (height, width) = match dims {
        (ShapeDim::Known(h), ShapeDim::Known(w)) => (h, w),
        _ => return false,
    };
    match op {
        ImageOp::Crop(c) => c.x == 0 && c.y == 0 && c.width as usize == width && c.height as usize
            == height,
        ImageOp::CenterCrop(c) => c.width as usize == width && c.height as usize == height,
        _ => false,
    }
}

/// An identity crop keeps the whole image: a crop that `is_identity_crop`
/// accepts is a `Crop` at the origin or a `CenterCrop`, its height and
/// width are exactly the known height and width of its rank-3 input image,
/// and whenever property inference accepts it, its output has the input's
/// shape, so removing it changes nothing.
pub proof fn law_identity_crop_keeps_shape(op: ImageOp, p: ValuePropertiesV, workers: nat)
    requires
        identity_crop_spec(op, p),
    ensures
        op is Crop || op is CenterCrop,
        op matches ImageOp::Crop(c) ==> c.x == 0 && c.y == 0,
        ({
            let (width, height) = match op {
                ImageOp::Crop(c) => (c.width, c.height),
                ImageOp::CenterCrop(c) => (c.width, c.height),
                _ => (0u32, 0u32),
            };
            &&& p.shape matches Some(s) && s.len() == 3
            &&& image_axis_spec(p.axis_order) == Some(ImageAxisOrder::Hwc) ==> p.shape.unwrap()[0]
                == ShapeDim::Known(height as usize) && p.shape.unwrap()[1] == ShapeDim::Known(
                width as usize,
            )
            &&& image_axis_spec(p.axis_order) == Some(ImageAxisOrder::Chw) ==> p.shape.unwrap()[1]
                == ShapeDim::Known(height as usize) && p.shape.unwrap()[2] == ShapeDim::Known(
                width as usize,
            )
            &&& image_axis_spec(p.axis_order) is Some
        }),
        infer_op(op, p, workers) matches Some(q) ==> q.shape == p.shape,
{
    let s = p.shape.unwrap();
    if let Some(q) = infer_op(op, p, workers) {
        let a = image_axis_spec(p.axis_order).unwrap();
        let h = match a {
            ImageAxisOrder::Hwc => 0int,
            ImageAxisOrder::Chw => 1int,
        };
        assert(s.update(h, s[h]).update(h + 1, s[h + 1]) =~= s);
    }
}

/// Every full-image crop is found: a `Crop` at the origin, or a
/// `CenterCrop`, whose height and width equal the known height and width
/// of a rank-3 HWC or CHW image is an identity crop.
pub proof fn law_full_image_crop_is_identity(op: ImageOp, p: ValuePropertiesV)
    requires
        op is Crop || op is CenterCrop,
        op matches ImageOp::Crop(c) ==> c.x == 0 && c.y == 0,
        p.shape matches Some(s) && s.len() == 3,
        image_axis_spec(p.axis_order) is Some,
        ({
            let (width, height) = match op {
                ImageOp::Crop(c) => (c.width, c.height),
                ImageOp::CenterCrop(c) => (c.width, c.height),
                _ => (0u32, 0u32),
            };
            let s = p.shape.unwrap();
            &&& image_axis_spec(p.axis_order) == Some(ImageAxisOrder::Hwc) ==> s[0] == ShapeDim::Known(
                height as usize,
            ) && s[1] == ShapeDim::Known(width as usize)
            &&& image_axis_spec(p.axis_order) == Some(ImageAxisOrder::Chw) ==> s[1] == ShapeDim::Known(
                height as usize,
            ) && s[2] == ShapeDim::Known(width as usize)
        }),
    ensures
        identity_crop_spec(op, p),
{
}

/// Sample workers already run sample-stage work before this value, so a
/// batch operation after it must stay behind the worker barrier.
pub open spec fn behind_workers(p: ValuePropertiesV, workers: nat) -> bool {
    workers > 0 && (p.operator matches Some(o) && o.sample_stage_has_work && o.stage
        != OperatorStage::Batch)
}

pub fn is_behind_workers(properties: &ValueProperties, workers: usize) -> (r: bool)
    ensures
        r == behind_workers(properties@, workers as nat),
{
    workers > 0 && match properties.operator {
        Some(o) => o.sample_stage_has_work && o.stage != OperatorStage::Batch,
        None => false,
    }
}

/// The plan's element type for a converted image dtype; `None` for dtypes
/// the rewrite does not consider.
pub open spec fn rewrite_dtype(d: DType) -> Option<DataTypeV> {
    match d {
        DType::U8 => Some(DataTypeV::U8),
        DType::F32 => Some(DataTypeV::F32),
        _ => None,
    }
}

/// A semantic rewrite of one image operation node.
#[derive(Clone, Copy, Debug, PartialEq, Eq, Structural)]
pub enum SemanticRewrite {
    /// A crop keeping the whole image: its uses read its input instead.
    IdentityCrop,
    /// A dtype conversion to the dtype the input already has.
    IdentityDtype,
    /// A uint8 to float conversion feeding only a `Normalize`, which
    /// performs the same scaling itself.
    LatePromotion,
}

/// The rewrite that applies to a node running `op` on a value with
/// properties `input` (if inferred). `feeds_only_normalize` says that the
/// node's only consumer is a `Normalize` reading it as its first input.
pub open spec fn semantic_rewrite_spec(
    op: ImageOp,
    input: Option<ValuePropertiesV>,
    workers: nat,
    feeds_only_normalize: bool,
) -> Option<SemanticRewrite> {
    match input {
        None => None,
        Some(p) => if identity_crop_spec(op, p) {
            Some(SemanticRewrite::IdentityCrop)
        } else {
            match op {
                ImageOp::ConvertImageDtype { dtype } => match rewrite_dtype(dtype) {
                    None => None,
                    Some(target) => if p.dtype == Some(target) {
                        if behind_workers(p, workers) {
                            None
                        } else {
                            Some(SemanticRewrite::IdentityDtype)
                        }
                    } else if dtype != DType::F32 || p.dtype != Some(DataTypeV::U8) {
                        None
                    } else if behind_workers(p, workers) {
                        None
                    } else if feeds_only_normalize {
                        Some(SemanticRewrite::LatePromotion)
                    } else {
                        None
                    },
                },
                _ => None,
            }
        },
    }
}

pub fn semantic_rewrite(
    op: &ImageOp,
    input: Option<&ValueProperties>,
    workers: usize,
    feeds_only_normalize: bool,
) -> (r: Option<SemanticRewrite>)
    ensures
        r == semantic_rewrite_spec(
            *op,
            match input {
                Some(p) => Some(p@),
                None => None,
            },
            workers as nat,
            feeds_only_normalize,
        ),
{
    let p = match input {
        Some(p) => p,
        None => return None,
    };
    if is_identity_crop(op, p) {
        return Some(SemanticRewrite::IdentityCrop);
    }
    let dtype = match op {
        ImageOp::ConvertImageDtype { dtype } => *dtype,
        _ => return None,
    };
    let target_is_input = match dtype {
        DType::U8 => match &p.dtype {
            Some(DataType::U8) => true,
            _ => false,
        },
        DType::F32 => match &p.dtype {
            Some(DataType::F32) => true,
            _ => false,
        },
        _ => return None,
    };
    if target_is_input {
        if is_behind_workers(p, workers) {
            return None;
        }
        return Some(SemanticRewrite::IdentityDtype);
    }
    let input_is_u8 = match &p.dtype {
        Some(DataType::U8) => true,
        _ => false,
    };
    if dtype != DType::F32 || !input_is_u8 {
        return None;
    }
    if is_behind_workers(p, workers) {
        return None;
    }
    if feeds_only_normalize {
        Some(SemanticRewrite::LatePromotion)
    } else {
        None
    }
}

pub open spec fn rewrite_message_spec(kind: SemanticRewrite, node: usize) -> Seq<char> {
    match kind {
        SemanticRewrite::IdentityCrop => "removed full-image crop at node %"@ + decimal(node as nat)
            + " using known input shape; values, layout, dtype, and randomness are unchanged"@,
        SemanticRewrite::IdentityDtype => "removed identity ConvertImageDtype at node %"@ + decimal(
            node as nat,
        ),
        SemanticRewrite::LatePromotion => "bypassed U8->F32 conversion at node %"@ + decimal(
            node as nat,
        )
            + " before Normalize; preserves U8 HWC/CHW order and uses Normalize's equivalent U8 scaling path"@,
    }
}

pub open spec fn rewrite_code_spec(kind: SemanticRewrite) -> Seq<char> {
    match kind {
        SemanticRewrite::IdentityCrop => "rewrite.identity-crop"@,
        SemanticRewrite::IdentityDtype => "rewrite.identity-dtype"@,
        SemanticRewrite::LatePromotion => "rewrite.dtype-late-promotion"@,
    }
}

/// Diagnostic code and message recorded for a rewrite at `node`.
pub fn rewrite_diagnostic(kind: SemanticRewrite, node: NodeId) -> (r: (&'static str, String))
    ensures
        r.0@ == rewrite_code_spec(kind),
        r.1@ == rewrite_message_spec(kind, node.0),
{
    proof {
        reveal_strlit("rewrite.identity-crop");
        reveal_strlit("rewrite.identity-dtype");
        reveal_strlit("rewrite.dtype-late-promotion");
        reveal_strlit("removed full-image crop at node %");
        reveal_strlit(" using known input shape; values, layout, dtype, and randomness are unchanged");
        reveal_strlit("removed identity ConvertImageDtype at node %");
        reveal_strlit("bypassed U8->F32 conversion at node %");
        reveal_strlit(
            " before Normalize; preserves U8 HWC/CHW order and uses Normalize's equivalent U8 scaling path",
        );
    }
    match kind {
        SemanticRewrite::IdentityCrop => {
            let mut m = owned("removed full-image crop at node %");
            push_decimal(&mut m, node.0);
            push_str(
                &mut m,
                " using known input shape; values, layout, dtype, and randomness are unchanged",
            );
            ("rewrite.identity-crop", m)
        },
        SemanticRewrite::IdentityDtype => {
            let mut m = owned("removed identity ConvertImageDtype at node %");
            push_decimal(&mut m, node.0);
            ("rewrite.identity-dtype", m)
        },
        SemanticRewrite::LatePromotion => {
            let mut m = owned("bypassed U8->F32 conversion at node %");
            push_decimal(&mut m, node.0);
            push_str(
                &mut m,
                " before Normalize; preserves U8 HWC/CHW order and uses Normalize's equivalent U8 scaling path",
            );
            ("rewrite.dtype-late-promotion", m)
        },
    }
}

/// A layout node whose input already has the target axis order.
pub open spec fn identity_layout_spec(op: ImageOp, input: Option<ValuePropertiesV>) -> bool {
    match op {
        ImageOp::Layout { axis_order } => match input {
            Some(p) => image_axis_spec(p.axis_order) == Some(axis_order),
            None => false,
        },
        _ => false,
    }
}

pub fn is_identity_layout(op: &ImageOp, input: Option<&ValueProperties>) -> (r: bool)
    ensures
        r == identity_layout_spec(
            *op,
            match input {
                Some(p) => Some(p@),
                None => None,
            },
        ),
{
    match op {
        ImageOp::Layout { axis_order: target } => match input {
            Some(p) => match axis_order(p) {
                Some(a) => a == *target,
                None => false,
            },
            None => false,
        },
        _ => false,
    }
}

// ---------------------------------------------------------------------------
// Index pushdown
// ---------------------------------------------------------------------------

/// Outcome of checking that index operations precede every image
/// operation, over nodes listed from the source on: the number of index
/// nodes, or the first offending node and whether it lacks its payload
/// (rather than following an image operation).
pub open spec fn pushdown_spec(nodes: Seq<(NodeId, NodeKind, bool)>, n: nat) -> Result<(nat, bool), (usize, bool)>
    decreases n,
{
    if n == 0 || n > nodes.len() {
        Ok((0, false))
    } else {
        match pushdown_spec(nodes, (n - 1) as nat) {
            Err(e) => Err(e),
            Ok((count, saw_op)) => {
                let (id, kind, has_payload) = nodes[n - 1];
                match kind {
                    NodeKind::Op => Ok((count, true)),
                    NodeKind::Index => if saw_op {
                        Err((id.0, false))
                    } else if !has_payload {
                        Err((id.0, true))
                    } else {
                        Ok((count + 1, saw_op))
                    },
                    _ => Ok((count, saw_op)),
                }
            },
        }
    }
}

pub open spec fn pushdown_error_text(node: usize, missing_payload: bool) -> Seq<char> {
    if missing_payload {
        "index node %"@ + decimal(node as nat) + " has no vision IndexOp"@
    } else {
        "index node %"@ + decimal(node as nat)
            + " occurs after an image transform; source pushdown cannot preserve the declared plan order"@
    }
}

/// Checks that index operations come before image operations, given the
/// nodes from the source on with their kind and whether an index node
/// carries its operation; returns the number of index nodes.
pub fn index_pushdown(nodes: &Vec<(NodeId, NodeKind, bool)>) -> (r: Result<usize, String>)
    ensures
        match pushdown_spec(nodes@, nodes@.len()) {
            Ok((count, _)) => r matches Ok(c) && c == count,
            Err((node, missing)) => r matches Err(m) && m@ == pushdown_error_text(node, missing),
        },
{
    let mut saw_image_op = false;
    let mut index_count: usize = 0;
    let mut i: usize = 0;
    while i < nodes.len()
        invariant
            0 <= i <= nodes@.len(),
            index_count <= i,
            pushdown_spec(nodes@, i as nat) == Ok::<(nat, bool), (usize, bool)>((index_count as nat, saw_image_op)),
        decreases nodes@.len() - i,
    {
        let (id, kind, has_payload) = nodes[i];
        match kind {
            NodeKind::Op => {
                saw_image_op = true;
            },
            NodeKind::Index => {
                if saw_image_op {
                    proof {
                        reveal_strlit("index node %");
                        reveal_strlit(
                            " occurs after an image transform; source pushdown cannot preserve the declared plan order",
                        );
                        lemma_pushdown_err_sticks(nodes@, (i + 1) as nat, nodes@.len());
                    }
                    let mut m = owned("index node %");
                    push_decimal(&mut m, id.0);
                    push_str(
                        &mut m,
                        " occurs after an image transform; source pushdown cannot preserve the declared plan order",
                    );
                    return Err(m);
                }
                if !has_payload {
                    proof {
                        reveal_strlit("index node %");
                        reveal_strlit(" has no vision IndexOp");
                        lemma_pushdown_err_sticks(nodes@, (i + 1) as nat, nodes@.len());
                    }
                    let mut m = owned("index node %");
                    push_decimal(&mut m, id.0);
                    push_str(&mut m, " has no vision IndexOp");
                    return Err(m);
                }
                index_count += 1;
            },
            _ => {},
        }
        i += 1;
    }
    Ok(index_count)
}

proof fn lemma_pushdown_err_sticks(nodes: Seq<(NodeId, NodeKind, bool)>, k: nat, n: nat)
    requires
        k <= n <= nodes.len(),
        pushdown_spec(nodes, k) is Err,
    ensures
        pushdown_spec(nodes, n) == pushdown_spec(nodes, k),
    decreases n - k,
{
    if k < n {
        lemma_pushdown_err_sticks(nodes, k + 1, n);
    }
}

pub open spec fn pushdown_message_spec(count: nat) -> Seq<char> {
    decimal(count)
        + " Skip/Take/Shuffle operation(s) are compiled into the source sampler before reads and image transforms"@
}

/// Diagnostic message for `count` index operations pushed into the sampler.
pub fn pushdown_message(count: usize) -> (r: String)
    ensures
        r@ == pushdown_message_spec(count as nat),
{
    proof {
        reveal_strlit(
            " Skip/Take/Shuffle operation(s) are compiled into the source sampler before reads and image transforms",
        );
    }
    let mut m = String::new();
    push_decimal(&mut m, count);
    push_str(
        &mut m,
        " Skip/Take/Shuffle operation(s) are compiled into the source sampler before reads and image transforms",
    );
    m
}

// ---------------------------------------------------------------------------
// Fusion legality
// ---------------------------------------------------------------------------

/// A `Normalize` then a layout to `layout_axis` may fuse into one kernel:
/// the normalization reads uint8 HWC values, the layout produces CHW, and
/// the normalization is not held behind sample workers.
pub open spec fn normalize_layout_legal_spec(
    input: Option<ValuePropertiesV>,
    layout_axis: ImageAxisOrder,
    workers: nat,
) -> bool {
    match input {
        None => false,
        Some(p) => p.dtype == Some(DataTypeV::U8) && image_axis_spec(p.axis_order) == Some(
            ImageAxisOrder::Hwc,
        ) && layout_axis == ImageAxisOrder::Chw && !behind_workers(p, workers),
    }
}

/// A `Normalize` + CHW layout fusion is legal only for what the fused
/// uint8 kernel can read: an input of known properties whose element type
/// is uint8 and whose layout is HWC, a layout to CHW, and no sample worker
/// already running sample-stage work before the normalization.
pub proof fn law_normalize_layout_needs_u8_hwc(
    input: Option<ValuePropertiesV>,
    layout_axis: ImageAxisOrder,
    workers: nat,
)
    requires
        normalize_layout_legal_spec(input, layout_axis, workers),
    ensures
        input is Some,
        input.unwrap().dtype == Some(DataTypeV::U8),
        input.unwrap().axis_order == Some(AxisOrderV::Hwc) || input.unwrap().axis_order == Some(
            AxisOrderV::Nhwc,
        ),
        layout_axis == ImageAxisOrder::Chw,
        workers > 0 ==> !(input.unwrap().operator matches Some(o) && o.sample_stage_has_work && o.stage
            != OperatorStage::Batch),
{
}

/// Every fusion the uint8 kernel can run is legal: a uint8 HWC input
/// laid out to CHW, not held behind sample workers, may fuse.
pub proof fn law_u8_hwc_to_chw_fuses(p: ValuePropertiesV, workers: nat)
    requires
        p.dtype == Some(DataTypeV::U8),
        p.axis_order == Some(AxisOrderV::Hwc) || p.axis_order == Some(AxisOrderV::Nhwc),
        workers > 0 ==> !(p.operator matches Some(o) && o.sample_stage_has_work && o.stage
            != OperatorStage::Batch),
    ensures
        normalize_layout_legal_spec(Some(p), ImageAxisOrder::Chw, workers),
{
}

pub fn normalize_layout_legal(input: Option<&ValueProperties>, layout_axis: ImageAxisOrder, workers: usize) -> (r:
    bool)
    ensures
        r == normalize_layout_legal_spec(
            match input {
                Some(p) => Some(p@),
                None => None,
            },
            layout_axis,
            workers as nat,
        ),
        r ==> (input matches Some(p) && p.dtype == Some(DataType::U8) && (p.axis_order == Some(
            AxisOrder::Hwc,
        ) || p.axis_order == Some(AxisOrder::Nhwc)) && layout_axis == ImageAxisOrder::Chw),
{
    proof {
        let v = match input {
            Some(p) => Some(p@),
            None => None,
        };
        if normalize_layout_legal_spec(v, layout_axis, workers as nat) {
            law_normalize_layout_needs_u8_hwc(v, layout_axis, workers as nat);
        }
    }
    match input {
        None => false,
        Some(p) => {
            let u8_input = match &p.dtype {
                Some(DataType::U8) => true,
                _ => false,
            };
            let hwc = match axis_order(p) {
                Some(ImageAxisOrder::Hwc) => true,
                _ => false,
            };
            u8_input && hwc && layout_axis == ImageAxisOrder::Chw && !is_behind_workers(p, workers)
        },
    }
}

/// A flip before `Normalize` commutes with it on uint8 HWC values.
pub open spec fn flip_commutes_spec(input: Option<ValuePropertiesV>) -> bool {
    match input {
        None => false,
        Some(p) => p.dtype == Some(DataTypeV::U8) && image_axis_spec(p.axis_order) == Some(
            ImageAxisOrder::Hwc,
        ),
    }
}

pub fn flip_commutes(input: Option<&ValueProperties>) -> (r: bool)
    ensures
        r == flip_commutes_spec(
            match input {
                Some(p) => Some(p@),
                None => None,
            },
        ),
{
    match input {
        None => false,
        Some(p) => {
            let u8_input = match &p.dtype {
                Some(DataType::U8) => true,
                _ => false,
            };
            let hwc = match axis_order(p) {
                Some(ImageAxisOrder::Hwc) => true,
                _ => false,
            };
            u8_input && hwc
        },
    }
}

// ---------------------------------------------------------------------------
// Physical candidates
// ---------------------------------------------------------------------------

pub open spec fn physical_candidate_spec(
    kind: NodeKind,
    payload: Option<VisionPayload>,
    props: Option<ValuePropertiesV>,
) -> Option<Seq<char>> {
    match payload {
        None => if kind == NodeKind::Sink {
            Some("vision-output-sink"@)
        } else {
            None
        },
        Some(p) => match (kind, p) {
            (NodeKind::Source, VisionPayload::Source(_)) => Some("vision-source-read"@),
            (NodeKind::Index, VisionPayload::Index(_)) => Some("vision-index-sampler"@),
            (NodeKind::Op, VisionPayload::Image(_)) => if props is Some {
                Some("vision-image-cpu"@)
            } else {
                None
            },
            (NodeKind::Op, VisionPayload::FusionGroup(g)) => if g.name@ == "NormalizeToChw"@ && (props matches Some(
                q,
            ) && q.dtype == Some(DataTypeV::F32) && image_axis_spec(q.axis_order) == Some(
                ImageAxisOrder::Chw,
            )) {
                Some("vision-normalize-to-chw-fused"@)
            } else {
                None
            },
            (NodeKind::Batch, VisionPayload::Batch(_)) => Some("vision-batch-assembly"@),
            _ => None,
        },
    }
}

/// The CPU physical candidate for a vision node, if it has one.
pub fn physical_candidate(kind: NodeKind, payload: Option<&VisionPayload>, properties: Option<
    &ValueProperties,
>) -> (r: Option<&'static str>)
    ensures
        match r {
            Some(name) => physical_candidate_spec(
                kind,
                match payload {
                    Some(p) => Some(*p),
                    None => None,
                },
                match properties {
                    Some(p) => Some(p@),
                    None => None,
                },
            ) == Some(name@),
            None => physical_candidate_spec(
                kind,
                match payload {
                    Some(p) => Some(*p),
                    None => None,
                },
                match properties {
                    Some(p) => Some(p@),
                    None => None,
                },
            ) is None,
        },
{
    proof {
        reveal_strlit("vision-output-sink");
        reveal_strlit("vision-source-read");
        reveal_strlit("vision-index-sampler");
        reveal_strlit("vision-image-cpu");
        reveal_strlit("vision-normalize-to-chw-fused");
        reveal_strlit("vision-batch-assembly");
        reveal_strlit("NormalizeToChw");
    }
    let p = match payload {
        None => {
            if kind == NodeKind::Sink {
                return Some("vision-output-sink");
            }
            return None;
        },
        Some(p) => p,
    };
    match (kind, p) {
        (NodeKind::Source, VisionPayload::Source(_)) => Some("vision-source-read"),
        (NodeKind::Index, VisionPayload::Index(_)) => Some("vision-index-sampler"),
        (NodeKind::Op, VisionPayload::Image(_)) => match properties {
            Some(_) => Some("vision-image-cpu"),
            None => None,
        },
        (NodeKind::Op, VisionPayload::FusionGroup(g)) => {
            if !crate::text::str_equal(g.name, "NormalizeToChw") {
                return None;
            }
            match properties {
                Some(q) => {
                    let f32_values = match &q.dtype {
                        Some(DataType::F32) => true,
                        _ => false,
                    };
                    let chw = match axis_order(q) {
                        Some(ImageAxisOrder::Chw) => true,
                        _ => false,
                    };
                    if f32_values && chw {
                        Some("vision-normalize-to-chw-fused")
                    } else {
                        None
                    }
                },
                None => None,
            }
        },
        (NodeKind::Batch, VisionPayload::Batch(_)) => Some("vision-batch-assembly"),
        _ => None,
    }
}


// ---------------------------------------------------------------------------
// Registered kernels
// ---------------------------------------------------------------------------

pub open spec fn stage_text(stage: OperatorStage) -> Seq<char> {
    match stage {
        OperatorStage::Source => "Source"@,
        OperatorStage::Sample => "Sample"@,
        OperatorStage::Batch => "Batch"@,
    }
}

/// Requirements that only fix the output's operator stage.
pub open spec fn stage_only(r: KernelRequirements, stage: OperatorStage) -> bool {
    &&& !crate::placement::has_input_requirements(r)
    &&& r.output_representation is None && r.output_contiguity is None && r.output_residency is None
    &&& r.output_mutability is None && r.output_dtype is None && r.output_axis_order is None
    &&& r.output_granularity is None
    &&& r.output_stage == Some(stage)
}

/// Kernel `k` is the CPU kernel for `operator` nodes of `kind` at `stage`.
pub open spec fn cpu_kernel_spec(
    k: KernelCapability,
    operator: Seq<char>,
    kind: NodeKind,
    class: KernelClass,
    stage: OperatorStage,
    parallel: bool,
    in_place: bool,
    contiguity: Contiguity,
    tags: Seq<Seq<char>>,
    alignment: usize,
) -> bool {
    &&& k.name@ == operator + "-cpu-"@ + stage_text(stage)
    &&& k.operator@ == operator
    &&& k.node_kind == kind
    &&& k.device@ == DeviceClassV::Cpu
    &&& k.class == class
    &&& stage_only(k.requirements, stage)
    &&& k.fusion_tags@.map_values(|t: String| t@) == tags
    &&& k.alignment_bytes == alignment
    &&& k.contiguity == contiguity
    &&& k.temporary_bytes == 0
    &&& k.in_place == in_place
    &&& k.parallel == parallel
}

fn stage_str(stage: OperatorStage) -> (r: &'static str)
    ensures
        r@ == stage_text(stage),
{
    proof {
        reveal_strlit("Source");
        reveal_strlit("Sample");
        reveal_strlit("Batch");
    }
    match stage {
        OperatorStage::Source => "Source",
        OperatorStage::Sample => "Sample",
        OperatorStage::Batch => "Batch",
    }
}

fn tag_strings(tags: &[&'static str]) -> (r: Vec<String>)
    ensures
        r@.map_values(|t: String| t@) == tags@.map_values(|t: &str| t@),
{
    let mut out: Vec<String> = Vec::new();
    let mut i: usize = 0;
    while i < tags.len()
        invariant
            0 <= i <= tags@.len(),
            out@.map_values(|t: String| t@) == tags@.subrange(0, i as int).map_values(|t: &str| t@),
        decreases tags@.len() - i,
    {
        let ghost before = out@;
        let tag = owned(tags[i]);
        assert(tag@ == tags@[i as int]@);
        out.push(tag);
        assert(out@ == before.push(tag));
        assert(tags@.subrange(0, i + 1) =~= tags@.subrange(0, i as int).push(tags@[i as int]));
        assert(out@.map_values(|t: String| t@) =~= before.map_values(|t: String| t@).push(tag@));
        assert(tags@.subrange(0, i + 1).map_values(|t: &str| t@) =~= tags@.subrange(0, i as int).map_values(
            |t: &str| t@,
        ).push(tags@[i as int]@));
        i += 1;
    }
    assert(tags@.subrange(0, i as int) =~= tags@);
    out
}

fn cpu_kernel(
    operator: &'static str,
    node_kind: NodeKind,
    class: KernelClass,
    stage: OperatorStage,
    parallel: bool,
    in_place: bool,
    contiguity: Contiguity,
    fusion_tags: &[&'static str],
    alignment: usize,
) -> (r: KernelCapability)
    ensures
        cpu_kernel_spec(
            r,
            operator@,
            node_kind,
            class,
            stage,
            parallel,
            in_place,
            contiguity,
            fusion_tags@.map_values(|t: &str| t@),
            alignment,
        ),
{
    proof {
        reveal_strlit("-cpu-");
    }
    let mut name = owned(operator);
    push_str(&mut name, "-cpu-");
    push_str(&mut name, stage_str(stage));
    let mut requirements = KernelRequirements::none();
    requirements.output_stage = Some(stage);
    KernelCapability {
        name,
        operator: owned(operator),
        node_kind,
        device: DeviceClass::Cpu,
        class,
        requirements,
        fusion_tags: tag_strings(fusion_tags),
        alignment_bytes: alignment,
        contiguity,
        temporary_bytes: 0,
        in_place,
        parallel,
    }
}

/// Requirements of the fused normalize-to-CHW kernel: uint8 HWC host
/// sample images in, contiguous float CHW host sample images out, at the
/// batch stage.
pub open spec fn fused_requirements(r: KernelRequirements) -> bool {
    &&& r.input_representation matches Some(x) && x@ == RepresentationV::Image
    &&& r.input_dtype matches Some(x) && x@ == DataTypeV::U8
    &&& r.input_axis_order matches Some(x) && x@ == AxisOrderV::Hwc
    &&& r.input_granularity == Some(ValueGranularity::Sample)
    &&& r.input_residency matches Some(x) && x@ == ResidencyV::Host
    &&& r.input_contiguity is None && r.input_mutability is None && r.input_stage is None
    &&& r.output_representation matches Some(x) && x@ == RepresentationV::Image
    &&& r.output_dtype matches Some(x) && x@ == DataTypeV::F32
    &&& r.output_axis_order matches Some(x) && x@ == AxisOrderV::Chw
    &&& r.output_granularity == Some(ValueGranularity::Sample)
    &&& r.output_residency matches Some(x) && x@ == ResidencyV::Host
    &&& r.output_contiguity == Some(Contiguity::Contiguous)
    &&& r.output_stage == Some(OperatorStage::Batch)
    &&& r.output_mutability is None
}

/// The CPU kernels of the vision domain, in registration order, with
/// `alignment` the alignment of CPU storage.
pub open spec fn vision_kernels_spec(ks: Seq<KernelCapability>, alignment: usize) -> bool {
    let none = Seq::<Seq<char>>::empty();
    &&& ks.len() == 10
    &&& cpu_kernel_spec(ks[0], "vision::Source"@, NodeKind::Source, KernelClass::Source, OperatorStage::Source, false, true, Contiguity::Unknown, none, alignment)
    &&& cpu_kernel_spec(ks[1], "vision::IndexOp"@, NodeKind::Index, KernelClass::Source, OperatorStage::Source, false, true, Contiguity::Unknown, none, alignment)
    &&& cpu_kernel_spec(ks[2], "vision::ImageOp"@, NodeKind::Op, KernelClass::Sample, OperatorStage::Sample, true, false, Contiguity::Unknown, none, alignment)
    &&& cpu_kernel_spec(ks[3], "vision::ImageOp"@, NodeKind::Op, KernelClass::Batch, OperatorStage::Batch, false, false, Contiguity::Unknown, seq!["Normalize"@, "Layout"@], alignment)
    &&& cpu_kernel_spec(ks[4], "vision::ImageOp"@, NodeKind::Op, KernelClass::Sample, OperatorStage::Source, false, true, Contiguity::Unknown, none, alignment)
    &&& cpu_kernel_spec(ks[5], "vision::BatchConfig"@, NodeKind::Batch, KernelClass::Batch, OperatorStage::Batch, false, false, Contiguity::Contiguous, none, alignment)
    &&& cpu_kernel_spec(ks[6], "rivet::Sink"@, NodeKind::Sink, KernelClass::Sink, OperatorStage::Source, false, true, Contiguity::Unknown, none, alignment)
    &&& cpu_kernel_spec(ks[7], "rivet::Sink"@, NodeKind::Sink, KernelClass::Sink, OperatorStage::Sample, false, true, Contiguity::Unknown, none, alignment)
    &&& cpu_kernel_spec(ks[8], "rivet::Sink"@, NodeKind::Sink, KernelClass::Sink, OperatorStage::Batch, false, true, Contiguity::Unknown, none, alignment)
    &&& ks[9].name@ == "vision::NormalizeToChw-cpu-Fused"@
    &&& ks[9].operator@ == "vision::FusionGroup"@
    &&& ks[9].node_kind == NodeKind::Op
    &&& ks[9].device@ == DeviceClassV::Cpu
    &&& ks[9].class == KernelClass::Fused
    &&& fused_requirements(ks[9].requirements)
    &&& ks[9].fusion_tags@.map_values(|t: String| t@) == seq!["NormalizeToChw"@]
    &&& ks[9].alignment_bytes == alignment
    &&& ks[9].contiguity == Contiguity::Contiguous
    &&& ks[9].temporary_bytes == 0
    &&& !ks[9].in_place
    &&& !ks[9].parallel
}

/// The kernels the vision domain registers for placement.
pub fn vision_kernel_capabilities(cpu_alignment: usize) -> (r: KernelCapabilities)
    ensures
        vision_kernels_spec(r.spec_kernels(), cpu_alignment),
{
    proof {
        reveal_strlit("vision::Source");
        reveal_strlit("vision::IndexOp");
        reveal_strlit("vision::ImageOp");
        reveal_strlit("vision::BatchConfig");
        reveal_strlit("rivet::Sink");
        reveal_strlit("Normalize");
        reveal_strlit("Layout");
        reveal_strlit("NormalizeToChw");
        reveal_strlit("vision::NormalizeToChw-cpu-Fused");
        reveal_strlit("vision::FusionGroup");
    }
    let none: [&'static str; 0] = [];
    let tags: [&'static str; 2] = ["Normalize", "Layout"];
    assert(none@.map_values(|t: &str| t@) =~= Seq::<Seq<char>>::empty());
    assert(tags@.map_values(|t: &str| t@) =~= seq!["Normalize"@, "Layout"@]);
    let mut caps = KernelCapabilities::new();
    caps.register(cpu_kernel("vision::Source", NodeKind::Source, KernelClass::Source, OperatorStage::Source, false, true, Contiguity::Unknown, &none, cpu_alignment));
    caps.register(cpu_kernel("vision::IndexOp", NodeKind::Index, KernelClass::Source, OperatorStage::Source, false, true, Contiguity::Unknown, &none, cpu_alignment));
    caps.register(cpu_kernel("vision::ImageOp", NodeKind::Op, KernelClass::Sample, OperatorStage::Sample, true, false, Contiguity::Unknown, &none, cpu_alignment));
    caps.register(cpu_kernel("vision::ImageOp", NodeKind::Op, KernelClass::Batch, OperatorStage::Batch, false, false, Contiguity::Unknown, &tags, cpu_alignment));
    caps.register(cpu_kernel("vision::ImageOp", NodeKind::Op, KernelClass::Sample, OperatorStage::Source, false, true, Contiguity::Unknown, &none, cpu_alignment));
    caps.register(cpu_kernel("vision::BatchConfig", NodeKind::Batch, KernelClass::Batch, OperatorStage::Batch, false, false, Contiguity::Contiguous, &none, cpu_alignment));
    caps.register(cpu_kernel("rivet::Sink", NodeKind::Sink, KernelClass::Sink, OperatorStage::Source, false, true, Contiguity::Unknown, &none, cpu_alignment));
    caps.register(cpu_kernel("rivet::Sink", NodeKind::Sink, KernelClass::Sink, OperatorStage::Sample, false, true, Contiguity::Unknown, &none, cpu_alignment));
    caps.register(cpu_kernel("rivet::Sink", NodeKind::Sink, KernelClass::Sink, OperatorStage::Batch, false, true, Contiguity::Unknown, &none, cpu_alignment));
    let mut requirements = KernelRequirements::none();
    requirements.input_representation = Some(Representation::Image);
    requirements.input_dtype = Some(DataType::U8);
    requirements.input_axis_order = Some(AxisOrder::Hwc);
    requirements.input_granularity = Some(ValueGranularity::Sample);
    requirements.input_residency = Some(Residency::Host);
    requirements.output_representation = Some(Representation::Image);
    requirements.output_dtype = Some(DataType::F32);
    requirements.output_axis_order = Some(AxisOrder::Chw);
    requirements.output_granularity = Some(ValueGranularity::Sample);
    requirements.output_residency = Some(Residency::Host);
    requirements.output_contiguity = Some(Contiguity::Contiguous);
    requirements.output_stage = Some(OperatorStage::Batch);
    let fused_tags: [&'static str; 1] = ["NormalizeToChw"];
    assert(fused_tags@.map_values(|t: &str| t@) =~= seq!["NormalizeToChw"@]);
    caps.register(KernelCapability {
        name: owned("vision::NormalizeToChw-cpu-Fused"),
        operator: owned("vision::FusionGroup"),
        node_kind: NodeKind::Op,
        device: DeviceClass::Cpu,
        class: KernelClass::Fused,
        requirements,
        fusion_tags: tag_strings(&fused_tags),
        alignment_bytes: cpu_alignment,
        contiguity: Contiguity::Contiguous,
        temporary_bytes: 0,
        in_place: false,
        parallel: false,
    });
    caps
}


// ---------------------------------------------------------------------------
// Fusion candidates
// ---------------------------------------------------------------------------

pub open spec fn normalize_layout_reason(legal: bool) -> Seq<char> {
    if legal {
        "requires U8 HWC input, CHW output, and batch-stage Normalize; properties satisfy the rule"@
    } else {
        "requires U8 HWC input, CHW output, and batch-stage Normalize; inferred properties do not satisfy the rule"@
    }
}

pub open spec fn crop_resize_reason() -> Seq<char> {
    "not safe to reorder without transforming the crop rectangle and preserving interpolation/border semantics; no crop-resize fused kernel is registered"@
}

pub open spec fn flip_normalize_reason(commutes: bool) -> Seq<char> {
    if commutes {
        "spatial flip commutes with per-channel affine normalization for U8 HWC values, but sample-to-batch stage movement changes worker execution and no cross-stage fused kernel is registered"@
    } else {
        "requires known U8 HWC input to establish commutation; properties are insufficient"@
    }
}

/// The normalize-layout candidate over a `Normalize` node and the layout
/// node reading it; `input` are the properties of the normalization's
/// input.
pub fn normalize_layout_candidate(
    normalize_id: NodeId,
    layout_id: NodeId,
    layout_axis: ImageAxisOrder,
    input: Option<&ValueProperties>,
    workers: usize,
) -> (r: FusionCandidate)
    ensures
        r.rule@ == "normalize-layout"@,
        r.nodes@ == seq![normalize_id, layout_id],
        r.name@ == "NormalizeToChw"@,
        r.legal == normalize_layout_legal_spec(
            match input {
                Some(p) => Some(p@),
                None => None,
            },
            layout_axis,
            workers as nat,
        ),
        r.reason@ == normalize_layout_reason(r.legal),
{
    proof {
        reveal_strlit("normalize-layout");
        reveal_strlit("NormalizeToChw");
        reveal_strlit(
            "requires U8 HWC input, CHW output, and batch-stage Normalize; properties satisfy the rule",
        );
        reveal_strlit(
            "requires U8 HWC input, CHW output, and batch-stage Normalize; inferred properties do not satisfy the rule",
        );
    }
    let legal = normalize_layout_legal(input, layout_axis, workers);
    let reason = if legal {
        owned("requires U8 HWC input, CHW output, and batch-stage Normalize; properties satisfy the rule")
    } else {
        owned(
            "requires U8 HWC input, CHW output, and batch-stage Normalize; inferred properties do not satisfy the rule",
        )
    };
    let mut nodes: Vec<NodeId> = Vec::new();
    nodes.push(normalize_id);
    nodes.push(layout_id);
    assert(nodes@ =~= seq![normalize_id, layout_id]);
    FusionCandidate { rule: "normalize-layout", nodes, name: owned("NormalizeToChw"), legal, reason }
}

/// The crop-resize candidate: never legal, since the crop rectangle is in
/// source pixels and the resize in cropped ones.
pub fn crop_resize_candidate(crop_id: NodeId, resize_id: NodeId) -> (r: FusionCandidate)
    ensures
        r.rule@ == "normalize-layout"@,
        r.nodes@ == seq![crop_id, resize_id],
        r.name@ == "CropResize"@,
        !r.legal,
        r.reason@ == crop_resize_reason(),
{
    proof {
        reveal_strlit("normalize-layout");
        reveal_strlit("CropResize");
        reveal_strlit(
            "not safe to reorder without transforming the crop rectangle and preserving interpolation/border semantics; no crop-resize fused kernel is registered",
        );
    }
    let mut nodes: Vec<NodeId> = Vec::new();
    nodes.push(crop_id);
    nodes.push(resize_id);
    assert(nodes@ =~= seq![crop_id, resize_id]);
    FusionCandidate {
        rule: "normalize-layout",
        nodes,
        name: owned("CropResize"),
        legal: false,
        reason: owned(
            "not safe to reorder without transforming the crop rectangle and preserving interpolation/border semantics; no crop-resize fused kernel is registered",
        ),
    }
}

/// The flip-normalize candidate: never legal; its reason says whether the
/// two operations commute on the flip's input.
pub fn flip_normalize_candidate(flip_id: NodeId, normalize_id: NodeId, input: Option<&ValueProperties>) -> (r:
    FusionCandidate)
    ensures
        r.rule@ == "normalize-layout"@,
        r.nodes@ == seq![flip_id, normalize_id],
        r.name@ == "FlipNormalize"@,
        !r.legal,
        r.reason@ == flip_normalize_reason(
            flip_commutes_spec(
                match input {
                    Some(p) => Some(p@),
                    None => None,
                },
            ),
        ),
{
    proof {
        reveal_strlit("normalize-layout");
        reveal_strlit("FlipNormalize");
        reveal_strlit(
            "spatial flip commutes with per-channel affine normalization for U8 HWC values, but sample-to-batch stage movement changes worker execution and no cross-stage fused kernel is registered",
        );
        reveal_strlit("requires known U8 HWC input to establish commutation; properties are insufficient");
    }
    let reason = if flip_commutes(input) {
        owned(
            "spatial flip commutes with per-channel affine normalization for U8 HWC values, but sample-to-batch stage movement changes worker execution and no cross-stage fused kernel is registered",
        )
    } else {
        owned("requires known U8 HWC input to establish commutation; properties are insufficient")
    };
    let mut nodes: Vec<NodeId> = Vec::new();
    nodes.push(flip_id);
    nodes.push(normalize_id);
    assert(nodes@ =~= seq![flip_id, normalize_id]);
    FusionCandidate { rule: "normalize-layout", nodes, name: owned("FlipNormalize"), legal: false, reason }
}

} // verus!
