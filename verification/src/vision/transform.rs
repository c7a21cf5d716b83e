//! A reusable, ordered sequence of image operations.
//!
//! The sequence only records operations so it can be inserted into a
//! pipeline or used as a child of a random control operation.

use vstd::prelude::*;
use crate::vision::image_op::{copy_ops, deep_ops, ImageOp};
use crate::vision::transforms::{
    CenterCropConfig, CropConfig, FlipAxis, PadConfig, RandomCropConfig, ResizeConfig,
    DType, ElasticTransformConfig, ImageAxisOrder, InterpolationMode, PerspectiveConfig, Point2,
    RandomAffineConfig, RandomErasingConfig, RandomPerspectiveConfig, RandomResizedCropConfig,
    RotationAngle, default_resized_crop,
};

verus! {

#[derive(Debug)]
pub struct TransformSequence {
    pub ops: Vec<ImageOp>,
}

impl Clone for TransformSequence {
    fn clone(&self) -> (r: Self)
        ensures
            deep_ops(r.ops@) == deep_ops(self.ops@),
    {
        TransformSequence { ops: copy_ops(&self.ops) }
    }
}

impl TransformSequence {
    pub fn new() -> (r: Self)
        ensures
            r.ops@.len() == 0,
    {
        TransformSequence { ops: Vec::new() }
    }

    pub fn from_ops(ops: Vec<ImageOp>) -> (r: Self)
        ensures
            r.ops@ == ops@,
    {
        TransformSequence { ops }
    }

    /// This sequence followed by `other`.
    pub fn compose(self, other: Self) -> (r: Self)
        ensures
            r.ops@ == self.ops@ + other.ops@,
    {
        let mut out = self;
        let mut tail = other.ops;
        out.ops.append(&mut tail);
        out
    }

    pub fn into_ops(self) -> (r: Vec<ImageOp>)
        ensures
            r@ == self.ops@,
    {
        self.ops
    }

    /// This sequence with `op` appended.
    pub fn with_op(self, op: ImageOp) -> (r: Self)
        ensures
            r.ops@ == self.ops@.push(op),
    {
        let mut out = self;
        out.ops.push(op);
        out
    }

    pub fn decode_image(self) -> (r: Self)
        ensures
            r.ops@ == self.ops@.push(ImageOp::Decode),
    {
        let op = ImageOp::decode();
        self.with_op(op)
    }

    pub fn resize(self, width: u32, height: u32) -> (r: Self)
        ensures
            r.ops@ == self.ops@.push(ImageOp::Resize(ResizeConfig { width, height, interpolation: InterpolationMode::Bilinear })),
    {
        let op = ImageOp::resize(width, height);
        self.with_op(op)
    }

    pub fn resize_with_interpolation(self, width: u32, height: u32, interpolation: InterpolationMode) -> (r: Self)
        ensures
            r.ops@ == self.ops@.push(ImageOp::Resize(ResizeConfig { width, height, interpolation })),
    {
        let op = ImageOp::resize_with_interpolation(width, height, interpolation);
        self.with_op(op)
    }

    pub fn crop(self, x: u32, y: u32, width: u32, height: u32) -> (r: Self)
        ensures
            r.ops@ == self.ops@.push(ImageOp::Crop(CropConfig { x, y, width, height })),
    {
        let op = ImageOp::crop(x, y, width, height);
        self.with_op(op)
    }

    pub fn center_crop(self, width: u32, height: u32) -> (r: Self)
        ensures
            r.ops@ == self.ops@.push(ImageOp::CenterCrop(CenterCropConfig { width, height })),
    {
        let op = ImageOp::center_crop(width, height);
        self.with_op(op)
    }

    pub fn pad(self, padding: u32) -> (r: Self)
        ensures
            r.ops@ == self.ops@.push(ImageOp::Pad(PadConfig { left: padding, top: padding, right: padding, bottom: padding, fill_bits: 0 })),
    {
        let op = ImageOp::pad(padding);
        self.with_op(op)
    }

    pub fn horizontal_flip(self) -> (r: Self)
        ensures
            r.ops@ == self.ops@.push(ImageOp::Flip(FlipAxis::Horizontal)),
    {
        let op = ImageOp::horizontal_flip();
        self.with_op(op)
    }

    pub fn vertical_flip(self) -> (r: Self)
        ensures
            r.ops@ == self.ops@.push(ImageOp::Flip(FlipAxis::Vertical)),
    {
        let op = ImageOp::vertical_flip();
        self.with_op(op)
    }

    pub fn random_crop(self, width: u32, height: u32, padding: u32) -> (r: Self)
        ensures
            r.ops@ == self.ops@.push(ImageOp::RandomCrop(RandomCropConfig { width, height, padding })),
    {
        let op = ImageOp::random_crop(width, height, padding);
        self.with_op(op)
    }

    pub fn random_resized_crop(self, width: u32, height: u32) -> (r: Self)
        ensures
            r.ops@ == self.ops@.push(ImageOp::RandomResizedCrop(default_resized_crop(width, height))),
    {
        let op = ImageOp::random_resized_crop_with_config(RandomResizedCropConfig::new(width, height));
        self.with_op(op)
    }

    pub fn random_resized_crop_with_config(self, config: RandomResizedCropConfig) -> (r: Self)
        ensures
            r.ops@ == self.ops@.push(ImageOp::RandomResizedCrop(config)),
    {
        let op = ImageOp::random_resized_crop_with_config(config);
        self.with_op(op)
    }

    pub fn brightness(self, value: i32) -> (r: Self)
        ensures
            r.ops@ == self.ops@.push(ImageOp::Brightness { value }),
    {
        let op = ImageOp::brightness(value);
        self.with_op(op)
    }

    pub fn hue(self, degrees: i32) -> (r: Self)
        ensures
            r.ops@ == self.ops@.push(ImageOp::Hue { degrees }),
    {
        let op = ImageOp::hue(degrees);
        self.with_op(op)
    }

    pub fn invert(self) -> (r: Self)
        ensures
            r.ops@ == self.ops@.push(ImageOp::Invert),
    {
        let op = ImageOp::invert();
        self.with_op(op)
    }

    pub fn posterize(self, bits: u8) -> (r: Self)
        ensures
            r.ops@ == self.ops@.push(ImageOp::Posterize { bits }),
    {
        let op = ImageOp::posterize(bits);
        self.with_op(op)
    }

    pub fn solarize(self, threshold: u8) -> (r: Self)
        ensures
            r.ops@ == self.ops@.push(ImageOp::Solarize { threshold }),
    {
        let op = ImageOp::solarize(threshold);
        self.with_op(op)
    }

    pub fn autocontrast(self) -> (r: Self)
        ensures
            r.ops@ == self.ops@.push(ImageOp::Autocontrast),
    {
        let op = ImageOp::autocontrast();
        self.with_op(op)
    }

    pub fn equalize(self) -> (r: Self)
        ensures
            r.ops@ == self.ops@.push(ImageOp::Equalize),
    {
        let op = ImageOp::equalize();
        self.with_op(op)
    }

    pub fn random_affine_with_config(self, config: RandomAffineConfig) -> (r: Self)
        ensures
            r.ops@ == self.ops@.push(ImageOp::RandomAffine(config)),
    {
        let op = ImageOp::random_affine_with_config(config);
        self.with_op(op)
    }

    pub fn perspective(self, start_points: [Point2; 4], end_points: [Point2; 4]) -> (r: Self)
        ensures
            r.ops@ == self.ops@.push(ImageOp::Perspective(PerspectiveConfig { start_points, end_points, interpolation: InterpolationMode::Bilinear, fill: 0 })),
    {
        let op = ImageOp::perspective_with_config(PerspectiveConfig { start_points, end_points, interpolation: InterpolationMode::Bilinear, fill: 0 });
        self.with_op(op)
    }

    pub fn perspective_with_config(self, config: PerspectiveConfig) -> (r: Self)
        ensures
            r.ops@ == self.ops@.push(ImageOp::Perspective(config)),
    {
        let op = ImageOp::perspective_with_config(config);
        self.with_op(op)
    }

    pub fn random_perspective_with_config(self, config: RandomPerspectiveConfig) -> (r: Self)
        ensures
            r.ops@ == self.ops@.push(ImageOp::RandomPerspective(config)),
    {
        let op = ImageOp::random_perspective_with_config(config);
        self.with_op(op)
    }

    pub fn elastic_transform_with_config(self, config: ElasticTransformConfig) -> (r: Self)
        ensures
            r.ops@ == self.ops@.push(ImageOp::ElasticTransform(config)),
    {
        let op = ImageOp::elastic_transform_with_config(config);
        self.with_op(op)
    }

    pub fn grayscale(self, num_output_channels: u8) -> (r: Self)
        ensures
            r.ops@ == self.ops@.push(ImageOp::Grayscale { num_output_channels }),
    {
        let op = ImageOp::grayscale(num_output_channels);
        self.with_op(op)
    }

    pub fn random_erasing_with_config(self, config: RandomErasingConfig) -> (r: Self)
        ensures
            r.ops@ == self.ops@.push(ImageOp::RandomErasing(config)),
    {
        let op = ImageOp::random_erasing_with_config(config);
        self.with_op(op)
    }

    pub fn convert_image_dtype(self, dtype: DType) -> (r: Self)
        ensures
            r.ops@ == self.ops@.push(ImageOp::ConvertImageDtype { dtype }),
    {
        let op = ImageOp::convert_image_dtype(dtype);
        self.with_op(op)
    }

    pub fn rotate(self, angle: RotationAngle) -> (r: Self)
        ensures
            r.ops@ == self.ops@.push(ImageOp::Rotate { angle }),
    {
        let op = ImageOp::rotate(angle);
        self.with_op(op)
    }

    pub fn hwc_to_chw(self) -> (r: Self)
        ensures
            r.ops@ == self.ops@.push(ImageOp::Layout { axis_order: ImageAxisOrder::Chw }),
    {
        let op = ImageOp::hwc_to_chw();
        self.with_op(op)
    }

    pub fn chw_to_hwc(self) -> (r: Self)
        ensures
            r.ops@ == self.ops@.push(ImageOp::Layout { axis_order: ImageAxisOrder::Hwc }),
    {
        let op = ImageOp::chw_to_hwc();
        self.with_op(op)
    }

    /// Apply `nested` with the probability whose `f64` bits are given.
    pub fn random_apply_with_bits(self, probability_bits: u64, nested: Self) -> (r: Self)
        ensures
            r.ops@ == self.ops@.push(ImageOp::RandomApply { probability_bits, ops: nested.ops }),
    {
        let op = ImageOp::RandomApply { probability_bits, ops: nested.ops };
        self.with_op(op)
    }

    /// One of `choices`, chosen per sample.
    pub fn random_choice(self, choices: Vec<TransformSequence>) -> (r: Self)
        ensures
            r.ops@.len() == self.ops@.len() + 1,
            r.ops@.drop_last() == self.ops@,
            r.ops@.last() matches ImageOp::RandomChoice { choices: c } && c@.len() == choices@.len()
                && forall|i: int| 0 <= i < c@.len() ==> (#[trigger] c@[i])@ == choices@[i].ops@,
    {
        let mut all: Vec<Vec<ImageOp>> = Vec::new();
        let mut rest = choices;
        let ghost given = rest@;
        let mut taken: usize = 0;
        let n = rest.len();
        while rest.len() > 0
            invariant
                n == given.len(),
                taken + rest@.len() == given.len(),
                rest@ == given.subrange(taken as int, given.len() as int),
                all@.len() == taken,
                forall|i: int| 0 <= i < taken ==> (#[trigger] all@[i])@ == given[i].ops@,
            decreases rest@.len(),
        {
            let first = rest.remove(0);
            all.push(first.into_ops());
            taken += 1;
        }
        let op = ImageOp::random_choice(all);
        self.with_op(op)
    }

    /// `nested`, applied in a random order per sample.
    pub fn random_order(self, nested: Self) -> (r: Self)
        ensures
            r.ops@ == self.ops@.push(ImageOp::RandomOrder { ops: nested.ops }),
    {
        let op = ImageOp::RandomOrder { ops: nested.ops };
        self.with_op(op)
    }
}

} // verus!
