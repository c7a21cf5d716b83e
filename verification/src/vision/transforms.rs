//! Configuration values of image operations.
//!
//! Floating-point parameters are held as their IEEE-754 bit patterns
//! (`f32` as `u32`, `f64` as `u64`); planning only checks their class
//! (finite, sign, unit interval), which the bit patterns determine exactly.

use vstd::prelude::*;

verus! {

#[derive(Clone, Copy, Debug, PartialEq, Eq, Structural, Hash)]
pub enum InterpolationMode {
    Nearest,
    Bilinear,
    Bicubic,
    Lanczos3,
}

#[derive(Clone, Copy, Debug, PartialEq, Eq, Structural, Hash)]
pub enum RotationAngle {
    Deg90,
    Deg180,
    Deg270,
}

#[derive(Clone, Copy, Debug, PartialEq, Eq, Structural, Hash)]
pub enum ImageAxisOrder {
    Hwc,
    Chw,
}

pub open spec fn axis_text(a: ImageAxisOrder) -> Seq<char> {
    match a {
        ImageAxisOrder::Hwc => "HWC"@,
        ImageAxisOrder::Chw => "CHW"@,
    }
}

impl ImageAxisOrder {
    pub fn as_str(&self) -> (r: &'static str)
        ensures
            r@ == axis_text(*self),
    {
        proof {
            reveal_strlit("HWC");
            reveal_strlit("CHW");
        }
        match self {
            ImageAxisOrder::Hwc => "HWC",
            ImageAxisOrder::Chw => "CHW",
        }
    }
}

/// Element type of decoded image tensors.
#[derive(Clone, Copy, Debug, PartialEq, Eq, Structural, Hash)]
pub enum DType {
    U8,
    I16,
    U32,
    I32,
    I64,
    BF16,
    F16,
    F32,
    F64,
}

#[derive(Clone, Copy, Debug, PartialEq, Eq, Structural, Hash)]
pub enum FlipAxis {
    Horizontal,
    Vertical,
}

/// `f32` bits of a finite value.
pub open spec fn f32_finite(bits: u32) -> bool {
    bits & 0x7f80_0000u32 != 0x7f80_0000u32
}

/// `f32` bits of a finite value that is not below zero.
pub open spec fn f32_finite_nonneg(bits: u32) -> bool {
    f32_finite(bits) && (bits & 0x8000_0000u32 == 0 || bits == 0x8000_0000u32)
}

/// `f64` bits of a value in `[0.0, 1.0]`.
pub open spec fn f64_unit(bits: u64) -> bool {
    bits <= 0x3ff0_0000_0000_0000u64 || bits == 0x8000_0000_0000_0000u64
}

pub fn f32_is_finite(bits: u32) -> (r: bool)
    ensures
        r == f32_finite(bits),
{
    bits & 0x7f80_0000u32 != 0x7f80_0000u32
}

pub fn f32_is_finite_nonneg(bits: u32) -> (r: bool)
    ensures
        r == f32_finite_nonneg(bits),
{
    f32_is_finite(bits) && (bits & 0x8000_0000u32 == 0 || bits == 0x8000_0000u32)
}

pub fn f64_is_unit(bits: u64) -> (r: bool)
    ensures
        r == f64_unit(bits),
{
    bits <= 0x3ff0_0000_0000_0000u64 || bits == 0x8000_0000_0000_0000u64
}

/// Bit pattern of `1.0f64`, the default probability.
pub const ONE_F64_BITS: u64 = 0x3ff0_0000_0000_0000u64;

/// Bit pattern of `0.5f64`.
pub const HALF_F64_BITS: u64 = 0x3fe0_0000_0000_0000u64;

#[derive(Clone, Copy, Debug, PartialEq, Eq, Structural)]
pub struct ResizeConfig {
    pub width: u32,
    pub height: u32,
    pub interpolation: InterpolationMode,
}

#[derive(Clone, Copy, Debug, PartialEq, Eq, Structural)]
pub struct CropConfig {
    pub x: u32,
    pub y: u32,
    pub width: u32,
    pub height: u32,
}

#[derive(Clone, Copy, Debug, PartialEq, Eq, Structural)]
pub struct CenterCropConfig {
    pub width: u32,
    pub height: u32,
}

#[derive(Clone, Copy, Debug, PartialEq, Eq, Structural)]
pub struct PadConfig {
    pub left: u32,
    pub top: u32,
    pub right: u32,
    pub bottom: u32,
    /// Fill value, `f32` bits.
    pub fill_bits: u32,
}

#[derive(Clone, Copy, Debug, PartialEq, Eq, Structural)]
pub struct RandomCropConfig {
    pub width: u32,
    pub height: u32,
    pub padding: u32,
}

#[derive(Clone, Copy, Debug, PartialEq, Eq, Structural)]
pub struct RandomResizedCropConfig {
    pub width: u32,
    pub height: u32,
    /// Area-scale range, `f64` bits.
    pub scale_min_bits: u64,
    pub scale_max_bits: u64,
    /// Aspect-ratio range, `f64` bits.
    pub ratio_min_bits: u64,
    pub ratio_max_bits: u64,
    pub interpolation: InterpolationMode,
}

/// The default resized crop to `width`x`height`: area scale in
/// `[0.08, 1.0]`, aspect ratio in `[3/4, 4/3]`, bilinear interpolation.
pub open spec fn default_resized_crop(width: u32, height: u32) -> RandomResizedCropConfig {
    RandomResizedCropConfig {
        width,
        height,
        scale_min_bits: 0x3fb4_7ae1_47ae_147bu64,
        scale_max_bits: ONE_F64_BITS,
        ratio_min_bits: 0x3fe8_0000_0000_0000u64,
        ratio_max_bits: 0x3ff5_5555_5555_5555u64,
        interpolation: InterpolationMode::Bilinear,
    }
}

impl RandomResizedCropConfig {
    /// Output size with torchvision's default scale `[0.08, 1.0]`, ratio
    /// `[3/4, 4/3]` and bilinear interpolation.
    pub fn new(width: u32, height: u32) -> (r: Self)
        ensures
            r == default_resized_crop(width, height),
    {
        RandomResizedCropConfig {
            width,
            height,
            scale_min_bits: 0x3fb4_7ae1_47ae_147bu64,
            scale_max_bits: ONE_F64_BITS,
            ratio_min_bits: 0x3fe8_0000_0000_0000u64,
            ratio_max_bits: 0x3ff5_5555_5555_5555u64,
            interpolation: InterpolationMode::Bilinear,
        }
    }
}

/// Affine augmentation ranges, as `f32` bits.
#[derive(Clone, Copy, Debug, PartialEq, Eq, Structural)]
pub struct RandomAffineConfig {
    pub degrees_bits: u32,
    pub translate_bits: u32,
    pub scale_min_bits: u32,
    pub scale_max_bits: u32,
    pub shear_bits: u32,
    pub interpolation: InterpolationMode,
    pub fill: u8,
}

/// A point of a perspective quadrilateral, as `f32` bits.
#[derive(Clone, Copy, Debug, PartialEq, Eq, Structural)]
pub struct Point2 {
    pub x_bits: u32,
    pub y_bits: u32,
}

#[derive(Clone, Copy, Debug)]
pub struct PerspectiveConfig {
    pub start_points: [Point2; 4],
    pub end_points: [Point2; 4],
    pub interpolation: InterpolationMode,
    pub fill: u8,
}

#[derive(Clone, Copy, Debug, PartialEq, Eq, Structural)]
pub struct RandomPerspectiveConfig {
    pub distortion_scale_bits: u32,
    pub probability_bits: u64,
    pub interpolation: InterpolationMode,
    pub fill: u8,
}

#[derive(Clone, Copy, Debug, PartialEq, Eq, Structural)]
pub struct ElasticTransformConfig {
    pub alpha_bits: u32,
    pub sigma_bits: u32,
    pub interpolation: InterpolationMode,
    pub fill: u8,
}

#[derive(Clone, Copy, Debug, PartialEq, Eq, Structural)]
pub struct RandomErasingConfig {
    pub probability_bits: u64,
    pub scale_min_bits: u32,
    pub scale_max_bits: u32,
    pub ratio_min_bits: u32,
    pub ratio_max_bits: u32,
    pub value: u8,
}

#[derive(Clone, Copy, Debug, PartialEq, Eq, Structural)]
pub struct ArbitraryRotateConfig {
    pub angle_bits: u32,
    pub expand: bool,
    pub interpolation: InterpolationMode,
    pub fill: u8,
}

#[derive(Clone, Copy, Debug, PartialEq, Eq, Structural)]
pub struct ColorJitterConfig {
    pub brightness: i32,
    pub contrast_bits: u32,
    pub hue: i32,
}

} // verus!
