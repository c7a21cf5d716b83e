use lib::properties::{
    AxisOrder, Contiguity, DataType, DeviceClass, Mutability, Residency, ShapeDim, ValueGranularity,
    ValueProperties, ValueShape,
};
use lib::vision::image_op::{ImageOp, PipelineImageState};
use lib::vision::inference::{image_properties, infer_image_op};
use lib::vision::logical::SourceOp;
use lib::vision::pipeline::ImagePipeline;
use lib::vision::transforms::{
    ArbitraryRotateConfig, ColorJitterConfig, DType, ElasticTransformConfig, ImageAxisOrder, InterpolationMode,
    Point2, RandomAffineConfig, RandomErasingConfig, RandomPerspectiveConfig, RotationAngle,
};

fn decoded_properties(dtype: DataType) -> ValueProperties {
    image_properties(
        dtype,
        ImageAxisOrder::Hwc,
        ValueShape(vec![ShapeDim::Known(6), ShapeDim::Known(8), ShapeDim::Known(3)]),
        Contiguity::Contiguous,
    )
}

#[test]
fn inference_rejects_dtype_residency_and_granularity_conflicts() {
    let float = decoded_properties(DataType::F32);
    let error = infer_image_op(&ImageOp::resize(4, 4), &float).unwrap_err().to_text();
    assert!(error.contains("Resize requires uint8 HWC input"), "got: {error}");

    let mut device = decoded_properties(DataType::U8);
    device.residency = Some(Residency::Device(DeviceClass::Cuda));
    let error = infer_image_op(&ImageOp::resize(4, 4), &device).unwrap_err().to_text();
    assert!(error.contains("host-resident input"), "got: {error}");

    let mut batch = decoded_properties(DataType::U8);
    batch.granularity = Some(ValueGranularity::Batch);
    let error = infer_image_op(&ImageOp::horizontal_flip(), &batch).unwrap_err().to_text();
    assert!(error.contains("sample granularity"), "got: {error}");
}

#[test]
fn layout_axis_order_and_contiguity_are_independent_properties() {
    let input = decoded_properties(DataType::U8);
    let output = infer_image_op(&ImageOp::hwc_to_chw(), &input).unwrap();
    assert_eq!(output.axis_order, Some(AxisOrder::Chw));
    assert_eq!(output.contiguity, Some(Contiguity::Strided));
    assert_eq!(output.mutability, Some(Mutability::Immutable));
    assert_eq!(
        output.shape.as_ref().unwrap().0,
        [ShapeDim::Known(3), ShapeDim::Known(6), ShapeDim::Known(8)]
    );
}

#[test]
fn property_inference_rejects_known_crop_bounds_before_execution() {
    let pipeline = ImagePipeline::from_source(SourceOp::new(PipelineImageState::Encoded, 1, false))
        .decode_image()
        .resize(10, 8)
        .crop(9, 0, 2, 2)
        .batch(1, false);
    let error = pipeline.infer_properties().unwrap_err().to_text();
    assert!(error.contains("property inference failed at node %3"), "got: {error}");
    assert!(error.contains("crop rectangle (9, 0, 2, 2) exceeds image shape 10x8"), "got: {error}");
}

#[test]
fn property_inference_covers_every_image_op_variant() {
    let p = |x: f32, y: f32| Point2 { x_bits: x.to_bits(), y_bits: y.to_bits() };
    let points = [p(0.0, 0.0), p(1.0, 0.0), p(1.0, 1.0), p(0.0, 1.0)];
    let operations = vec![
        ImageOp::resize(4, 4),
        ImageOp::crop(0, 0, 1, 1),
        ImageOp::center_crop(1, 1),
        ImageOp::pad(1),
        ImageOp::horizontal_flip(),
        ImageOp::vertical_flip(),
        ImageOp::random_crop(1, 1, 0),
        ImageOp::random_resized_crop(1, 1),
        ImageOp::RandomHorizontalFlip { probability_bits: 0.5f64.to_bits() },
        ImageOp::brightness(1),
        ImageOp::Contrast { value_bits: 1.0f32.to_bits() },
        ImageOp::hue(1),
        ImageOp::ColorJitter(ColorJitterConfig { brightness: 1, contrast_bits: 1.0f32.to_bits(), hue: 1 }),
        ImageOp::invert(),
        ImageOp::posterize(4),
        ImageOp::solarize(128),
        ImageOp::autocontrast(),
        ImageOp::equalize(),
        ImageOp::Sharpness { amount_bits: 1.0f32.to_bits() },
        ImageOp::ArbitraryRotate(ArbitraryRotateConfig {
            angle_bits: 0.0f32.to_bits(),
            expand: false,
            interpolation: InterpolationMode::Bilinear,
            fill: 0,
        }),
        ImageOp::random_affine_with_config(RandomAffineConfig {
            degrees_bits: 0.0f32.to_bits(),
            translate_bits: 0.0f32.to_bits(),
            scale_min_bits: 1.0f32.to_bits(),
            scale_max_bits: 1.0f32.to_bits(),
            shear_bits: 0.0f32.to_bits(),
            interpolation: InterpolationMode::Bilinear,
            fill: 0,
        }),
        ImageOp::perspective(points, points),
        ImageOp::random_perspective_with_config(RandomPerspectiveConfig {
            distortion_scale_bits: 0.1f32.to_bits(),
            probability_bits: 0.5f64.to_bits(),
            interpolation: InterpolationMode::Bilinear,
            fill: 0,
        }),
        ImageOp::elastic_transform_with_config(ElasticTransformConfig {
            alpha_bits: 1.0f32.to_bits(),
            sigma_bits: 1.0f32.to_bits(),
            interpolation: InterpolationMode::Bilinear,
            fill: 0,
        }),
        ImageOp::RandomApply { probability_bits: 0.5f64.to_bits(), ops: vec![ImageOp::invert()] },
        ImageOp::random_choice(vec![vec![ImageOp::invert()], vec![ImageOp::solarize(128)]]),
        ImageOp::random_order(vec![ImageOp::invert(), ImageOp::solarize(128)]),
        ImageOp::GaussianBlur { sigma_bits: 1.0f32.to_bits() },
        ImageOp::grayscale(3),
        ImageOp::RandomGrayscale { probability_bits: 0.5f64.to_bits(), num_output_channels: 3 },
        ImageOp::random_erasing_with_config(RandomErasingConfig {
            probability_bits: 0.0f64.to_bits(),
            scale_min_bits: 0.02f32.to_bits(),
            scale_max_bits: 0.33f32.to_bits(),
            ratio_min_bits: 0.3f32.to_bits(),
            ratio_max_bits: 3.3f32.to_bits(),
            value: 0,
        }),
        ImageOp::convert_image_dtype(DType::F32),
        ImageOp::rotate(RotationAngle::Deg90),
        ImageOp::Normalize { mean_bits: vec![0.5f32.to_bits(); 3], std_bits: vec![0.5f32.to_bits(); 3] },
        ImageOp::hwc_to_chw(),
    ];
    for op in operations {
        let name = op.name();
        let pipeline = ImagePipeline::from_source(SourceOp::new(
            PipelineImageState::Decoded { dtype: DType::U8, axis_order: ImageAxisOrder::Hwc },
            1,
            false,
        ))
        .with_op(op)
        .batch(1, false);
        if let Err(error) = pipeline.infer_properties() {
            panic!("{} inference failed: {}", name, error.to_text());
        }
    }
    let encoded = ImagePipeline::from_source(SourceOp::new(PipelineImageState::Encoded, 1, false))
        .decode_image()
        .batch(1, false);
    assert!(encoded.infer_properties().is_ok());
}
