use lib::vision::compile::{compile_sample_op, RandomOccurrences, SampleKernel};
use lib::vision::errors::VisionError;
use lib::vision::image_op::{ImageOp, PipelineImageState};
use lib::vision::stages::{compile_image_ops, cuda_augmentation_prefix, CompiledImageOps};
use lib::vision::transforms::{
    ArbitraryRotateConfig, ColorJitterConfig, DType, ElasticTransformConfig, ImageAxisOrder, InterpolationMode,
    RandomAffineConfig, RandomPerspectiveConfig,
};

fn encoded() -> PipelineImageState {
    PipelineImageState::Encoded
}

fn u8_hwc() -> PipelineImageState {
    PipelineImageState::Decoded { dtype: DType::U8, axis_order: ImageAxisOrder::Hwc }
}

fn normalize(mean: &[f32], std: &[f32]) -> ImageOp {
    ImageOp::Normalize {
        mean_bits: mean.iter().map(|v| v.to_bits()).collect(),
        std_bits: std.iter().map(|v| v.to_bits()).collect(),
    }
}

fn flip_probability(p: f64) -> ImageOp {
    ImageOp::RandomHorizontalFlip { probability_bits: p.to_bits() }
}

fn text(error: VisionError) -> String {
    error.to_text()
}

fn compile(ops: Vec<ImageOp>, state: PipelineImageState, workers: usize) -> Result<CompiledImageOps, VisionError> {
    compile_image_ops(ops, state, workers, false)
}

fn compile_err(ops: Vec<ImageOp>) -> String {
    match compile(ops, encoded(), 0) {
        Err(e) => text(e),
        Ok(_) => panic!("expected a compile error"),
    }
}

fn sample_names(c: &CompiledImageOps) -> Vec<&'static str> {
    c.sample_ops.iter().map(|op| op.name()).collect()
}

fn batch_names(c: &CompiledImageOps) -> Vec<&'static str> {
    c.batch_ops.iter().map(|op| op.name()).collect()
}

#[test]
fn resize_before_decode_rejected_at_compile() {
    let err = compile_err(vec![ImageOp::resize(8, 8)]);
    assert!(err.contains("Resize requires a decoded image"), "got: {err}");
}

#[test]
fn normalize_before_decode_rejected_at_compile() {
    let err = compile_err(vec![normalize(&[0.5; 3], &[0.5; 3])]);
    assert!(err.contains("Normalize requires a decoded image"), "got: {err}");
}

#[test]
fn double_decode_rejected_at_compile() {
    let err = compile_err(vec![ImageOp::decode(), ImageOp::decode()]);
    assert!(err.contains("Decode requires an encoded image"), "got: {err}");
}

#[test]
fn batching_while_encoded_rejected_at_compile() {
    let err = compile_err(vec![]);
    assert!(err.contains("must decode images before batching"), "got: {err}");
}

#[test]
fn decoded_source_compiles_without_decode_op() {
    let compiled = compile(vec![], u8_hwc(), 0).unwrap();
    assert_eq!(compiled.output_state, u8_hwc());
    assert_eq!(compiled.pre_batch_state, u8_hwc());
    assert!(compiled.sample_ops.is_empty());
    assert!(compiled.batch_ops.is_empty());
}

#[test]
fn decoded_source_rejects_decode_op() {
    let err = match compile(vec![ImageOp::decode()], u8_hwc(), 0) {
        Err(e) => text(e),
        Ok(_) => panic!("expected a compile error"),
    };
    assert!(err.contains("Decode requires an encoded image"), "got: {err}");
}

#[test]
fn invalid_resize_rejected_at_compile() {
    let err = compile_err(vec![ImageOp::decode(), ImageOp::resize(0, 8)]);
    assert!(err.contains("resize width and height must be greater than 0"), "got: {err}");
}

#[test]
fn random_crop_before_decode_rejected_at_compile() {
    let err = compile_err(vec![ImageOp::random_crop(8, 8, 4)]);
    assert!(err.contains("RandomCrop requires a decoded image"), "got: {err}");
}

#[test]
fn invalid_random_flip_probability_rejected_at_compile() {
    let err = compile_err(vec![ImageOp::decode(), flip_probability(1.5)]);
    assert!(err.contains("probability must be in [0.0, 1.0]"), "got: {err}");
}

#[test]
fn invalid_random_crop_size_rejected_at_compile() {
    let err = compile_err(vec![ImageOp::decode(), ImageOp::random_crop(0, 8, 4)]);
    assert!(err.contains("width and height must be greater than 0"), "got: {err}");
}

#[test]
fn invalid_normalize_rejected_at_compile() {
    let err = compile_err(vec![ImageOp::decode(), normalize(&[0.5; 3], &[0.5; 2])]);
    assert!(err.contains("same length"), "got: {err}");
}

#[test]
fn compile_reports_output_state() {
    let compiled = compile(
        vec![ImageOp::decode(), ImageOp::convert_image_dtype(DType::F32), ImageOp::hwc_to_chw()],
        encoded(),
        0,
    )
    .unwrap();
    assert_eq!(
        compiled.output_state,
        PipelineImageState::Decoded { dtype: DType::F32, axis_order: ImageAxisOrder::Chw }
    );
    assert_eq!(compiled.pre_batch_state, u8_hwc());
}

#[test]
fn compile_splits_sample_and_batch_stages() {
    let compiled = compile(
        vec![
            ImageOp::decode(),
            ImageOp::resize(4, 4),
            normalize(&[0.5; 3], &[0.5; 3]),
            ImageOp::hwc_to_chw(),
        ],
        encoded(),
        0,
    )
    .unwrap();
    assert_eq!(sample_names(&compiled), ["Decode", "Resize"]);
    assert_eq!(batch_names(&compiled), ["NormalizeToChw"]);
    assert_eq!(compiled.pre_batch_state, u8_hwc());
    assert_eq!(
        compiled.output_state,
        PipelineImageState::Decoded { dtype: DType::F32, axis_order: ImageAxisOrder::Chw }
    );
}

#[test]
fn workers_keep_normalization_on_sample_stage() {
    let compiled = compile(
        vec![ImageOp::decode(), normalize(&[0.5; 3], &[0.5; 3]), ImageOp::hwc_to_chw()],
        encoded(),
        2,
    )
    .unwrap();
    assert_eq!(sample_names(&compiled), ["Decode", "NormalizeSample"]);
    assert_eq!(batch_names(&compiled), ["Layout"]);
    assert_eq!(
        compiled.pre_batch_state,
        PipelineImageState::Decoded { dtype: DType::F32, axis_order: ImageAxisOrder::Hwc }
    );
}

#[test]
fn dtype_conversion_runs_after_sample_stack() {
    let compiled = compile(
        vec![ImageOp::decode(), ImageOp::convert_image_dtype(DType::F32)],
        encoded(),
        0,
    )
    .unwrap();
    assert_eq!(sample_names(&compiled), ["Decode"]);
    assert_eq!(batch_names(&compiled), ["ConvertImageDtype"]);
    assert_eq!(compiled.pre_batch_state, u8_hwc());
}

#[test]
fn compiler_removes_noop_layout_transition() {
    let compiled = compile(vec![ImageOp::decode(), ImageOp::chw_to_hwc()], encoded(), 0).unwrap();
    assert_eq!(sample_names(&compiled), ["Decode"]);
    assert!(compiled.batch_ops.is_empty());
}

#[test]
fn sample_ops_cannot_follow_batch_stage() {
    let err = compile_err(vec![
        ImageOp::decode(),
        ImageOp::convert_image_dtype(DType::F32),
        ImageOp::resize(4, 4),
    ]);
    assert!(err.contains("Resize cannot follow the batch stage"), "got: {err}");
}

#[test]
fn batch_stage_runs_after_sample_stack() {
    let compiled = compile(
        vec![
            ImageOp::decode(),
            ImageOp::horizontal_flip(),
            normalize(&[0.5; 3], &[0.5; 3]),
        ],
        encoded(),
        0,
    )
    .unwrap();
    assert_eq!(sample_names(&compiled), ["Decode", "Flip"]);
    assert_eq!(batch_names(&compiled), ["Normalize"]);
}

#[test]
fn duplicate_random_transforms_get_distinct_namespaces() {
    let mut occurrences = RandomOccurrences::new();
    let (first, _) =
        compile_sample_op(flip_probability(0.5), u8_hwc(), None, &mut occurrences).unwrap();
    let (second, _) =
        compile_sample_op(flip_probability(0.5), u8_hwc(), None, &mut occurrences).unwrap();
    let a = first.random_key.unwrap();
    let b = second.random_key.unwrap();
    assert_eq!(a.parts.len(), 1);
    assert_eq!(a.parts[0].kind, "RandomHorizontalFlip");
    assert_eq!(a.parts[0].index, 0);
    assert_eq!(b.parts[0].kind, "RandomHorizontalFlip");
    assert_eq!(b.parts[0].index, 1);
}

#[test]
fn deterministic_ops_do_not_perturb_random_op_keys() {
    let ops_with = vec![
        ImageOp::decode(),
        flip_probability(0.5),
        ImageOp::invert(),
        ImageOp::random_crop(2, 2, 0),
    ];
    let ops_without = vec![ImageOp::decode(), flip_probability(0.5), ImageOp::random_crop(2, 2, 0)];
    let a = compile(ops_with, encoded(), 0).unwrap();
    let b = compile(ops_without, encoded(), 0).unwrap();
    let keys = |c: &CompiledImageOps| {
        c.sample_ops
            .iter()
            .filter_map(|op| op.random_key.as_ref())
            .map(|k| (k.parts[0].kind, k.parts[0].index))
            .collect::<Vec<_>>()
    };
    assert_eq!(keys(&a), keys(&b));
    assert_eq!(keys(&a), [("RandomHorizontalFlip", 0), ("RandomCrop", 0)]);
}

#[test]
fn nested_control_ops_key_their_children_under_their_own_key() {
    let nested = ImageOp::RandomOrder { ops: vec![flip_probability(0.5), flip_probability(0.5)] };
    let mut occurrences = RandomOccurrences::new();
    let (compiled, out) = compile_sample_op(nested, u8_hwc(), None, &mut occurrences).unwrap();
    assert_eq!(out, u8_hwc());
    assert!(compiled.random_key.is_none());
    match compiled.kernel {
        SampleKernel::RandomOrder { key, ops } => {
            assert_eq!(key.parts.len(), 1);
            assert_eq!(key.parts[0].kind, "RandomOrder");
            let child = ops[1].random_key.as_ref().unwrap();
            assert_eq!(child.parts.len(), 2);
            assert_eq!(child.parts[1].kind, "RandomHorizontalFlip");
            assert_eq!(child.parts[1].index, 1);
        }
        _ => panic!("expected a random order kernel"),
    }
}

#[test]
fn random_apply_must_preserve_state() {
    let op = ImageOp::RandomApply {
        probability_bits: 0.5f64.to_bits(),
        ops: vec![ImageOp::grayscale(1), ImageOp::convert_image_dtype(DType::F32)],
    };
    let mut occurrences = RandomOccurrences::new();
    let err = compile_sample_op(op, u8_hwc(), None, &mut occurrences).unwrap_err();
    assert!(matches!(err, VisionError::InvalidArgument(_) | VisionError::InvalidPipeline(_)));
}

#[test]
fn random_choice_branches_must_agree() {
    let op = ImageOp::random_choice(vec![vec![ImageOp::invert()], vec![ImageOp::resize(2, 2)]]);
    let mut occurrences = RandomOccurrences::new();
    let (compiled, out) = compile_sample_op(op, u8_hwc(), None, &mut occurrences).unwrap();
    assert_eq!(out, u8_hwc());
    assert_eq!(compiled.name(), "RandomChoice");
}

#[test]
fn batch_op_is_not_a_sample_op() {
    let mut occurrences = RandomOccurrences::new();
    let err = compile_sample_op(ImageOp::hwc_to_chw(), u8_hwc(), None, &mut occurrences).unwrap_err();
    assert_eq!(text(err), "invalid pipeline: Layout cannot be compiled as a sample-stage operation");
}

#[test]
fn cuda_prefix_covers_trailing_augmentations() {
    let ops = vec![
        ImageOp::decode(),
        ImageOp::horizontal_flip(),
        ImageOp::random_resized_crop(4, 4),
        normalize(&[0.5; 3], &[0.5; 3]),
        ImageOp::hwc_to_chw(),
    ];
    assert_eq!(cuda_augmentation_prefix(&ops), Some(1..3));
    let two_crops = vec![
        ImageOp::decode(),
        ImageOp::random_resized_crop(4, 4),
        ImageOp::random_resized_crop(4, 4),
        normalize(&[0.5; 3], &[0.5; 3]),
        ImageOp::hwc_to_chw(),
    ];
    assert_eq!(cuda_augmentation_prefix(&two_crops), None);
    let no_augmentation = vec![ImageOp::decode(), normalize(&[0.5; 3], &[0.5; 3]), ImageOp::hwc_to_chw()];
    assert_eq!(cuda_augmentation_prefix(&no_augmentation), None);
}

#[test]
fn deferred_augmentations_fuse_into_the_batch_kernel() {
    let ops = vec![
        ImageOp::decode(),
        ImageOp::horizontal_flip(),
        normalize(&[0.5; 3], &[0.5; 3]),
        ImageOp::hwc_to_chw(),
    ];
    let compiled = compile_image_ops(ops, encoded(), 0, true).unwrap();
    assert_eq!(sample_names(&compiled), ["Decode"]);
    assert_eq!(batch_names(&compiled), ["VisionAugmentNormalizeToChw"]);
}

#[test]
fn phase1_invalid_configs_are_rejected_at_compile() {
    let err = compile_err(vec![ImageOp::decode(), ImageOp::grayscale(2)]);
    assert!(err.contains("must be 1 or 3"), "got: {err}");

    let err = compile_err(vec![ImageOp::decode(), ImageOp::Contrast { value_bits: f32::NAN.to_bits() }]);
    assert!(err.contains("must be finite"), "got: {err}");
}

#[test]
fn phase2_invalid_configs_are_rejected_at_compile() {
    let err = compile_err(vec![ImageOp::decode(), ImageOp::random_resized_crop(0, 8)]);
    assert!(err.contains("width and height must be greater than 0"), "got: {err}");

    let err = compile_err(vec![ImageOp::decode(), ImageOp::GaussianBlur { sigma_bits: (-1.0f32).to_bits() }]);
    assert!(err.contains("finite and non-negative"), "got: {err}");

    let jitter = ColorJitterConfig { brightness: -1, contrast_bits: 0.0f32.to_bits(), hue: 0 };
    let err = compile_err(vec![ImageOp::decode(), ImageOp::ColorJitter(jitter)]);
    assert!(err.contains("brightness/hue must be non-negative"), "got: {err}");
}

#[test]
fn phase3_invalid_configs_are_rejected_at_compile() {
    let err = compile_err(vec![ImageOp::decode(), ImageOp::posterize(0)]);
    assert!(err.contains("posterize bits must be in [1, 8]"), "got: {err}");

    let err = compile_err(vec![ImageOp::decode(), ImageOp::Sharpness { amount_bits: (-1.0f32).to_bits() }]);
    assert!(err.contains("sharpness amount must be finite and non-negative"), "got: {err}");
}

#[test]
fn phase3_nested_controls_lower_to_compiled_programs() {
    let order = ImageOp::random_order(vec![ImageOp::invert(), ImageOp::Contrast { value_bits: 1.0f32.to_bits() }]);
    let choice = ImageOp::random_choice(vec![vec![ImageOp::brightness(2)], vec![order]]);
    let apply = ImageOp::RandomApply { probability_bits: 0.5f64.to_bits(), ops: vec![choice] };
    let compiled = compile(vec![ImageOp::decode(), apply], encoded(), 0).unwrap();

    let SampleKernel::RandomApply { body, .. } = &compiled.sample_ops[1].kernel else {
        panic!("expected RandomApply compiled kernel");
    };
    let SampleKernel::RandomChoice { branches, .. } = &body.ops[0].kernel else {
        panic!("expected RandomChoice compiled kernel");
    };
    assert!(matches!(&branches[0].ops[0].kernel, SampleKernel::Semantic(_)));

    let SampleKernel::RandomOrder { ops, .. } = &branches[1].ops[0].kernel else {
        panic!("expected RandomOrder compiled kernel");
    };
    assert_eq!(ops.len(), 2);
    assert!(ops.iter().all(|op| matches!(&op.kernel, SampleKernel::Semantic(_))));
}

#[test]
fn random_apply_body_must_preserve_the_state() {
    let op = ImageOp::RandomApply { probability_bits: 0.5f64.to_bits(), ops: vec![ImageOp::decode()] };
    let mut occurrences = RandomOccurrences::new();
    match compile_sample_op(op, encoded(), None, &mut occurrences) {
        Err(e) => assert_eq!(text(e), "invalid pipeline: RandomApply nested transforms must preserve image state"),
        Ok(_) => panic!("expected a compile error"),
    }
}

#[test]
fn random_order_children_must_preserve_the_state() {
    let op = ImageOp::RandomOrder { ops: vec![ImageOp::decode()] };
    let mut occurrences = RandomOccurrences::new();
    match compile_sample_op(op, encoded(), None, &mut occurrences) {
        Err(e) => assert_eq!(text(e), "invalid pipeline: RandomOrder nested transforms must preserve image state"),
        Ok(_) => panic!("expected a compile error"),
    }
}

#[test]
fn random_choice_branches_must_agree_on_the_state() {
    let op = ImageOp::RandomChoice { choices: vec![vec![ImageOp::decode()], vec![]] };
    let mut occurrences = RandomOccurrences::new();
    match compile_sample_op(op, encoded(), None, &mut occurrences) {
        Err(e) => assert_eq!(text(e), "invalid pipeline: random_choice choices must produce the same image state"),
        Ok(_) => panic!("expected a compile error"),
    }
}

#[test]
fn phase5_advanced_geometry_rejects_invalid_configs() {
    let err = compile_err(vec![
        ImageOp::decode(),
        ImageOp::ArbitraryRotate(ArbitraryRotateConfig {
            angle_bits: f32::NAN.to_bits(),
            expand: false,
            interpolation: InterpolationMode::Bilinear,
            fill: 0,
        }),
    ]);
    assert!(err.contains("angle must be finite"), "got: {err}");

    let err = compile_err(vec![
        ImageOp::decode(),
        ImageOp::random_affine_with_config(RandomAffineConfig {
            degrees_bits: (-1.0f32).to_bits(),
            translate_bits: 0.0f32.to_bits(),
            scale_min_bits: 1.0f32.to_bits(),
            scale_max_bits: 1.0f32.to_bits(),
            shear_bits: 0.0f32.to_bits(),
            interpolation: InterpolationMode::Bilinear,
            fill: 0,
        }),
    ]);
    assert!(err.contains("degrees must be finite"), "got: {err}");

    let err = compile_err(vec![
        ImageOp::decode(),
        ImageOp::random_perspective_with_config(RandomPerspectiveConfig {
            distortion_scale_bits: 1.1f32.to_bits(),
            probability_bits: 0.5f64.to_bits(),
            interpolation: InterpolationMode::Bilinear,
            fill: 0,
        }),
    ]);
    assert!(err.contains("distortion_scale"), "got: {err}");

    let err = compile_err(vec![
        ImageOp::decode(),
        ImageOp::elastic_transform_with_config(ElasticTransformConfig {
            alpha_bits: 1.0f32.to_bits(),
            sigma_bits: (-1.0f32).to_bits(),
            interpolation: InterpolationMode::Bilinear,
            fill: 0,
        }),
    ]);
    assert!(err.contains("sigma must be finite"), "got: {err}");
}
