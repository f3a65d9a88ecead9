use surgeist_render::error::{Error, InvalidValue};
use surgeist_render::filter::color::{
    is_identity_op, is_zero_opacity, ColorFilterOp, ColorFilterPipeline,
    CompiledColorFilterPipeline, CompiledColorFilterStep, StraightColorTransform,
};
use surgeist_render::filter::execute::{
    apply_color_filter_pipeline_to_pixel, apply_compiled_color_filter_pipeline_to_pixel,
    plan_clipped_materialized_output_size, ImageResource, MaterializedImage, PlannedFilter, ResolvedMaterializedImageFilterExecution,
};
use surgeist_render::filter::materialized::{
    compile_materialized_image_filter_pipeline, FilterBlur, FilterColor, FilterDropShadow,
    FilterList, FilterOpKind, MaterializedImageFilterStep,
};
use surgeist_render::geometry::PhysicalSize;
use surgeist_render::image::ImageBuffer;
use surgeist_render::pass::model::ImageQuality;
use surgeist_render::reference::buffer::ReferencePremultipliedRgba8Buffer;
use surgeist_render::reference::index::Extend;
use surgeist_render::reference::pixel::PremultipliedRgba8;
use surgeist_render::scalar::Scalar;

fn scalar(value: f64) -> Scalar {
    Scalar::from_bits(value.to_bits())
}

fn blur(value: f64) -> FilterBlur {
    FilterBlur { standard_deviation: scalar(value) }
}

fn shadow() -> FilterDropShadow {
    FilterDropShadow {
        offset_x: scalar(1.0),
        offset_y: scalar(2.0),
        blur: blur(3.0),
        color: FilterColor {
            red: scalar(0.0),
            green: scalar(0.0),
            blue: scalar(0.0),
            alpha: scalar(1.0),
        },
    }
}

fn kinds(pipeline: &CompiledColorFilterPipeline) -> Vec<String> {
    pipeline
        .executable_steps()
        .iter()
        .map(|step| match step {
            CompiledColorFilterStep::Identity => "identity".to_string(),
            CompiledColorFilterStep::TransparentBlack => "clear".to_string(),
            CompiledColorFilterStep::StraightColorRun(run) => format!("run {}", run.len()),
            CompiledColorFilterStep::Opacity(_) => "opacity".to_string(),
        })
        .collect()
}

#[test]
fn empty_color_pipelines_are_refused() {
    assert_eq!(
        CompiledColorFilterPipeline::try_from_ops(Vec::new()).err(),
        Some(Error::Invalid(InvalidValue::EmptyColorFilterPipeline))
    );
    assert_eq!(
        InvalidValue::EmptyColorFilterPipeline.field(),
        "compiled color filter pipeline"
    );
}

#[test]
fn neighbouring_color_filters_share_a_run() {
    let ops = vec![
        ColorFilterOp::Brightness(scalar(0.5)),
        ColorFilterOp::Contrast(scalar(1.0)),
        ColorFilterOp::Sepia(scalar(0.5)),
        ColorFilterOp::Opacity(scalar(0.5)),
        ColorFilterOp::Opacity(scalar(1.0)),
        ColorFilterOp::Invert(scalar(1.0)),
    ];
    let pipeline = CompiledColorFilterPipeline::try_from_ops(ops.clone()).unwrap();
    assert_eq!(kinds(&pipeline), ["run 2", "opacity", "run 1"]);
    assert_eq!(pipeline.executable_step_count(), 3);
    assert_eq!(pipeline.source_ops(), ops.as_slice());
}

#[test]
fn identities_compile_to_one_identity() {
    let pipeline = CompiledColorFilterPipeline::try_from_pipeline(&ColorFilterPipeline {
        ops: vec![
            ColorFilterOp::HueRotate(scalar(-0.0)),
            ColorFilterOp::Grayscale(scalar(0.0)),
            ColorFilterOp::Saturate(scalar(1.0)),
        ],
    })
    .unwrap();
    assert_eq!(kinds(&pipeline), ["identity"]);
}

#[test]
fn zero_opacity_anywhere_clears_everything() {
    let pipeline = CompiledColorFilterPipeline::try_from_ops(vec![
        ColorFilterOp::Brightness(scalar(2.0)),
        ColorFilterOp::Opacity(scalar(-0.0)),
        ColorFilterOp::Invert(scalar(1.0)),
    ])
    .unwrap();
    assert_eq!(kinds(&pipeline), ["clear"]);
    assert!(is_zero_opacity(&ColorFilterOp::Opacity(scalar(0.0))));
    assert!(!is_zero_opacity(&ColorFilterOp::Invert(scalar(0.0))));
}

#[test]
fn identity_filters_are_recognised_by_their_neutral_amount() {
    assert!(is_identity_op(ColorFilterOp::Brightness(scalar(1.0))));
    assert!(!is_identity_op(ColorFilterOp::Brightness(scalar(0.0))));
    assert!(is_identity_op(ColorFilterOp::Invert(scalar(0.0))));
    assert!(is_identity_op(ColorFilterOp::Opacity(scalar(1.0))));
    assert!(!is_identity_op(ColorFilterOp::HueRotate(scalar(f64::NAN))));
    assert!(StraightColorTransform::from_op(ColorFilterOp::Opacity(scalar(0.5))).is_none());
    assert!(StraightColorTransform::from_op(ColorFilterOp::Sepia(scalar(0.5))).is_some());
}

#[test]
fn compilation_keeps_the_meaning_of_a_pipeline() {
    // Opacity halves, everything else adds one to red: order shows in the result.
    let apply = |op: ColorFilterOp, pixel: PremultipliedRgba8| match op {
        ColorFilterOp::Opacity(amount) if amount.is_zero() => PremultipliedRgba8::transparent(),
        ColorFilterOp::Opacity(amount) if !amount.is_one() => PremultipliedRgba8::try_new(
            pixel.red() / 2,
            pixel.green() / 2,
            pixel.blue() / 2,
            pixel.alpha() / 2,
        )
        .unwrap(),
        ColorFilterOp::Brightness(amount) if !amount.is_one() => {
            PremultipliedRgba8::try_new(pixel.red() + 1, 0, 0, pixel.alpha()).unwrap()
        }
        _ => pixel,
    };
    let brighter = ColorFilterOp::Brightness(scalar(2.0));
    let ops = vec![
        brighter,
        ColorFilterOp::Brightness(scalar(1.0)),
        ColorFilterOp::Opacity(scalar(0.5)),
        brighter,
        brighter,
    ];
    let pipeline = CompiledColorFilterPipeline::try_from_ops(ops.clone()).unwrap();
    let start = PremultipliedRgba8::try_new(9, 0, 0, 100).unwrap();
    let compiled = apply_compiled_color_filter_pipeline_to_pixel(start, &pipeline, apply);
    let mut direct = start;
    for op in ops {
        direct = apply(op, direct);
    }
    assert_eq!((compiled.red(), compiled.alpha()), (7, 50));
    assert_eq!((direct.red(), direct.alpha()), (7, 50));
}

#[test]
fn color_filters_are_applied_one_after_another() {
    let pipeline = ColorFilterPipeline {
        ops: vec![
            ColorFilterOp::Invert(scalar(1.0)),
            ColorFilterOp::Opacity(scalar(0.5)),
            ColorFilterOp::Invert(scalar(1.0)),
        ],
    };
    // An inversion counts up, an opacity doubles.
    let apply = |op: ColorFilterOp, pixel: PremultipliedRgba8| {
        let red = match op {
            ColorFilterOp::Opacity(_) => 2 * pixel.red(),
            _ => pixel.red() + 1,
        };
        PremultipliedRgba8::try_new(red, 0, 0, 255).unwrap()
    };
    let start = PremultipliedRgba8::try_new(4, 0, 0, 255).unwrap();
    assert_eq!(apply_color_filter_pipeline_to_pixel(start, &pipeline, apply).red(), 11);
    let none = ColorFilterPipeline { ops: Vec::new() };
    assert_eq!(apply_color_filter_pipeline_to_pixel(start, &none, apply).red(), 4);
}

#[test]
fn filtered_images_keep_their_dimensions() {
    let filters = FilterList { ops: vec![FilterOpKind::Blur(blur(1.0))] };
    let image = image();
    let execution =
        ResolvedMaterializedImageFilterExecution::try_new(&filters, resource(5, 2.0), &image).unwrap();
    let drawn = |width: u32, height: u32| {
        execution.execute_to_image(
            |_, _| Ok(PhysicalSize::new(width, height)),
            |_, _| ReferencePremultipliedRgba8Buffer::try_new(PhysicalSize::new(width, height)),
        )
    };
    assert_eq!(drawn(2, 1).unwrap().pixels.size(), PhysicalSize::new(2, 1));
    assert_eq!(drawn(1, 2).unwrap().pixels.size(), PhysicalSize::new(2, 1));
    assert_eq!(
        drawn(2, 2).err(),
        Some(Error::Invalid(InvalidValue::ImageByteLength {
            size: PhysicalSize::new(2, 1),
            length: 16
        }))
    );
}

#[test]
fn materialized_filters_keep_their_order() {
    let filters = FilterList {
        ops: vec![
            FilterOpKind::Color(ColorFilterOp::Invert(scalar(1.0))),
            FilterOpKind::Color(ColorFilterOp::Sepia(scalar(1.0))),
            FilterOpKind::Blur(blur(2.0)),
            FilterOpKind::DropShadow(shadow()),
            FilterOpKind::Color(ColorFilterOp::Opacity(scalar(0.5))),
        ],
    };
    let pipeline = compile_materialized_image_filter_pipeline(&filters).unwrap();
    let steps: Vec<String> = pipeline
        .steps()
        .iter()
        .map(|step| match step {
            MaterializedImageFilterStep::ColorFilters(colors) => {
                format!("colors {}", colors.source_ops().len())
            }
            MaterializedImageFilterStep::Blur(_) => "blur".to_string(),
            MaterializedImageFilterStep::DropShadow(_) => "shadow".to_string(),
        })
        .collect();
    assert_eq!(steps, ["colors 2", "blur", "shadow", "colors 1"]);
    let none = FilterList { ops: Vec::new() };
    assert!(none.materialized_image_filter_pipeline().unwrap().is_none());
    assert_eq!(
        compile_materialized_image_filter_pipeline(&none).err(),
        Some(Error::Invalid(InvalidValue::EmptyMaterializedFilters))
    );
}

fn resource(id: u64, width: f64) -> ImageResource {
    ImageResource { id, width: scalar(width), height: scalar(1.0) }
}

fn image() -> MaterializedImage {
    MaterializedImage {
        resource: resource(5, 2.0),
        dimensions: PhysicalSize::new(2, 1),
        rgba: vec![255, 0, 0, 255, 0, 255, 0, 128],
        quality: ImageQuality::High,
        extend: Extend::Reflect,
    }
}

#[test]
fn filtered_images_match_their_resource() {
    let filters = FilterList { ops: vec![FilterOpKind::Blur(blur(1.0))] };
    let image = image();
    assert!(ResolvedMaterializedImageFilterExecution::try_new(&filters, resource(5, 2.0), &image).is_ok());
    assert_eq!(
        ResolvedMaterializedImageFilterExecution::try_new(&filters, resource(6, 2.0), &image).err(),
        Some(Error::Invalid(InvalidValue::FilteredImageId(5)))
    );
    assert_eq!(
        ResolvedMaterializedImageFilterExecution::try_new(&filters, resource(5, 3.0), &image).err(),
        Some(Error::Invalid(InvalidValue::FilteredImageSize {
            width: scalar(2.0),
            height: scalar(1.0)
        }))
    );
    let none = FilterList { ops: Vec::new() };
    assert_eq!(
        ResolvedMaterializedImageFilterExecution::try_new(&none, resource(6, 2.0), &image).err(),
        Some(Error::Invalid(InvalidValue::EmptyMaterializedFilters))
    );
}

#[test]
fn filtered_images_keep_their_sampling() {
    let filters = FilterList {
        ops: vec![FilterOpKind::Color(ColorFilterOp::Opacity(scalar(0.0)))],
    };
    let image = image();
    let execution =
        ResolvedMaterializedImageFilterExecution::try_new(&filters, resource(5, 2.0), &image).unwrap();
    let filtered = execution
        .execute_to_image(
            |_, size| Ok(size),
            |_, buffer| ReferencePremultipliedRgba8Buffer::try_new(buffer.physical_size()),
        )
        .unwrap();
    assert_eq!((filtered.quality, filtered.extend), (ImageQuality::High, Extend::Reflect));
    assert!(filtered.width.equals(scalar(2.0)) && filtered.height.equals(scalar(1.0)));
    assert_eq!(filtered.pixels.rgba(), &[0; 8]);
    assert_eq!(
        execution
            .execute_to_image_buffer(|_, size| Ok(size), |_, buffer| Ok(buffer.duplicate()))
            .err(),
        Some(Error::Invalid(InvalidValue::ExecutionSourceNotImageBuffer))
    );
}

#[test]
fn pixel_moving_filters_keep_the_planned_size() {
    let source = ImageBuffer::try_new(PhysicalSize::new(1, 1), vec![1, 2, 3, 255]).unwrap();
    let blurred = FilterList { ops: vec![FilterOpKind::Blur(blur(1.0))] };
    let execution =
        ResolvedMaterializedImageFilterExecution::try_new_for_image_buffer(&blurred, &source).unwrap();
    let same = execution
        .execute_to_image_buffer(|_, size| Ok(size), |_, buffer| Ok(buffer.duplicate()))
        .unwrap();
    assert_eq!(same.rgba(), &[1, 2, 3, 255]);
    let grown = |_: &MaterializedImageFilterStep, _: &ReferencePremultipliedRgba8Buffer| {
        ReferencePremultipliedRgba8Buffer::try_new(PhysicalSize::new(2, 2))
    };
    assert_eq!(
        execution.execute_to_image_buffer(|_, size| Ok(size), grown).err(),
        Some(Error::Invalid(InvalidValue::BlurOutputSize(PhysicalSize::new(2, 2))))
    );
    let shadowed = FilterList { ops: vec![FilterOpKind::DropShadow(shadow())] };
    let execution =
        ResolvedMaterializedImageFilterExecution::try_new_for_image_buffer(&shadowed, &source).unwrap();
    assert_eq!(
        execution.execute_to_image_buffer(|_, size| Ok(size), grown).err(),
        Some(Error::Invalid(InvalidValue::ShadowOutputSize(PhysicalSize::new(2, 2))))
    );
    assert_eq!(
        execution.execute_to_image(|_, size| Ok(size), grown).err(),
        Some(Error::Invalid(InvalidValue::ExecutionSourceNotImage))
    );
}

#[test]
fn planned_outputs_stay_at_the_origin() {
    assert_eq!(
        plan_clipped_materialized_output_size(PlannedFilter::Blur, 0, 0, 4, 5),
        Ok(PhysicalSize::new(4, 5))
    );
    assert_eq!(
        plan_clipped_materialized_output_size(PlannedFilter::Blur, -1, 0, 4, 5),
        Err(Error::Invalid(InvalidValue::BlurOutputOrigin { x: -1, y: 0 }))
    );
    assert_eq!(
        plan_clipped_materialized_output_size(PlannedFilter::DropShadow, 0, 3, 4, 5),
        Err(Error::Invalid(InvalidValue::ShadowOutputOrigin { x: 0, y: 3 }))
    );
}
