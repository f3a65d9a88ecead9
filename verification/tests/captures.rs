use surgeist_render::geometry::PhysicalSize;
use surgeist_render::options::Antialiasing;
use surgeist_render::pass::c08::ExecutableVelloCaptureFacts;
use surgeist_render::pass::c08_malformed::identity;
use surgeist_render::pass::capture_transform::{
    bounded_capture, observe_rounds, BoundedCapture,
    BoundedCaptureTransformObservation, CaptureMeasures, CaptureRound,
};
use surgeist_render::pass::color_operation::{
    runtime_color_operation_observation, RuntimeColorOperationKind, RuntimeFilterAmount,
};
use surgeist_render::pass::model::{
    LoweredGraphPlan, Rect, RuntimeColorClampBoundary, RuntimeColorOperationTag,
    RuntimeColorScalar, RuntimePass, RuntimePassId, RuntimePassKind, RuntimeResourceFormat,
    RuntimeResourceId, RuntimeResourceProducer, RuntimeResourceRequest, RuntimeResourceRole,
    RuntimeResultBinding, RuntimeSpatialDescriptor, RuntimeVelloCapture, RuntimeVelloSpanScope,
    Single,
};
use surgeist_render::runtime::{Format, WorkingFormat};
use surgeist_render::scalar::Scalar;

fn scalar(value: f64) -> Scalar {
    Scalar::from_bits(value.to_bits())
}

fn spatial() -> RuntimeSpatialDescriptor {
    RuntimeSpatialDescriptor {
        logical_bounds: Rect {
            x: scalar(0.0),
            y: scalar(0.0),
            width: scalar(64.0),
            height: scalar(64.0),
        },
        device_x: 0,
        device_y: 0,
        device_extent: PhysicalSize::new(64, 64),
        texel_x: scalar(0.0),
        texel_y: scalar(0.0),
        raster_scale: scalar(1.0),
    }
}

fn plan(kind: RuntimePassKind) -> LoweredGraphPlan {
    LoweredGraphPlan {
        passes: vec![RuntimePass {
            id: RuntimePassId(1),
            kind,
            dependencies: Vec::new(),
            reads: Vec::new(),
            result: RuntimeResultBinding::Resource(RuntimeResourceId(2)),
            releases: Vec::new(),
            cache_keys: None,
            operations: Vec::new(),
            outer_clips: Vec::new(),
        }],
        resources: vec![RuntimeResourceRequest {
            id: RuntimeResourceId(2),
            role: RuntimeResourceRole::FilterIntermediate,
            format: RuntimeResourceFormat::VelloCaptureRgba8Unorm,
            producer: RuntimeResourceProducer::Pass(RuntimePassId(1)),
            expected_reads: 1,
            last_use: RuntimePassId(1),
            spatial: spatial(),
            import: None,
        }],
        root_working_image: RuntimeResourceId(2),
        final_present: RuntimePassId(1),
        working_format: WorkingFormat::HighPrecision,
        output_format: Format::Rgba8,
    }
}

fn span() -> RuntimePassKind {
    RuntimePassKind::VelloCapture(Some(RuntimeVelloCapture::Span {
        command_count: 1,
        scope: RuntimeVelloSpanScope::SurfaceRoot,
        captured_before_outer_semantics: true,
        span_antialiasing: Antialiasing::Area,
    }))
}

fn facts(capture: BoundedCapture) -> ExecutableVelloCaptureFacts {
    ExecutableVelloCaptureFacts {
        pass: capture.pass,
        target: capture.target,
        antialiasing: Antialiasing::Area,
        target_extent: capture.spatial.device_extent,
        texel_x: capture.spatial.texel_x,
        texel_y: capture.spatial.texel_y,
        raster_scale: capture.spatial.raster_scale,
        initial_transform: identity(),
    }
}

fn captures() -> Vec<ExecutableVelloCaptureFacts> {
    vec![facts(BoundedCapture {
        pass: RuntimePassId(1),
        target: RuntimeResourceId(2),
        spatial: spatial(),
    })]
}

fn round(scale: f64) -> CaptureRound {
    let capture = bounded_capture(
        &plan(span()),
        &captures(),
        scalar(-3.0 / scale),
        scalar(-2.0 / scale),
        scalar(scale),
    )
    .unwrap();
    CaptureRound {
        capture,
        facts: facts(capture),
        measures: CaptureMeasures {
            transform_is_close: true,
            center_is_close: true,
            commands_are_kept: true,
            scene_is_close: true,
        },
    }
}

#[test]
fn bounded_captures_start_outside_their_surface() {
    let capture = round(1.25).capture;
    assert_eq!((capture.spatial.device_x, capture.spatial.device_y), (-3, -2));
    assert_eq!(capture.spatial.texel_x, scalar(-2.4));
    assert_eq!(capture.spatial.device_extent, PhysicalSize::new(64, 64));
    let at = |plan: &LoweredGraphPlan, captures: &Vec<ExecutableVelloCaptureFacts>| {
        bounded_capture(plan, captures, scalar(0.0), scalar(0.0), scalar(1.0))
    };
    assert_eq!(at(&plan(span()), &Vec::new()), None);
    assert_eq!(at(&plan(RuntimePassKind::VelloCapture(None)), &captures()), None);
    assert_eq!(at(&plan(RuntimePassKind::CanonicalizeCapture), &captures()), None);
    let mut unknown = captures();
    unknown[0].target = RuntimeResourceId(9);
    assert_eq!(at(&plan(span()), &unknown), None);
}

#[test]
fn bounded_captures_are_observed_at_every_scale() {
    let rounds: Vec<Option<CaptureRound>> =
        [1.0, 1.25, 2.0].into_iter().map(|scale| Some(round(scale))).collect();
    assert_eq!(
        observe_rounds(&rounds, Antialiasing::Area),
        Some(BoundedCaptureTransformObservation {
            preserves_application_order_formula: true,
            preserves_signed_texel_center_mapping: true,
            covers_required_raster_scales: true,
            preserves_capture_execution_facts: true,
            lowers_scene_with_explicit_initial_transform: true,
        })
    );
    let coarse = observe_rounds(&rounds, Antialiasing::Msaa8).unwrap();
    assert!(!coarse.preserves_capture_execution_facts);
    let short = observe_rounds(&rounds[..2].to_vec(), Antialiasing::Area);
    assert!(!short.unwrap().covers_required_raster_scales);
    let mut moved = rounds.clone();
    if let Some(round) = &mut moved[1] {
        round.facts.texel_y = scalar(0.0);
        round.measures.scene_is_close = false;
    }
    let observation = observe_rounds(&moved, Antialiasing::Area).unwrap();
    assert!(!observation.preserves_signed_texel_center_mapping);
    assert!(!observation.lowers_scene_with_explicit_initial_transform);
    assert!(observation.preserves_application_order_formula);
    moved[2] = None;
    assert_eq!(observe_rounds(&moved, Antialiasing::Area), None);
}

#[test]
fn color_operations_carry_the_number_of_their_kind() {
    let half = Single { bits: 0.5f32.to_bits() };
    let amount = RuntimeFilterAmount { zero: false, mantissa: half, exponent: 2 };
    let boundary = RuntimeColorClampBoundary::ClampStraightRgbaToUnitThenPremultiply;
    let unit = RuntimeColorScalar::Unit(half);
    let unbounded = RuntimeColorScalar::Amount { zero: false, mantissa: half, exponent: 2 };
    for (kind, tag, number) in [
        (
            RuntimeColorOperationKind::Brightness(amount),
            RuntimeColorOperationTag::Brightness,
            unbounded,
        ),
        (
            RuntimeColorOperationKind::Contrast(amount),
            RuntimeColorOperationTag::Contrast,
            unbounded,
        ),
        (RuntimeColorOperationKind::Grayscale(half), RuntimeColorOperationTag::Grayscale, unit),
        (
            RuntimeColorOperationKind::HueRotate { sine: half, cosine: half },
            RuntimeColorOperationTag::HueRotate,
            RuntimeColorScalar::Angle { sine: half, cosine: half },
        ),
        (RuntimeColorOperationKind::Invert(half), RuntimeColorOperationTag::Invert, unit),
        (RuntimeColorOperationKind::Opacity(half), RuntimeColorOperationTag::Opacity, unit),
        (
            RuntimeColorOperationKind::Saturate(amount),
            RuntimeColorOperationTag::Saturate,
            unbounded,
        ),
        (RuntimeColorOperationKind::Sepia(half), RuntimeColorOperationTag::Sepia, unit),
    ] {
        let operation = runtime_color_operation_observation(kind, boundary);
        assert_eq!((operation.tag, operation.scalar), (tag, number));
        assert_eq!(operation.clamp_boundary, boundary);
    }
}
