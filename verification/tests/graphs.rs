use surgeist_render::dispatch::{ExecutableGraphDispatchEligibility, FramePlan};
use surgeist_render::error::{
    Error, InvalidValue, LoweringFailure, PreparationFailure, PrimitiveFamily, PrimitiveOperation,
    UnsupportedPrimitive,
};
use surgeist_render::filter::materialized::FilterColor;
use surgeist_render::geometry::PhysicalSize;
use surgeist_render::options::Antialiasing;
use surgeist_render::pass::c08_malformed::identity;
use surgeist_render::pass::c10::{
    color_filter_graph_observation, color_filter_operation_byte_len, color_pass_indices,
    preserves_one_clamp_per_record, runtime_color_operations, ColorFilterOperationBufferLimits,
};
use surgeist_render::pass::c11::{
    c11_blur_edges_are_exact, c11_dependencies_and_lifetimes_are_exact, c11_filter_pass_tags,
    c11_filter_step_shape_is_exact, c11_shadow_fanout_is_exact, c11_shadow_releases_are_exact,
    c11_spatial_mappings_are_exact, C11FilterPassTag,
};
use surgeist_render::pass::c12::{
    c12_backdrop_filter_chain_observation, c12_backdrop_graph_observation,
};
use surgeist_render::pass::closed::{
    c09_layer_composition_reads_are_exact, BackdropFacts, BlurFacts, ClosedExecutableGraph,
    ColorFilterFacts, DropShadowFacts, FilterStep, LayerCompositionFacts,
};
use surgeist_render::pass::composition::{
    composition_clear_observation, composition_graph_observation,
    resolved_mask_image_ids_inner_to_outer, CompositionOuterOperation, CompositionRead,
    RenderCommand,
};
use surgeist_render::pass::coverage::{
    graph_clip_coverage_observation, mask_pipeline_keys_exclude_image_identity,
    mask_upload_allocation_extents, CapturedWork, ClipElement, CoverageScene,
};
use surgeist_render::pass::executable::{
    c09_executable_graph_observation, c10_executable_graph_observation,
    c11_executable_graph_observation, c11_filter_graph_observation,
    c11_malformed_plan_observation, c12_executable_graph_observation, lower_for_every_format,
    mixed_color_unsupported_diagnostic_observation, single_color_run,
};
use surgeist_render::pass::lowering::{
    lowering_faults_are_rejected, runtime_lowering_observation, runtime_resource_facts_are_exact,
    runtime_semantic_pass_facts_are_exact, GraphLoweringFault, LoweredFrom,
};
use surgeist_render::pass::malformed::{
    c09_foreign_plans, c09_malformed_plans, c10_malformed_color_plans,
    c11_axes_inputs_edges_alias_plans, c11_copy_stale_forward_plans,
    c11_empty_missing_spatial_plans, c12_malformed_plans, find_last_wanted, find_wanted,
    C11PassIndices, WantedPass,
};
use surgeist_render::pass::layout::{BlurPassFacts, SourcePassFacts, TextureFormatKey};
use surgeist_render::pass::mirrored::{
    c12_backdrop_blur_cache_requests, edge_program_keys_are_distinct, BlurEdgeParameters,
    C12BackdropBlurCacheRequest,
};
use surgeist_render::pass::model::{
    ImageQuality, LoweredGraphPlan, MaskSampling, MaskUpload, Rect, RuntimeBlur, RuntimeBlurAxis,
    RuntimeBlurInput, RuntimeColorClampBoundary, RuntimeColorOperation, RuntimeColorOperationTag,
    RuntimeColorScalar, RuntimeComposite, RuntimeCompositeKind, RuntimeDropShadow,
    RuntimeInitialization, RuntimeLayerComposite, RuntimePass, RuntimePassCacheKeys, RuntimePassId,
    RuntimePassKind, RuntimeReadBinding, RuntimeReadRole, RuntimeResourceFormat, RuntimeResourceId,
    RuntimeResourceProducer, RuntimeResourceRequest, RuntimeResourceRole, RuntimeResultBinding,
    RuntimeSamplingEdge, RuntimeSamplingFilter, RuntimeSpatialDescriptor, RuntimeSpatialMapping,
    RuntimeVelloCapture, RuntimeVelloSpanScope, SamplerKey, SamplingEdgeKey, Single,
};
use surgeist_render::pass::planned::{
    c09_composite_cache_requests_planned, c10_color_filter_cache_requests_planned,
    c11_blur_cache_requests_planned, c11_drop_shadow_cache_requests_planned,
    c12_backdrop_blur_cache_requests_planned, c12_copy_backdrop_cache_request_planned,
    observe_closed, runtime_color_operations_planned, single_color_run_planned,
};
use surgeist_render::pass::realization::DeviceHoldings;
use surgeist_render::pass::requests::{
    c09_composite_cache_requests, c10_color_filter_cache_requests, c10_preparable_graph,
    c11_blur_cache_requests, c11_drop_shadow_cache_requests, c11_preparable_graph,
    c12_copy_backdrop_cache_request, c12_preparable_graph, ClassifiedGraph,
    PrePreparationGraphClassification,
};
use surgeist_render::reference::index::Extend;
use surgeist_render::reference::pixel::BlendMode;
use surgeist_render::runtime::{DeviceCapabilities, Format, WorkingFormat};
use surgeist_render::scalar::Scalar;

const WORKING: RuntimeResourceFormat = RuntimeResourceFormat::Working(WorkingFormat::HighPrecision);

fn scalar(value: f64) -> Scalar {
    Scalar::from_bits(value.to_bits())
}

fn single(value: f32) -> Single {
    Single { bits: value.to_bits() }
}

fn rect() -> Rect {
    Rect { x: scalar(0.0), y: scalar(0.0), width: scalar(8.0), height: scalar(8.0) }
}

fn spatial() -> RuntimeSpatialDescriptor {
    RuntimeSpatialDescriptor {
        logical_bounds: rect(),
        device_x: 0,
        device_y: 0,
        device_extent: PhysicalSize::new(8, 8),
        texel_x: scalar(0.0),
        texel_y: scalar(0.0),
        raster_scale: scalar(1.0),
    }
}

fn mapping() -> RuntimeSpatialMapping {
    RuntimeSpatialMapping { source: spatial(), result: spatial() }
}

fn image(id: u64, reads: u32, last_use: u64) -> RuntimeResourceRequest {
    RuntimeResourceRequest {
        id: RuntimeResourceId(id),
        role: RuntimeResourceRole::FilterIntermediate,
        format: WORKING,
        producer: RuntimeResourceProducer::Pass(RuntimePassId(id)),
        expected_reads: reads,
        last_use: RuntimePassId(last_use),
        spatial: spatial(),
        import: None,
    }
}

fn read(role: RuntimeReadRole, resource: u64, edge: RuntimeSamplingEdge) -> RuntimeReadBinding {
    let key = match edge {
        RuntimeSamplingEdge::TransparentBlack => SamplingEdgeKey::TransparentBlack,
        RuntimeSamplingEdge::ClampToExtent => SamplingEdgeKey::ClampToExtent,
        RuntimeSamplingEdge::SemanticBorderMirror(_) => SamplingEdgeKey::Mirror,
    };
    RuntimeReadBinding {
        role,
        resource: RuntimeResourceId(resource),
        sampling_filter: RuntimeSamplingFilter::Linear,
        sampling_edge: edge,
        sampler_key: SamplerKey {
            role,
            source_format: WORKING,
            filter: RuntimeSamplingFilter::Linear,
            edge: key,
            mask: None,
        },
    }
}

fn keys(number: u64) -> Option<RuntimePassCacheKeys> {
    Some(RuntimePassCacheKeys {
        samplers: number,
        layout: number,
        shader: number,
        pipeline: number,
    })
}

/// A pass that writes the image of its own number.
fn pass(id: u64, kind: RuntimePassKind, reads: Vec<RuntimeReadBinding>, releases: &[u64]) -> RuntimePass {
    RuntimePass {
        id: RuntimePassId(id),
        kind,
        dependencies: reads.iter().map(|read| RuntimePassId(read.resource.0)).collect(),
        reads,
        result: RuntimeResultBinding::Resource(RuntimeResourceId(id)),
        releases: releases.iter().map(|id| RuntimeResourceId(*id)).collect(),
        cache_keys: keys(id),
        operations: Vec::new(),
        outer_clips: Vec::new(),
    }
}

fn operation(tag: RuntimeColorOperationTag) -> RuntimeColorOperation {
    RuntimeColorOperation {
        tag,
        scalar: RuntimeColorScalar::Unit(single(0.5)),
        clamp_boundary: RuntimeColorClampBoundary::ClampStraightRgbaToUnitThenPremultiply,
    }
}

fn color(id: u64, source: u64, tag: RuntimeColorOperationTag) -> RuntimePass {
    let mut from = read(RuntimeReadRole::FilterSource, source, RuntimeSamplingEdge::ClampToExtent);
    from.sampling_filter = RuntimeSamplingFilter::Nearest;
    let mut run = pass(id, RuntimePassKind::ColorFilter(Some(mapping())), vec![from], &[source]);
    run.operations = vec![operation(tag)];
    run
}

fn blur(axis: RuntimeBlurAxis, input: RuntimeBlurInput, edge: RuntimeSamplingEdge) -> RuntimeBlur {
    RuntimeBlur { axis, input, edge, standard_deviation: scalar(2.0), spatial: mapping() }
}

fn blur_pass(id: u64, source: u64, releases: &[u64], blur: RuntimeBlur) -> RuntimePass {
    let kind = match blur.axis {
        RuntimeBlurAxis::Horizontal => RuntimePassKind::BlurHorizontal(Some(blur)),
        RuntimeBlurAxis::Vertical => RuntimePassKind::BlurVertical(Some(blur)),
    };
    pass(id, kind, vec![read(RuntimeReadRole::FilterSource, source, blur.edge)], releases)
}

fn shadow(edge: RuntimeSamplingEdge) -> RuntimeDropShadow {
    RuntimeDropShadow {
        uses_source_alpha: true,
        uses_continuous_offset: true,
        retains_unchanged_source: true,
        edge,
        spatial: mapping(),
    }
}

fn plan(passes: Vec<RuntimePass>, resources: Vec<RuntimeResourceRequest>) -> LoweredGraphPlan {
    let final_present = passes[passes.len() - 1].id;
    LoweredGraphPlan {
        root_working_image: resources[0].id,
        passes,
        resources,
        final_present,
        working_format: WorkingFormat::HighPrecision,
        output_format: Format::Rgba8,
    }
}

/// A color run, a blur, a drop shadow and another color run over the image of the first pass.
fn filter_graph(edge: RuntimeSamplingEdge) -> LoweredGraphPlan {
    use_filters(edge).0
}

fn use_filters(edge: RuntimeSamplingEdge) -> (LoweredGraphPlan, BlurFacts, DropShadowFacts) {
    let horizontal = blur(RuntimeBlurAxis::Horizontal, RuntimeBlurInput::Rgba, edge);
    let vertical = blur(RuntimeBlurAxis::Vertical, RuntimeBlurInput::Rgba, edge);
    let alpha_horizontal = blur(RuntimeBlurAxis::Horizontal, RuntimeBlurInput::SourceAlpha, edge);
    let alpha_vertical = blur(RuntimeBlurAxis::Vertical, RuntimeBlurInput::SourceAlpha, edge);
    let merge = RuntimePassKind::Composite(Some(RuntimeComposite {
        kind: RuntimeCompositeKind::DropShadow,
        source_captured_before_outer_semantics: true,
    }));
    let passes = vec![
        pass(0, RuntimePassKind::CanonicalizeCapture, Vec::new(), &[]),
        color(1, 0, RuntimeColorOperationTag::Sepia),
        blur_pass(2, 1, &[1], horizontal),
        blur_pass(3, 2, &[2], vertical),
        blur_pass(4, 3, &[], alpha_horizontal),
        blur_pass(5, 4, &[4], alpha_vertical),
        pass(
            6,
            RuntimePassKind::DropShadowColorize(Some(shadow(edge))),
            vec![read(RuntimeReadRole::BlurredSourceAlpha, 5, edge)],
            &[5],
        ),
        pass(
            7,
            merge,
            vec![
                read(RuntimeReadRole::Shadow, 6, RuntimeSamplingEdge::ClampToExtent),
                read(RuntimeReadRole::CompositeSource, 3, RuntimeSamplingEdge::ClampToExtent),
            ],
            &[6, 3],
        ),
        color(8, 7, RuntimeColorOperationTag::Invert),
    ];
    let resources = vec![
        image(0, 1, 1),
        image(1, 1, 2),
        image(2, 1, 3),
        image(3, 2, 7),
        image(4, 1, 5),
        image(5, 1, 6),
        image(6, 1, 7),
        image(7, 1, 8),
        image(8, 1, 9),
    ];
    let blur_facts = BlurFacts {
        horizontal: RuntimePassId(2),
        vertical: RuntimePassId(3),
        source: RuntimeResourceId(1),
        intermediate: RuntimeResourceId(2),
        result: RuntimeResourceId(3),
        blur: horizontal,
    };
    let shadow_facts = DropShadowFacts {
        horizontal: RuntimePassId(4),
        vertical: RuntimePassId(5),
        merge: RuntimePassId(7),
        source: RuntimeResourceId(3),
        horizontal_result: RuntimeResourceId(4),
        vertical_result: RuntimeResourceId(5),
        shadow: RuntimeResourceId(6),
        result: RuntimeResourceId(7),
        blur: alpha_horizontal,
        parameters: shadow(edge),
    };
    (plan(passes, resources), blur_facts, shadow_facts)
}

fn color_facts(pass: u64, tag: RuntimeColorOperationTag) -> ColorFilterFacts {
    ColorFilterFacts {
        pass: RuntimePassId(pass),
        spatial: mapping(),
        operations: vec![operation(tag)],
    }
}

fn closed_filters(edge: RuntimeSamplingEdge) -> ClosedExecutableGraph {
    let (lowered, blur, shadow) = use_filters(edge);
    ClosedExecutableGraph {
        lowered,
        layer_compositions: Vec::new(),
        color_filters: vec![
            color_facts(1, RuntimeColorOperationTag::Sepia),
            color_facts(8, RuntimeColorOperationTag::Invert),
        ],
        blurs: vec![blur],
        drop_shadows: vec![shadow],
        filter_steps: vec![
            FilterStep::Color,
            FilterStep::Blur,
            FilterStep::DropShadow,
            FilterStep::Color,
        ],
        backdrops: Vec::new(),
    }
}

const CLEAR: RuntimeSamplingEdge = RuntimeSamplingEdge::TransparentBlack;

fn mirror() -> RuntimeSamplingEdge {
    RuntimeSamplingEdge::SemanticBorderMirror(rect())
}

fn layer(blend: BlendMode, mask: Option<u64>, coverage: Option<u64>) -> RuntimeComposite {
    RuntimeComposite {
        kind: RuntimeCompositeKind::Layer(RuntimeLayerComposite {
            transform: identity(),
            opacity: scalar(0.5),
            blend,
            alpha_mask: mask.map(RuntimeResourceId),
            has_clip: coverage.is_some(),
            clip_coverage: coverage.map(RuntimeResourceId),
        }),
        source_captured_before_outer_semantics: true,
    }
}

fn span() -> RuntimePassKind {
    RuntimePassKind::VelloCapture(Some(RuntimeVelloCapture::Span {
        command_count: 1,
        scope: RuntimeVelloSpanScope::LayerSource,
        captured_before_outer_semantics: true,
        span_antialiasing: Antialiasing::Area,
    }))
}

fn clear(initialization: RuntimeInitialization, alpha: f64) -> RuntimePassKind {
    RuntimePassKind::ClearRoot {
        initialization,
        color: FilterColor {
            red: scalar(0.0),
            green: scalar(0.0),
            blue: scalar(0.0),
            alpha: scalar(alpha),
        },
    }
}

fn upload(id: u64) -> RuntimeResourceRequest {
    let mut resource = image(id, 1, 4);
    resource.role = RuntimeResourceRole::ResolvedAlphaMask;
    resource.format = RuntimeResourceFormat::ResolvedMaskRgba8Unorm;
    resource.producer = RuntimeResourceProducer::Import;
    resource.spatial.device_extent = PhysicalSize::new(3, 2);
    resource.import = Some(MaskUpload {
        image_id: 77,
        cache_key: 770,
        physical_size: PhysicalSize::new(3, 2),
        sampling: MaskSampling { quality: ImageQuality::Medium, extend: Extend::Pad },
    });
    resource
}

/// A cleared root, a captured and clipped layer with a mask, and a present.
fn layer_graph(blend: BlendMode) -> (LoweredGraphPlan, LayerCompositionFacts) {
    let composite = layer(blend, Some(20), Some(3));
    let passes = vec![
        pass(0, clear(RuntimeInitialization::SurfaceBaseColor, 1.0), Vec::new(), &[]),
        pass(1, span(), Vec::new(), &[]),
        pass(
            2,
            RuntimePassKind::CanonicalizeCapture,
            vec![read(RuntimeReadRole::CaptureSource, 1, RuntimeSamplingEdge::ClampToExtent)],
            &[1],
        ),
        pass(
            3,
            RuntimePassKind::VelloCapture(Some(RuntimeVelloCapture::ClipCoverage {
                element_count: 1,
                coverage_antialiasing: Antialiasing::Msaa8,
            })),
            Vec::new(),
            &[],
        ),
        pass(
            4,
            RuntimePassKind::Composite(Some(composite)),
            vec![
                read(RuntimeReadRole::CompositeParent, 0, RuntimeSamplingEdge::ClampToExtent),
                read(RuntimeReadRole::CompositeSource, 2, CLEAR),
                read(RuntimeReadRole::ClipCoverage, 3, CLEAR),
                read(RuntimeReadRole::AlphaMask, 20, RuntimeSamplingEdge::ClampToExtent),
            ],
            &[0, 2, 3, 20],
        ),
        pass(
            5,
            RuntimePassKind::Present,
            vec![read(RuntimeReadRole::FinalWorkingImage, 4, RuntimeSamplingEdge::ClampToExtent)],
            &[4],
        ),
    ];
    let mut coverage = image(3, 1, 4);
    coverage.role = RuntimeResourceRole::ClipCoverage;
    coverage.format = RuntimeResourceFormat::ClipCoverageRgba8Unorm;
    let mut captured = image(1, 1, 2);
    captured.format = RuntimeResourceFormat::VelloCaptureRgba8Unorm;
    let resources =
        vec![image(0, 1, 4), captured, image(2, 1, 4), coverage, image(4, 1, 5), upload(20)];
    let facts = LayerCompositionFacts {
        pass: RuntimePassId(4),
        parent: RuntimeResourceId(0),
        source: RuntimeResourceId(2),
        clip_coverage: Some(RuntimeResourceId(3)),
        alpha_mask: Some(RuntimeResourceId(20)),
        composite,
    };
    (plan(passes, resources), facts)
}

fn closed_layers(blend: BlendMode) -> ClosedExecutableGraph {
    let (lowered, facts) = layer_graph(blend);
    ClosedExecutableGraph {
        lowered,
        layer_compositions: vec![facts],
        color_filters: Vec::new(),
        blurs: Vec::new(),
        drop_shadows: Vec::new(),
        filter_steps: Vec::new(),
        backdrops: Vec::new(),
    }
}

const BOTH: DeviceCapabilities =
    DeviceCapabilities { high_precision: true, reduced_precision: true, max_texture_dimension: 64 };

const HIGH_ONLY: DeviceCapabilities = DeviceCapabilities { reduced_precision: false, ..BOTH };

fn lowered_filters(
    working_format: WorkingFormat,
    output_format: Format,
    _: DeviceCapabilities,
) -> Result<LoweredGraphPlan, Error> {
    Ok(LoweredGraphPlan { working_format, output_format, ..filter_graph(CLEAR) })
}

type Formats = (WorkingFormat, Format);

fn classified(
    class: PrePreparationGraphClassification,
    facts_are_proven: bool,
) -> impl FnOnce(LoweredGraphPlan) -> ClassifiedGraph<Formats> {
    move |plan| ClassifiedGraph {
        class,
        facts_are_proven,
        graph: (plan.working_format, plan.output_format),
    }
}

#[test]
fn preparable_graphs_are_exact_and_proven() {
    let exact10 = PrePreparationGraphClassification::ExactC10;
    let exact11 = PrePreparationGraphClassification::ExactC11;
    let exact12 = PrePreparationGraphClassification::ExactC12;
    let bgra = Format::Bgra8;
    let reduced = WorkingFormat::ReducedPrecision;
    assert_eq!(
        c10_preparable_graph(bgra, reduced, BOTH, lowered_filters, classified(exact10, true)),
        Ok((reduced, bgra))
    );
    assert_eq!(
        c11_preparable_graph(bgra, reduced, BOTH, lowered_filters, classified(exact11, true)),
        Ok((reduced, bgra))
    );
    assert_eq!(
        c12_preparable_graph(bgra, reduced, BOTH, lowered_filters, classified(exact12, true)),
        Ok((reduced, bgra))
    );
    assert_eq!(
        c10_preparable_graph(bgra, reduced, BOTH, lowered_filters, classified(exact10, false)),
        Err(Error::Preparation(PreparationFailure::OutsideColorGraph))
    );
    assert_eq!(
        c11_preparable_graph(bgra, reduced, BOTH, lowered_filters, classified(exact10, true)),
        Err(Error::Preparation(PreparationFailure::OutsideSpatialFilterGraph))
    );
    let future = PrePreparationGraphClassification::FuturePasses;
    assert_eq!(
        c12_preparable_graph(bgra, reduced, BOTH, lowered_filters, classified(future, true)),
        Err(Error::Preparation(PreparationFailure::OutsideBackdropGraph))
    );
}

#[test]
fn graphs_are_prepared_in_supported_formats_only() {
    let exact10 = PrePreparationGraphClassification::ExactC10;
    let reduced = WorkingFormat::ReducedPrecision;
    let never = |_: WorkingFormat, _: Format, _: DeviceCapabilities| -> Result<LoweredGraphPlan, Error> {
        panic!("nothing is lowered")
    };
    let refused =
        c10_preparable_graph(Format::Rgba8, reduced, HIGH_ONLY, never, classified(exact10, true));
    assert_eq!(refused.err(), HIGH_ONLY.validate_supported_working_format(reduced).err());
    let failing = |_: WorkingFormat, _: Format, _: DeviceCapabilities| Err(Error::SurfaceOutdated);
    assert_eq!(
        c11_preparable_graph(Format::Rgba8, reduced, BOTH, failing, classified(exact10, true)),
        Err(Error::SurfaceOutdated)
    );
}

#[test]
fn composite_requests_are_unique() {
    let (normal, _) = layer_graph(BlendMode::Normal);
    let (multiply, _) = layer_graph(BlendMode::Multiply);
    let none = |plan: &LoweredGraphPlan| vec![Ok(None); plan.passes.len()];
    let mut lowered = none(&multiply);
    lowered[4] = Ok(keys(40));
    let plans = vec![normal.duplicate(), multiply.duplicate(), normal.duplicate()];
    let normals = vec![none(&normal), lowered, none(&normal)];
    let requested = c09_composite_cache_requests(&plans, &normals).unwrap();
    let pipelines: Vec<u64> = requested.iter().map(|keys| keys.pipeline).collect();
    assert_eq!(pipelines, [4, 40]);
    assert_eq!(
        c09_composite_cache_requests(&vec![multiply.duplicate()], &vec![none(&multiply)]).err(),
        Some(Error::Lowering(LoweringFailure::NormalPathKeysLost))
    );
    let filters = filter_graph(CLEAR);
    assert_eq!(
        c09_composite_cache_requests(&vec![filters.duplicate()], &vec![none(&filters)]).err(),
        Some(Error::Lowering(LoweringFailure::LayerCompositeKeysMissing))
    );
    assert_eq!(
        c09_composite_cache_requests(&Vec::new(), &Vec::new()).err(),
        Some(Error::Lowering(LoweringFailure::CompositeVariantsMissing))
    );
}

#[test]
fn filter_requests_come_in_their_number() {
    let filters = filter_graph(CLEAR);
    let exact = PrePreparationGraphClassification::ExactC11;
    let blurs = c11_blur_cache_requests(&filters, exact, true).unwrap();
    let pipelines: Vec<u64> = blurs.iter().map(|keys| keys.pipeline).collect();
    assert_eq!(pipelines, [2, 3, 4, 5]);
    assert_eq!(
        c11_blur_cache_requests(&filters.without_pass(3), exact, true).err(),
        Some(Error::Lowering(LoweringFailure::BlurRequestsNotFour))
    );
    let shadows = c11_drop_shadow_cache_requests(&filters, exact, true).unwrap();
    assert_eq!((shadows.colorize.pipeline, shadows.merge.pipeline), (6, 7));
    for (broken, failure) in [
        (filters.without_pass(6), LoweringFailure::ShadowColorizeKeysLost),
        (filters.without_pass(7), LoweringFailure::ShadowMergeKeysLost),
        (
            filters.replacing_kind(7, filters.passes[6].kind),
            LoweringFailure::ShadowColorizeRepeated,
        ),
        (filters.replacing_kind(8, filters.passes[7].kind), LoweringFailure::ShadowMergeRepeated),
    ] {
        assert_eq!(
            c11_drop_shadow_cache_requests(&broken, exact, true).err(),
            Some(Error::Lowering(failure))
        );
    }
    assert_eq!(
        c10_color_filter_cache_requests(&filters).err(),
        Some(Error::Lowering(LoweringFailure::ColorFilterRequestNotUnique))
    );
    let one = filters.without_pass(8);
    assert_eq!(c10_color_filter_cache_requests(&one).unwrap()[0].pipeline, 1);
}

fn copy_graph() -> LoweredGraphPlan {
    let copy = pass(
        1,
        RuntimePassKind::CopyBackdrop,
        vec![read(RuntimeReadRole::CompletedParent, 0, RuntimeSamplingEdge::ClampToExtent)],
        &[],
    );
    plan(vec![copy], vec![image(0, 2, 5), image(1, 1, 2)])
}

#[test]
fn backdrop_copies_are_requested_once() {
    let exact = PrePreparationGraphClassification::ExactC12;
    let graph = copy_graph();
    let request = c12_copy_backdrop_cache_request(&graph, exact).unwrap();
    assert!(request.source_and_result_are_distinct);
    assert_eq!(request.keys.pipeline, 1);
    let aliased =
        graph.replacing_result(0, RuntimeResultBinding::Resource(RuntimeResourceId(0)));
    assert!(!c12_copy_backdrop_cache_request(&aliased, exact).unwrap().source_and_result_are_distinct);
    let mut unread = graph.duplicate();
    unread.passes[0].reads.clear();
    let mut unkeyed = graph.duplicate();
    unkeyed.passes[0].cache_keys = None;
    for (broken, failure) in [
        (graph.repeating_first_pass(0), LoweringFailure::BackdropCopyNotUnique),
        (unread, LoweringFailure::BackdropCopyReadNotUnique),
        (
            graph.replacing_result(0, RuntimeResultBinding::Empty),
            LoweringFailure::BackdropCopyResultMissing,
        ),
        (unkeyed, LoweringFailure::BackdropCopyKeysMissing),
    ] {
        assert_eq!(
            c12_copy_backdrop_cache_request(&broken, exact).err(),
            Some(Error::Lowering(failure))
        );
    }
    assert_eq!(
        c12_copy_backdrop_cache_request(&graph, PrePreparationGraphClassification::ExactC09).err(),
        Some(Error::Lowering(LoweringFailure::OutsideBoundedGraph))
    );
}

#[test]
fn mirrored_blurs_are_requested_with_their_bounds() {
    let exact = PrePreparationGraphClassification::ExactC12;
    let filters = filter_graph(mirror());
    let edge = BlurEdgeParameters {
        x: single(0.0),
        y: single(0.0),
        width: single(8.0),
        height: single(8.0),
    };
    let parameters = vec![Ok(edge); filters.passes.len()];
    let requests = c12_backdrop_blur_cache_requests(&filters, exact, &parameters).unwrap();
    let shapes: Vec<(bool, bool)> =
        requests.iter().map(|request| (request.horizontal, request.source_alpha)).collect();
    assert_eq!(shapes, [(true, false), (false, false), (true, true), (false, true)]);
    assert!(requests.iter().all(|request| request.edge_parameters == edge));
    let mut failing = parameters.clone();
    failing[3] = Err(Error::UnsupportedBackend);
    assert_eq!(
        c12_backdrop_blur_cache_requests(&filters, exact, &failing).err(),
        Some(Error::UnsupportedBackend)
    );
    let layered = PrePreparationGraphClassification::ExactC09;
    assert_eq!(
        c12_backdrop_blur_cache_requests(&filters, layered, &parameters).err(),
        Some(Error::Lowering(LoweringFailure::OutsideBoundedBlurGraph))
    );
    let plain = filter_graph(CLEAR);
    assert_eq!(
        c12_backdrop_blur_cache_requests(&plain, exact, &parameters).err(),
        Some(Error::Lowering(LoweringFailure::MirroredBlursNotFour))
    );
    let mut unread = filters.duplicate();
    unread.passes[2].reads.clear();
    assert_eq!(
        c12_backdrop_blur_cache_requests(&unread, exact, &parameters).err(),
        Some(Error::Lowering(LoweringFailure::MirroredBlurReadNotUnique))
    );
    let mut unkeyed = filters.duplicate();
    unkeyed.passes[2].cache_keys = None;
    assert_eq!(
        c12_backdrop_blur_cache_requests(&unkeyed, exact, &parameters).err(),
        Some(Error::Lowering(LoweringFailure::MirroredBlurKeysMissing))
    );
    let left = vec![keys(1).unwrap(), keys(2).unwrap()];
    let right = vec![keys(3).unwrap()];
    assert!(edge_program_keys_are_distinct(&left, &right));
    assert!(!edge_program_keys_are_distinct(&left, &left));
}

#[test]
fn color_operations_are_finite_and_clamped_once() {
    for (scalar, normalized) in [
        (RuntimeColorScalar::Unit(single(1.0)), true),
        (RuntimeColorScalar::Unit(single(-0.0)), true),
        (RuntimeColorScalar::Unit(single(1.5)), false),
        (RuntimeColorScalar::Unit(single(-0.5)), false),
        (RuntimeColorScalar::Unit(single(f32::NAN)), false),
        (
            RuntimeColorScalar::Amount { zero: true, mantissa: single(0.0), exponent: 0 },
            true,
        ),
        (
            RuntimeColorScalar::Amount { zero: true, mantissa: single(0.0), exponent: 1 },
            false,
        ),
        (
            RuntimeColorScalar::Amount { zero: false, mantissa: single(0.5), exponent: 9 },
            true,
        ),
        (
            RuntimeColorScalar::Amount { zero: false, mantissa: single(1.0), exponent: 9 },
            false,
        ),
        (
            RuntimeColorScalar::Angle { sine: single(-1.0), cosine: single(0.0) },
            true,
        ),
        (
            RuntimeColorScalar::Angle { sine: single(f32::INFINITY), cosine: single(0.0) },
            false,
        ),
    ] {
        assert_eq!(scalar.is_finite_normalized(), normalized);
    }
    let mut operations = vec![operation(RuntimeColorOperationTag::Contrast)];
    assert!(preserves_one_clamp_per_record(&operations));
    operations[0].clamp_boundary = RuntimeColorClampBoundary::Unclamped;
    assert!(!preserves_one_clamp_per_record(&operations));
}

#[test]
fn operation_buffers_have_exact_lengths() {
    let unlimited = ColorFilterOperationBufferLimits {
        max_buffer_size: u64::MAX,
        max_storage_binding_size: u64::MAX,
    };
    assert_eq!(color_filter_operation_byte_len(0, unlimited), Ok(16));
    assert_eq!(color_filter_operation_byte_len(3, unlimited), Ok(112));
    assert_eq!(
        color_filter_operation_byte_len(u64::from(u32::MAX), unlimited),
        Ok(16 + 32 * u64::from(u32::MAX))
    );
    assert_eq!(
        color_filter_operation_byte_len(u64::from(u32::MAX) + 1, unlimited),
        Err(Error::Invalid(InvalidValue::ColorOperationCount(u64::from(u32::MAX) + 1)))
    );
    let short = ColorFilterOperationBufferLimits { max_buffer_size: 47, ..unlimited };
    assert_eq!(
        color_filter_operation_byte_len(1, short),
        Err(Error::Invalid(InvalidValue::ColorOperationByteLength(48)))
    );
    assert_eq!(
        InvalidValue::ColorOperationByteLength(48).field(),
        "color filter operation buffer byte length"
    );
}

#[test]
fn color_runs_are_observed_in_order() {
    let filters = filter_graph(CLEAR);
    assert_eq!(color_pass_indices(&filters), [1, 8]);
    let operations = runtime_color_operations(&filters).unwrap();
    let tags: Vec<RuntimeColorOperationTag> =
        operations.iter().map(|operation| operation.tag).collect();
    assert_eq!(tags, [RuntimeColorOperationTag::Sepia, RuntimeColorOperationTag::Invert]);
    let (layers, _) = layer_graph(BlendMode::Normal);
    assert_eq!(
        runtime_color_operations(&layers).err(),
        Some(Error::Lowering(LoweringFailure::ColorOperationsMissing))
    );
    let observation = color_filter_graph_observation(&filters, 2, true).unwrap();
    assert_eq!(
        observation.operation_tags_by_run,
        vec![vec![RuntimeColorOperationTag::Sepia], vec![RuntimeColorOperationTag::Invert]]
    );
    assert!(observation.every_run_has_one_source_and_distinct_result);
    assert!(observation.every_run_preserves_exact_spatial_descriptor);
    assert!(observation.every_operation_retains_one_clamp);
    assert!(!observation.current_resource_advances_after_each_run);
    assert!(observation.dependencies_and_last_use_are_exact);
    assert!(observation.closed_color_facts_match_runtime_passes);
    let unbound = filters.replacing_result(1, RuntimeResultBinding::Empty);
    assert!(color_filter_graph_observation(&unbound, 2, true).is_none());
    assert_eq!(
        single_color_run(&filters).err(),
        Some(Error::Lowering(LoweringFailure::ColorFilterRunNotUnique))
    );
    assert_eq!(single_color_run(&filters.without_pass(8)), Ok((1, true)));
}

#[test]
fn filter_passes_follow_the_filters() {
    let steps = vec![FilterStep::Blur, FilterStep::Color, FilterStep::DropShadow];
    let both = c11_filter_pass_tags(&steps);
    let mut parts = c11_filter_pass_tags(&steps[..1].to_vec());
    parts.extend(c11_filter_pass_tags(&steps[1..].to_vec()));
    assert_eq!(both, parts);
    assert_eq!(
        both,
        [
            C11FilterPassTag::BlurHorizontalRgba,
            C11FilterPassTag::BlurVerticalRgba,
            C11FilterPassTag::Color,
            C11FilterPassTag::BlurHorizontalSourceAlpha,
            C11FilterPassTag::BlurVerticalSourceAlpha,
            C11FilterPassTag::DropShadowColorize,
            C11FilterPassTag::DropShadowMerge,
        ]
    );
}

#[test]
fn spatial_filters_are_exact() {
    let closed = closed_filters(CLEAR);
    let observation = c11_filter_graph_observation(&closed, true);
    assert_eq!(observation.pass_order.len(), 8);
    assert!(observation.ordinary_blur_uses_transparent_black);
    assert!(observation.drop_shadow_uses_source_alpha_and_continuous_offset);
    assert!(observation.spatial_mappings_are_exact);
    assert!(observation.sources_and_results_are_distinct);
    assert!(observation.source_alpha_fanout_reads_original_twice);
    assert!(observation.original_source_releases_only_after_merge);
    assert!(observation.dependencies_and_last_use_are_exact);
    assert!(c11_filter_step_shape_is_exact(&closed));
    assert!(!c11_dependencies_and_lifetimes_are_exact(&closed, false));
}

#[test]
fn broken_spatial_filters_are_noticed() {
    assert!(!c11_blur_edges_are_exact(&closed_filters(mirror())));
    let mut moved = closed_filters(CLEAR);
    moved.lowered.resources[2].spatial.device_x = 1;
    assert!(!c11_spatial_mappings_are_exact(&moved));
    let mut read_once = closed_filters(CLEAR);
    read_once.lowered.passes[7].reads.pop();
    assert!(!c11_shadow_fanout_is_exact(&read_once));
    let mut early = closed_filters(CLEAR);
    early.lowered.passes[4].releases.push(RuntimeResourceId(3));
    assert!(!c11_shadow_releases_are_exact(&early));
    let mut forward = closed_filters(CLEAR);
    forward.lowered.passes[2].dependencies = vec![RuntimePassId(3)];
    assert!(!c11_dependencies_and_lifetimes_are_exact(&forward, true));
    let mut reordered = closed_filters(CLEAR);
    reordered.filter_steps.swap(0, 1);
    assert!(!c11_filter_step_shape_is_exact(&reordered));
}

#[test]
fn wanted_passes_are_found_first_and_last() {
    let filters = filter_graph(CLEAR);
    assert_eq!(find_wanted(&filters, WantedPass::ColorRun), Some(1));
    assert_eq!(find_last_wanted(&filters, WantedPass::ColorRun), Some(8));
    assert_eq!(find_wanted(&filters, WantedPass::Present), None);
    let indices = C11PassIndices::try_new(&filters).unwrap();
    assert_eq!(
        (
            indices.color,
            indices.blur_horizontal,
            indices.shadow_horizontal,
            indices.shadow_colorize,
            indices.shadow_merge
        ),
        (1, 2, 4, 6, 7)
    );
    assert!(C11PassIndices::try_new(&filters.without_pass(6)).is_none());
}

fn same(plan: &LoweredGraphPlan, other: &LoweredGraphPlan) -> bool {
    format!("{:?}", plan) == format!("{:?}", other)
}

#[test]
fn malformed_filter_graphs_are_told_from_the_exact_one() {
    let filters = filter_graph(CLEAR);
    let stale = RuntimePassId(99);
    let exact = |plan: &LoweredGraphPlan| same(plan, &filters).then_some(closed_filters(CLEAR));
    let lenient = |_: &LoweredGraphPlan| Some(closed_filters(CLEAR));
    let refused = c11_malformed_plan_observation(&filters, stale, &exact).unwrap();
    assert!(refused.empty_missing_spatial);
    assert!(refused.axes_inputs_edges_aliases);
    assert!(refused.copy_stale_forward_c12);
    let accepted = c11_malformed_plan_observation(&filters, stale, &lenient).unwrap();
    assert!(!accepted.empty_missing_spatial);
    assert!(!accepted.axes_inputs_edges_aliases);
    assert!(!accepted.copy_stale_forward_c12);
    assert!(c11_malformed_plan_observation(&filters.without_pass(7), stale, &exact).is_none());
    let idle = DeviceHoldings { resources: 1, cached_passes: 2 };
    let busy = DeviceHoldings { resources: 3, ..idle };
    let lower = |_: WorkingFormat, _: Format| Some(filters.duplicate());
    // The stale generation is that of the color pass.
    let stale_of = |pass: RuntimePassId| (pass == filters.passes[1].id).then_some(stale);
    let observation =
        c11_executable_graph_observation(&lower, &exact, &stale_of, idle, idle).unwrap();
    assert!(observation.accepts_color_blur_and_drop_shadow_for_all_formats);
    assert!(observation.preserves_ordered_nonzero_filter_steps);
    assert!(observation.rejects_before_resource_acquisition);
    let partial = |working: WorkingFormat, _: Format| {
        Some(if working == WorkingFormat::HighPrecision {
            filters.duplicate()
        } else {
            filters.without_pass(0)
        })
    };
    let observation =
        c11_executable_graph_observation(&partial, &exact, &stale_of, idle, busy).unwrap();
    assert!(!observation.accepts_color_blur_and_drop_shadow_for_all_formats);
    assert!(!observation.rejects_before_resource_acquisition);
    let missing = |working: WorkingFormat, output: Format| {
        (working == WorkingFormat::HighPrecision || output == Format::Rgba8)
            .then_some(filters.duplicate())
    };
    assert!(c11_executable_graph_observation(&missing, &exact, &stale_of, idle, idle).is_none());
    let open = |_: &LoweredGraphPlan| None;
    assert!(c11_executable_graph_observation(&lower, &open, &stale_of, idle, idle).is_none());
    let fresh = |_: RuntimePassId| None;
    assert!(c11_executable_graph_observation(&lower, &exact, &fresh, idle, idle).is_none());
}

#[test]
fn graphs_are_lowered_for_every_pair_of_formats() {
    let lower = |working: WorkingFormat, output: Format| lowered_filters(working, output, BOTH).ok();
    let plans = lower_for_every_format(&lower).unwrap();
    let formats: Vec<Formats> =
        plans.iter().map(|plan| (plan.working_format, plan.output_format)).collect();
    let (high, reduced) = (WorkingFormat::HighPrecision, WorkingFormat::ReducedPrecision);
    assert_eq!(
        formats,
        [
            (high, Format::Rgba8),
            (high, Format::Bgra8),
            (reduced, Format::Rgba8),
            (reduced, Format::Bgra8)
        ]
    );
    let partial = |working: WorkingFormat, output: Format| {
        (working == high || output == Format::Bgra8).then_some(filter_graph(CLEAR))
    };
    assert!(lower_for_every_format(&partial).is_none());
}

type Eligible = Result<ExecutableGraphDispatchEligibility<u8>, Error>;

#[test]
fn malformed_layer_graphs_are_told_from_the_exact_one() {
    let (layers, _) = layer_graph(BlendMode::Screen);
    let bare = layers.without_pass(4);
    let color = Some(PrePreparationGraphClassification::ExactC10);
    let exact: Eligible = Ok(ExecutableGraphDispatchEligibility::ExactC09(1));
    let close = |plan: &LoweredGraphPlan| {
        let mut closed = closed_layers(BlendMode::Screen);
        if same(plan, &bare) {
            closed.layer_compositions.clear();
        } else if !same(plan, &layers) {
            return None;
        }
        Some(closed)
    };
    let spine = |_: WorkingFormat, _: Format| Some(bare.duplicate());
    let layered = |_: WorkingFormat, _: Format| Some(layers.duplicate());
    let observation =
        c09_executable_graph_observation(&spine, &layered, color, &exact, &close).unwrap();
    assert!(observation.accepts_spine_and_layer_composition_for_all_formats);
    assert!(observation.layer_composition_reads_are_exact);
    assert!(observation.rejects_c10_plus_passes_and_payloads);
    assert!(observation.rejects_missing_payloads);
    assert!(observation.rejects_malformed_graph_facts);
    assert!(observation.rejects_unsupported_output_binding);
    assert!(observation.preserves_exact_c09_dispatch);
    // A color graph that is taken for layers, a dispatch that is refused, and one format that a
    // spine does not lower to.
    let refused: Eligible = Err(Error::UnsupportedBackend);
    let partial = |working: WorkingFormat, output: Format| {
        (working == WorkingFormat::HighPrecision || output == Format::Rgba8)
            .then_some(bare.duplicate())
    };
    let exact09 = Some(PrePreparationGraphClassification::ExactC09);
    let observation =
        c09_executable_graph_observation(&partial, &layered, exact09, &refused, &close)
            .unwrap();
    assert!(!observation.accepts_spine_and_layer_composition_for_all_formats);
    assert!(!observation.rejects_c10_plus_passes_and_payloads);
    assert!(!observation.preserves_exact_c09_dispatch);
    assert!(observation.layer_composition_reads_are_exact);
    // Layers in place of the spine are not accepted.
    let swapped =
        c09_executable_graph_observation(&layered, &layered, color, &exact, &close).unwrap();
    assert!(!swapped.accepts_spine_and_layer_composition_for_all_formats);
    let lenient = c09_executable_graph_observation(
        &spine,
        &layered,
        color,
        &exact,
        &|_: &LoweredGraphPlan| Some(closed_layers(BlendMode::Screen)),
    )
    .unwrap();
    assert!(!lenient.rejects_malformed_graph_facts);
    assert!(!lenient.rejects_missing_payloads);
    assert!(!lenient.accepts_spine_and_layer_composition_for_all_formats);
    // Nothing is observed of layers that do not close or do not lower, or without a color graph.
    let open = |_: &LoweredGraphPlan| None;
    assert_eq!(
        c09_executable_graph_observation(&spine, &layered, color, &exact, &open),
        None
    );
    let unlowered = |_: WorkingFormat, _: Format| None;
    assert_eq!(
        c09_executable_graph_observation(&spine, &unlowered, color, &exact, &close),
        None
    );
    assert_eq!(c09_executable_graph_observation(&spine, &layered, None, &exact, &close), None);
}

#[test]
fn malformed_color_graphs_are_told_from_the_exact_one() {
    let passes = vec![
        pass(0, RuntimePassKind::CanonicalizeCapture, Vec::new(), &[]),
        color(1, 0, RuntimeColorOperationTag::Sepia),
        color(2, 1, RuntimeColorOperationTag::Invert),
    ];
    let colors = plan(passes, vec![image(0, 1, 1), image(1, 1, 2), image(2, 1, 3)]);
    let filters = filter_graph(CLEAR);
    let lower = |_: WorkingFormat, _: Format| Some(colors.duplicate());
    let other = |_: WorkingFormat, _: Format| Some(filters.duplicate());
    let future: Eligible = Ok(ExecutableGraphDispatchEligibility::FuturePasses);
    let closes = |plan: &LoweredGraphPlan| same(plan, &colors);
    let observation =
        c10_executable_graph_observation(2, &lower, &other, &other, &future, &closes).unwrap();
    assert!(observation.accepts_spine_composition_and_color_for_all_formats);
    assert!(observation.preserves_public_c09_dispatch_boundary);
    assert!(observation.accepts_multiple_ordered_color_runs);
    assert!(observation.rejects_empty_missing_and_malformed_color_facts);
    assert!(observation.rejects_copy_blur_shadow_and_drop_shadow_composite);
    assert!(observation.rejects_unsupported_output);
    let exact: Eligible = Ok(ExecutableGraphDispatchEligibility::ExactC09(1));
    let mixed = |working: WorkingFormat, _: Format| {
        Some(if working == WorkingFormat::HighPrecision { &colors } else { &filters }.duplicate())
    };
    let observation =
        c10_executable_graph_observation(3, &mixed, &other, &other, &exact, &closes).unwrap();
    assert!(!observation.accepts_spine_composition_and_color_for_all_formats);
    assert!(!observation.preserves_public_c09_dispatch_boundary);
    assert!(!observation.accepts_multiple_ordered_color_runs);
    // A color graph, a blur or a drop shadow that does not lower leaves nothing to observe.
    let none = |_: WorkingFormat, _: Format| None;
    assert!(c10_executable_graph_observation(2, &none, &other, &other, &exact, &closes).is_none());
    assert!(c10_executable_graph_observation(2, &lower, &none, &other, &exact, &closes).is_none());
    assert!(c10_executable_graph_observation(2, &lower, &other, &none, &exact, &closes).is_none());
    let runs = color_filter_graph_observation(&colors, 2, true).unwrap();
    assert!(runs.current_resource_advances_after_each_run);
}

/// A backdrop that is copied, filtered, composited, covered and followed by a sibling.
fn backdrop_graph() -> ClosedExecutableGraph {
    let edge = mirror();
    let horizontal = blur(RuntimeBlurAxis::Horizontal, RuntimeBlurInput::Rgba, edge);
    let vertical = blur(RuntimeBlurAxis::Vertical, RuntimeBlurInput::Rgba, edge);
    let clipped = layer(BlendMode::Normal, None, Some(30));
    let plain = layer(BlendMode::Normal, None, None);
    let composite = |id: u64, kind: RuntimeComposite, parent: u64, source: u64| {
        pass(
            id,
            RuntimePassKind::Composite(Some(kind)),
            vec![
                read(RuntimeReadRole::CompositeParent, parent, RuntimeSamplingEdge::ClampToExtent),
                read(RuntimeReadRole::CompositeSource, source, CLEAR),
            ],
            &[],
        )
    };
    let passes = vec![
        pass(0, clear(RuntimeInitialization::SurfaceBaseColor, 1.0), Vec::new(), &[]),
        pass(
            1,
            RuntimePassKind::CopyBackdrop,
            vec![read(RuntimeReadRole::CompletedParent, 0, RuntimeSamplingEdge::ClampToExtent)],
            &[],
        ),
        blur_pass(2, 1, &[1], horizontal),
        blur_pass(3, 2, &[2], vertical),
        composite(4, clipped, 0, 3),
        composite(5, plain, 4, 3),
        composite(6, plain, 0, 5),
        composite(7, plain, 6, 3),
    ];
    let resources = (0..8).map(|id| image(id, 1, id + 1)).collect();
    let facts = |pass: u64, composite: RuntimeComposite| LayerCompositionFacts {
        pass: RuntimePassId(pass),
        parent: RuntimeResourceId(0),
        source: RuntimeResourceId(3),
        clip_coverage: None,
        alpha_mask: None,
        composite,
    };
    ClosedExecutableGraph {
        lowered: plan(passes, resources),
        layer_compositions: vec![facts(4, clipped), facts(5, plain), facts(6, plain)],
        color_filters: Vec::new(),
        blurs: vec![BlurFacts {
            horizontal: RuntimePassId(2),
            vertical: RuntimePassId(3),
            source: RuntimeResourceId(1),
            intermediate: RuntimeResourceId(2),
            result: RuntimeResourceId(3),
            blur: horizontal,
        }],
        drop_shadows: Vec::new(),
        filter_steps: vec![FilterStep::Blur],
        backdrops: vec![BackdropFacts {
            copy: RuntimePassId(1),
            backdrop_composite: RuntimePassId(4),
            foreground_composite: Some(RuntimePassId(5)),
            outer_composite: RuntimePassId(6),
            completed_parent: RuntimeResourceId(0),
            copied: RuntimeResourceId(1),
            result: RuntimeResourceId(6),
            filter_passes: vec![RuntimePassId(2), RuntimePassId(3)],
        }],
    }
}

#[test]
fn backdrops_are_copied_filtered_and_covered_in_order() {
    let closed = backdrop_graph();
    let observation = c12_backdrop_graph_observation(&closed, true).unwrap();
    assert!(observation.closed_subset_receipt);
    assert!(observation.reads_completed_parent_once);
    assert!(observation.copy_precedes_authored_filters);
    assert!(observation.post_filter_clip_precedes_foreground);
    assert!(observation.foreground_precedes_outer_composition);
    assert!(observation.later_sibling_depends_on_completed_group);
    let mut late = backdrop_graph();
    late.lowered.passes.swap(1, 3);
    let observation = c12_backdrop_graph_observation(&late, true).unwrap();
    assert!(!observation.copy_precedes_authored_filters);
    let mut lonely = backdrop_graph();
    lonely.lowered.passes.pop();
    assert!(!c12_backdrop_graph_observation(&lonely, true).unwrap().later_sibling_depends_on_completed_group);
    lonely.backdrops.clear();
    assert!(c12_backdrop_graph_observation(&lonely, true).is_none());
}

#[test]
fn backdrop_filters_mirror_at_bounds_that_a_shader_holds() {
    let closed = backdrop_graph();
    let bound = BlurPassFacts {
        bindings: SourcePassFacts {
            working_format: TextureFormatKey::Working(WorkingFormat::HighPrecision),
            source_role: RuntimeReadRole::FilterSource,
            source_format: TextureFormatKey::Working(WorkingFormat::HighPrecision),
            target_format: TextureFormatKey::Working(WorkingFormat::HighPrecision),
            has_only_expected_sampler: true,
            has_exact_data_bindings: true,
        },
        horizontal: true,
        source_alpha: false,
    };
    let edge = BlurEdgeParameters {
        x: single(0.0),
        y: single(0.0),
        width: single(8.0),
        height: single(8.0),
    };
    let request = |format: WorkingFormat| {
        assert_eq!(format, WorkingFormat::HighPrecision);
        Ok(vec![C12BackdropBlurCacheRequest {
            keys: keys(1).unwrap(),
            horizontal: true,
            source_alpha: false,
            semantic_bounds: rect(),
            read_edge: mirror(),
            edge_parameters: edge,
        }])
    };
    let held = |_: Rect| Ok(edge);
    let found = |_: RuntimePassCacheKeys| Some(bound);
    let chain = c12_backdrop_filter_chain_observation(&closed, &request, &found, &held).unwrap();
    assert!(chain.every_backdrop_blur_uses_mirror);
    assert!(chain.semantic_bounds_are_exact);
    assert!(chain.every_mirrored_stage_is_realizable);
    assert!(!chain.source_alpha_blur_uses_mirror);
    let unheld = |_: Rect| Err(Error::UnsupportedBackend);
    let rounded = c12_backdrop_filter_chain_observation(&closed, &request, &found, &unheld).unwrap();
    assert!(!rounded.semantic_bounds_are_exact);
    let lost = |_: RuntimePassCacheKeys| None;
    let unbound = c12_backdrop_filter_chain_observation(&closed, &request, &lost, &held).unwrap();
    assert!(!unbound.every_mirrored_stage_is_realizable && unbound.semantic_bounds_are_exact);
    let refused = |_: WorkingFormat| Err(Error::UnsupportedBackend);
    assert!(c12_backdrop_filter_chain_observation(&closed, &refused, &found, &held).is_none());
    let mut plain = backdrop_graph();
    plain.blurs.clear();
    let chain = c12_backdrop_filter_chain_observation(&plain, &request, &found, &held).unwrap();
    assert!(!chain.semantic_bounds_are_exact && !chain.every_backdrop_blur_uses_mirror);
}

type Planned = Result<FramePlan<u8, u64>, Error>;

/// Lowers a graph that stands for the number of passes that are cut from a plan.
fn lowering(
    plan: LoweredGraphPlan,
) -> impl Fn(&u64, WorkingFormat, Format, DeviceCapabilities) -> Result<LoweredGraphPlan, Error> {
    move |graph: &u64, working_format: WorkingFormat, output_format: Format, _: DeviceCapabilities| {
        let mut lowered = plan.duplicate();
        lowered.passes.truncate(plan.passes.len() - *graph as usize);
        Ok(LoweredGraphPlan { working_format, output_format, ..lowered })
    }
}

fn planned(graph: u64) -> Planned {
    Ok(FramePlan::GpuGraph(Vec::new(), graph))
}

#[test]
fn color_requests_are_made_of_planned_frames() {
    let passes = vec![
        pass(0, RuntimePassKind::CanonicalizeCapture, Vec::new(), &[]),
        color(1, 0, RuntimeColorOperationTag::Sepia),
    ];
    let colors = plan(passes, vec![image(0, 1, 1), image(1, 1, 2)]);
    let lower = lowering(colors);
    let high = WorkingFormat::HighPrecision;
    let keys = c10_color_filter_cache_requests_planned(&planned(0), high, BOTH, &lower).unwrap();
    assert_eq!(keys[0].pipeline, 1);
    assert_eq!(
        c10_color_filter_cache_requests_planned(&planned(1), high, BOTH, &lower).err(),
        Some(Error::Lowering(LoweringFailure::ColorFilterRequestNotUnique))
    );
    let operations = runtime_color_operations_planned(&planned(0), BOTH, &lower).unwrap();
    assert_eq!(operations, [operation(RuntimeColorOperationTag::Sepia)]);
    assert_eq!(
        runtime_color_operations_planned(&planned(1), BOTH, &lower).err(),
        Some(Error::Lowering(LoweringFailure::ColorOperationsMissing))
    );
    let (run, clamps) = single_color_run_planned(&planned(0), BOTH, &lower).unwrap();
    assert_eq!((run, clamps), (operations, true));
    assert_eq!(
        single_color_run_planned(&planned(1), BOTH, &lower).err(),
        Some(Error::Lowering(LoweringFailure::ColorFilterRunNotUnique))
    );
    let direct: Planned = Ok(FramePlan::DirectVello(1));
    let failed: Planned = Err(Error::SurfaceOutdated);
    let unplanned = |failure: LoweringFailure| Some(Error::Lowering(failure));
    assert_eq!(
        c10_color_filter_cache_requests_planned(&direct, high, BOTH, &lower).err(),
        unplanned(LoweringFailure::ColorFilterNotPlanned)
    );
    assert_eq!(
        runtime_color_operations_planned(&direct, BOTH, &lower).err(),
        unplanned(LoweringFailure::ColorOperationsNotPlanned)
    );
    assert_eq!(
        single_color_run_planned(&direct, BOTH, &lower).err(),
        unplanned(LoweringFailure::OperationBytesNotPlanned)
    );
    assert_eq!(
        single_color_run_planned(&failed, BOTH, &lower).err(),
        Some(Error::SurfaceOutdated)
    );
    assert_eq!(
        LoweringFailure::ColorFilterNotPlanned.message(),
        "the C10 color-filter cache fixture did not produce a GPU graph"
    );
}

fn as_class(
    class: PrePreparationGraphClassification,
) -> impl Fn(LoweredGraphPlan) -> ClassifiedGraph<LoweredGraphPlan> {
    move |graph| ClassifiedGraph { class, facts_are_proven: true, graph }
}

#[test]
fn filter_requests_are_made_of_authored_graphs() {
    let high = WorkingFormat::HighPrecision;
    let lower = |working: WorkingFormat, output: Format, capabilities: DeviceCapabilities| {
        lowered_filters(working, output, capabilities).ok()
    };
    let none = |_: WorkingFormat, _: Format, _: DeviceCapabilities| None;
    let exact = as_class(PrePreparationGraphClassification::ExactC11);
    let other = as_class(PrePreparationGraphClassification::ExactC10);
    let blurs = c11_blur_cache_requests_planned(high, BOTH, &lower, &exact).unwrap();
    assert_eq!(blurs.iter().map(|keys| keys.pipeline).collect::<Vec<_>>(), [2, 3, 4, 5]);
    let shadow = c11_drop_shadow_cache_requests_planned(high, BOTH, &lower, &exact).unwrap();
    assert_eq!((shadow.colorize.pipeline, shadow.merge.pipeline), (6, 7));
    let outside = Some(Error::Preparation(PreparationFailure::OutsideSpatialFilterGraph));
    assert_eq!(c11_blur_cache_requests_planned(high, BOTH, &lower, &other).err(), outside);
    assert_eq!(c11_drop_shadow_cache_requests_planned(high, BOTH, &lower, &other).err(), outside);
    assert_eq!(
        c11_blur_cache_requests_planned(high, BOTH, &none, &exact).err(),
        Some(Error::Lowering(LoweringFailure::BlurNotPlanned))
    );
    assert_eq!(
        c11_drop_shadow_cache_requests_planned(high, BOTH, &none, &exact).err(),
        Some(Error::Lowering(LoweringFailure::DropShadowNotPlanned))
    );
}

#[test]
fn backdrop_requests_are_made_of_planned_frames() {
    let high = WorkingFormat::HighPrecision;
    let exact = as_class(PrePreparationGraphClassification::ExactC12);
    let other = as_class(PrePreparationGraphClassification::ExactC09);
    let direct: Planned = Ok(FramePlan::DirectVello(1));
    let copies = lowering(copy_graph());
    let copy =
        c12_copy_backdrop_cache_request_planned(&planned(0), high, BOTH, &copies, &exact).unwrap();
    assert!(copy.source_and_result_are_distinct && copy.keys.pipeline == 1);
    for (frame, classify, failure) in [
        (planned(1), &exact, LoweringFailure::BackdropCopyNotUnique),
        (direct, &exact, LoweringFailure::BackdropCopyNotPlanned),
    ] {
        assert_eq!(
            c12_copy_backdrop_cache_request_planned(&frame, high, BOTH, &copies, classify).err(),
            Some(Error::Lowering(failure))
        );
    }
    assert_eq!(
        c12_copy_backdrop_cache_request_planned(&planned(0), high, BOTH, &copies, &other).err(),
        Some(Error::Lowering(LoweringFailure::OutsideBoundedGraph))
    );
    let blurs = lowering(filter_graph(mirror()));
    let edge = BlurEdgeParameters {
        x: single(0.0),
        y: single(0.0),
        width: single(8.0),
        height: single(8.0),
    };
    let held = |bounds: Rect| {
        assert!(bounds.same_as(rect()));
        Ok(edge)
    };
    let requests =
        c12_backdrop_blur_cache_requests_planned(&planned(0), high, BOTH, &blurs, &exact, &held)
            .unwrap();
    assert_eq!(requests.len(), 4);
    assert!(requests.iter().all(|request| request.edge_parameters == edge));
    let unheld = |_: Rect| Err(Error::SurfaceOutdated);
    assert_eq!(
        c12_backdrop_blur_cache_requests_planned(&planned(0), high, BOTH, &blurs, &exact, &unheld)
            .err(),
        Some(Error::SurfaceOutdated)
    );
    let direct: Planned = Ok(FramePlan::DirectVello(1));
    assert_eq!(
        c12_backdrop_blur_cache_requests_planned(&direct, high, BOTH, &blurs, &exact, &held).err(),
        Some(Error::Lowering(LoweringFailure::MirroredBlurNotPlanned))
    );
}

#[test]
fn composite_requests_are_made_of_planned_frames() {
    let (multiply, _) = layer_graph(BlendMode::Multiply);
    let high = WorkingFormat::HighPrecision;
    let lower = lowering(multiply);
    // The keys of a pass are derived with its blend made normal.
    let normal_of = |_: &LoweredGraphPlan, position: usize, kind: RuntimePassKind| {
        assert_eq!(position, 4);
        let normal = layer(BlendMode::Normal, Some(20), Some(3));
        assert!(kind == RuntimePassKind::Composite(Some(normal)));
        Ok(keys(40))
    };
    let frames = vec![planned(0), planned(1), planned(0)];
    let requested =
        c09_composite_cache_requests_planned(&frames, high, BOTH, &lower, &normal_of).unwrap();
    assert_eq!(requested.iter().map(|keys| keys.pipeline).collect::<Vec<_>>(), [4, 40]);
    let requests = |frames: Vec<Planned>| {
        c09_composite_cache_requests_planned(&frames, high, BOTH, &lower, &normal_of).err()
    };
    let direct = || -> Planned { Ok(FramePlan::DirectVello(1)) };
    assert_eq!(
        requests(vec![planned(0), direct()]),
        Some(Error::Lowering(LoweringFailure::CompositeNotPlanned))
    );
    // The failures come in the order of the frames.
    assert_eq!(
        requests(vec![planned(2), direct()]),
        Some(Error::Lowering(LoweringFailure::LayerCompositeKeysMissing))
    );
    assert_eq!(
        requests(vec![Err(Error::SurfaceOutdated), planned(2)]),
        Some(Error::SurfaceOutdated)
    );
    assert_eq!(
        requests(Vec::new()),
        Some(Error::Lowering(LoweringFailure::CompositeVariantsMissing))
    );
    let lost = |_: &LoweredGraphPlan, _: usize, _: RuntimePassKind| Ok(None);
    assert_eq!(
        c09_composite_cache_requests_planned(&frames, high, BOTH, &lower, &lost).err(),
        Some(Error::Lowering(LoweringFailure::NormalPathKeysLost))
    );
}

#[test]
fn malformed_backdrops_are_told_from_the_exact_one() {
    let exact = backdrop_graph().lowered;
    let idle = DeviceHoldings { resources: 0, cached_passes: 0 };
    let closes = |plan: &LoweredGraphPlan| same(plan, &exact);
    let lower = |_: WorkingFormat, _: Format| Some(exact.duplicate());
    let bound: Eligible = Ok(ExecutableGraphDispatchEligibility::ExactC12(1));
    let observation =
        c12_executable_graph_observation(&lower, &bound, idle, idle, &closes).unwrap();
    assert!(observation.accepts_bounded_top_level_backdrop);
    assert!(observation.rejects_outside_bounded_subset);
    assert!(observation.rejects_before_resource_acquisition);
    let other: Eligible = Ok(ExecutableGraphDispatchEligibility::ExactC09(1));
    let elsewhere =
        c12_executable_graph_observation(&lower, &other, idle, idle, &closes).unwrap();
    assert!(!elsewhere.accepts_bounded_top_level_backdrop);
    let partial = |_: WorkingFormat, output: Format| {
        (output == Format::Rgba8).then_some(exact.duplicate())
    };
    assert!(c12_executable_graph_observation(&partial, &bound, idle, idle, &closes).is_none());
}

#[test]
fn masks_are_collected_inner_to_outer() {
    let commands = vec![
        RenderCommand::Draw,
        RenderCommand::Layer {
            mask: Some(1),
            children: vec![
                RenderCommand::Layer { mask: Some(2), children: vec![RenderCommand::Draw] },
                RenderCommand::Layer { mask: None, children: Vec::new() },
            ],
        },
        RenderCommand::Layer { mask: Some(3), children: Vec::new() },
    ];
    assert_eq!(resolved_mask_image_ids_inner_to_outer(&commands), [2, 1, 3]);
}

#[test]
fn layers_are_observed_with_their_outer_operations() {
    let closed = closed_layers(BlendMode::Overlay);
    assert!(c09_layer_composition_reads_are_exact(&closed));
    let commands = vec![RenderCommand::Layer { mask: Some(77), children: Vec::new() }];
    let observation = composition_graph_observation(&commands, &closed).unwrap();
    assert!(observation.mask_identity_is_preserved);
    assert_eq!(observation.clears.root_surface_base_clears, 1);
    let observed = &observation.layers_inner_to_outer[0];
    assert_eq!(observed.blend, BlendMode::Overlay);
    assert!(observed.has_own_clip);
    assert_eq!(
        observed.reads,
        [
            CompositionRead::Parent,
            CompositionRead::Source,
            CompositionRead::ClipCoverage,
            CompositionRead::AlphaMask
        ]
    );
    assert_eq!(
        observed.outer_operations,
        [
            CompositionOuterOperation::SourceMapping,
            CompositionOuterOperation::ClipCoverage,
            CompositionOuterOperation::AlphaMask,
            CompositionOuterOperation::Opacity,
            CompositionOuterOperation::Blend
        ]
    );
    let other = vec![RenderCommand::Layer { mask: Some(78), children: Vec::new() }];
    assert!(!composition_graph_observation(&other, &closed).unwrap().mask_identity_is_preserved);
    let mut unclipped = closed_layers(BlendMode::Overlay);
    unclipped.layer_compositions[0].clip_coverage = None;
    assert!(!c09_layer_composition_reads_are_exact(&unclipped));
    assert!(composition_graph_observation(&commands, &unclipped).is_none());
}

#[test]
fn planned_layers_are_observed_where_they_close() {
    let (layers, _) = layer_graph(BlendMode::Overlay);
    let commands = vec![RenderCommand::Layer { mask: Some(77), children: Vec::new() }];
    let lower = |graph: &u64, working: WorkingFormat, output: Format| {
        assert_eq!((working, output), (WorkingFormat::HighPrecision, Format::Rgba8));
        if *graph == 0 {
            Ok(layers.duplicate())
        } else {
            Err(Error::UnsupportedBackend)
        }
    };
    let close = |plan: &LoweredGraphPlan| {
        same(plan, &layers).then_some(closed_layers(BlendMode::Overlay))
    };
    let open = |_: &LoweredGraphPlan| None;
    let observe = |closed: &ClosedExecutableGraph| composition_graph_observation(&commands, closed);
    let observation = observe_closed(&planned(0), &lower, &close, &observe).unwrap();
    assert!(observation.mask_identity_is_preserved);
    assert!(observe_closed(&planned(1), &lower, &close, &observe).is_none());
    assert!(observe_closed(&planned(0), &lower, &open, &observe).is_none());
    let direct: Planned = Ok(FramePlan::DirectVello(1));
    assert!(observe_closed(&direct, &lower, &close, &observe).is_none());
    let failed: Planned = Err(Error::SurfaceOutdated);
    assert!(observe_closed(&failed, &lower, &close, &observe).is_none());
}

#[test]
fn clears_are_told_apart() {
    let passes = vec![
        pass(0, clear(RuntimeInitialization::SurfaceBaseColor, 1.0), Vec::new(), &[]),
        pass(1, clear(RuntimeInitialization::Transparent, 0.0), Vec::new(), &[]),
        pass(2, clear(RuntimeInitialization::Transparent, -0.0), Vec::new(), &[]),
        pass(3, clear(RuntimeInitialization::Transparent, 0.5), Vec::new(), &[]),
    ];
    let observation = composition_clear_observation(&plan(passes, vec![image(0, 1, 1)]));
    assert_eq!(observation.root_surface_base_clears, 1);
    assert!(observation.root_surface_base_color.unwrap().alpha.is_one());
    assert_eq!(observation.transparent_isolation_clears, 2);
    assert_eq!(observation.nontransparent_isolation_clears, 1);
}

#[test]
fn clip_coverage_is_captured_into_its_own_image() {
    let (layers, _) = layer_graph(BlendMode::Normal);
    let scene = CoverageScene {
        emitted_draws: 1,
        transparent_base: true,
        antialiasing: Antialiasing::Msaa8,
        target_extent: PhysicalSize::new(8, 8),
    };
    let work = |target: u64, elements: Option<Vec<ClipElement>>| CapturedWork {
        target: RuntimeResourceId(target),
        elements,
        antialiasing: Antialiasing::Msaa8,
        target_extent: PhysicalSize::new(8, 8),
        texel_x: scalar(0.0),
        texel_y: scalar(0.0),
        raster_scale: scalar(1.0),
        initial_transform: identity(),
    };
    let element = || ClipElement { clip: 6, transform: identity() };
    let two = || Some(vec![element(), element()]);
    let captures = vec![work(1, None), work(3, Some(vec![element()])), work(3, two())];
    // A coverage of two elements is not encoded.
    let encode = |work: &CapturedWork| match &work.elements {
        Some(elements) => (elements.len() == 1).then_some(scene),
        None => panic!("a span has no coverage to encode"),
    };
    let observation = graph_clip_coverage_observation(&layers, &captures, &encode);
    assert_eq!(observation.all_vello_capture_count, 2);
    assert_eq!(observation.composite_coverage_read_count, 1);
    assert_eq!(observation.captures.len(), 1);
    assert!(observation.captures[0].uses_coverage_resource_role);
    assert!(observation.captures[0].uses_rgba8_target);
    assert_eq!(observation.captures[0].elements.len(), 1);
}

#[test]
fn masks_are_uploaded_at_their_own_extent() {
    let (layers, _) = layer_graph(BlendMode::Normal);
    assert_eq!(mask_upload_allocation_extents(&layers), [PhysicalSize::new(3, 2)]);
    let mut other = layers.duplicate();
    if let Some(upload) = &mut other.resources[5].import {
        upload.image_id = 78;
        upload.cache_key = 780;
    }
    assert!(mask_pipeline_keys_exclude_image_identity(&layers, &other));
    other.passes[4].cache_keys = keys(99);
    assert!(!mask_pipeline_keys_exclude_image_identity(&layers, &other));
}

#[test]
fn lowering_keeps_resources_and_meanings() {
    let (layers, _) = layer_graph(BlendMode::Normal);
    assert!(runtime_resource_facts_are_exact(&layers, Format::Rgba8, &vec![770], true));
    assert!(!runtime_resource_facts_are_exact(&layers, Format::Rgba8, &vec![770], false));
    assert!(!runtime_resource_facts_are_exact(&layers, Format::Rgba8, &vec![780], true));
    assert!(!runtime_semantic_pass_facts_are_exact(&layers));
    let mut everything = layers;
    everything.passes.extend(filter_graph(CLEAR).passes);
    assert!(runtime_semantic_pass_facts_are_exact(&everything));
}

#[test]
fn diagnostics_name_the_filter_that_is_missing() {
    let primitive = |operation| UnsupportedPrimitive { family: PrimitiveFamily::Filters, operation };
    let color = primitive(PrimitiveOperation::GpuColorFilterExecution);
    let blur = primitive(PrimitiveOperation::GpuBlurFilterExecution);
    let plan = filter_graph(CLEAR);
    let refuses = |_: &LoweredGraphPlan| false;
    let observation = mixed_color_unsupported_diagnostic_observation(
        Ok(Some(color)),
        Ok(Some(blur)),
        &plan,
        &refuses,
    )
    .unwrap();
    assert!(observation.pure_color_retains_gpu_color_diagnostic);
    assert!(observation.color_then_blur_reports_gpu_blur_diagnostic);
    assert!(observation.mixed_graph_stays_outside_c10_preparation);
    let observation = mixed_color_unsupported_diagnostic_observation(
        Ok(Some(blur)),
        Ok(Some(color)),
        &plan,
        &|_: &LoweredGraphPlan| true,
    )
    .unwrap();
    assert!(!observation.pure_color_retains_gpu_color_diagnostic);
    assert!(!observation.color_then_blur_reports_gpu_blur_diagnostic);
    assert!(!observation.mixed_graph_stays_outside_c10_preparation);
    for (color, mixed) in [
        (Ok(None), Ok(Some(blur))),
        (Ok(Some(color)), Err(Error::UnsupportedBackend)),
    ] {
        assert_eq!(
            mixed_color_unsupported_diagnostic_observation(color, mixed, &plan, &refuses),
            None
        );
    }
}

#[test]
fn malformed_plans_differ_from_the_exact_one() {
    let (layers, _) = layer_graph(BlendMode::Normal);
    let filters = filter_graph(CLEAR);
    let indices = C11PassIndices::try_new(&filters).unwrap();
    let stale = RuntimePassId(99);
    let of_layers = c09_malformed_plans(&layers, 1, 2, 4);
    assert_eq!(of_layers.len(), 7);
    let foreign = c09_foreign_plans(&layers).unwrap();
    assert_eq!(foreign.len(), 5);
    assert!(of_layers.iter().chain(&foreign).all(|plan| !same(plan, &layers)));
    let spatial = c11_empty_missing_spatial_plans(&filters, indices).unwrap();
    let axes = c11_axes_inputs_edges_alias_plans(&filters, indices).unwrap();
    let copies = c11_copy_stale_forward_plans(&filters, indices, stale).unwrap();
    assert_eq!((spatial.len(), axes.len(), copies.len()), (5, 6, 4));
    assert!(spatial.iter().chain(&axes).chain(&copies).all(|plan| !same(plan, &filters)));
    let colors = c10_malformed_color_plans(&filters, &vec![1]).unwrap();
    let two_runs = c10_malformed_color_plans(&filters, &vec![1, 8]).unwrap();
    assert_eq!((colors.len(), two_runs.len()), (7, 8));
    assert!(c10_malformed_color_plans(&filters, &Vec::new()).is_none());
    let backdrop = backdrop_graph().lowered;
    let backdrops = c12_malformed_plans(&backdrop).unwrap();
    assert!(backdrops.iter().all(|plan| !same(plan, &backdrop)));
    assert!(c12_malformed_plans(&layers).is_none());
}

#[test]
fn lowering_is_observed_as_a_whole() {
    let (layers, _) = layer_graph(BlendMode::Normal);
    let view = |_: &u64| {
        Ok(LoweredFrom {
            passes: Vec::new(),
            last_uses: Vec::new(),
            imported: vec![770],
            root: RuntimeResourceId(0),
            present: RuntimePassId(5),
        })
    };
    // A graph is its number, and a faulty one is odd.
    let lower = |graph: &u64, _: WorkingFormat, _: Format, capabilities: DeviceCapabilities| {
        if *graph == 0 && capabilities.max_texture_dimension > 1 {
            Ok(layers.duplicate())
        } else {
            Err(Error::UnsupportedBackend)
        }
    };
    let with_fault = |_: &u64, _: GraphLoweringFault| 1;
    let observation =
        runtime_lowering_observation(planned(0), Format::Rgba8, BOTH, &lower, &view, &with_fault)
            .unwrap();
    assert!(!observation.has_exact_closed_vocabulary);
    assert!(observation.preserves_backend_ready_resource_facts);
    assert!(!observation.preserves_semantic_pass_facts);
    assert!(!observation.preserves_topological_bindings);
    assert!(observation.rejects_inconsistent_bindings_atomically);
    assert!(!observation.keys_separate_source_working_and_output_formats);
    let unbounded = |graph: &u64, _: WorkingFormat, _: Format, _: DeviceCapabilities| {
        if *graph == 0 { Ok(layers.duplicate()) } else { Err(Error::UnsupportedBackend) }
    };
    let missed = runtime_lowering_observation(
        planned(0),
        Format::Rgba8,
        BOTH,
        &unbounded,
        &view,
        &with_fault,
    )
    .unwrap();
    assert!(!missed.preserves_backend_ready_resource_facts);
    assert!(missed.rejects_inconsistent_bindings_atomically);
}

#[test]
fn every_lowering_fault_is_tried() {
    let lower = |graph: &Option<GraphLoweringFault>,
                 working: WorkingFormat,
                 output: Format,
                 _: DeviceCapabilities| {
        match graph {
            Some(_) => Err(Error::UnsupportedBackend),
            None => lowered_filters(working, output, BOTH),
        }
    };
    let with_fault = |_: &Option<GraphLoweringFault>, fault: GraphLoweringFault| Some(fault);
    assert!(lowering_faults_are_rejected(&None, BOTH, &lower, &with_fault));
    for accepted in [
        GraphLoweringFault::MissingResourceBinding,
        GraphLoweringFault::DuplicateReadBinding,
        GraphLoweringFault::ForwardDependency,
        GraphLoweringFault::StaleResourceGeneration,
        GraphLoweringFault::InconsistentLastUse,
    ] {
        let without = |_: &Option<GraphLoweringFault>, fault: GraphLoweringFault| {
            (fault != accepted).then_some(fault)
        };
        assert!(!lowering_faults_are_rejected(&None, BOTH, &lower, &without));
    }
}

#[test]
fn failed_lowerings_are_not_observed() {
    let view = |_: &u64| Err(Error::SurfaceOutdated);
    let lower = |graph: &u64, working: WorkingFormat, output: Format, _: DeviceCapabilities| {
        if *graph == 0 {
            lowered_filters(working, output, BOTH)
        } else {
            Err(Error::UnsupportedBackend)
        }
    };
    let with_fault = |_: &u64, _: GraphLoweringFault| 1;
    for (planned, error) in [
        (Err(Error::SurfaceOutdated), Error::SurfaceOutdated),
        (Ok(FramePlan::DirectVello(1u8)), Error::Lowering(LoweringFailure::LoweringNotPlanned)),
        (Ok(FramePlan::GpuGraph(Vec::new(), 1)), Error::UnsupportedBackend),
        (Ok(FramePlan::GpuGraph(Vec::new(), 0)), Error::SurfaceOutdated),
    ] {
        let observation =
            runtime_lowering_observation(planned, Format::Rgba8, BOTH, &lower, &view, &with_fault);
        assert_eq!(observation.err(), Some(error));
    }
}
