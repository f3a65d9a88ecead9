use surgeist_render::dispatch::FramePlan;
use surgeist_render::error::{Error, LoweringFailure};
use surgeist_render::filter::materialized::FilterColor;
use surgeist_render::geometry::PhysicalSize;
use surgeist_render::options::{Antialiasing, EffectQualityPolicy};
use surgeist_render::pass::c08::{
    c08_pass_class, C08PassClass, ExecutableVelloCaptureFacts, PassDerivation,
};
use surgeist_render::pass::c08_lowered::{
    c08_two_capture_spine_lowered, c08_zero_capture_spine_lowered,
};
use surgeist_render::pass::c08_malformed::{
    c08_rejects_every_other_pass_kind_and_composite_payload, c08_rejects_malformed_bindings,
    c08_rejects_missing_or_reordered_spine_passes, identity,
};
use surgeist_render::pass::c08_observation::{
    accepts_exact_rgba_and_bgra, c08_executable_subset_observation,
    c08_executable_subset_observation_planned, failing_capture_target,
};
use surgeist_render::pass::c08_spines::{
    c08_donor_identities, c08_two_capture_spine, c08_zero_capture_spine,
};
use surgeist_render::pass::capture_transform::{
    bounded_capture_transform_observation, BoundedCapture, CaptureMeasures,
};
use surgeist_render::pass::key_facts::{
    runtime_cache_key_facts, runtime_format_keys_are_separate, runtime_read_key_is_exact,
};
use surgeist_render::pass::lowering::{
    runtime_releases_are_exact, runtime_topology_is_exact, runtime_vocabulary_is_exact, GraphPass,
};
use surgeist_render::pass::model::{
    LoweredGraphPlan, Rect, RuntimeColorClampBoundary, RuntimeColorOperation,
    RuntimeColorOperationTag, RuntimeColorScalar, RuntimeComposite, RuntimeCompositeKind, RuntimeInitialization,
    RuntimePass, RuntimePassCacheKeys, RuntimePassId, RuntimePassKind, RuntimeReadBinding,
    RuntimeReadRole, RuntimeResourceFormat, RuntimeResourceId, RuntimeResourceProducer,
    RuntimeResourceRequest, RuntimeResourceRole, RuntimeResultBinding, RuntimeSamplingEdge,
    RuntimeSamplingFilter, RuntimeSpatialDescriptor, RuntimeVelloCapture, RuntimeVelloSpanScope,
    SamplerKey, SamplingEdgeKey, Single,
};
use surgeist_render::pass::planned::c08_pass_cache_requests_lowered;
use surgeist_render::pass::requests::c08_pass_cache_requests;
use surgeist_render::pass::search::{find_pass, find_resource, resource_ids_are_distinct};
use surgeist_render::runtime::{
    DeviceCapabilities, Format, RuntimeCapabilityUnavailable, RuntimeCapabilityUnavailableReason,
    RuntimeOperation, WorkingFormat,
};
use surgeist_render::scalar::Scalar;

fn scalar(value: f64) -> Scalar {
    Scalar::from_bits(value.to_bits())
}

fn spatial() -> RuntimeSpatialDescriptor {
    RuntimeSpatialDescriptor {
        logical_bounds: Rect {
            x: scalar(0.0),
            y: scalar(0.0),
            width: scalar(8.0),
            height: scalar(4.0),
        },
        device_x: 0,
        device_y: 0,
        device_extent: PhysicalSize::new(16, 8),
        texel_x: scalar(0.0),
        texel_y: scalar(0.0),
        raster_scale: scalar(2.0),
    }
}

const WORKING: RuntimeResourceFormat = RuntimeResourceFormat::Working(WorkingFormat::HighPrecision);

fn request(
    id: u64,
    role: RuntimeResourceRole,
    format: RuntimeResourceFormat,
    producer: u64,
    last_use: u64,
) -> RuntimeResourceRequest {
    RuntimeResourceRequest {
        id: RuntimeResourceId(id),
        role,
        format,
        producer: RuntimeResourceProducer::Pass(RuntimePassId(producer)),
        expected_reads: 1,
        last_use: RuntimePassId(last_use),
        spatial: spatial(),
        import: None,
    }
}

fn read(
    role: RuntimeReadRole,
    resource: u64,
    source_format: RuntimeResourceFormat,
    transparent: bool,
) -> RuntimeReadBinding {
    RuntimeReadBinding {
        role,
        resource: RuntimeResourceId(resource),
        sampling_filter: RuntimeSamplingFilter::Linear,
        sampling_edge: if transparent {
            RuntimeSamplingEdge::TransparentBlack
        } else {
            RuntimeSamplingEdge::ClampToExtent
        },
        sampler_key: SamplerKey {
            role,
            source_format,
            filter: RuntimeSamplingFilter::Linear,
            edge: if transparent {
                SamplingEdgeKey::TransparentBlack
            } else {
                SamplingEdgeKey::ClampToExtent
            },
            mask: None,
        },
    }
}

fn keys(pipeline: u64) -> Option<RuntimePassCacheKeys> {
    Some(RuntimePassCacheKeys {
        samplers: pipeline + 100,
        layout: pipeline + 200,
        shader: pipeline + 300,
        pipeline,
    })
}

fn pass(
    id: u64,
    kind: RuntimePassKind,
    dependencies: &[u64],
    reads: Vec<RuntimeReadBinding>,
    result: u64,
    cache_keys: Option<RuntimePassCacheKeys>,
) -> RuntimePass {
    let releases = reads.iter().map(|read| read.resource).collect();
    RuntimePass {
        id: RuntimePassId(id),
        kind,
        dependencies: dependencies.iter().map(|id| RuntimePassId(*id)).collect(),
        reads,
        result: RuntimeResultBinding::Resource(RuntimeResourceId(result)),
        releases,
        cache_keys,
        operations: Vec::new(),
        outer_clips: Vec::new(),
    }
}

fn span() -> RuntimePassKind {
    RuntimePassKind::VelloCapture(Some(RuntimeVelloCapture::Span {
        command_count: 3,
        scope: RuntimeVelloSpanScope::SurfaceRoot,
        captured_before_outer_semantics: true,
        span_antialiasing: Antialiasing::Msaa16,
    }))
}

fn source_over() -> RuntimePassKind {
    RuntimePassKind::Composite(Some(RuntimeComposite {
        kind: RuntimeCompositeKind::SpanSourceOver,
        source_captured_before_outer_semantics: true,
    }))
}

fn clear_root() -> RuntimePassKind {
    RuntimePassKind::ClearRoot {
        initialization: RuntimeInitialization::SurfaceBaseColor,
        color: FilterColor {
            red: scalar(0.25),
            green: scalar(0.5),
            blue: scalar(0.75),
            alpha: scalar(1.0),
        },
    }
}

/// A spine whose pass and resource identities start at `base`.
fn spine(base: u64, captures: u64, output_format: Format) -> (LoweredGraphPlan, Vec<PassDerivation>) {
    let last = base + 3 * captures + 1;
    let mut passes = vec![pass(base, clear_root(), &[], Vec::new(), base, None)];
    let mut resources =
        vec![request(base, RuntimeResourceRole::RootWorkingImage, WORKING, base, base + 3)];
    for k in 0..captures {
        let parent = base + 3 * k;
        let (capture, canonical, composite) = (parent + 1, parent + 2, parent + 3);
        let capture_format = RuntimeResourceFormat::VelloCaptureRgba8Unorm;
        passes.push(pass(capture, span(), &[], Vec::new(), capture, None));
        passes.push(pass(
            canonical,
            RuntimePassKind::CanonicalizeCapture,
            &[capture],
            vec![read(RuntimeReadRole::CaptureSource, capture, capture_format, false)],
            canonical,
            keys(1),
        ));
        passes.push(pass(
            composite,
            source_over(),
            &[parent, canonical],
            vec![
                read(RuntimeReadRole::CompositeParent, parent, WORKING, false),
                read(RuntimeReadRole::CompositeSource, canonical, WORKING, true),
            ],
            composite,
            keys(2),
        ));
        resources.push(request(
            capture,
            RuntimeResourceRole::CaptureWorkingImage,
            capture_format,
            capture,
            canonical,
        ));
        resources.push(request(
            canonical,
            RuntimeResourceRole::FilterIntermediate,
            WORKING,
            canonical,
            composite,
        ));
        let next = if k + 1 == captures { last } else { composite + 3 };
        resources.push(request(composite, RuntimeResourceRole::CompositeResult, WORKING, composite, next));
    }
    let mut present = pass(
        last,
        RuntimePassKind::Present,
        &[last - 1],
        vec![read(RuntimeReadRole::FinalWorkingImage, last - 1, WORKING, false)],
        0,
        keys(3),
    );
    present.result = RuntimeResultBinding::Output(output_format);
    passes.push(present);
    let plan = LoweredGraphPlan {
        passes,
        resources,
        root_working_image: RuntimeResourceId(base),
        final_present: RuntimePassId(last),
        working_format: WorkingFormat::HighPrecision,
        output_format,
    };
    let derived = derivations(&plan);
    (plan, derived)
}

/// What each pass of a plan derives from its own kind, whatever keys the pass holds.
fn derivations(plan: &LoweredGraphPlan) -> Vec<PassDerivation> {
    plan.passes
        .iter()
        .map(|pass| PassDerivation {
            cache_keys: Some(match pass.kind {
                RuntimePassKind::CanonicalizeCapture => keys(1),
                RuntimePassKind::Composite(_) => keys(2),
                RuntimePassKind::Present => keys(3),
                _ => None,
            }),
            initial_transform: if matches!(pass.kind, RuntimePassKind::VelloCapture(_)) {
                Some(identity())
            } else {
                None
            },
        })
        .collect()
}

/// Derives nothing of any pass.
fn underived(_: &LoweredGraphPlan) -> Vec<PassDerivation> {
    Vec::new()
}

#[test]
fn exact_spines_have_execution_facts() {
    for captures in 1..=3 {
        let (plan, derived) = spine(0, captures, Format::Rgba8);
        let facts = plan.c08_execution_facts(&derived).unwrap();
        assert_eq!(facts.working_format, WorkingFormat::HighPrecision);
        assert_eq!(facts.output_format, Format::Rgba8);
        assert_eq!(facts.captures.len() as u64, captures);
        for (k, capture) in facts.captures.iter().enumerate() {
            assert_eq!(capture.pass, RuntimePassId(3 * k as u64 + 1));
            assert_eq!(capture.target, RuntimeResourceId(3 * k as u64 + 1));
            assert_eq!(capture.antialiasing, Antialiasing::Msaa16);
            assert_eq!(capture.target_extent, PhysicalSize::new(16, 8));
            assert_eq!(capture.initial_transform, identity());
        }
        assert_eq!(facts.capture_grids()[0].extent, PhysicalSize::new(16, 8));
    }
}

#[test]
fn spines_need_a_capture() {
    let (plan, derived) = spine(0, 1, Format::Rgba8);
    let empty = c08_zero_capture_spine(&plan).unwrap();
    assert_eq!(empty.passes.len(), 2);
    assert_eq!(empty.passes[1].reads[0].resource, RuntimeResourceId(0));
    assert_eq!(empty.resources.len(), 1);
    assert_eq!(empty.resources[0].last_use, RuntimePassId(4));
    assert!(empty.c08_execution_facts(&derivations(&empty)).is_none());
    assert!(empty.c08_execution_facts(&derived).is_none());
}

#[test]
fn zero_capture_spines_name_what_is_missing() {
    let (mut plan, _) = spine(0, 1, Format::Rgba8);
    plan.passes[4].reads.clear();
    assert_eq!(
        c08_zero_capture_spine(&plan).err(),
        Some(Error::Lowering(LoweringFailure::ZeroCaptureFinalReadMissing))
    );
    plan.root_working_image = RuntimeResourceId(99);
    assert_eq!(
        c08_zero_capture_spine(&plan).err(),
        Some(Error::Lowering(LoweringFailure::ZeroCaptureRootResourceMissing))
    );
    plan.passes.clear();
    assert_eq!(
        c08_zero_capture_spine(&plan).err(),
        Some(Error::Lowering(LoweringFailure::ZeroCaptureRootClearMissing))
    );
}

#[test]
fn second_captures_keep_the_spine() {
    let (plan, _) = spine(0, 1, Format::Rgba8);
    let (donor, _) = spine(50, 1, Format::Rgba8);
    let second = c08_donor_identities(&plan, &donor).unwrap();
    assert_eq!(second.capture_pass, RuntimePassId(50));
    assert_eq!(second.composite_target, RuntimeResourceId(52));
    let (_, expected) = spine(0, 2, Format::Rgba8);
    let extended = c08_two_capture_spine(plan, &donor, &derivations).unwrap();
    assert_eq!(extended.passes.len(), 8);
    assert_eq!(extended.resources.len(), 7);
    assert_eq!(extended.resources[3].last_use, RuntimePassId(52));
    assert_eq!(extended.passes[7].reads[0].resource, RuntimeResourceId(52));
    let facts = extended.c08_execution_facts(&expected).unwrap();
    assert_eq!(facts.captures[1].target, RuntimeResourceId(50));
}

const REDUCED: DeviceCapabilities = DeviceCapabilities {
    high_precision: false,
    reduced_precision: true,
    max_texture_dimension: 64,
};

/// Lowers a graph that stands for the base of its identities.
fn lower(
    graph: &u64,
    working_format: WorkingFormat,
    output_format: Format,
    _: DeviceCapabilities,
) -> Result<LoweredGraphPlan, Error> {
    if *graph == 7 {
        return Err(Error::SurfaceOutdated);
    }
    let (mut plan, _) = spine(*graph, 1, output_format);
    plan.working_format = working_format;
    let formats = plan.resources.iter_mut().map(|resource| &mut resource.format);
    let reads = plan.passes.iter_mut().flat_map(|pass| pass.reads.iter_mut());
    for format in formats.chain(reads.map(|read| &mut read.sampler_key.source_format)) {
        if matches!(format, RuntimeResourceFormat::Working(_)) {
            *format = RuntimeResourceFormat::Working(working_format);
        }
    }
    Ok(plan)
}

fn no_high_precision() -> Error {
    Error::Unavailable(RuntimeCapabilityUnavailable {
        operation: RuntimeOperation::EffectRendering,
        reason: RuntimeCapabilityUnavailableReason::EffectPrecisionUnavailable {
            policy: EffectQualityPolicy::RequireHighPrecision,
        },
    })
}

#[test]
fn spines_without_captures_are_lowered_in_the_format_of_the_policy() {
    let allowed = EffectQualityPolicy::AllowReducedPrecision;
    let required = EffectQualityPolicy::RequireHighPrecision;
    let empty = c08_zero_capture_spine_lowered(Ok(0), REDUCED, allowed, &lower).unwrap();
    assert_eq!(empty.passes.len(), 2);
    assert_eq!(empty.working_format, WorkingFormat::ReducedPrecision);
    assert_eq!(empty.output_format, Format::Rgba8);
    for (graph, policy, error) in [
        (Err(Error::UnsupportedBackend), required, Error::UnsupportedBackend),
        (Ok(0), required, no_high_precision()),
        (Ok(7), allowed, Error::SurfaceOutdated),
    ] {
        let failed = c08_zero_capture_spine_lowered(graph, REDUCED, policy, &lower);
        assert_eq!(failed.err(), Some(error));
    }
}

#[test]
fn second_captures_are_donated_by_a_planned_graph() {
    let allowed = EffectQualityPolicy::AllowReducedPrecision;
    let donor = |base: u64| Ok(FramePlan::<u8, u64>::GpuGraph(Vec::new(), base));
    let extended =
        c08_two_capture_spine_lowered(Ok(0), donor(50), REDUCED, allowed, &lower, &derivations).unwrap();
    assert_eq!(extended.passes.len(), 8);
    assert_eq!(extended.passes[7].reads[0].resource, RuntimeResourceId(52));
    assert_eq!(extended.working_format, WorkingFormat::ReducedPrecision);
    let required = EffectQualityPolicy::RequireHighPrecision;
    for (graph, donor, policy, error) in [
        (Err(Error::UnsupportedBackend), donor(50), required, no_high_precision()),
        (Err(Error::UnsupportedBackend), donor(50), allowed, Error::UnsupportedBackend),
        (Ok(7), donor(50), allowed, Error::SurfaceOutdated),
        (Ok(0), Err(Error::UnsupportedBackend), allowed, Error::UnsupportedBackend),
        (
            Ok(0),
            Ok(FramePlan::DirectVello(1)),
            allowed,
            Error::Lowering(LoweringFailure::DonorNotPlanned),
        ),
        (Ok(0), donor(7), allowed, Error::SurfaceOutdated),
        (Ok(0), donor(0), allowed, Error::Lowering(LoweringFailure::SpareCapturePassMissing)),
    ] {
        let failed =
            c08_two_capture_spine_lowered(graph, donor, REDUCED, policy, &lower, &derivations);
        assert_eq!(failed.err(), Some(error));
    }
}

#[test]
fn second_captures_name_what_is_missing() {
    let (plan, _) = spine(0, 1, Format::Rgba8);
    for (passes, resources, failure) in [
        (0, 3, LoweringFailure::SpareCapturePassMissing),
        (1, 3, LoweringFailure::SpareCanonicalPassMissing),
        (2, 3, LoweringFailure::SpareCompositePassMissing),
        (3, 0, LoweringFailure::SpareCaptureResourceMissing),
        (3, 1, LoweringFailure::SpareCanonicalResourceMissing),
        (3, 2, LoweringFailure::SpareCompositeResourceMissing),
    ] {
        let (mut donor, _) = spine(50, 1, Format::Rgba8);
        donor.passes.truncate(passes);
        donor.resources.truncate(resources);
        assert_eq!(c08_donor_identities(&plan, &donor).err(), Some(Error::Lowering(failure)));
    }
    let (donor, _) = spine(50, 1, Format::Rgba8);
    let (two, _) = spine(0, 2, Format::Rgba8);
    assert_eq!(
        c08_two_capture_spine(two, &donor, &derivations).err(),
        Some(Error::Lowering(LoweringFailure::NotOneCaptureSpine))
    );
    for (position, failure) in [
        (1, LoweringFailure::CaptureTargetMissing),
        (2, LoweringFailure::CanonicalTargetMissing),
        (3, LoweringFailure::CompositeTargetMissing),
    ] {
        let broken = plan.replacing_result(position, RuntimeResultBinding::Empty);
        assert_eq!(
            c08_two_capture_spine(broken, &donor, &derivations).err(),
            Some(Error::Lowering(failure))
        );
    }
    for (position, failure) in [
        (1, LoweringFailure::CaptureResourceLost),
        (2, LoweringFailure::CanonicalResourceLost),
        (3, LoweringFailure::CompositeResourceLost),
    ] {
        let mut broken = plan.duplicate();
        broken.resources[position].id = RuntimeResourceId(90);
        assert_eq!(
            c08_two_capture_spine(broken, &donor, &derivations).err(),
            Some(Error::Lowering(failure))
        );
    }
    assert_eq!(
        c08_two_capture_spine(plan, &donor, &underived).err(),
        Some(Error::Lowering(LoweringFailure::TwoCaptureSubsetLost))
    );
}

#[test]
fn lost_spines_are_named() {
    assert_eq!(
        LoweringFailure::ZeroCaptureRootClearMissing.message(),
        "the C08 zero-capture fixture has no root clear"
    );
    assert_eq!(
        LoweringFailure::SpareCanonicalPassMissing.message(),
        "the two-capture C08 fixture has no spare canonical pass identity"
    );
    assert_eq!(
        LoweringFailure::NotOneCaptureSpine.message(),
        "the two-capture C08 fixture source is not the exact one-capture spine"
    );
}

#[test]
fn spines_reject_every_kind_of_defect() {
    for captures in 1..=2 {
        let (plan, _) = spine(0, captures, Format::Rgba8);
        assert!(c08_rejects_every_other_pass_kind_and_composite_payload(&plan, &derivations));
        assert!(c08_rejects_missing_or_reordered_spine_passes(&plan, &derivations));
        assert!(c08_rejects_malformed_bindings(&plan, &derivations));
    }
}

#[test]
fn plans_around_a_spine_are_not_rejected() {
    let (mut plan, _) = spine(0, 1, Format::Rgba8);
    let mut other = plan.passes[2].duplicate();
    other.id = RuntimePassId(90);
    other.kind = RuntimePassKind::CopyBackdrop;
    plan.passes.insert(2, other);
    assert!(plan.c08_execution_facts(&derivations(&plan)).is_none());
    let shorter = plan.without_pass(2);
    assert!(shorter.c08_execution_facts(&derivations(&shorter)).is_some());
    assert!(!c08_rejects_missing_or_reordered_spine_passes(&plan, &derivations));
    assert!(c08_rejects_missing_or_reordered_spine_passes(&plan, &underived));
}

#[test]
fn composite_keys_are_held_against_the_derived_ones() {
    let (plan, _) = spine(0, 1, Format::Rgba8);
    let mut keyless = plan.duplicate();
    keyless.passes[3].cache_keys = None;
    assert!(keyless.c08_execution_facts(&derivations(&keyless)).is_none());
    // Keys that are taken from the passes themselves cannot tell that a pass lost its own.
    let own = |plan: &LoweredGraphPlan| {
        let mut derived = derivations(plan);
        for (derivation, pass) in derived.iter_mut().zip(plan.passes.iter()) {
            derivation.cache_keys = Some(pass.cache_keys);
        }
        derived
    };
    assert!(keyless.c08_execution_facts(&own(&keyless)).is_some());
    assert!(c08_rejects_malformed_bindings(&plan, &derivations));
    assert!(!c08_rejects_malformed_bindings(&plan, &own));
}

#[test]
fn replaced_kinds_lose_operations_and_outer_clips() {
    let (mut plan, _) = spine(0, 1, Format::Rgba8);
    plan.passes[2].operations = vec![RuntimeColorOperation {
        tag: RuntimeColorOperationTag::Sepia,
        scalar: RuntimeColorScalar::Unit(Single { bits: 0 }),
        clamp_boundary: RuntimeColorClampBoundary::Unclamped,
    }];
    plan.passes[2].outer_clips = vec![identity()];
    let replaced = plan.replacing_kind(2, RuntimePassKind::CopyBackdrop);
    assert_eq!(replaced.passes[2].kind, RuntimePassKind::CopyBackdrop);
    assert!(replaced.passes[2].operations.is_empty() && replaced.passes[2].outer_clips.is_empty());
    let edited = plan.editing_payload(2, RuntimePassKind::CanonicalizeCapture);
    assert_eq!(edited.passes[2].operations, plan.passes[2].operations);
    assert_eq!(edited.passes[2].outer_clips, plan.passes[2].outer_clips);
}

#[test]
fn single_defects_lose_the_spine() {
    let (plan, derived) = spine(0, 1, Format::Rgba8);
    let refused = |plan: &LoweredGraphPlan| plan.c08_execution_facts(&derived).is_none();
    assert!(!refused(&plan));
    for position in 0..plan.passes.len() {
        assert!(refused(&plan.replacing_kind(position, RuntimePassKind::CopyBackdrop)));
        assert!(refused(&plan.without_pass(position)));
        assert!(refused(&plan.repeating_first_pass(position)));
        assert!(refused(&plan.replacing_dependencies(position, vec![RuntimePassId(70)])));
        assert!(refused(&plan.replacing_releases(position, vec![RuntimeResourceId(70)])));
        assert!(refused(&plan.replacing_result(position, RuntimeResultBinding::Empty)));
    }
    for position in 0..plan.resources.len() {
        let mut other = plan.resources[position];
        other.import = Some(surgeist_render::pass::model::MaskUpload {
            image_id: 1,
            cache_key: 11,
            physical_size: PhysicalSize::new(1, 1),
            sampling: surgeist_render::pass::model::MaskSampling {
                quality: surgeist_render::pass::model::ImageQuality::Low,
                extend: surgeist_render::reference::index::Extend::Pad,
            },
        });
        assert!(refused(&plan.replacing_resource(position, other)));
        let mut late = plan.resources[position];
        late.last_use = RuntimePassId(70);
        assert!(refused(&plan.replacing_resource(position, late)));
    }
    assert!(refused(&plan.exchanging_first_reads(3)));
    assert!(refused(&plan.with_duplicate_preparation_resource()));
    let mut nearest = plan.passes[2].reads[0];
    nearest.sampling_filter = RuntimeSamplingFilter::Nearest;
    assert!(refused(&plan.replacing_read(2, 0, nearest)));
    let mut failed = derived.clone();
    failed[2].cache_keys = None;
    assert!(plan.c08_execution_facts(&failed).is_none());
    let mut unplaced = derived.clone();
    unplaced[1].initial_transform = None;
    assert!(plan.c08_execution_facts(&unplaced).is_none());
    assert!(plan.c08_execution_facts(&derived[..4].to_vec()).is_none());
}

#[test]
fn spans_inside_layers_lose_the_spine() {
    let (plan, derived) = spine(0, 1, Format::Rgba8);
    for (scope, before) in [
        (RuntimeVelloSpanScope::LayerSource, true),
        (RuntimeVelloSpanScope::SurfaceRoot, false),
    ] {
        let kind = RuntimePassKind::VelloCapture(Some(RuntimeVelloCapture::Span {
            command_count: 3,
            scope,
            captured_before_outer_semantics: before,
            span_antialiasing: Antialiasing::Msaa16,
        }));
        assert!(plan.replacing_kind(1, kind).c08_execution_facts(&derived).is_none());
    }
}

#[test]
fn pass_classes_cover_the_spine_only() {
    assert_eq!(c08_pass_class(clear_root()), Some(C08PassClass::ClearRoot));
    assert_eq!(c08_pass_class(span()), Some(C08PassClass::VelloCapture));
    assert_eq!(c08_pass_class(source_over()), Some(C08PassClass::SpanSourceOver));
    for foreign in [
        RuntimePassKind::VelloCapture(None),
        RuntimePassKind::CopyBackdrop,
        RuntimePassKind::ColorFilter(None),
        RuntimePassKind::Composite(None),
    ] {
        assert_eq!(c08_pass_class(foreign), None);
    }
}

#[test]
fn both_output_formats_are_accepted() {
    let (rgba, rgba_derived) = spine(0, 1, Format::Rgba8);
    let (bgra, bgra_derived) = spine(0, 1, Format::Bgra8);
    let outside = rgba.replacing_kind(2, RuntimePassKind::ColorFilter(None));
    let observation = c08_executable_subset_observation(
        &rgba,
        &bgra,
        &outside,
        &derivations,
        true,
        true,
    )
    .unwrap();
    assert!(observation.accepts_exact_rgba_and_bgra);
    assert!(observation.rejects_every_other_pass_kind_and_composite_payload);
    assert!(observation.rejects_missing_or_reordered_spine_passes);
    assert!(observation.rejects_malformed_dependencies_reads_results_and_releases);
    assert!(observation.rejects_graph_outside_base_subset);
    assert!(observation.preserves_direct_and_graph_planner_routes);
    let rgba_facts = rgba.c08_execution_facts(&rgba_derived).unwrap();
    let bgra_facts = bgra.c08_execution_facts(&bgra_derived).unwrap();
    assert!(accepts_exact_rgba_and_bgra(&rgba_facts, &bgra_facts));
    assert!(!accepts_exact_rgba_and_bgra(&bgra_facts, &rgba_facts));
    assert!(c08_executable_subset_observation(
        &rgba,
        &bgra,
        &outside,
        &derivations,
        true,
        false,
    )
    .is_none());
}

#[test]
fn planned_commands_show_the_subset() {
    let direct = || -> Result<FramePlan<u8, u64>, Error> { Ok(FramePlan::DirectVello(1)) };
    let graph = |base: u64| -> Result<FramePlan<u8, u64>, Error> {
        Ok(FramePlan::GpuGraph(Vec::new(), base))
    };
    // A graph with this number is outside the subset.
    let lower_any = |graph: &u64, working: WorkingFormat, output: Format, device: DeviceCapabilities| {
        let plan = lower(graph, working, output, device)?;
        Ok(if *graph == 30 { plan.replacing_kind(2, RuntimePassKind::CopyBackdrop) } else { plan })
    };
    let observe = |planned, forced, expanded| {
        c08_executable_subset_observation_planned(
            &planned,
            &forced,
            &expanded,
            REDUCED,
            &lower_any,
            &derivations,
        )
    };
    let exact = observe(direct(), Ok(0), graph(30)).unwrap();
    assert!(exact.accepts_exact_rgba_and_bgra && exact.rejects_graph_outside_base_subset);
    assert!(exact.preserves_direct_and_graph_planner_routes);
    let inside = observe(graph(0), Ok(0), graph(0)).unwrap();
    assert!(!inside.rejects_graph_outside_base_subset);
    assert!(!inside.preserves_direct_and_graph_planner_routes);
    assert!(observe(direct(), Ok(0), direct()).is_none());
    assert!(observe(direct(), Err(Error::UnsupportedBackend), graph(30)).is_none());
    assert!(observe(direct(), Ok(7), graph(30)).is_none());
    assert!(observe(direct(), Ok(0), graph(7)).is_none());
    assert!(observe(direct(), Ok(30), graph(30)).is_none());
}

#[test]
fn failing_captures_are_counted_from_the_first() {
    let (plan, _) = spine(0, 2, Format::Rgba8);
    assert_eq!(failing_capture_target(&plan, 0), Some(RuntimeResourceId(1)));
    assert_eq!(failing_capture_target(&plan, 1), Some(RuntimeResourceId(4)));
    assert_eq!(failing_capture_target(&plan, 2), None);
}

#[test]
fn executable_spines_request_their_keys() {
    let (plan, derived) = spine(0, 2, Format::Rgba8);
    let requested = c08_pass_cache_requests(&plan, &derived).unwrap();
    let pipelines: Vec<u64> = requested.iter().map(|keys| keys.pipeline).collect();
    assert_eq!(pipelines, [1, 2, 1, 2, 3]);
    let broken = plan.replacing_kind(2, RuntimePassKind::CopyBackdrop);
    assert_eq!(
        c08_pass_cache_requests(&broken, &derived).err(),
        Some(Error::Lowering(LoweringFailure::ExecutableKeysLost))
    );
}

#[test]
fn forced_graphs_request_their_keys_in_every_format() {
    let required = |graph: Result<u64, Error>, output: Format| {
        c08_pass_cache_requests_lowered(
            &graph,
            WorkingFormat::HighPrecision,
            output,
            REDUCED,
            &lower,
            &derivations,
        )
    };
    let requested = required(Ok(0), Format::Bgra8).unwrap();
    assert_eq!(requested.iter().map(|keys| keys.pipeline).collect::<Vec<_>>(), [1, 2, 3]);
    assert_eq!(required(Ok(7), Format::Rgba8).err(), Some(Error::SurfaceOutdated));
    assert_eq!(
        required(Err(Error::UnsupportedBackend), Format::Rgba8).err(),
        Some(Error::UnsupportedBackend)
    );
    let lost = c08_pass_cache_requests_lowered(
        &Ok(0),
        WorkingFormat::HighPrecision,
        Format::Rgba8,
        REDUCED,
        &lower,
        &underived,
    );
    assert_eq!(lost.err(), Some(Error::Lowering(LoweringFailure::ExecutableKeysLost)));
}

#[test]
fn bounded_captures_of_a_spine_are_observed_at_every_scale() {
    let (plan, _) = spine(0, 1, Format::Rgba8);
    let lower_at = |_: Scalar| Some(plan.duplicate());
    let origin_at = |scale: Scalar| {
        let scale = f64::from_bits(scale.bits);
        (scalar(-3.0 / scale), scalar(-2.0 / scale))
    };
    let measured = |measures: CaptureMeasures| {
        move |capture: BoundedCapture| {
            let facts = ExecutableVelloCaptureFacts {
                pass: capture.pass,
                target: capture.target,
                antialiasing: Antialiasing::Msaa16,
                target_extent: capture.spatial.device_extent,
                texel_x: capture.spatial.texel_x,
                texel_y: capture.spatial.texel_y,
                raster_scale: capture.spatial.raster_scale,
                initial_transform: identity(),
            };
            Some((facts, measures))
        }
    };
    let close = CaptureMeasures {
        transform_is_close: true,
        center_is_close: true,
        commands_are_kept: true,
        scene_is_close: true,
    };
    let execute = measured(close);
    let observe = |antialiasing: Antialiasing| {
        bounded_capture_transform_observation(
            &lower_at,
            &derivations,
            &origin_at,
            &execute,
            antialiasing,
        )
    };
    let exact = observe(Antialiasing::Msaa16).unwrap();
    assert!(exact.covers_required_raster_scales && exact.preserves_capture_execution_facts);
    assert!(exact.preserves_signed_texel_center_mapping);
    assert!(exact.preserves_application_order_formula);
    assert!(!observe(Antialiasing::Area).unwrap().preserves_capture_execution_facts);
    // One scale that is not lowered, a plan that is no spine or a capture that is not executed
    // leaves nothing to observe.
    let partial = |scale: Scalar| (f64::from_bits(scale.bits) < 2.0).then_some(plan.duplicate());
    let msaa = Antialiasing::Msaa16;
    assert_eq!(
        bounded_capture_transform_observation(&partial, &derivations, &origin_at, &execute, msaa),
        None
    );
    assert_eq!(
        bounded_capture_transform_observation(&lower_at, &underived, &origin_at, &execute, msaa),
        None
    );
    let refused = |_: BoundedCapture| None;
    assert_eq!(
        bounded_capture_transform_observation(&lower_at, &derivations, &origin_at, &refused, msaa),
        None
    );
    let far = measured(CaptureMeasures { transform_is_close: false, ..close });
    let observation =
        bounded_capture_transform_observation(&lower_at, &derivations, &origin_at, &far, msaa);
    assert!(!observation.unwrap().preserves_application_order_formula);
}

#[test]
fn searches_find_the_first_of_an_identity() {
    let (plan, _) = spine(0, 1, Format::Rgba8);
    assert_eq!(find_pass(&plan.passes, RuntimePassId(3)), Some(3));
    assert_eq!(find_pass(&plan.passes, RuntimePassId(8)), None);
    assert_eq!(
        find_resource(&plan.resources, RuntimeResourceId(2)).map(|request| request.role),
        Some(RuntimeResourceRole::FilterIntermediate)
    );
    assert!(resource_ids_are_distinct(&plan.resources));
    assert!(!resource_ids_are_distinct(&plan.with_duplicate_preparation_resource().resources));
}

#[test]
fn lowered_topology_matches_its_graph() {
    let (plan, _) = spine(0, 1, Format::Rgba8);
    let graph: Vec<GraphPass> = plan
        .passes
        .iter()
        .map(|pass| GraphPass {
            id: pass.id,
            dependencies: pass.dependencies.clone(),
            reads: Some(pass.reads.iter().map(|read| read.resource).collect()),
        })
        .collect();
    assert!(runtime_topology_is_exact(&graph, &plan));
    assert!(!runtime_topology_is_exact(&graph, &plan.replacing_dependencies(2, Vec::new())));
    let mut unviewable = graph;
    unviewable[3].reads = None;
    assert!(!runtime_topology_is_exact(&unviewable, &plan));
    let last_uses: Vec<(RuntimeResourceId, RuntimePassId)> =
        plan.resources.iter().map(|request| (request.id, request.last_use)).collect();
    assert!(!runtime_releases_are_exact(&last_uses, &plan));
    let mut shared = plan.resources[0];
    shared.expected_reads = 2;
    let fanned = plan.replacing_resource(0, shared);
    assert!(runtime_releases_are_exact(&last_uses, &fanned));
    assert!(!runtime_releases_are_exact(&last_uses, &fanned.replacing_releases(2, Vec::new())));
}

#[test]
fn read_keys_say_what_is_sampled() {
    let (plan, _) = spine(0, 1, Format::Rgba8);
    for pass in &plan.passes {
        for read in &pass.reads {
            assert!(runtime_read_key_is_exact(&plan, read));
        }
    }
    let mut wrong = plan.passes[2].reads[0];
    wrong.sampler_key.source_format = WORKING;
    assert!(!runtime_read_key_is_exact(&plan, &wrong));
    // A spine has too few programs to show that its keys tell them apart.
    assert_eq!(runtime_cache_key_facts(&plan), (true, false));
    let unkeyed = {
        let mut unkeyed = plan.duplicate();
        unkeyed.passes[2].cache_keys = None;
        unkeyed
    };
    assert_eq!(runtime_cache_key_facts(&unkeyed), (false, false));
}

#[test]
fn spines_do_not_use_the_whole_vocabulary() {
    let (plan, _) = spine(0, 1, Format::Rgba8);
    assert!(!runtime_vocabulary_is_exact(&plan));
}

#[test]
fn format_keys_keep_the_formats_apart() {
    let (plan, _) = spine(0, 1, Format::Rgba8);
    let mut reduced = plan.duplicate();
    reduced.working_format = WorkingFormat::ReducedPrecision;
    for pass in &mut reduced.passes {
        if let Some(keys) = &mut pass.cache_keys {
            keys.layout += 1000;
            keys.shader += 1000;
            keys.pipeline += 1000;
        }
    }
    let (mut other, _) = spine(0, 1, Format::Bgra8);
    if let Some(keys) = &mut other.passes[4].cache_keys {
        keys.pipeline = 77;
    }
    let separate = runtime_format_keys_are_separate(
        RuntimeResourceId(0),
        RuntimePassId(4),
        &plan,
        &reduced,
        &other,
    );
    let same = runtime_format_keys_are_separate(
        RuntimeResourceId(0),
        RuntimePassId(4),
        &plan,
        &plan,
        &plan,
    );
    assert!(separate);
    assert!(!same);
}
