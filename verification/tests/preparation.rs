use surgeist_render::error::{Error, PreparationFailure};
use surgeist_render::filter::materialized::FilterColor;
use surgeist_render::geometry::PhysicalSize;
use surgeist_render::pass::exercise::{
    exercise_prepared_bindings, exercise_prepared_graph, lease_passes, lease_plan,
    PreparedGraphExerciseObservation,
};
use surgeist_render::pass::leases::{complete_every_pass, LeaseId, LeasedPass, PreparedGraph};
use surgeist_render::pass::model::{
    ImageQuality, MaskSampling, MaskUpload, Rect, RuntimeInitialization, RuntimePass,
    RuntimePassCacheKeys, RuntimePassId, RuntimePassKind, RuntimeReadBinding, RuntimeReadRole,
    RuntimeResourceFormat, RuntimeResourceId, RuntimeResourceProducer, RuntimeResourceRequest,
    RuntimeResourceRole, RuntimeResultBinding, RuntimeSamplingEdge, RuntimeSamplingFilter,
    RuntimeSpatialDescriptor, SamplerKey, SamplingEdgeKey,
};
use surgeist_render::pass::preparation::{
    exercise_preparation_reuse, failing_color_filter, failing_present_layout,
    preparation_failure_cleanup, preparation_preflight_is_atomic,
    resource_preparation_observation, AllocationIdentity, FinishedPreparation, PassCacheCounts,
    ResourceManagerObservation,
};
use surgeist_render::pass::prepared::{
    bound_resources, prepared_allocations_are_exact, prepared_handoff_is_complete,
    prepared_pass_view_is_consistent, prepared_spatial_keys_are_exact, runtime_pass_kind_index,
    EffectTextureRole, PreparedPass, PreparedResource, RuntimeAllocationRequest,
    RuntimeGraphPreparationPlan, TextureFormat, TextureUsages,
};
use surgeist_render::reference::index::Extend;
use surgeist_render::runtime::WorkingFormat;
use surgeist_render::scalar::Scalar;

const USAGES: TextureUsages = TextureUsages { capture: 1, high_precision: 2, reduced_precision: 4 };

fn failure(failure: PreparationFailure) -> Error {
    Error::Preparation(failure)
}

fn lease(id: u64) -> LeaseId {
    LeaseId::Resource(RuntimeResourceId(id))
}

fn leased(id: u64, bound: &[u64], releases: &[u64]) -> LeasedPass {
    LeasedPass {
        id: RuntimePassId(id),
        bound: bound.iter().map(|id| lease(*id)).collect(),
        releases: releases.iter().map(|id| lease(*id)).collect(),
    }
}

#[test]
fn passes_complete_in_order_and_release_their_leases() {
    let passes = vec![leased(1, &[10], &[]), leased(2, &[10, 11], &[10]), leased(3, &[11], &[11])];
    let mut graph = PreparedGraph::try_new(passes, vec![lease(10), lease(11)]).unwrap();
    assert_eq!(graph.current_pass(), Some(RuntimePassId(1)));
    assert_eq!(graph.outstanding_lease_count(), 2);
    assert_eq!(
        graph.complete_pass(RuntimePassId(2)),
        Err(failure(PreparationFailure::PassOutOfOrder))
    );
    assert_eq!(graph.texture_binding_for_pass(RuntimePassId(1), lease(10)), Ok(0));
    assert_eq!(
        graph.texture_binding_for_pass(RuntimePassId(1), lease(11)),
        Err(failure(PreparationFailure::ResourceNotBound))
    );
    assert_eq!(
        graph.texture_binding_for_pass(RuntimePassId(2), lease(10)),
        Err(failure(PreparationFailure::PassOutOfOrder))
    );
    assert_eq!(graph.complete_pass(RuntimePassId(1)), Ok(()));
    assert_eq!(graph.texture_binding_for_pass(RuntimePassId(2), lease(11)), Ok(1));
    assert_eq!(graph.complete_pass(RuntimePassId(2)), Ok(()));
    assert_eq!(graph.outstanding_lease_count(), 1);
    assert_eq!(graph.complete_pass(RuntimePassId(3)), Ok(()));
    assert_eq!(graph.outstanding_lease_count(), 0);
    assert_eq!(graph.current_pass(), None);
    assert_eq!(
        graph.complete_pass(RuntimePassId(3)),
        Err(failure(PreparationFailure::PassOutOfOrder))
    );
}

#[test]
fn released_leases_cannot_be_bound_again() {
    let passes = vec![leased(1, &[10], &[10]), leased(2, &[10], &[])];
    let mut graph = PreparedGraph::try_new(passes, vec![lease(10)]).unwrap();
    graph.complete_pass(RuntimePassId(1)).unwrap();
    assert_eq!(
        graph.texture_binding_for_pass(RuntimePassId(2), lease(10)),
        Err(failure(PreparationFailure::ResourceReleased))
    );
    graph.complete_pass(RuntimePassId(2)).unwrap();
    assert_eq!(graph.outstanding_lease_count(), 0);
}

#[test]
fn repeated_passes_and_leases_are_refused() {
    assert_eq!(
        PreparedGraph::try_new(vec![leased(1, &[], &[]), leased(1, &[], &[])], vec![]).err(),
        Some(failure(PreparationFailure::RepeatedPass))
    );
    assert_eq!(
        PreparedGraph::try_new(vec![leased(1, &[], &[])], vec![lease(5), lease(5)]).err(),
        Some(failure(PreparationFailure::RepeatedLease))
    );
}

#[test]
fn every_pass_is_completed_with_live_bindings() {
    let passes = vec![leased(1, &[10], &[]), leased(2, &[10, 11], &[10])];
    let leases = vec![lease(10), lease(11)];
    let mut kept = PreparedGraph::try_new(passes, leases).unwrap();
    assert_eq!(complete_every_pass(&mut kept), Ok(false));
    let mut emptied =
        PreparedGraph::try_new(vec![leased(1, &[10], &[10])], vec![lease(10)]).unwrap();
    assert_eq!(complete_every_pass(&mut emptied), Ok(true));
    let passes = vec![leased(1, &[10], &[10]), leased(2, &[10], &[])];
    let mut stale = PreparedGraph::try_new(passes, vec![lease(10)]).unwrap();
    assert_eq!(
        complete_every_pass(&mut stale),
        Err(failure(PreparationFailure::ResourceReleased))
    );
}

fn resource(id: u64, role: RuntimeResourceRole, format: RuntimeResourceFormat) -> PreparedResource {
    let scalar = |value: f64| Scalar::from_bits(value.to_bits());
    let texture = |role, working_format, texture_format, usage| {
        RuntimeAllocationRequest::EffectTexture { role, working_format, texture_format, usage }
    };
    let allocation = match format {
        RuntimeResourceFormat::VelloCaptureRgba8Unorm => {
            texture(EffectTextureRole::Capture, None, TextureFormat::Rgba8Unorm, 1)
        }
        RuntimeResourceFormat::ClipCoverageRgba8Unorm => {
            texture(EffectTextureRole::Coverage, None, TextureFormat::Rgba8Unorm, 1)
        }
        RuntimeResourceFormat::Working(WorkingFormat::HighPrecision) => texture(
            EffectTextureRole::Working,
            Some(WorkingFormat::HighPrecision),
            TextureFormat::Rgba16Float,
            2,
        ),
        RuntimeResourceFormat::Working(WorkingFormat::ReducedPrecision) => texture(
            EffectTextureRole::Working,
            Some(WorkingFormat::ReducedPrecision),
            TextureFormat::Rgba8Unorm,
            4,
        ),
        RuntimeResourceFormat::ResolvedMaskRgba8Unorm => RuntimeAllocationRequest::ResolvedMask {
            cache_key: 770,
            physical_size: PhysicalSize::new(3, 2),
        },
    };
    let upload = MaskUpload {
        image_id: 77,
        cache_key: 770,
        physical_size: PhysicalSize::new(3, 2),
        sampling: MaskSampling { quality: ImageQuality::Medium, extend: Extend::Pad },
    };
    let masked = format == RuntimeResourceFormat::ResolvedMaskRgba8Unorm;
    PreparedResource {
        runtime: RuntimeResourceRequest {
            id: RuntimeResourceId(id),
            role,
            format,
            producer: RuntimeResourceProducer::Pass(RuntimePassId(id)),
            expected_reads: 1,
            last_use: RuntimePassId(5),
            spatial: RuntimeSpatialDescriptor {
                logical_bounds: Rect {
                    x: scalar(0.0),
                    y: scalar(0.0),
                    width: scalar(8.0),
                    height: scalar(8.0),
                },
                device_x: 0,
                device_y: 0,
                device_extent: PhysicalSize::new(8, 8),
                texel_x: scalar(0.0),
                texel_y: scalar(0.0),
                raster_scale: scalar(1.0),
            },
            import: if masked { Some(upload) } else { None },
        },
        allocation,
    }
}

fn prepared(id: u64, kind: RuntimePassKind, reads: &[u64], releases: &[u64]) -> PreparedPass {
    let working = RuntimeResourceFormat::Working(WorkingFormat::HighPrecision);
    let read = |resource: u64| RuntimeReadBinding {
        role: RuntimeReadRole::CompositeSource,
        resource: RuntimeResourceId(resource),
        sampling_filter: RuntimeSamplingFilter::Linear,
        sampling_edge: RuntimeSamplingEdge::ClampToExtent,
        sampler_key: SamplerKey {
            role: RuntimeReadRole::CompositeSource,
            source_format: working,
            filter: RuntimeSamplingFilter::Linear,
            edge: SamplingEdgeKey::ClampToExtent,
            mask: None,
        },
    };
    let cache_keys =
        Some(RuntimePassCacheKeys { samplers: id, layout: id, shader: id, pipeline: id });
    let presents = kind == RuntimePassKind::Present;
    PreparedPass {
        runtime: RuntimePass {
            id: RuntimePassId(id),
            kind,
            dependencies: Vec::new(),
            reads: reads.iter().map(|id| read(*id)).collect(),
            result: if presents {
                RuntimeResultBinding::Empty
            } else {
                RuntimeResultBinding::Resource(RuntimeResourceId(id))
            },
            releases: releases.iter().map(|id| RuntimeResourceId(*id)).collect(),
            cache_keys,
            operations: Vec::new(),
            outer_clips: Vec::new(),
        },
        cache_keys,
        kernel: None,
        kernel_releases: Vec::new(),
        spatial_uniform: Some(48),
        blur_edge_parameters: None,
        composite_parameters: None,
        drop_shadow_parameters: None,
    }
}

/// The passes of a masked and clipped layer, and a present.
fn preparation() -> RuntimeGraphPreparationPlan {
    let zero = Scalar::from_bits(0);
    let clear = RuntimePassKind::ClearRoot {
        initialization: RuntimeInitialization::SurfaceBaseColor,
        color: FilterColor { red: zero, green: zero, blue: zero, alpha: zero },
    };
    let working = RuntimeResourceFormat::Working(WorkingFormat::HighPrecision);
    RuntimeGraphPreparationPlan {
        passes: vec![
            prepared(0, clear, &[], &[]),
            prepared(1, RuntimePassKind::VelloCapture(None), &[], &[]),
            prepared(2, RuntimePassKind::CanonicalizeCapture, &[1], &[1]),
            prepared(3, RuntimePassKind::VelloCapture(None), &[], &[]),
            prepared(4, RuntimePassKind::Composite(None), &[0, 2, 3, 20], &[0, 2, 3, 20]),
            prepared(5, RuntimePassKind::Present, &[4], &[4]),
        ],
        resources: vec![
            resource(0, RuntimeResourceRole::RootWorkingImage, working),
            resource(
                1,
                RuntimeResourceRole::FilterIntermediate,
                RuntimeResourceFormat::VelloCaptureRgba8Unorm,
            ),
            resource(2, RuntimeResourceRole::FilterIntermediate, working),
            resource(
                3,
                RuntimeResourceRole::ClipCoverage,
                RuntimeResourceFormat::ClipCoverageRgba8Unorm,
            ),
            resource(4, RuntimeResourceRole::FilterIntermediate, working),
            resource(
                20,
                RuntimeResourceRole::ResolvedAlphaMask,
                RuntimeResourceFormat::ResolvedMaskRgba8Unorm,
            ),
        ],
        kernels: Vec::new(),
        root_working_image: RuntimeResourceId(0),
        final_present: RuntimePassId(5),
    }
}

#[test]
fn prepared_graphs_are_exercised_to_the_end() {
    let plan = preparation();
    assert!(prepared_handoff_is_complete(&plan));
    assert!(prepared_allocations_are_exact(&plan, USAGES));
    assert!(prepared_spatial_keys_are_exact(&plan));
    assert!(prepared_pass_view_is_consistent(&plan.passes[0]));
    assert_eq!(exercise_prepared_bindings(&plan), Ok(true));
    assert_eq!(
        exercise_prepared_graph(&plan, USAGES),
        Ok(PreparedGraphExerciseObservation {
            complete_resource_and_pass_handoff: true,
            exact_capture_coverage_working_and_mask_allocations: true,
            typed_bindings_and_last_use_releases: true,
            spatial_bytes_and_cache_keys_preserved: true,
        })
    );
    assert_eq!(
        bound_resources(&plan.passes[2].runtime),
        [RuntimeResourceId(1), RuntimeResourceId(2)]
    );
    assert_eq!(bound_resources(&plan.passes[5].runtime), [RuntimeResourceId(4)]);
}

#[test]
fn prepared_graphs_are_leased_with_their_kernels() {
    let mut plan = preparation();
    plan.kernels.push(9);
    plan.passes[2].kernel = Some(9);
    plan.passes[2].kernel_releases.push(9);
    let leases = lease_plan(&plan);
    assert_eq!(leases.len(), 7);
    assert_eq!(leases[6], LeaseId::Kernel(9));
    let passes = lease_passes(&plan);
    assert_eq!(passes[2].bound, [lease(1), lease(2), LeaseId::Kernel(9)]);
    assert_eq!(passes[2].releases, [lease(1), LeaseId::Kernel(9)]);
    assert_eq!(exercise_prepared_bindings(&plan), Ok(true));
    assert!(!prepared_handoff_is_complete(&plan));
    assert!(!prepared_allocations_are_exact(&plan, USAGES));
}

#[test]
fn broken_preparations_are_noticed() {
    let mut unreleased = preparation();
    unreleased.passes[4].runtime.releases.pop();
    assert_eq!(exercise_prepared_bindings(&unreleased), Ok(false));
    let mut unknown = preparation();
    unknown.passes[4].runtime.releases.push(RuntimeResourceId(99));
    assert_eq!(exercise_prepared_bindings(&unknown), Ok(false));
    let mut stale = preparation();
    stale.passes[2].runtime.releases.push(RuntimeResourceId(0));
    assert_eq!(
        exercise_prepared_bindings(&stale),
        Err(failure(PreparationFailure::ResourceReleased))
    );
    let mut empty = preparation();
    empty.passes.clear();
    assert_eq!(
        exercise_prepared_graph(&empty, USAGES),
        Err(failure(PreparationFailure::NoFirstPass))
    );
    let mut repeated = preparation();
    repeated.resources[1].runtime.id = RuntimeResourceId(0);
    assert_eq!(
        exercise_prepared_bindings(&repeated),
        Err(failure(PreparationFailure::RepeatedLease))
    );
    let mut foreign = preparation();
    foreign.passes[1].runtime.kind = RuntimePassKind::CopyBackdrop;
    assert!(!prepared_handoff_is_complete(&foreign));
    let mut unkeyed = preparation();
    unkeyed.passes[1].cache_keys = None;
    assert!(!prepared_spatial_keys_are_exact(&unkeyed));
    assert!(!prepared_pass_view_is_consistent(&unkeyed.passes[1]));
    let wide = TextureUsages { capture: 3, ..USAGES };
    assert!(!prepared_allocations_are_exact(&preparation(), wide));
}

#[test]
fn pass_kinds_have_their_places() {
    let places: Vec<usize> = [
        RuntimePassKind::VelloCapture(None),
        RuntimePassKind::CanonicalizeCapture,
        RuntimePassKind::CopyBackdrop,
        RuntimePassKind::ColorFilter(None),
        RuntimePassKind::BlurHorizontal(None),
        RuntimePassKind::BlurVertical(None),
        RuntimePassKind::DropShadowColorize(None),
        RuntimePassKind::Composite(None),
        RuntimePassKind::Present,
    ]
    .into_iter()
    .map(runtime_pass_kind_index)
    .collect();
    assert_eq!(places, [1, 2, 3, 4, 5, 6, 7, 8, 9]);
    assert_eq!(runtime_pass_kind_index(preparation().passes[0].runtime.kind), 0);
}

#[test]
fn failing_passes_are_picked_from_the_plan() {
    let plan = preparation();
    assert_eq!(failing_present_layout(&plan), Some(5));
    assert_eq!(failing_color_filter(&plan), None);
    let mut unkeyed = preparation();
    unkeyed.passes[5].cache_keys = None;
    assert_eq!(failing_present_layout(&unkeyed), None);
}

fn manager(leased_count: usize, payload_creation_attempts: u64) -> ResourceManagerObservation {
    ResourceManagerObservation {
        entry_count: 2,
        leased_count,
        retained_bytes: 64,
        payload_creation_attempts,
    }
}

fn finished(resource: u64) -> FinishedPreparation {
    FinishedPreparation {
        exercise: PreparedGraphExerciseObservation {
            complete_resource_and_pass_handoff: true,
            exact_capture_coverage_working_and_mask_allocations: true,
            typed_bindings_and_last_use_releases: true,
            spatial_bytes_and_cache_keys_preserved: true,
        },
        allocations: vec![AllocationIdentity { lease: lease(1), resource }],
    }
}

#[test]
fn preflights_change_nothing() {
    let lost = Error::UnsupportedBackend;
    assert_eq!(
        preparation_preflight_is_atomic(Ok(manager(0, 1)), true, Ok(manager(0, 1))),
        Ok(true)
    );
    assert_eq!(
        preparation_preflight_is_atomic(Ok(manager(0, 1)), true, Ok(manager(0, 2))),
        Ok(false)
    );
    assert_eq!(
        preparation_preflight_is_atomic(Ok(manager(0, 1)), false, Ok(manager(0, 1))),
        Ok(false)
    );
    assert_eq!(preparation_preflight_is_atomic(Err(lost), true, Ok(manager(0, 1))), Err(lost));
}

#[test]
fn second_preparations_reuse_the_first() {
    let lost = Error::UnsupportedBackend;
    let reuse = exercise_preparation_reuse(
        Ok(finished(5)),
        Ok(manager(0, 1)),
        Ok(finished(5)),
        Ok(manager(0, 1)),
    );
    assert!(reuse.unwrap().1);
    let moved = exercise_preparation_reuse(
        Ok(finished(5)),
        Ok(manager(0, 1)),
        Ok(finished(6)),
        Ok(manager(0, 1)),
    );
    assert!(!moved.unwrap().1);
    let grown = exercise_preparation_reuse(
        Ok(finished(5)),
        Ok(manager(0, 1)),
        Ok(finished(5)),
        Ok(manager(0, 2)),
    );
    assert!(!grown.unwrap().1);
    let gone =
        exercise_preparation_reuse(Ok(finished(5)), Err(lost), Ok(finished(5)), Ok(manager(0, 1)));
    assert_eq!(gone.err(), Some(lost));
}

#[test]
fn failed_preparations_leave_nothing_leased() {
    let lost = Error::UnsupportedBackend;
    let clean = |finish: usize, dropped: usize| {
        preparation_failure_cleanup(Ok(true), Ok(manager(finish, 1)), Ok(()), Ok(manager(dropped, 1)))
    };
    assert_eq!(clean(0, 0), Ok(true));
    assert_eq!(clean(1, 0), Ok(false));
    assert_eq!(clean(0, 1), Ok(false));
    assert_eq!(
        preparation_failure_cleanup(Ok(true), Ok(manager(0, 1)), Err(lost), Ok(manager(0, 1))),
        Err(lost)
    );
}

#[test]
fn preparations_are_observed_beside_a_filled_cache() {
    let lost = Error::UnsupportedBackend;
    let one = PassCacheCounts { samplers: 1, layouts: 0, shaders: 0, pipelines: 0 };
    let two = PassCacheCounts { samplers: 2, ..one };
    assert!(one.has_exactly_one_sampler() && !two.has_exactly_one_sampler());
    let exercise = finished(1).exercise;
    let observe = |before, after| {
        resource_preparation_observation(
            Ok(before),
            Ok(true),
            Ok((exercise, true)),
            Ok(false),
            Ok(after),
        )
    };
    let observation = observe(one, one).unwrap();
    assert!(observation.allocation_preflight_is_atomic);
    assert!(!observation.failure_and_drop_cleanup);
    assert!(observation.repeated_reuse_is_exact_and_bounded);
    assert!(observation.populated_pass_cache_is_preserved);
    assert!(!observe(one, two).unwrap().populated_pass_cache_is_preserved);
    assert!(!observe(two, two).unwrap().populated_pass_cache_is_preserved);
    assert_eq!(
        resource_preparation_observation(Ok(one), Ok(true), Err(lost), Ok(true), Ok(one)),
        Err(lost)
    );
}
