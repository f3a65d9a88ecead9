use surgeist_render::error::{CheckedProgram, Error, ExactGraph, PreparationFailure};
use surgeist_render::pass::composite_layout::{
    c08_output_specializations_are_exact, c08_pass_layout_observation,
    c09_composite_layout_observation, composite_layout, composite_pass,
    drop_shadow_merge_observation, spine_layout,
    C08LayoutBlock, C08PassFacts, C08Program, CompositePassFacts, CompositePath,
};
use surgeist_render::pass::layout::{
    c10_color_filter_layout_observation, c11_blur_layout_observation,
    c11_drop_shadow_layout_observation, c12_backdrop_blur_layout_observation,
    c12_copy_backdrop_layout_facts, c12_copy_backdrop_layout_observation, source_layout,
    BlurPassFacts, SourcePassFacts,
    TextureFormatKey,
};
use surgeist_render::pass::mirrored::{BlurEdgeParameters, C12BackdropBlurCacheRequest};
use surgeist_render::pass::model::{
    Rect, RuntimePassCacheKeys, RuntimeReadRole, RuntimeSamplingEdge, Single,
};
use surgeist_render::pass::realization::{
    both_formats, c10_color_filter_cache_realization_observation,
    c11_blur_cache_realization_observation, c11_drop_shadow_cache_realization_observation,
    c12_blur_cache_realization_observation, c12_copy_backdrop_cache_realization_observation,
    cache_realization_observation, checked_realization,
    color_filter_operation_buffer_limit_observation, rejects_unsupported_backdrop_copy,
    request_both_formats, request_edge_blurs, shadow_requests, CacheRealization,
    DeviceHoldings, RealizationStep,
};
use surgeist_render::pass::requests::{C11DropShadowCacheRequests, C12CopyBackdropCacheRequest};
use surgeist_render::runtime::{
    DeviceCapabilities, Format, RenderSurfaceAvailability, RuntimeCapabilityUnavailable,
    RuntimeCapabilityUnavailableReason, RuntimeOperation, WorkingFormat,
};
use surgeist_render::scalar::Scalar;

const HIGH: TextureFormatKey = TextureFormatKey::Working(WorkingFormat::HighPrecision);
const REDUCED: TextureFormatKey = TextureFormatKey::Working(WorkingFormat::ReducedPrecision);
const BLUR: CheckedProgram = CheckedProgram::Blur;
const SCOPE_FAILED: Error =
    Error::Preparation(PreparationFailure::ScopeValidationFailed { program: CheckedProgram::Blur });
const BOTH: DeviceCapabilities =
    DeviceCapabilities { high_precision: true, reduced_precision: true, max_texture_dimension: 64 };

fn keys(number: u64) -> RuntimePassCacheKeys {
    RuntimePassCacheKeys { samplers: number, layout: number, shader: number, pipeline: number }
}

fn source(format: TextureFormatKey, role: RuntimeReadRole) -> SourcePassFacts {
    SourcePassFacts {
        working_format: format,
        source_role: role,
        source_format: format,
        target_format: format,
        has_only_expected_sampler: true,
        has_exact_data_bindings: true,
    }
}

fn blurs() -> Vec<BlurPassFacts> {
    let mut facts = Vec::new();
    for format in [HIGH, REDUCED] {
        for horizontal in [true, false] {
            for source_alpha in [true, false] {
                facts.push(BlurPassFacts {
                    bindings: source(format, RuntimeReadRole::FilterSource),
                    horizontal,
                    source_alpha,
                });
            }
        }
    }
    facts
}

#[test]
fn source_layouts_name_what_differs() {
    let role = RuntimeReadRole::FilterSource;
    let exact = vec![source(HIGH, role), source(REDUCED, role)];
    let layout = source_layout(&exact, role);
    assert!(layout.realizes_both_working_formats);
    assert!(layout.binds_exact_source);
    assert!(layout.binds_only_expected_sampler);
    assert!(layout.binds_exact_data);
    assert!(layout.targets_only_the_working_format);
    assert!(!source_layout(&exact, RuntimeReadRole::CompletedParent).binds_exact_source);
    let mut other = exact.clone();
    other[1].target_format = HIGH;
    other[0].has_only_expected_sampler = false;
    other[1].has_exact_data_bindings = false;
    let layout = source_layout(&other, role);
    assert!(layout.realizes_both_working_formats);
    assert!(!layout.binds_only_expected_sampler);
    assert!(!layout.binds_exact_data);
    assert!(!layout.targets_only_the_working_format);
    let repeated = vec![source(HIGH, role), source(HIGH, role)];
    assert!(!source_layout(&repeated, role).realizes_both_working_formats);
}

/// Keys with the numbers of the items of a list.
fn numbered(numbers: std::ops::Range<u64>) -> Vec<RuntimePassCacheKeys> {
    numbers.map(keys).collect()
}

/// Looks up the facts with the number of the keys.
fn facts_in<T: Copy>(facts: &[T]) -> impl Fn(RuntimePassCacheKeys) -> Option<T> + '_ {
    move |keys: RuntimePassCacheKeys| facts.get(keys.pipeline as usize).copied()
}

/// Requests the first keys in high precision and the others in reduced precision.
fn split_at(
    middle: u64,
    end: u64,
) -> impl Fn(WorkingFormat) -> Result<Vec<RuntimePassCacheKeys>, Error> {
    move |format: WorkingFormat| {
        Ok(match format {
            WorkingFormat::HighPrecision => numbered(0..middle),
            WorkingFormat::ReducedPrecision => numbered(middle..end),
        })
    }
}

#[test]
fn filter_layouts_hold_no_dummy_binding() {
    let role = RuntimeReadRole::FilterSource;
    let facts = [source(HIGH, role), source(REDUCED, role)];
    let color = c10_color_filter_layout_observation(&split_at(1, 2), &facts_in(&facts)).unwrap();
    assert!(color.contains_no_dummy_binding && color.layout.realizes_both_working_formats);
    let three = c10_color_filter_layout_observation(&split_at(1, 3), &facts_in(&facts)).unwrap();
    assert!(!three.contains_no_dummy_binding && !three.layout.binds_exact_data);
    let none = c10_color_filter_layout_observation(&split_at(0, 0), &facts_in(&facts)).unwrap();
    assert!(!none.contains_no_dummy_binding && none.layout.binds_exact_data);
    // A failure comes out; where high precision lacks facts already, nothing more is requested.
    let failing = |format: WorkingFormat| match format {
        WorkingFormat::HighPrecision => Ok(numbered(0..1)),
        WorkingFormat::ReducedPrecision => Err(Error::UnsupportedBackend),
    };
    assert_eq!(
        c10_color_filter_layout_observation(&failing, &facts_in(&facts)),
        Err(Error::UnsupportedBackend)
    );
    let nothing: [SourcePassFacts; 0] = [];
    let unknown = c10_color_filter_layout_observation(&failing, &facts_in(&nothing)).unwrap();
    assert!(!unknown.contains_no_dummy_binding && !unknown.layout.binds_exact_data);
}

#[test]
fn shadow_layouts_look_at_the_colorization() {
    let alpha = RuntimeReadRole::BlurredSourceAlpha;
    let facts = [source(HIGH, alpha), source(REDUCED, alpha)];
    let request = |format: WorkingFormat| {
        Ok(match format {
            WorkingFormat::HighPrecision => {
                C11DropShadowCacheRequests { colorize: keys(0), merge: keys(9) }
            }
            WorkingFormat::ReducedPrecision => {
                C11DropShadowCacheRequests { colorize: keys(1), merge: keys(9) }
            }
        })
    };
    let shadow = c11_drop_shadow_layout_observation(&request, &facts_in(&facts)).unwrap();
    assert!(shadow.contains_no_dummy_binding && shadow.layout.binds_exact_source);
    let missing = c11_drop_shadow_layout_observation(&request, &facts_in(&facts[..1])).unwrap();
    assert!(!missing.layout.binds_exact_source && !missing.contains_no_dummy_binding);
    let colors = facts.map(|facts| SourcePassFacts { source_role: RuntimeReadRole::FilterSource, ..facts });
    let other = c11_drop_shadow_layout_observation(&request, &facts_in(&colors)).unwrap();
    assert!(!other.contains_no_dummy_binding && other.layout.binds_exact_data);
    let failing = |_: WorkingFormat| Err(Error::UnsupportedBackend);
    assert_eq!(
        c11_drop_shadow_layout_observation(&failing, &facts_in(&facts)),
        Err(Error::UnsupportedBackend)
    );
}

#[test]
fn copies_keep_source_and_result_apart() {
    let role = RuntimeReadRole::CompletedParent;
    let facts = vec![source(HIGH, role), source(REDUCED, role)];
    let request = |number: u64, distinct: bool| C12CopyBackdropCacheRequest {
        keys: keys(number),
        source_and_result_are_distinct: distinct,
    };
    let exact = c12_copy_backdrop_layout_facts(&vec![request(0, true), request(1, true)], &facts);
    assert!(exact.layout.binds_exact_source && exact.source_and_result_are_distinct);
    let aliased = c12_copy_backdrop_layout_facts(&vec![request(0, true), request(1, false)], &facts);
    assert!(!aliased.source_and_result_are_distinct);
    let both = |format: WorkingFormat| {
        Ok(match format {
            WorkingFormat::HighPrecision => request(0, true),
            WorkingFormat::ReducedPrecision => request(1, true),
        })
    };
    assert_eq!(c12_copy_backdrop_layout_observation(&both, &facts_in(&facts)), Ok(exact));
    // Keys that bind nothing known are passed over.
    let known = c12_copy_backdrop_layout_observation(&both, &facts_in(&facts[..1])).unwrap();
    assert!(known.layout.binds_exact_source && !known.layout.realizes_both_working_formats);
    let failing = |_: WorkingFormat| Err(Error::UnsupportedBackend);
    assert_eq!(
        c12_copy_backdrop_layout_observation(&failing, &facts_in(&facts)),
        Err(Error::UnsupportedBackend)
    );
}

#[test]
fn blur_layouts_cover_every_axis_input_and_format() {
    let exact = c11_blur_layout_observation(&split_at(4, 8), &facts_in(&blurs())).unwrap();
    assert!(exact.realizes_all_axis_input_and_precision_keys);
    assert!(exact.contains_no_dummy_binding);
    let mut repeated = blurs();
    repeated[3] = repeated[2];
    let observation = c11_blur_layout_observation(&split_at(4, 8), &facts_in(&repeated)).unwrap();
    assert!(!observation.realizes_all_axis_input_and_precision_keys);
    assert!(observation.binds_exact_working_source && !observation.contains_no_dummy_binding);
    let short = c11_blur_layout_observation(&split_at(4, 7), &facts_in(&blurs())).unwrap();
    assert!(!short.realizes_all_axis_input_and_precision_keys);
    assert!(short.binds_exact_working_source);
    let unknown = c11_blur_layout_observation(&split_at(4, 8), &facts_in(&blurs()[..7])).unwrap();
    assert!(!unknown.binds_exact_working_source);
}

#[test]
fn mirrored_blur_layouts_match_their_bounds() {
    let zero = Scalar::from_bits(0.0f64.to_bits());
    let eight = Scalar::from_bits(8.0f64.to_bits());
    let bounds = Rect { x: zero, y: zero, width: eight, height: eight };
    let single = |value: f32| Single { bits: value.to_bits() };
    let parameters = BlurEdgeParameters {
        x: single(0.0),
        y: single(0.0),
        width: single(8.0),
        height: single(8.0),
    };
    let facts = blurs();
    let mut requests: Vec<C12BackdropBlurCacheRequest> = facts
        .iter()
        .zip(0..)
        .map(|(facts, number)| C12BackdropBlurCacheRequest {
            keys: keys(number),
            horizontal: facts.horizontal,
            source_alpha: facts.source_alpha,
            semantic_bounds: bounds,
            read_edge: RuntimeSamplingEdge::SemanticBorderMirror(bounds),
            edge_parameters: parameters,
        })
        .collect();
    let observe = |requests: &[C12BackdropBlurCacheRequest],
                   facts: &[BlurPassFacts],
                   held: Result<BlurEdgeParameters, Error>,
                   first: bool| {
        c12_backdrop_blur_layout_observation(
            &|format: WorkingFormat| {
                Ok(match format {
                    WorkingFormat::HighPrecision => requests[..4].to_vec(),
                    WorkingFormat::ReducedPrecision => requests[4..].to_vec(),
                })
            },
            &facts_in(facts),
            &|_: Rect| held,
            first,
        )
        .unwrap()
    };
    let exact = observe(&requests, &facts, Ok(parameters), true);
    assert!(exact.realizes_all_axis_input_precision_and_edge_keys);
    assert!(exact.semantic_bounds_match_every_mirrored_read);
    assert!(exact.shader_mirrors_logical_bounds_before_texture_mapping);
    let unheld = observe(&requests, &facts, Err(Error::UnsupportedBackend), true);
    assert!(!unheld.semantic_bounds_match_every_mirrored_read);
    let other = BlurEdgeParameters { width: single(7.0), ..parameters };
    assert!(!observe(&requests, &facts, Ok(other), true).semantic_bounds_match_every_mirrored_read);
    requests[2].read_edge = RuntimeSamplingEdge::ClampToExtent;
    requests[3].horizontal = !requests[3].horizontal;
    let observation = observe(&requests, &facts, Ok(parameters), false);
    assert!(!observation.semantic_bounds_match_every_mirrored_read);
    assert!(!observation.realizes_all_axis_input_precision_and_edge_keys);
    assert!(!observation.shader_mirrors_logical_bounds_before_texture_mapping);
    let unknown = observe(&requests, &facts[..7], Ok(parameters), true);
    assert!(!unknown.shader_mirrors_logical_bounds_before_texture_mapping);
    let failing = |_: WorkingFormat| Err(Error::UnsupportedBackend);
    assert_eq!(
        c12_backdrop_blur_layout_observation(
            &failing,
            &facts_in(&facts),
            &|_: Rect| Ok(parameters),
            true
        ),
        Err(Error::UnsupportedBackend)
    );
}

fn composite(path: CompositePath, clip: bool, mask: bool) -> CompositePassFacts {
    let sampling = path == CompositePath::DestinationSampling;
    let mut sampled_roles = vec![RuntimeReadRole::CompositeSource];
    if sampling {
        sampled_roles.push(RuntimeReadRole::CompositeParent);
    }
    if clip {
        sampled_roles.push(RuntimeReadRole::ClipCoverage);
    }
    if mask {
        sampled_roles.push(RuntimeReadRole::AlphaMask);
    }
    CompositePassFacts {
        path,
        has_clip_coverage: clip,
        has_alpha_mask: mask,
        sampled_roles,
        uses_fixed_source_over_blend: !sampling,
        uses_replace_blend: sampling,
        has_only_source_sampler: true,
        has_exact_uniforms: true,
        working_format: HIGH,
        target_format: HIGH,
    }
}

fn composites() -> Vec<CompositePassFacts> {
    let mut facts = Vec::new();
    for path in [CompositePath::Normal, CompositePath::DestinationSampling] {
        for clip in [false, true] {
            for mask in [false, true] {
                facts.push(composite(path, clip, mask));
            }
        }
    }
    facts
}

#[test]
fn composite_layouts_have_eight_interfaces() {
    let facts_of = |keys: RuntimePassCacheKeys| composites().into_iter().nth(keys.pipeline as usize);
    let exact = c09_composite_layout_observation(&numbered(0..8), &facts_of);
    assert!(exact.realizes_all_eight_entry_interfaces);
    assert!(exact.normal_omits_parent && exact.destination_binds_parent);
    assert!(exact.optional_clip_is_exact && exact.optional_mask_is_exact);
    assert!(exact.binds_only_one_source_sampler && exact.binds_only_exact_uniforms);
    // A ninth request whose keys bind nothing known is counted.
    let more = c09_composite_layout_observation(&numbered(0..9), &facts_of);
    assert!(!more.realizes_all_eight_entry_interfaces && more.normal_omits_parent);
    let mut facts = composites();
    facts[0].sampled_roles.push(RuntimeReadRole::CompositeParent);
    facts[4].uses_replace_blend = false;
    facts[3].has_clip_coverage = false;
    facts[5].has_alpha_mask = false;
    facts[6].has_only_source_sampler = false;
    let observation = composite_layout(8, &facts);
    assert!(!observation.realizes_all_eight_entry_interfaces);
    assert!(!observation.normal_omits_parent && !observation.destination_binds_parent);
    assert!(!observation.optional_clip_is_exact && !observation.optional_mask_is_exact);
    assert!(!observation.binds_only_one_source_sampler);
    assert!(!observation.binds_only_exact_uniforms);
}

#[test]
fn composite_passes_are_found_by_interface() {
    let facts = composites();
    assert_eq!(composite_pass(&facts, CompositePath::Normal, false, false), Some(0));
    assert_eq!(composite_pass(&facts, CompositePath::Normal, true, false), Some(2));
    assert_eq!(composite_pass(&facts, CompositePath::DestinationSampling, false, true), Some(5));
    assert_eq!(composite_pass(&Vec::new(), CompositePath::Normal, false, false), None);
}

fn spine_block(format: WorkingFormat, output: Format) -> C08LayoutBlock {
    let working = TextureFormatKey::Working(format);
    let facts = C08PassFacts {
        program: C08Program::SpanSourceOver,
        source_role: RuntimeReadRole::CompositeSource,
        source_format: working,
        working_format: working,
        output_format: None,
        target_format: working,
        has_only_spatial_uniform: true,
        has_fixed_source_over_blend: true,
    };
    let canonicalize = C08PassFacts {
        program: C08Program::CanonicalizeCapture,
        source_role: RuntimeReadRole::CaptureSource,
        source_format: TextureFormatKey::VelloCaptureRgba8Unorm,
        has_fixed_source_over_blend: false,
        ..facts
    };
    let present = C08PassFacts {
        program: C08Program::Present,
        source_role: RuntimeReadRole::FinalWorkingImage,
        output_format: Some(TextureFormatKey::Output(output)),
        target_format: TextureFormatKey::Output(output),
        has_fixed_source_over_blend: false,
        ..facts
    };
    C08LayoutBlock {
        working_format: format,
        output_format: output,
        facts: vec![Some(canonicalize), Some(facts), Some(present)],
    }
}

fn spine_blocks() -> Vec<C08LayoutBlock> {
    vec![
        spine_block(WorkingFormat::HighPrecision, Format::Rgba8),
        spine_block(WorkingFormat::HighPrecision, Format::Bgra8),
        spine_block(WorkingFormat::ReducedPrecision, Format::Rgba8),
        spine_block(WorkingFormat::ReducedPrecision, Format::Bgra8),
    ]
}

#[test]
fn spine_layouts_bind_only_what_they_sample() {
    // The keys of a block are numbered by its formats and by its passes.
    let request = |working: WorkingFormat, output: Format| {
        let reduced = u64::from(working == WorkingFormat::ReducedPrecision);
        let block = 2 * reduced + u64::from(output == Format::Bgra8);
        Ok(numbered(10 * block..10 * block + 3))
    };
    let facts_of = |keys: RuntimePassCacheKeys| {
        let block = &spine_blocks()[(keys.pipeline / 10) as usize];
        block.facts[(keys.pipeline % 10) as usize]
    };
    let exact = c08_pass_layout_observation(&request, &facts_of);
    assert!(exact.canonicalize_binds_capture_and_spatial_only);
    assert!(exact.span_source_over_binds_source_and_spatial_only);
    assert!(exact.present_binds_final_image_and_spatial_only);
    assert!(exact.copy_only_parent_is_not_sampled);
    assert!(exact.dummy_parameters_are_not_bound);
    assert!(exact.c09_typed_vocabulary_is_preserved);
    assert!(exact.output_specialization_is_exact);
    // Nothing is observed where one pair of formats cannot be requested, or has unknown keys.
    let partial = |working: WorkingFormat, output: Format| {
        if working == WorkingFormat::ReducedPrecision && output == Format::Bgra8 {
            Err(Error::UnsupportedBackend)
        } else {
            request(working, output)
        }
    };
    let nothing = c08_pass_layout_observation(&partial, &facts_of);
    assert!(!nothing.span_source_over_binds_source_and_spatial_only);
    assert!(!nothing.c09_typed_vocabulary_is_preserved);
    let known = |keys: RuntimePassCacheKeys| if keys.pipeline == 31 { None } else { facts_of(keys) };
    assert_eq!(c08_pass_layout_observation(&request, &known), nothing);
    // The same keys for both outputs are specialized once, and not for the output.
    let one = |working: WorkingFormat, _: Format| request(working, Format::Rgba8);
    let repeated = c08_pass_layout_observation(&one, &facts_of);
    assert!(repeated.canonicalize_binds_capture_and_spatial_only);
    assert!(!repeated.present_binds_final_image_and_spatial_only);
    assert!(!repeated.output_specialization_is_exact);
}

#[test]
fn spine_blocks_are_judged_by_their_own_formats() {
    let mut blocks = spine_blocks();
    blocks[1] = spine_block(WorkingFormat::HighPrecision, Format::Rgba8);
    let repeated = spine_layout(&blocks);
    assert!(repeated.present_binds_final_image_and_spatial_only);
    assert!(!repeated.output_specialization_is_exact);
    blocks[2].facts[0] = None;
    let unknown = spine_layout(&blocks);
    assert!(!unknown.span_source_over_binds_source_and_spatial_only);
    assert!(!unknown.c09_typed_vocabulary_is_preserved);
}

#[test]
fn spine_specializations_are_four_and_distinct() {
    let of = |output: Format| Some(TextureFormatKey::Output(output));
    let mut found = vec![
        (HIGH, of(Format::Rgba8)),
        (HIGH, of(Format::Bgra8)),
        (REDUCED, of(Format::Rgba8)),
    ];
    assert!(!c08_output_specializations_are_exact(&found));
    found.push((REDUCED, of(Format::Bgra8)));
    assert!(c08_output_specializations_are_exact(&found));
    found[3] = found[2];
    assert!(!c08_output_specializations_are_exact(&found));
}

fn merge() -> C08PassFacts {
    C08PassFacts {
        program: C08Program::DropShadowMerge,
        source_role: RuntimeReadRole::CompositeSource,
        source_format: HIGH,
        working_format: HIGH,
        output_format: None,
        target_format: HIGH,
        has_only_spatial_uniform: true,
        has_fixed_source_over_blend: true,
    }
}

#[test]
fn shadow_merges_blend_without_reading_their_target() {
    let exact = drop_shadow_merge_observation(&vec![merge(), merge()]);
    assert!(exact.uses_fixed_premultiplied_source_over && exact.omits_destination_sample);
    let parent = C08PassFacts { source_role: RuntimeReadRole::CompositeParent, ..merge() };
    let sampled = drop_shadow_merge_observation(&vec![merge(), parent]);
    assert!(sampled.uses_fixed_premultiplied_source_over && !sampled.omits_destination_sample);
}

#[test]
fn realizations_go_through_scope_and_commit() {
    let mut realization = CacheRealization::new(BLUR, vec![keys(1), keys(2)]);
    assert_eq!(realization.step(), RealizationStep::Realize { keys: keys(1) });
    realization.realized(Ok(()));
    assert_eq!(realization.step(), RealizationStep::Realize { keys: keys(2) });
    realization.realized(Ok(()));
    assert_eq!(realization.step(), RealizationStep::PopScope);
    realization.scope_popped(false);
    assert_eq!(realization.step(), RealizationStep::Commit);
    realization.committed(Ok(()));
    assert_eq!(realization.step(), RealizationStep::Done { published: Ok(2) });
    assert_eq!(CacheRealization::new(BLUR, Vec::new()).step(), RealizationStep::PopScope);
}

#[test]
fn realizations_publish_all_or_nothing() {
    let lost = Error::UnsupportedBackend;
    let mut failed = CacheRealization::new(BLUR, vec![keys(1), keys(2)]);
    failed.realized(Err(lost));
    assert_eq!(failed.step(), RealizationStep::PopScope);
    failed.scope_popped(true);
    assert_eq!(failed.step(), RealizationStep::Done { published: Err(lost) });
    let mut scoped = CacheRealization::new(BLUR, vec![keys(1)]);
    scoped.realized(Ok(()));
    scoped.scope_popped(true);
    assert_eq!(scoped.step(), RealizationStep::Done { published: Err(SCOPE_FAILED) });
    let mut uncommitted = CacheRealization::new(BLUR, vec![keys(1)]);
    uncommitted.realized(Ok(()));
    uncommitted.scope_popped(false);
    uncommitted.committed(Err(lost));
    assert_eq!(uncommitted.step(), RealizationStep::Done { published: Err(lost) });
}

#[test]
fn checked_realizations_report_the_first_failure() {
    let lost = Error::UnsupportedBackend;
    assert_eq!(checked_realization(BLUR, Ok(3), false, Ok(())), Ok(3));
    assert_eq!(checked_realization(BLUR, Err(lost), true, Ok(())), Err(lost));
    assert_eq!(checked_realization(BLUR, Ok(3), true, Err(lost)), Err(SCOPE_FAILED));
    assert_eq!(checked_realization(BLUR, Ok(3), false, Err(lost)), Err(lost));
}

#[test]
fn requests_of_both_formats_keep_their_order() {
    let both = both_formats(&vec![keys(1), keys(2)], &vec![keys(3)]);
    assert_eq!(both, [keys(1), keys(2), keys(3)]);
    let high = C11DropShadowCacheRequests { colorize: keys(1), merge: keys(2) };
    let reduced = C11DropShadowCacheRequests { colorize: keys(3), merge: keys(4) };
    assert_eq!(shadow_requests(high, reduced), [keys(1), keys(2), keys(3), keys(4)]);
}

#[test]
fn published_programs_are_counted() {
    let requests = numbered(0..2);
    let all = |_: RuntimePassCacheKeys| true;
    let first = |keys: RuntimePassCacheKeys| keys.pipeline == 0;
    let exact = cache_realization_observation(BOTH, Ok(2), 2, &requests, &all, true).unwrap();
    assert!(exact.realizes_every_program && exact.publishes_only_requested_entries);
    let partial = cache_realization_observation(BOTH, Ok(1), 2, &requests, &first, true).unwrap();
    assert!(!partial.realizes_every_program && !partial.publishes_only_requested_entries);
    let crowded = cache_realization_observation(BOTH, Ok(2), 2, &requests, &all, false).unwrap();
    assert!(crowded.realizes_every_program && !crowded.publishes_only_requested_entries);
    assert_eq!(
        cache_realization_observation(BOTH, Err(SCOPE_FAILED), 2, &requests, &all, true),
        Err(SCOPE_FAILED)
    );
    let (high, reduced) = (numbered(0..4), numbered(4..8));
    let below = |limit: u64| move |keys: RuntimePassCacheKeys| keys.pipeline < limit;
    let blurs = |published: usize, limit: u64| {
        let contains = below(limit);
        c11_blur_cache_realization_observation(BOTH, &high, &reduced, Ok(published), &contains, true)
            .unwrap()
    };
    assert!(blurs(8, 8).realizes_every_program && blurs(8, 8).publishes_only_requested_entries);
    assert!(!blurs(7, 8).realizes_every_program);
    assert!(!blurs(8, 7).publishes_only_requested_entries);
}

#[test]
fn published_backdrop_copies_are_counted() {
    let copy = |number: u64| C12CopyBackdropCacheRequest {
        keys: keys(number),
        source_and_result_are_distinct: true,
    };
    let observe = |cached: u64, holds_no_other: bool, rejects: bool| {
        c12_copy_backdrop_cache_realization_observation(
            BOTH,
            copy(0),
            copy(1),
            Ok(2),
            &|keys: RuntimePassCacheKeys| keys.pipeline < cached,
            holds_no_other,
            rejects,
        )
        .unwrap()
    };
    let copies = observe(2, true, true);
    assert!(copies.realizes_high_precision && copies.realizes_reduced_precision);
    assert!(copies.checked_scope_is_clean && copies.publishes_only_copy_backdrop_entries);
    assert!(copies.rejects_unsupported_format_before_publication);
    assert!(!observe(1, true, true).publishes_only_copy_backdrop_entries);
    assert!(!observe(2, false, true).publishes_only_copy_backdrop_entries);
    assert!(!observe(2, true, false).rejects_unsupported_format_before_publication);
    let refusing = |capabilities: DeviceCapabilities, format: WorkingFormat| {
        capabilities.validate_supported_working_format(format).map(|_| copy(0))
    };
    assert!(rejects_unsupported_backdrop_copy(&refusing, true));
    assert!(!rejects_unsupported_backdrop_copy(&refusing, false));
    let lenient = |_: DeviceCapabilities, _: WorkingFormat| Ok(copy(0));
    assert!(!rejects_unsupported_backdrop_copy(&lenient, true));
}

#[test]
fn published_filters_are_looked_up_in_the_cache() {
    let colors = |high: u64, end: u64, cached: u64| {
        c10_color_filter_cache_realization_observation(
            BOTH,
            &numbered(0..high),
            &numbered(high..end),
            Ok(2),
            &|keys: RuntimePassCacheKeys| keys.pipeline < cached,
            true,
        )
        .unwrap()
    };
    let exact = colors(1, 2, 2);
    assert!(exact.realizes_high_precision && exact.realizes_reduced_precision);
    assert!(exact.publishes_only_color_filter_entries);
    assert!(!colors(1, 1, 1).realizes_reduced_precision);
    assert!(!colors(1, 2, 1).publishes_only_color_filter_entries);
    let edges = |mirrored: std::ops::Range<u64>, cached: u64| {
        c12_blur_cache_realization_observation(
            BOTH,
            &numbered(0..8),
            &numbered(mirrored),
            Ok(16),
            &|keys: RuntimePassCacheKeys| keys.pipeline < cached,
            true,
        )
        .unwrap()
    };
    let exact = edges(8..16, 16);
    assert!(exact.realizes_all_transparent_and_mirrored_programs);
    assert!(exact.edge_program_keys_are_distinct && exact.publishes_exact_edge_programs);
    assert!(!edges(8..16, 15).publishes_exact_edge_programs);
    assert!(!edges(7..15, 16).edge_program_keys_are_distinct);
}

#[test]
fn published_shadows_are_looked_up_in_the_cache() {
    let high = C11DropShadowCacheRequests { colorize: keys(0), merge: keys(1) };
    let reduced = C11DropShadowCacheRequests { colorize: keys(2), merge: keys(3) };
    let observe = |colorized: u64, merged: u64, facts: Option<C08PassFacts>| {
        c11_drop_shadow_cache_realization_observation(
            BOTH,
            high,
            reduced,
            Ok(4),
            &|keys: RuntimePassCacheKeys| keys.pipeline < colorized,
            &|keys: RuntimePassCacheKeys| keys.pipeline < merged,
            &|keys: RuntimePassCacheKeys| if keys.pipeline == 3 { facts } else { Some(merge()) },
            true,
        )
        .unwrap()
    };
    let exact = observe(3, 4, Some(merge()));
    assert!(exact.realizes_checked_colorize_and_merge_programs);
    assert!(exact.merge_uses_fixed_premultiplied_source_over);
    assert!(exact.merge_omits_destination_sample && exact.publishes_only_drop_shadow_entries);
    assert!(!observe(2, 4, Some(merge())).publishes_only_drop_shadow_entries);
    assert!(!observe(3, 3, Some(merge())).publishes_only_drop_shadow_entries);
    assert_eq!(observe(3, 4, None), exact);
    let parent = C08PassFacts { source_role: RuntimeReadRole::CompositeParent, ..merge() };
    assert!(!observe(3, 4, Some(parent)).merge_omits_destination_sample);
    let unblended = C08PassFacts { has_fixed_source_over_blend: false, ..merge() };
    assert!(!observe(3, 4, Some(unblended)).merge_uses_fixed_premultiplied_source_over);
}

#[test]
fn edge_blurs_are_requested_format_by_format() {
    let zero = Scalar::from_bits(0);
    let bounds = Rect { x: zero, y: zero, width: zero, height: zero };
    let single = Single { bits: 0 };
    let mirrored = |number: u64| C12BackdropBlurCacheRequest {
        keys: keys(number),
        horizontal: true,
        source_alpha: false,
        semantic_bounds: bounds,
        read_edge: RuntimeSamplingEdge::SemanticBorderMirror(bounds),
        edge_parameters: BlurEdgeParameters { x: single, y: single, width: single, height: single },
    };
    let backdrop = |format: WorkingFormat| {
        Ok(match format {
            WorkingFormat::HighPrecision => vec![mirrored(20)],
            WorkingFormat::ReducedPrecision => vec![mirrored(21), mirrored(22)],
        })
    };
    let requests = request_edge_blurs(BOTH, &split_at(1, 3), &backdrop).unwrap();
    assert_eq!(requests.transparent, numbered(0..3));
    assert_eq!(requests.mirrored, numbered(20..23));
    let ordinary = |format: WorkingFormat| {
        if format == WorkingFormat::HighPrecision {
            Ok(numbered(0..1))
        } else {
            Err(Error::SurfaceOutdated)
        }
    };
    let refused = |_: WorkingFormat| Err(Error::UnsupportedBackend);
    assert_eq!(
        request_edge_blurs(BOTH, &ordinary, &refused).err(),
        Some(Error::UnsupportedBackend)
    );
    assert_eq!(
        request_edge_blurs(BOTH, &ordinary, &backdrop).err(),
        Some(Error::SurfaceOutdated)
    );
    let neither = DeviceCapabilities { high_precision: false, ..BOTH };
    assert_eq!(
        request_edge_blurs(neither, &ordinary, &backdrop).err(),
        neither.validate_both_working_formats().err()
    );
}

#[test]
fn programs_are_requested_in_both_formats() {
    let (high, reduced) = (WorkingFormat::HighPrecision, WorkingFormat::ReducedPrecision);
    let request = |format: WorkingFormat| Ok(format);
    assert_eq!(request_both_formats(BOTH, &request), Ok((high, reduced)));
    let never = |_: WorkingFormat| -> Result<u8, Error> { panic!("nothing is requested") };
    for (capabilities, format) in [
        (DeviceCapabilities { high_precision: false, ..BOTH }, high),
        (DeviceCapabilities { reduced_precision: false, ..BOTH }, reduced),
    ] {
        let error = capabilities.validate_supported_working_format(format).unwrap_err();
        assert_eq!(request_both_formats(capabilities, &never), Err(error));
        assert_eq!(
            c11_blur_cache_realization_observation(
                capabilities,
                &Vec::new(),
                &Vec::new(),
                Ok(8),
                &|_: RuntimePassCacheKeys| true,
                true
            )
            .err(),
            Some(error)
        );
    }
    let failing = |format: WorkingFormat| -> Result<u8, Error> {
        if format == high {
            Ok(1)
        } else {
            Err(Error::UnsupportedBackend)
        }
    };
    assert_eq!(request_both_formats(BOTH, &failing), Err(Error::UnsupportedBackend));
}

#[test]
fn working_formats_are_supported_one_by_one() {
    let (high, reduced) = (WorkingFormat::HighPrecision, WorkingFormat::ReducedPrecision);
    assert!(BOTH.validate_supported_working_format(high).is_ok());
    assert!(BOTH.validate_both_working_formats().is_ok());
    let neither = DeviceCapabilities { high_precision: false, reduced_precision: false, ..BOTH };
    assert_eq!(
        neither.validate_both_working_formats(),
        neither.validate_supported_working_format(high)
    );
    assert!(neither.validate_supported_working_format(reduced).is_err());
    assert_ne!(
        neither.validate_supported_working_format(high),
        neither.validate_supported_working_format(reduced)
    );
}

#[test]
fn operation_buffer_limits_are_exact() {
    let idle = DeviceHoldings { resources: 4, cached_passes: 2 };
    let observation = color_filter_operation_buffer_limit_observation(idle, idle);
    assert!(observation.count_overflow_is_exact);
    assert!(observation.max_buffer_size_is_exact);
    assert!(observation.max_storage_binding_size_is_exact);
    assert!(observation.equality_at_both_limits_is_accepted);
    assert!(observation.rejects_before_any_allocation_or_cache_action);
    let grown = DeviceHoldings { resources: 5, cached_passes: 2 };
    let observation = color_filter_operation_buffer_limit_observation(idle, grown);
    assert!(observation.count_overflow_is_exact);
    assert!(!observation.rejects_before_any_allocation_or_cache_action);
}

#[test]
fn failed_programs_are_named() {
    let scope = |program| PreparationFailure::ScopeValidationFailed { program }.message();
    assert_eq!(scope(CheckedProgram::ColorFilter), "C10 checked shader realization failed validation");
    assert_eq!(scope(CheckedProgram::Blur), "C11 checked blur realization failed validation");
    assert_eq!(
        scope(CheckedProgram::DropShadow),
        "C11 checked drop-shadow realization failed validation"
    );
    assert_eq!(
        scope(CheckedProgram::BackdropCopy),
        "C12 checked backdrop-copy realization failed validation"
    );
    assert_eq!(
        scope(CheckedProgram::EdgeAwareBlur),
        "C12 checked edge-aware blur realization failed validation"
    );
    assert_eq!(
        PreparationFailure::OutsideColorGraph.message(),
        "the authored C10 fixture is outside the exact closed color graph"
    );
    assert_eq!(
        PreparationFailure::RootOutputMissing { graph: ExactGraph::C11 }.message(),
        "the C11 root output resource is missing"
    );
}

#[test]
fn missing_capabilities_are_named() {
    let unavailable = |operation, reason| RuntimeCapabilityUnavailable { operation, reason }.message();
    let adapter = RuntimeCapabilityUnavailableReason::AdapterUnavailable;
    assert_eq!(
        unavailable(RuntimeOperation::EffectRendering, adapter),
        "resource preparation coverage requires a ready default device"
    );
    assert_eq!(
        unavailable(RuntimeOperation::SurfaceRendering, adapter),
        "no compatible wgpu adapter is available"
    );
    assert_eq!(
        unavailable(
            RuntimeOperation::SurfaceReadback,
            RuntimeCapabilityUnavailableReason::SurfaceUnavailable {
                state: RenderSurfaceAvailability::Uninitialized
            }
        ),
        "headless surface has no published texture"
    );
}
