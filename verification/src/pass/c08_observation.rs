//! What is observed of the base spine.

use vstd::prelude::*;

use crate::dispatch::{CaptureGrid, FramePlan};
use crate::error::Error;
use crate::pass::c08::{
    are_facts_of, derives_any, group_is_exact, is_spine, may_derive, C08ExecutionFacts,
    ExecutableVelloCaptureFacts, PassDerivation,
};
use crate::pass::c08_lowered::lowers;
use crate::pass::c08_malformed::{
    c08_rejects_every_other_pass_kind_and_composite_payload, c08_rejects_malformed_bindings,
    c08_rejects_missing_or_reordered_spine_passes, binding_sources, has_edited_bindings,
    law_spine_rejects_foreign_composites, law_spine_rejects_missing_or_reordered,
    lemma_first_composite, malformed_bindings, missing_or_reordered, none_is_spine,
    rejected_as_derived, with_foreign_composites,
};
use crate::pass::model::{
    LoweredGraphPlan, PassModel, PlanModel, RuntimePassKind, RuntimeResourceId, RuntimeResultBinding,
};
use crate::runtime::{DeviceCapabilities, Format, WorkingFormat};

verus! {

/// Whether a capture rasterizes at least one texel, at a finite positive scale.
pub open spec fn is_rasterizable(capture: ExecutableVelloCaptureFacts) -> bool {
    &&& capture.target_extent.width > 0
    &&& capture.target_extent.height > 0
    &&& capture.raster_scale.spec_is_finite()
    &&& capture.raster_scale.spec_is_positive()
}

/// Whether the two facts are of a high-precision spine lowered for each output format, with the
/// same number of captures, all of which rasterize.
pub open spec fn accepts_both_outputs(rgba: C08ExecutionFacts, bgra: C08ExecutionFacts) -> bool {
    &&& rgba.working_format == WorkingFormat::HighPrecision
    &&& rgba.output_format == Format::Rgba8
    &&& bgra.working_format == WorkingFormat::HighPrecision
    &&& bgra.output_format == Format::Bgra8
    &&& rgba.captures@.len() > 0
    &&& rgba.captures@.len() == bgra.captures@.len()
    &&& forall|i: int|
        0 <= i < rgba.captures@.len() ==> is_rasterizable(#[trigger] rgba.captures@[i])
}

pub fn accepts_exact_rgba_and_bgra(rgba: &C08ExecutionFacts, bgra: &C08ExecutionFacts) -> (accepts:
    bool)
    ensures
        accepts == accepts_both_outputs(*rgba, *bgra),
{
    let length: usize = rgba.captures.len();
    let mut rasterizable = true;
    let mut next: usize = 0;
    while next < length
        invariant
            next <= length,
            length == rgba.captures@.len(),
            rasterizable == (forall|i: int|
                0 <= i < next ==> is_rasterizable(#[trigger] rgba.captures@[i])),
        decreases length - next,
    {
        let capture = rgba.captures[next];
        rasterizable = rasterizable && capture.target_extent.width > 0
            && capture.target_extent.height > 0 && capture.raster_scale.is_finite()
            && capture.raster_scale.is_positive();
        next = next + 1;
    }
    rgba.working_format == WorkingFormat::HighPrecision && rgba.output_format == Format::Rgba8
        && bgra.working_format == WorkingFormat::HighPrecision && bgra.output_format
        == Format::Bgra8 && length > 0 && length == bgra.captures.len() && rasterizable
}

/// What is observed of the base spine.
#[derive(Clone, Copy, Debug, PartialEq, Eq, Structural)]
pub struct C08ExecutableSubsetObservation {
    pub accepts_exact_rgba_and_bgra: bool,
    pub rejects_every_other_pass_kind_and_composite_payload: bool,
    pub rejects_missing_or_reordered_spine_passes: bool,
    pub rejects_malformed_dependencies_reads_results_and_releases: bool,
    pub rejects_graph_outside_base_subset: bool,
    pub preserves_direct_and_graph_planner_routes: bool,
}

/// Whether an observation is true of two lowerings of a spine and a graph outside the subset, each
/// with its derivations. Of a spine every foreign composite and every missing or reordered pass is
/// rejected, whatever derivations the edited plans have.
pub open spec fn is_observed_spine<D: Fn(&LoweredGraphPlan) -> Vec<PassDerivation>>(
    observation: Option<C08ExecutableSubsetObservation>,
    derive: D,
    rgba: PlanModel,
    rgba_derived: Seq<PassDerivation>,
    bgra: PlanModel,
    bgra_derived: Seq<PassDerivation>,
    expanded: PlanModel,
    expanded_derived: Seq<PassDerivation>,
    direct_route: bool,
) -> bool {
    &&& observation is Some <==> is_spine(rgba, rgba_derived) && is_spine(bgra, bgra_derived)
    &&& observation matches Some(observed) ==> {
        &&& exists|rgba_facts: C08ExecutionFacts, bgra_facts: C08ExecutionFacts|
            #[trigger] are_facts_of(rgba_facts, rgba, rgba_derived) && #[trigger] are_facts_of(
                bgra_facts,
                bgra,
                bgra_derived,
            ) && observed.accepts_exact_rgba_and_bgra == accepts_both_outputs(
                rgba_facts,
                bgra_facts,
            )
        &&& observed.rejects_every_other_pass_kind_and_composite_payload
        &&& observed.rejects_missing_or_reordered_spine_passes
        &&& match binding_sources(rgba) {
            Some((capture, image)) => rejected_as_derived(
                derive,
                malformed_bindings(rgba, capture, image),
                observed.rejects_malformed_dependencies_reads_results_and_releases,
            ),
            None => !observed.rejects_malformed_dependencies_reads_results_and_releases,
        }
        &&& observed.rejects_graph_outside_base_subset == !is_spine(expanded, expanded_derived)
        &&& observed.preserves_direct_and_graph_planner_routes == direct_route
    }
}

/// Whether an observation is true of a spine that was lowered for both outputs, with what may be
/// derived of the plans.
pub open spec fn is_subset_observed<D: Fn(&LoweredGraphPlan) -> Vec<PassDerivation>>(
    observation: Option<C08ExecutableSubsetObservation>,
    derive: D,
    rgba: PlanModel,
    bgra: PlanModel,
    expanded: PlanModel,
    direct_route: bool,
) -> bool {
    exists|
        rgba_derived: Seq<PassDerivation>,
        bgra_derived: Seq<PassDerivation>,
        expanded_derived: Seq<PassDerivation>,
    |
        {
            &&& #[trigger] may_derive(derive, rgba, rgba_derived)
            &&& #[trigger] may_derive(derive, bgra, bgra_derived)
            &&& #[trigger] may_derive(derive, expanded, expanded_derived)
            &&& is_observed_spine(
                observation,
                derive,
                rgba,
                rgba_derived,
                bgra,
                bgra_derived,
                expanded,
                expanded_derived,
                direct_route,
            )
        }
}

/// What is observed of commands that are planned directly but forced into a spine, beside commands
/// that need a graph outside the subset. `lower` lowers a graph, and `derive` gives the derivations
/// of a plan. Nothing can be observed where the others need no graph, where something cannot be
/// planned, forced or lowered, or where the forced graph is no spine.
pub fn c08_executable_subset_observation_planned<
    C,
    G,
    L: Fn(&G, WorkingFormat, Format, DeviceCapabilities) -> Result<LoweredGraphPlan, Error>,
    D: Fn(&LoweredGraphPlan) -> Vec<PassDerivation>,
>(
    planned: &Result<FramePlan<C, G>, Error>,
    forced: &Result<G, Error>,
    expanded: &Result<FramePlan<C, G>, Error>,
    capabilities: DeviceCapabilities,
    lower: &L,
    derive: &D,
) -> (observation: Option<C08ExecutableSubsetObservation>)
    requires
        lowers(*lower),
        derives_any(*derive),
    ensures
        match (*expanded, *forced) {
            (Ok(FramePlan::GpuGraph(_, outside)), Ok(graph)) => exists|
                rgba: Result<LoweredGraphPlan, Error>,
                bgra: Result<LoweredGraphPlan, Error>,
                other: Result<LoweredGraphPlan, Error>,
            |
                {
                    &&& #[trigger] call_ensures(
                        *lower,
                        (&graph, WorkingFormat::HighPrecision, Format::Rgba8, capabilities),
                        rgba,
                    )
                    &&& #[trigger] call_ensures(
                        *lower,
                        (&graph, WorkingFormat::HighPrecision, Format::Bgra8, capabilities),
                        bgra,
                    )
                    &&& #[trigger] call_ensures(
                        *lower,
                        (&outside, WorkingFormat::HighPrecision, Format::Rgba8, capabilities),
                        other,
                    )
                    &&& match (rgba, bgra, other) {
                        (Ok(rgba), Ok(bgra), Ok(other)) => is_subset_observed(
                            observation,
                            *derive,
                            rgba@,
                            bgra@,
                            other@,
                            *planned matches Ok(FramePlan::DirectVello(_)),
                        ),
                        _ => observation is None,
                    }
                },
            _ => observation is None,
        },
{
    let outside = match expanded {
        Ok(FramePlan::GpuGraph(_, outside)) => outside,
        _ => return None,
    };
    let graph = match forced {
        Ok(graph) => graph,
        Err(_) => return None,
    };
    let direct_route = matches!(planned, Ok(FramePlan::DirectVello(_)));
    let high = WorkingFormat::HighPrecision;
    let rgba = lower(graph, high, Format::Rgba8, capabilities);
    let bgra = lower(graph, high, Format::Bgra8, capabilities);
    let other = lower(outside, high, Format::Rgba8, capabilities);
    match (&rgba, &bgra, &other) {
        (Ok(rgba), Ok(bgra), Ok(other)) => c08_executable_subset_observation(
            rgba,
            bgra,
            other,
            derive,
            direct_route,
            true,
        ),
        _ => None,
    }
}

/// What is observed of a spine that was lowered for both outputs, beside a graph outside the
/// subset. `derive` gives the derivations of a plan. `direct_route` and `graph_route` say which way
/// each was planned; without the graph, or where either plan is no spine, there is nothing to
/// observe.
pub fn c08_executable_subset_observation<D: Fn(&LoweredGraphPlan) -> Vec<PassDerivation>>(
    rgba: &LoweredGraphPlan,
    bgra: &LoweredGraphPlan,
    expanded: &LoweredGraphPlan,
    derive: &D,
    direct_route: bool,
    graph_route: bool,
) -> (observation: Option<C08ExecutableSubsetObservation>)
    requires
        derives_any(*derive),
    ensures
        !graph_route ==> observation is None,
        graph_route ==> is_subset_observed(
            observation,
            *derive,
            rgba@,
            bgra@,
            expanded@,
            direct_route,
        ),
{
    if !graph_route {
        return None;
    }
    assert(call_requires(*derive, (rgba,)));
    assert(call_requires(*derive, (bgra,)));
    assert(call_requires(*derive, (expanded,)));
    let rgba_derived = derive(rgba);
    let bgra_derived = derive(bgra);
    let expanded_derived = derive(expanded);
    proof {
        assert(may_derive(*derive, rgba@, rgba_derived@));
        assert(may_derive(*derive, bgra@, bgra_derived@));
        assert(may_derive(*derive, expanded@, expanded_derived@));
    }
    let rgba_facts = match rgba.c08_execution_facts(&rgba_derived) {
        Some(facts) => facts,
        None => return None,
    };
    let bgra_facts = match bgra.c08_execution_facts(&bgra_derived) {
        Some(facts) => facts,
        None => return None,
    };
    proof {
        assert forall|others: Seq<Seq<PassDerivation>>| #[trigger]
            none_is_spine(with_foreign_composites(rgba@, 3), others) by {
            lemma_first_composite(rgba@, rgba_derived@);
            law_spine_rejects_foreign_composites(rgba@, rgba_derived@, others);
        }
        assert forall|others: Seq<Seq<PassDerivation>>| #[trigger]
            none_is_spine(missing_or_reordered(rgba@, 1, rgba@.passes.len() - 1), others) by {
            law_spine_rejects_missing_or_reordered(rgba@, rgba_derived@, others);
        }
        lemma_first_composite(rgba@, rgba_derived@);
        law_spine_rejects_missing_or_reordered(rgba@, rgba_derived@, Seq::empty());
        assert(group_is_exact(rgba@, rgba_derived@, 0));
        assert(has_edited_bindings(rgba@, 1));
        assert(are_facts_of(rgba_facts, rgba@, rgba_derived@));
        assert(are_facts_of(bgra_facts, bgra@, bgra_derived@));
    }
    let rejects_foreign = c08_rejects_every_other_pass_kind_and_composite_payload(rgba, derive);
    let rejects_reordered = c08_rejects_missing_or_reordered_spine_passes(rgba, derive);
    assert(rejects_foreign && rejects_reordered);
    let observation = Some(
        C08ExecutableSubsetObservation {
            accepts_exact_rgba_and_bgra: accepts_exact_rgba_and_bgra(&rgba_facts, &bgra_facts),
            rejects_every_other_pass_kind_and_composite_payload: rejects_foreign,
            rejects_missing_or_reordered_spine_passes: rejects_reordered,
            rejects_malformed_dependencies_reads_results_and_releases:
                c08_rejects_malformed_bindings(rgba, derive),
            rejects_graph_outside_base_subset: expanded.c08_execution_facts(
                &expanded_derived,
            ).is_none(),
            preserves_direct_and_graph_planner_routes: direct_route && graph_route,
        },
    );
    assert(is_observed_spine(
        observation,
        *derive,
        rgba@,
        rgba_derived@,
        bgra@,
        bgra_derived@,
        expanded@,
        expanded_derived@,
        direct_route,
    ));
    observation
}

impl C08ExecutionFacts {
    /// The pixel grids of the captures, in order.
    pub fn capture_grids(&self) -> (grids: Vec<CaptureGrid>)
        ensures
            grids@.len() == self.captures@.len(),
            forall|i: int|
                0 <= i < grids@.len() ==> #[trigger] grids@[i] == (CaptureGrid {
                    texel_origin_x: self.captures@[i].texel_x,
                    texel_origin_y: self.captures@[i].texel_y,
                    extent: self.captures@[i].target_extent,
                    raster_scale: self.captures@[i].raster_scale,
                }),
    {
        let length: usize = self.captures.len();
        let mut grids: Vec<CaptureGrid> = Vec::with_capacity(length);
        let mut next: usize = 0;
        while next < length
            invariant
                next <= length,
                length == self.captures@.len(),
                grids@.len() == next,
                forall|i: int|
                    0 <= i < next ==> #[trigger] grids@[i] == (CaptureGrid {
                        texel_origin_x: self.captures@[i].texel_x,
                        texel_origin_y: self.captures@[i].texel_y,
                        extent: self.captures@[i].target_extent,
                        raster_scale: self.captures@[i].raster_scale,
                    }),
            decreases length - next,
        {
            let capture = self.captures[next];
            grids.push(
                CaptureGrid {
                    texel_origin_x: capture.texel_x,
                    texel_origin_y: capture.texel_y,
                    extent: capture.target_extent,
                    raster_scale: capture.raster_scale,
                },
            );
            next = next + 1;
        }
        grids
    }
}

/// The images that the bound captures write, in order.
pub open spec fn capture_targets(passes: Seq<PassModel>) -> Seq<RuntimeResourceId>
    decreases passes.len(),
{
    if passes.len() == 0 {
        Seq::empty()
    } else {
        let before = capture_targets(passes.drop_last());
        match (passes.last().kind, passes.last().result) {
            (
                RuntimePassKind::VelloCapture(Some(_)),
                RuntimeResultBinding::Resource(target),
            ) => before.push(target),
            _ => before,
        }
    }
}

/// The image of the capture after `successful` others: the one at which encoding is to fail.
pub fn failing_capture_target(plan: &LoweredGraphPlan, successful: usize) -> (target: Option<
    RuntimeResourceId,
>)
    ensures
        target == (if successful < capture_targets(plan@.passes).len() {
            Some(capture_targets(plan@.passes)[successful as int])
        } else {
            None
        }),
{
    let ghost passes = plan@.passes;
    let length: usize = plan.passes.len();
    let mut targets: Vec<RuntimeResourceId> = Vec::new();
    let mut next: usize = 0;
    while next < length
        invariant
            next <= length,
            length == plan.passes@.len(),
            passes == plan@.passes,
            targets@ == capture_targets(passes.take(next as int)),
        decreases length - next,
    {
        proof {
            let taken = passes.take(next + 1);
            assert(taken.drop_last() =~= passes.take(next as int));
            assert(taken.last() == plan.passes@[next as int]@);
        }
        match (plan.passes[next].kind, plan.passes[next].result) {
            (
                RuntimePassKind::VelloCapture(Some(_)),
                RuntimeResultBinding::Resource(target),
            ) => targets.push(target),
            _ => {},
        }
        next = next + 1;
    }
    proof {
        assert(passes.take(length as int) =~= passes);
    }
    if successful < targets.len() {
        Some(targets[successful])
    } else {
        None
    }
}

/// Both outputs are accepted exactly if each was lowered in high precision for its own format, with as
/// many captures and at least one, each of which has an extent and a finite positive scale; here of one
/// capture, and of each of any.
pub proof fn law_accepted_outputs(
    rgba: &C08ExecutionFacts,
    bgra: &C08ExecutionFacts,
    accepts: bool,
    i: int,
)
    requires
        call_ensures(accepts_exact_rgba_and_bgra, (rgba, bgra), accepts),
        0 <= i < rgba.captures@.len(),
    ensures
        ({
            let capture = rgba.captures@[i];
            let rasterizes = {
                &&& capture.target_extent.width > 0
                &&& capture.target_extent.height > 0
                &&& 0 < capture.raster_scale.bits < 0x7ff0_0000_0000_0000
            };
            let lowered = {
                &&& rgba.working_format is HighPrecision
                &&& rgba.output_format is Rgba8
                &&& bgra.working_format is HighPrecision
                &&& bgra.output_format is Bgra8
                &&& bgra.captures@.len() == rgba.captures@.len()
            };
            &&& accepts ==> rasterizes && lowered
            &&& rgba.captures@.len() == 1 ==> accepts == (rasterizes && lowered)
        }),
{
    assert(rgba.captures@.len() == 1 ==> i == 0);
}

/// The grids of captures are theirs, in order: texel origin, extent and scale.
pub proof fn law_capture_grids_are_of_their_captures(
    facts: &C08ExecutionFacts,
    grids: Vec<CaptureGrid>,
    i: int,
)
    requires
        call_ensures(C08ExecutionFacts::capture_grids, (facts,), grids),
        0 <= i < facts.captures@.len(),
    ensures
        grids@.len() == facts.captures@.len(),
        grids@[i].texel_origin_x == facts.captures@[i].texel_x,
        grids@[i].texel_origin_y == facts.captures@[i].texel_y,
        grids@[i].extent.width == facts.captures@[i].target_extent.width,
        grids@[i].extent.height == facts.captures@[i].target_extent.height,
        grids@[i].raster_scale == facts.captures@[i].raster_scale,
{
}

/// The targets of captures are those of the passes that capture into a resource.
proof fn lemma_capture_targets(passes: Seq<PassModel>)
    ensures
        ({
            let captures = passes.filter(
                |pass: PassModel|
                    pass.kind is VelloCapture && pass.kind->VelloCapture_0 is Some
                        && pass.result is Resource,
            );
            let targets = capture_targets(passes);
            &&& targets.len() == captures.len()
            &&& forall|i: int|
                0 <= i < captures.len() ==> RuntimeResultBinding::Resource(#[trigger] targets[i])
                    == captures[i].result
        }),
    decreases passes.len(),
{
    reveal(Seq::filter);
    if passes.len() > 0 {
        lemma_capture_targets(passes.drop_last());
    }
}

/// Encoding is made to fail at the image of the capture that comes after as many others as are to
/// succeed, and at none if there are no more.
pub proof fn law_failing_captures_come_after_the_successful(
    plan: &LoweredGraphPlan,
    successful: usize,
    target: Option<RuntimeResourceId>,
)
    requires
        call_ensures(failing_capture_target, (plan, successful), target),
    ensures
        ({
            let captures = plan@.passes.filter(
                |pass: PassModel|
                    pass.kind is VelloCapture && pass.kind->VelloCapture_0 is Some
                        && pass.result is Resource,
            );
            &&& target is Some <==> successful < captures.len()
            &&& target matches Some(id) ==> captures[successful as int].result
                == RuntimeResultBinding::Resource(id)
        }),
{
    lemma_capture_targets(plan@.passes);
    if target is Some {
        assert(capture_targets(plan@.passes)[successful as int] == target->0);
    }
}

} // verus!
