//! What is observed of the growing executable subsets.
//!
//! Which plans close is decided elsewhere: each observation takes that decision as a function.

use vstd::prelude::*;

use crate::dispatch::ExecutableGraphDispatchEligibility;
use crate::error::{
    Error, LoweringFailure, PrimitiveFamily, PrimitiveOperation, UnsupportedPrimitive,
};
use crate::pass::c10::{
    clamps_once, color_pass_indices, color_runs, is_color_run, preserves_one_clamp_per_record,
};
use crate::pass::c11::{
    blur_edge_is_exact, blur_images, blur_mapping_is_exact, c11_blur_edges_are_exact,
    c11_dependencies_and_lifetimes_are_exact, c11_filter_pass_tags, c11_filter_step_shape_is_exact,
    c11_shadow_facts_are_exact, c11_shadow_fanout_is_exact, c11_shadow_releases_are_exact,
    c11_sources_and_results_are_distinct, c11_spatial_mappings_are_exact, filter_shape_is_exact,
    filter_tags, lifetimes_are_exact, shadow_fanout, shadow_images, shadow_is_exact,
    shadow_mapping_is_exact, shadow_release, C11FilterPassTag,
};
use crate::pass::closed::{
    c09_layer_composition_reads_are_exact, layer_compositions_are_exact, ClosedExecutableGraph,
};
use crate::pass::malformed::{
    c09_foreign, c09_foreign_plans, c09_malformed, c09_malformed_plans, c10_edited_image,
    c10_malformed, c10_malformed_color_plans, c11_axes_inputs_edges_alias,
    c11_axes_inputs_edges_alias_plans, c11_copy_stale_forward, c11_copy_stale_forward_plans,
    c11_empty_missing_spatial, c11_empty_missing_spatial_plans, c12_is_editable, c12_malformed,
    c12_malformed_plans, find_wanted, first_wanted, last_wanted, C11PassIndices, WantedPass,
};
use crate::pass::model::{
    plan_models, LoweredGraphPlan, PassModel, PlanModel, RuntimePassId, RuntimePassKind,
};
use crate::pass::edit::with_kind;
use crate::pass::realization::DeviceHoldings;
use crate::pass::requests::PrePreparationGraphClassification;
use crate::runtime::{Format, WorkingFormat};

verus! {

/// Whether a decision can be asked of every plan.
pub open spec fn decides<F: Fn(&LoweredGraphPlan) -> bool>(closes: F) -> bool {
    forall|plan: LoweredGraphPlan| #[trigger] call_requires(closes, (&plan,))
}

/// Whether a decision on a plan with these contents can turn out this way.
pub open spec fn may_answer<F: Fn(&LoweredGraphPlan) -> bool>(
    closes: F,
    plan: PlanModel,
    answer: bool,
) -> bool {
    exists|asked: LoweredGraphPlan|
        asked@ == plan && #[trigger] call_ensures(closes, (&asked,), answer)
}

/// Whether an observation that all plans are refused is true to the decisions: each may be refused,
/// or else one may be accepted.
pub open spec fn refused_as_observed<F: Fn(&LoweredGraphPlan) -> bool>(
    closes: F,
    plans: Seq<PlanModel>,
    refused: bool,
) -> bool {
    if refused {
        forall|i: int| 0 <= i < plans.len() ==> may_answer(closes, #[trigger] plans[i], false)
    } else {
        exists|i: int| 0 <= i < plans.len() && may_answer(closes, #[trigger] plans[i], true)
    }
}

/// Whether all plans are refused.
pub fn all_refused<F: Fn(&LoweredGraphPlan) -> bool>(
    plans: &Vec<LoweredGraphPlan>,
    closes: &F,
) -> (refused: bool)
    requires
        decides(*closes),
    ensures
        refused_as_observed(*closes, plan_models(plans@), refused),
{
    let ghost models = plan_models(plans@);
    let length: usize = plans.len();
    let mut next: usize = 0;
    while next < length
        invariant
            next <= length,
            length == plans@.len(),
            decides(*closes),
            models == plan_models(plans@),
            forall|i: int| 0 <= i < next ==> may_answer(*closes, #[trigger] models[i], false),
        decreases length - next,
    {
        let plan = &plans[next];
        assert(call_requires(*closes, (plan,)));
        let accepted = closes(plan);
        assert(models[next as int] == plan@);
        assert(may_answer(*closes, models[next as int], accepted));
        if accepted {
            return false;
        }
        next = next + 1;
    }
    true
}

/// What is observed of layer composition.
#[derive(Clone, Copy, Debug, PartialEq, Eq, Structural)]
pub struct C09ExecutableGraphObservation {
    pub accepts_spine_and_layer_composition_for_all_formats: bool,
    pub layer_composition_reads_are_exact: bool,
    pub rejects_c10_plus_passes_and_payloads: bool,
    pub rejects_missing_payloads: bool,
    pub rejects_malformed_graph_facts: bool,
    pub rejects_unsupported_output_binding: bool,
    pub preserves_exact_c09_dispatch: bool,
}

/// Whether every plan can be closed, or found not to close.
pub open spec fn closes_any<K: Fn(&LoweredGraphPlan) -> Option<ClosedExecutableGraph>>(
    close: K,
) -> bool {
    forall|plan: LoweredGraphPlan| #[trigger] call_requires(close, (&plan,))
}

/// Whether closing a plan with these contents can turn out this way.
pub open spec fn may_close<K: Fn(&LoweredGraphPlan) -> Option<ClosedExecutableGraph>>(
    close: K,
    plan: PlanModel,
    closed: Option<ClosedExecutableGraph>,
) -> bool {
    exists|asked: LoweredGraphPlan|
        asked@ == plan && #[trigger] call_ensures(close, (&asked,), closed)
}

/// Whether an observation that no plan closes is true to the closings: each may not close, or else
/// one may.
pub open spec fn unclosed_as_observed<K: Fn(&LoweredGraphPlan) -> Option<ClosedExecutableGraph>>(
    close: K,
    plans: Seq<PlanModel>,
    unclosed: bool,
) -> bool {
    if unclosed {
        forall|i: int| 0 <= i < plans.len() ==> may_close(close, #[trigger] plans[i], None)
    } else {
        exists|i: int, closed: ClosedExecutableGraph|
            0 <= i < plans.len() && #[trigger] may_close(close, plans[i], Some(closed))
    }
}

/// Whether no plan closes.
pub fn none_closes<K: Fn(&LoweredGraphPlan) -> Option<ClosedExecutableGraph>>(
    plans: &Vec<LoweredGraphPlan>,
    close: &K,
) -> (unclosed: bool)
    requires
        closes_any(*close),
    ensures
        unclosed_as_observed(*close, plan_models(plans@), unclosed),
{
    let ghost models = plan_models(plans@);
    let length: usize = plans.len();
    let mut next: usize = 0;
    while next < length
        invariant
            next <= length,
            length == plans@.len(),
            closes_any(*close),
            models == plan_models(plans@),
            forall|i: int| 0 <= i < next ==> may_close(*close, #[trigger] models[i], None),
        decreases length - next,
    {
        let plan = &plans[next];
        assert(call_requires(*close, (plan,)));
        let closed = close(plan);
        assert(models[next as int] == plan@);
        assert(may_close(*close, models[next as int], closed));
        if closed.is_some() {
            assert(may_close(*close, models[next as int], Some(closed->0)));
            return false;
        }
        next = next + 1;
    }
    true
}

/// Whether a graph can be lowered for every pair of formats, or found not to lower.
pub open spec fn lowers_any<L: Fn(WorkingFormat, Format) -> Option<LoweredGraphPlan>>(
    lower: L,
) -> bool {
    forall|working_format: WorkingFormat, output_format: Format| #[trigger]
        call_requires(lower, (working_format, output_format))
}

/// The contents of a plan, if a graph was lowered to one.
pub open spec fn plan_of(lowered: Option<LoweredGraphPlan>) -> Option<PlanModel> {
    match lowered {
        Some(plan) => Some(plan@),
        None => None,
    }
}

/// The contents of the plans, if a graph was lowered to them.
pub open spec fn plans_of(lowered: Option<Vec<LoweredGraphPlan>>) -> Option<Seq<PlanModel>> {
    match lowered {
        Some(plans) => Some(plan_models(plans@)),
        None => None,
    }
}

/// Whether a graph may be lowered like this for a pair of formats.
pub open spec fn may_lower<L: Fn(WorkingFormat, Format) -> Option<LoweredGraphPlan>>(
    lower: L,
    working_format: WorkingFormat,
    output_format: Format,
    plan: Option<PlanModel>,
) -> bool {
    exists|lowered: Option<LoweredGraphPlan>|
        {
            &&& #[trigger] call_ensures(lower, (working_format, output_format), lowered)
            &&& plan_of(lowered) == plan
        }
}

/// Whether these may be the lowerings of a graph for every working format and output, the high
/// precision first; none, where it is not lowered for one of them.
pub open spec fn may_lower_for_every_format<
    L: Fn(WorkingFormat, Format) -> Option<LoweredGraphPlan>,
>(lower: L, plans: Option<Seq<PlanModel>>) -> bool {
    let high = WorkingFormat::HighPrecision;
    let reduced = WorkingFormat::ReducedPrecision;
    match plans {
        Some(plans) => {
            &&& plans.len() == 4
            &&& may_lower(lower, high, Format::Rgba8, Some(plans[0]))
            &&& may_lower(lower, high, Format::Bgra8, Some(plans[1]))
            &&& may_lower(lower, reduced, Format::Rgba8, Some(plans[2]))
            &&& may_lower(lower, reduced, Format::Bgra8, Some(plans[3]))
        },
        None => {
            ||| may_lower(lower, high, Format::Rgba8, None)
            ||| may_lower(lower, high, Format::Bgra8, None)
            ||| may_lower(lower, reduced, Format::Rgba8, None)
            ||| may_lower(lower, reduced, Format::Bgra8, None)
        },
    }
}

/// Whether a plan may be the first lowering of a graph that may be lowered for every format.
pub open spec fn may_be_lowered_first<L: Fn(WorkingFormat, Format) -> Option<LoweredGraphPlan>>(
    lower: L,
    plan: PlanModel,
) -> bool {
    exists|plans: Seq<PlanModel>| #[trigger]
        may_lower_for_every_format(lower, Some(plans)) && plans[0] == plan
}

/// The lowerings of a graph for every working format and output, the high precision first.
pub fn lower_for_every_format<L: Fn(WorkingFormat, Format) -> Option<LoweredGraphPlan>>(
    lower: &L,
) -> (plans: Option<Vec<LoweredGraphPlan>>)
    requires
        lowers_any(*lower),
    ensures
        may_lower_for_every_format(*lower, plans_of(plans)),
{
    let high = WorkingFormat::HighPrecision;
    let reduced = WorkingFormat::ReducedPrecision;
    let first = lower(high, Format::Rgba8);
    let second = lower(high, Format::Bgra8);
    let third = lower(reduced, Format::Rgba8);
    let fourth = lower(reduced, Format::Bgra8);
    proof {
        assert(may_lower(*lower, high, Format::Rgba8, plan_of(first)));
        assert(may_lower(*lower, high, Format::Bgra8, plan_of(second)));
        assert(may_lower(*lower, reduced, Format::Rgba8, plan_of(third)));
        assert(may_lower(*lower, reduced, Format::Bgra8, plan_of(fourth)));
    }
    match (first, second, third, fourth) {
        (Some(first), Some(second), Some(third), Some(fourth)) => {
            let mut plans: Vec<LoweredGraphPlan> = Vec::new();
            plans.push(first);
            plans.push(second);
            plans.push(third);
            plans.push(fourth);
            assert(plan_models(plans@) =~= seq![first@, second@, third@, fourth@]);
            Some(plans)
        },
        _ => None,
    }
}

/// Whether a graph closed, with layer compositions or without any.
pub open spec fn is_layered(closed: Option<ClosedExecutableGraph>, layered: bool) -> bool {
    closed matches Some(closed) && (closed.layer_compositions@.len() > 0) == layered
}

/// Whether it is true to a lowering and its closing that a graph is accepted for a pair of formats:
/// it lowers, and closes with layer compositions or without any.
pub open spec fn lowering_as_observed<
    L: Fn(WorkingFormat, Format) -> Option<LoweredGraphPlan>,
    K: Fn(&LoweredGraphPlan) -> Option<ClosedExecutableGraph>,
>(
    lower: L,
    close: K,
    working_format: WorkingFormat,
    output_format: Format,
    layered: bool,
    accepted: bool,
) -> bool {
    exists|lowered: Option<LoweredGraphPlan>|
        {
            &&& #[trigger] call_ensures(lower, (working_format, output_format), lowered)
            &&& match lowered {
                None => !accepted,
                Some(plan) => exists|closed: Option<ClosedExecutableGraph>|
                    {
                        &&& #[trigger] call_ensures(close, (&plan,), closed)
                        &&& accepted == is_layered(closed, layered)
                    },
            }
        }
}

fn lowering_is_accepted<
    L: Fn(WorkingFormat, Format) -> Option<LoweredGraphPlan>,
    K: Fn(&LoweredGraphPlan) -> Option<ClosedExecutableGraph>,
>(
    lower: &L,
    close: &K,
    working_format: WorkingFormat,
    output_format: Format,
    layered: bool,
) -> (accepted: bool)
    requires
        lowers_any(*lower),
        closes_any(*close),
    ensures
        lowering_as_observed(*lower, *close, working_format, output_format, layered, accepted),
{
    let plan = match lower(working_format, output_format) {
        Some(plan) => plan,
        None => return false,
    };
    assert(call_requires(*close, (&plan,)));
    match close(&plan) {
        Some(closed) => (closed.layer_compositions.len() > 0) == layered,
        None => false,
    }
}

/// Whether it is true to the lowerings and closings that a pair of formats is accepted: the spine
/// closes without layer compositions, and the layered graph with some.
pub open spec fn format_as_observed<
    S: Fn(WorkingFormat, Format) -> Option<LoweredGraphPlan>,
    L: Fn(WorkingFormat, Format) -> Option<LoweredGraphPlan>,
    K: Fn(&LoweredGraphPlan) -> Option<ClosedExecutableGraph>,
>(
    spine: S,
    layers: L,
    close: K,
    working_format: WorkingFormat,
    output_format: Format,
    accepted: bool,
) -> bool {
    let spine_is = |accepted: bool|
        lowering_as_observed(spine, close, working_format, output_format, false, accepted);
    let layers_are = |accepted: bool|
        lowering_as_observed(layers, close, working_format, output_format, true, accepted);
    if accepted {
        spine_is(true) && layers_are(true)
    } else {
        spine_is(false) || layers_are(false)
    }
}

fn format_is_accepted<
    S: Fn(WorkingFormat, Format) -> Option<LoweredGraphPlan>,
    L: Fn(WorkingFormat, Format) -> Option<LoweredGraphPlan>,
    K: Fn(&LoweredGraphPlan) -> Option<ClosedExecutableGraph>,
>(spine: &S, layers: &L, close: &K, working_format: WorkingFormat, output_format: Format) -> (accepted:
    bool)
    requires
        lowers_any(*spine),
        lowers_any(*layers),
        closes_any(*close),
    ensures
        format_as_observed(*spine, *layers, *close, working_format, output_format, accepted),
{
    let spine_is = lowering_is_accepted(spine, close, working_format, output_format, false);
    let layers_are = lowering_is_accepted(layers, close, working_format, output_format, true);
    spine_is && layers_are
}

/// Whether it is true to the lowerings and closings that every pair of formats is accepted.
pub open spec fn formats_as_observed<
    S: Fn(WorkingFormat, Format) -> Option<LoweredGraphPlan>,
    L: Fn(WorkingFormat, Format) -> Option<LoweredGraphPlan>,
    K: Fn(&LoweredGraphPlan) -> Option<ClosedExecutableGraph>,
>(spine: S, layers: L, close: K, accepted: bool) -> bool {
    if accepted {
        forall|working_format: WorkingFormat, output_format: Format| #[trigger]
            format_as_observed(spine, layers, close, working_format, output_format, true)
    } else {
        exists|working_format: WorkingFormat, output_format: Format| #[trigger]
            format_as_observed(spine, layers, close, working_format, output_format, false)
    }
}

/// Whether a spine and a layered graph are accepted for every working and output format.
pub fn c09_accepts_all_working_and_output_formats<
    S: Fn(WorkingFormat, Format) -> Option<LoweredGraphPlan>,
    L: Fn(WorkingFormat, Format) -> Option<LoweredGraphPlan>,
    K: Fn(&LoweredGraphPlan) -> Option<ClosedExecutableGraph>,
>(spine: &S, layers: &L, close: &K) -> (accepted: bool)
    requires
        lowers_any(*spine),
        lowers_any(*layers),
        closes_any(*close),
    ensures
        formats_as_observed(*spine, *layers, *close, accepted),
{
    let high = WorkingFormat::HighPrecision;
    let reduced = WorkingFormat::ReducedPrecision;
    let accepted = format_is_accepted(spine, layers, close, high, Format::Rgba8)
        && format_is_accepted(spine, layers, close, high, Format::Bgra8) && format_is_accepted(
        spine,
        layers,
        close,
        reduced,
        Format::Rgba8,
    ) && format_is_accepted(spine, layers, close, reduced, Format::Bgra8);
    proof {
        if accepted {
            assert forall|working_format: WorkingFormat, output_format: Format| #[trigger]
                format_as_observed(
                    *spine,
                    *layers,
                    *close,
                    working_format,
                    output_format,
                    true,
                ) by {
                match (working_format, output_format) {
                    (WorkingFormat::HighPrecision, Format::Rgba8) => {},
                    (WorkingFormat::HighPrecision, Format::Bgra8) => {},
                    (WorkingFormat::ReducedPrecision, Format::Rgba8) => {},
                    (WorkingFormat::ReducedPrecision, Format::Bgra8) => {},
                }
            }
        }
    }
    accepted
}

/// Whether a plan that has every pass that is edited has the reads and resources that are edited.
pub open spec fn c09_is_editable(plan: PlanModel) -> bool {
    match (
        first_wanted(plan, WantedPass::LayerComposite),
        first_wanted(plan, WantedPass::BoundCapture),
        first_wanted(plan, WantedPass::Canonicalize),
        first_wanted(plan, WantedPass::Present),
    ) {
        (Some(layer), Some(_), Some(_), Some(_)) => plan.passes[layer].reads.len() >= 2
            && plan.resources.len() >= 2,
        _ => true,
    }
}

/// Whether an observation is true of a layer composition graph that was lowered as `plan` and
/// closed.
pub open spec fn is_observed_c09<
    P,
    S: Fn(WorkingFormat, Format) -> Option<LoweredGraphPlan>,
    L: Fn(WorkingFormat, Format) -> Option<LoweredGraphPlan>,
    K: Fn(&LoweredGraphPlan) -> Option<ClosedExecutableGraph>,
>(
    observation: Option<C09ExecutableGraphObservation>,
    plan: PlanModel,
    closed: ClosedExecutableGraph,
    spine: S,
    layers: L,
    color: PrePreparationGraphClassification,
    dispatch: Result<ExecutableGraphDispatchEligibility<P>, Error>,
    close: K,
) -> bool {
    match (
        first_wanted(plan, WantedPass::LayerComposite),
        first_wanted(plan, WantedPass::BoundCapture),
        first_wanted(plan, WantedPass::Canonicalize),
        first_wanted(plan, WantedPass::Present),
    ) {
        (Some(layer), Some(capture), Some(canonicalize), Some(present)) => observation matches Some(
            observed,
        ) && {
            let foreign = c09_foreign(plan, capture, layer, present);
            &&& formats_as_observed(
                spine,
                layers,
                close,
                observed.accepts_spine_and_layer_composition_for_all_formats,
            )
            &&& observed.layer_composition_reads_are_exact == layer_compositions_are_exact(closed)
            &&& observed.preserves_exact_c09_dispatch == (dispatch matches Ok(
                ExecutableGraphDispatchEligibility::ExactC09(_),
            ))
            &&& color is ExactC09 ==> !observed.rejects_c10_plus_passes_and_payloads
            &&& color !is ExactC09 ==> unclosed_as_observed(
                close,
                seq![foreign[0], foreign[1]],
                observed.rejects_c10_plus_passes_and_payloads,
            )
            &&& unclosed_as_observed(
                close,
                seq![foreign[2], foreign[3]],
                observed.rejects_missing_payloads,
            )
            &&& unclosed_as_observed(
                close,
                c09_malformed(plan, capture, canonicalize, layer),
                observed.rejects_malformed_graph_facts,
            )
            &&& unclosed_as_observed(
                close,
                seq![foreign[4]],
                observed.rejects_unsupported_output_binding,
            )
        },
        _ => observation is None,
    }
}

/// What is observed of a layer composition graph, lowered with a spine for every pair of formats.
/// `color` is the class of a color graph, if that is lowered, and `dispatch` what classification
/// said of the layer composition graph. Nothing can be observed where that graph is not lowered or
/// does not close, where the color graph is not lowered, or where a pass that is edited is missing.
pub fn c09_executable_graph_observation<
    P,
    S: Fn(WorkingFormat, Format) -> Option<LoweredGraphPlan>,
    L: Fn(WorkingFormat, Format) -> Option<LoweredGraphPlan>,
    K: Fn(&LoweredGraphPlan) -> Option<ClosedExecutableGraph>,
>(
    spine: &S,
    layers: &L,
    color: Option<PrePreparationGraphClassification>,
    dispatch: &Result<ExecutableGraphDispatchEligibility<P>, Error>,
    close: &K,
) -> (observation: Option<C09ExecutableGraphObservation>)
    requires
        lowers_any(*spine),
        lowers_any(*layers),
        closes_any(*close),
        color is Some ==> forall|plan: LoweredGraphPlan, closed: ClosedExecutableGraph|
            #![trigger call_ensures(*close, (&plan,), Some(closed))]
            call_ensures(*layers, (WorkingFormat::HighPrecision, Format::Rgba8), Some(plan))
                && call_ensures(*close, (&plan,), Some(closed)) ==> c09_is_editable(plan@),
    ensures
        exists|lowered: Option<LoweredGraphPlan>|
            {
                &&& #[trigger] call_ensures(
                    *layers,
                    (WorkingFormat::HighPrecision, Format::Rgba8),
                    lowered,
                )
                &&& match lowered {
                    None => observation is None,
                    Some(plan) => exists|closed: Option<ClosedExecutableGraph>|
                        {
                            &&& #[trigger] call_ensures(*close, (&plan,), closed)
                            &&& match (closed, color) {
                                (Some(closed), Some(color)) => is_observed_c09(
                                    observation,
                                    plan@,
                                    closed,
                                    *spine,
                                    *layers,
                                    color,
                                    *dispatch,
                                    *close,
                                ),
                                _ => observation is None,
                            }
                        },
                }
            },
{
    let lowered = layers(WorkingFormat::HighPrecision, Format::Rgba8);
    let plan = match &lowered {
        Some(plan) => plan,
        None => return None,
    };
    assert(call_requires(*close, (plan,)));
    let found = close(plan);
    let ghost asked = found;
    let (closed, color) = match (found, color) {
        (Some(closed), Some(color)) => (closed, color),
        _ => return None,
    };
    assert(asked == Some(closed));
    assert(c09_is_editable(plan@));
    let (layer, capture, canonicalize) = match (
        find_wanted(plan, WantedPass::LayerComposite),
        find_wanted(plan, WantedPass::BoundCapture),
        find_wanted(plan, WantedPass::Canonicalize),
    ) {
        (Some(layer), Some(capture), Some(canonicalize)) => (layer, capture, canonicalize),
        _ => return None,
    };
    let mut foreign = match c09_foreign_plans(plan) {
        Some(foreign) => foreign,
        None => return None,
    };
    let ghost models = plan_models(foreign@);
    assert(models.len() == foreign@.len());
    assert(foreign@.len() == 5);
    let malformed = c09_malformed_plans(plan, capture, canonicalize, layer);
    let mut output: Vec<LoweredGraphPlan> = Vec::new();
    let mut missing: Vec<LoweredGraphPlan> = Vec::new();
    let unsupported = foreign.remove(4);
    let unbound_composite = foreign.remove(3);
    let unbound_capture = foreign.remove(2);
    output.push(unsupported);
    missing.push(unbound_capture);
    missing.push(unbound_composite);
    proof {
        assert(plan_models(output@) =~= seq![models[4]]);
        assert(plan_models(missing@) =~= seq![models[2], models[3]]);
        assert(plan_models(foreign@) =~= seq![models[0], models[1]]);
    }
    let rejects_foreign = none_closes(&foreign, close);
    let rejects_color = color != PrePreparationGraphClassification::ExactC09;
    let dispatches = match dispatch {
        Ok(ExecutableGraphDispatchEligibility::ExactC09(_)) => true,
        _ => false,
    };
    let observation = Some(
        C09ExecutableGraphObservation {
            accepts_spine_and_layer_composition_for_all_formats:
                c09_accepts_all_working_and_output_formats(spine, layers, close),
            layer_composition_reads_are_exact: c09_layer_composition_reads_are_exact(&closed),
            rejects_c10_plus_passes_and_payloads: rejects_color && rejects_foreign,
            rejects_missing_payloads: none_closes(&missing, close),
            rejects_malformed_graph_facts: none_closes(&malformed, close),
            rejects_unsupported_output_binding: none_closes(&output, close),
            preserves_exact_c09_dispatch: dispatches,
        },
    );
    assert(is_observed_c09(
        observation,
        plan@,
        closed,
        *spine,
        *layers,
        color,
        *dispatch,
        *close,
    ));
    observation
}

/// What is observed of color filters.
#[derive(Clone, Copy, Debug, PartialEq, Eq, Structural)]
pub struct C10ExecutableGraphObservation {
    pub accepts_spine_composition_and_color_for_all_formats: bool,
    pub accepts_multiple_ordered_color_runs: bool,
    pub rejects_empty_missing_and_malformed_color_facts: bool,
    pub rejects_copy_blur_shadow_and_drop_shadow_composite: bool,
    pub rejects_unsupported_output: bool,
    pub preserves_public_c09_dispatch_boundary: bool,
}

/// The plan with a backdrop copy in place of its first color run, then the blur and shadow graphs.
pub open spec fn c10_foreign(
    plan: PlanModel,
    first: int,
    blur: PlanModel,
    shadow: PlanModel,
) -> Seq<PlanModel> {
    seq![with_kind(plan, first, RuntimePassKind::CopyBackdrop), blur, shadow]
}

/// Whether the first color run of a plan, if it has one, reads something.
pub open spec fn c10_is_editable(plan: PlanModel) -> bool {
    color_runs(plan.passes).len() > 0 ==> color_runs(plan.passes)[0].reads.len() > 0
}

/// Whether an observation is true of a graph with `authored` color filters that was lowered like
/// this for every format, beside a blur graph and a shadow graph.
pub open spec fn is_observed_c10<P, F: Fn(&LoweredGraphPlan) -> bool>(
    observation: Option<C10ExecutableGraphObservation>,
    authored: usize,
    plans: Seq<PlanModel>,
    blur: PlanModel,
    shadow: PlanModel,
    dispatch: Result<ExecutableGraphDispatchEligibility<P>, Error>,
    closes: F,
) -> bool {
    let plan = plans[0];
    exists|runs: Seq<usize>|
        {
            &&& runs.len() == color_runs(plan.passes).len()
            &&& forall|i: int|
                0 <= i < runs.len() ==> plan.passes[(#[trigger] runs[i]) as int] == color_runs(
                    plan.passes,
                )[i]
            &&& match #[trigger] c10_edited_image(plan, runs) {
                Some(image) => observation matches Some(observed) && {
                    &&& accepted_as_observed(
                        closes,
                        plans,
                        observed.accepts_spine_composition_and_color_for_all_formats,
                    )
                    &&& observed.preserves_public_c09_dispatch_boundary == (dispatch matches Ok(
                        ExecutableGraphDispatchEligibility::FuturePasses,
                    ))
                    &&& if runs.len() == authored && runs.len() > 1 {
                        may_answer(closes, plan, observed.accepts_multiple_ordered_color_runs)
                    } else {
                        !observed.accepts_multiple_ordered_color_runs
                    }
                    &&& refused_as_observed(
                        closes,
                        c10_malformed(plan, runs, image),
                        observed.rejects_empty_missing_and_malformed_color_facts,
                    )
                    &&& refused_as_observed(
                        closes,
                        c10_foreign(plan, runs[0] as int, blur, shadow),
                        observed.rejects_copy_blur_shadow_and_drop_shadow_composite,
                    )
                    &&& refused_as_observed(
                        closes,
                        seq![PlanModel { output_format: Format::Bgra8, ..plan }],
                        observed.rejects_unsupported_output,
                    )
                },
                None => observation is None,
            }
        }
}

fn c10_lowered_observation<P, F: Fn(&LoweredGraphPlan) -> bool>(
    authored: usize,
    plans: &Vec<LoweredGraphPlan>,
    blur: &LoweredGraphPlan,
    shadow: &LoweredGraphPlan,
    dispatch: &Result<ExecutableGraphDispatchEligibility<P>, Error>,
    closes: &F,
) -> (observation: Option<C10ExecutableGraphObservation>)
    requires
        decides(*closes),
        plans@.len() > 0,
        c10_is_editable(plans@[0]@),
    ensures
        is_observed_c10(
            observation,
            authored,
            plan_models(plans@),
            blur@,
            shadow@,
            *dispatch,
            *closes,
        ),
{
    let plan = &plans[0];
    assert(plan_models(plans@)[0] == plan@);
    let runs = color_pass_indices(plan);
    proof {
        if runs@.len() > 0 {
            assert(plan@.passes[runs@[0] as int] == color_runs(plan@.passes)[0]);
        }
    }
    let ghost image = c10_edited_image(plan@, runs@);
    let malformed = match c10_malformed_color_plans(plan, &runs) {
        Some(malformed) => malformed,
        None => return None,
    };
    let ordered = if runs.len() == authored && runs.len() > 1 {
        let copy = plan.duplicate();
        assert(call_requires(*closes, (&copy,)));
        closes(&copy)
    } else {
        false
    };
    let mut foreign: Vec<LoweredGraphPlan> = Vec::new();
    assert(runs@[0] < plan@.passes.len());
    foreign.push(plan.replacing_kind(runs[0], RuntimePassKind::CopyBackdrop));
    foreign.push(blur.duplicate());
    foreign.push(shadow.duplicate());
    let mut unsupported = plan.duplicate();
    unsupported.output_format = Format::Bgra8;
    let mut output: Vec<LoweredGraphPlan> = Vec::new();
    proof {
        assert(unsupported@ =~= (PlanModel { output_format: Format::Bgra8, ..plan@ }));
    }
    output.push(unsupported);
    proof {
        assert(plan_models(foreign@) =~= c10_foreign(plan@, runs@[0] as int, blur@, shadow@));
        assert(plan_models(output@) =~= seq![
            PlanModel { output_format: Format::Bgra8, ..plan@ },
        ]);
    }
    let preserves_boundary = match dispatch {
        Ok(ExecutableGraphDispatchEligibility::FuturePasses) => true,
        _ => false,
    };
    Some(
        C10ExecutableGraphObservation {
            accepts_spine_composition_and_color_for_all_formats: all_accepted(plans, closes),
            preserves_public_c09_dispatch_boundary: preserves_boundary,
            accepts_multiple_ordered_color_runs: ordered,
            rejects_empty_missing_and_malformed_color_facts: all_refused(&malformed, closes),
            rejects_copy_blur_shadow_and_drop_shadow_composite: all_refused(&foreign, closes),
            rejects_unsupported_output: all_refused(&output, closes),
        },
    )
}

/// What is observed of a graph with `authored` color filters that is lowered for every format,
/// beside a blur graph and a shadow graph. `dispatch` is what classification said of the graph.
/// Nothing can be observed where one of the graphs is not lowered, or where the first color run
/// cannot be edited.
pub fn c10_executable_graph_observation<
    P,
    L: Fn(WorkingFormat, Format) -> Option<LoweredGraphPlan>,
    B: Fn(WorkingFormat, Format) -> Option<LoweredGraphPlan>,
    S: Fn(WorkingFormat, Format) -> Option<LoweredGraphPlan>,
    F: Fn(&LoweredGraphPlan) -> bool,
>(
    authored: usize,
    color: &L,
    blur: &B,
    shadow: &S,
    dispatch: &Result<ExecutableGraphDispatchEligibility<P>, Error>,
    closes: &F,
) -> (observation: Option<C10ExecutableGraphObservation>)
    requires
        decides(*closes),
        lowers_any(*color),
        lowers_any(*blur),
        lowers_any(*shadow),
        forall|plan: PlanModel, blur_plan: PlanModel, shadow_plan: PlanModel|
            #![trigger may_be_lowered_first(*color, plan), may_lower(*blur, WorkingFormat::HighPrecision, Format::Rgba8, Some(blur_plan)), may_lower(*shadow, WorkingFormat::HighPrecision, Format::Rgba8, Some(shadow_plan))]
            may_be_lowered_first(*color, plan) && may_lower(
                *blur,
                WorkingFormat::HighPrecision,
                Format::Rgba8,
                Some(blur_plan),
            ) && may_lower(
                *shadow,
                WorkingFormat::HighPrecision,
                Format::Rgba8,
                Some(shadow_plan),
            ) ==> c10_is_editable(plan),
    ensures
        exists|
            plans: Option<Seq<PlanModel>>,
            blur_plan: Option<PlanModel>,
            shadow_plan: Option<PlanModel>,
        |
            {
                &&& #[trigger] may_lower_for_every_format(*color, plans)
                &&& #[trigger] may_lower(
                    *blur,
                    WorkingFormat::HighPrecision,
                    Format::Rgba8,
                    blur_plan,
                )
                &&& #[trigger] may_lower(
                    *shadow,
                    WorkingFormat::HighPrecision,
                    Format::Rgba8,
                    shadow_plan,
                )
                &&& match (plans, blur_plan, shadow_plan) {
                    (Some(plans), Some(blur_plan), Some(shadow_plan)) => is_observed_c10(
                        observation,
                        authored,
                        plans,
                        blur_plan,
                        shadow_plan,
                        *dispatch,
                        *closes,
                    ),
                    _ => observation is None,
                }
            },
{
    let plans = lower_for_every_format(color);
    let blur_plan = blur(WorkingFormat::HighPrecision, Format::Rgba8);
    let shadow_plan = shadow(WorkingFormat::HighPrecision, Format::Rgba8);
    proof {
        let high = WorkingFormat::HighPrecision;
        assert(may_lower_for_every_format(*color, plans_of(plans)));
        assert(may_lower(*blur, high, Format::Rgba8, plan_of(blur_plan)));
        assert(may_lower(*shadow, high, Format::Rgba8, plan_of(shadow_plan)));
    }
    match (&plans, &blur_plan, &shadow_plan) {
        (Some(plans), Some(blur_plan), Some(shadow_plan)) => {
            assert(may_be_lowered_first(*color, plan_models(plans@)[0]));
            c10_lowered_observation(authored, plans, blur_plan, shadow_plan, dispatch, closes)
        },
        _ => None,
    }
}

/// Which malformed filter graphs are refused.
#[derive(Clone, Copy, Debug, PartialEq, Eq, Structural)]
pub struct C11MalformedPlanObservation {
    pub empty_missing_spatial: bool,
    pub axes_inputs_edges_aliases: bool,
    pub copy_stale_forward_c12: bool,
}

/// Whether every filter of a graph can be edited.
pub open spec fn c11_is_editable(plan: PlanModel, indices: C11PassIndices) -> bool {
    &&& crate::pass::malformed::horizontal_blur(
        plan,
        indices.blur_horizontal as int,
    ).spatial.result.device_x < i32::MAX
    &&& plan.passes[indices.blur_horizontal as int].reads.len() > 0
    &&& indices.blur_horizontal + 1 < plan.passes.len()
}

/// Which malformed filter graphs are refused; `None`, where the graph lacks a filter or one cannot
/// be edited.
pub fn c11_malformed_plan_observation<
    K: Fn(&LoweredGraphPlan) -> Option<ClosedExecutableGraph>,
>(
    plan: &LoweredGraphPlan,
    stale: RuntimePassId,
    close: &K,
) -> (observation: Option<C11MalformedPlanObservation>)
    requires
        closes_any(*close),
    ensures
        match observation {
            Some(observed) => exists|indices: C11PassIndices|
                {
                    &&& #[trigger] indices.are_first_in(plan@)
                    &&& c11_is_editable(plan@, indices)
                    &&& unclosed_as_observed(
                        *close,
                        c11_empty_missing_spatial(plan@, indices),
                        observed.empty_missing_spatial,
                    )
                    &&& unclosed_as_observed(
                        *close,
                        c11_axes_inputs_edges_alias(plan@, indices),
                        observed.axes_inputs_edges_aliases,
                    )
                    &&& unclosed_as_observed(
                        *close,
                        c11_copy_stale_forward(plan@, indices, stale),
                        observed.copy_stale_forward_c12,
                    )
                },
            None => forall|indices: C11PassIndices|
                #[trigger] indices.are_first_in(plan@) ==> !c11_is_editable(plan@, indices),
        },
{
    let indices = match C11PassIndices::try_new(plan) {
        Some(indices) => indices,
        None => return None,
    };
    match (
        c11_empty_missing_spatial_plans(plan, indices),
        c11_axes_inputs_edges_alias_plans(plan, indices),
        c11_copy_stale_forward_plans(plan, indices, stale),
    ) {
        (Some(empty), Some(axes), Some(copies)) => {
            assert(indices.are_first_in(plan@));
            Some(
                C11MalformedPlanObservation {
                    empty_missing_spatial: none_closes(&empty, close),
                    axes_inputs_edges_aliases: none_closes(&axes, close),
                    copy_stale_forward_c12: none_closes(&copies, close),
                },
            )
        },
        _ => {
            assert forall|other: C11PassIndices| #[trigger] other.are_first_in(
                plan@,
            ) implies !c11_is_editable(plan@, other) by {
                assert(other == indices);
            }
            None
        },
    }
}

/// What is observed of the filters of a graph.
#[derive(Debug)]
pub struct C11FilterGraphObservation {
    pub pass_order: Vec<C11FilterPassTag>,
    pub ordinary_blur_uses_transparent_black: bool,
    pub drop_shadow_uses_source_alpha_and_continuous_offset: bool,
    pub spatial_mappings_are_exact: bool,
    pub sources_and_results_are_distinct: bool,
    pub source_alpha_fanout_reads_original_twice: bool,
    pub original_source_releases_only_after_merge: bool,
    pub dependencies_and_last_use_are_exact: bool,
}

/// What is observed of the filters of a closed graph whose facts may be proven.
pub fn c11_filter_graph_observation(
    closed: &ClosedExecutableGraph,
    facts_are_proven: bool,
) -> (observation: C11FilterGraphObservation)
    ensures
        observation.pass_order@ == filter_tags(closed.filter_steps@),
        observation.ordinary_blur_uses_transparent_black == (closed.blurs@.len() > 0 && forall|
            i: int,
        |
            0 <= i < closed.blurs@.len() ==> blur_edge_is_exact(
                closed.lowered@,
                #[trigger] closed.blurs@[i],
            )),
        observation.drop_shadow_uses_source_alpha_and_continuous_offset == (
        closed.drop_shadows@.len() > 0 && forall|i: int|
            0 <= i < closed.drop_shadows@.len() ==> shadow_is_exact(
                #[trigger] closed.drop_shadows@[i],
            )),
        observation.source_alpha_fanout_reads_original_twice == (forall|i: int|
            0 <= i < closed.drop_shadows@.len() ==> shadow_fanout(
                closed.lowered@,
                #[trigger] closed.drop_shadows@[i],
            )),
        observation.original_source_releases_only_after_merge == (forall|i: int|
            0 <= i < closed.drop_shadows@.len() ==> shadow_release(
                closed.lowered@,
                #[trigger] closed.drop_shadows@[i],
            )),
        observation.spatial_mappings_are_exact == ({
            &&& forall|i: int|
                0 <= i < closed.blurs@.len() ==> blur_mapping_is_exact(
                    closed.lowered@,
                    #[trigger] closed.blurs@[i],
                )
            &&& forall|i: int|
                0 <= i < closed.drop_shadows@.len() ==> shadow_mapping_is_exact(
                    closed.lowered@,
                    #[trigger] closed.drop_shadows@[i],
                )
        }),
        observation.sources_and_results_are_distinct == ({
            &&& forall|i: int|
                0 <= i < closed.blurs@.len() ==> blur_images(
                    #[trigger] closed.blurs@[i],
                ).no_duplicates()
            &&& forall|i: int|
                0 <= i < closed.drop_shadows@.len() ==> shadow_images(
                    #[trigger] closed.drop_shadows@[i],
                ).no_duplicates()
        }),
        observation.dependencies_and_last_use_are_exact == (facts_are_proven
            && lifetimes_are_exact(closed.lowered@)),
{
    C11FilterGraphObservation {
        pass_order: c11_filter_pass_tags(&closed.filter_steps),
        ordinary_blur_uses_transparent_black: c11_blur_edges_are_exact(closed),
        drop_shadow_uses_source_alpha_and_continuous_offset: c11_shadow_facts_are_exact(closed),
        spatial_mappings_are_exact: c11_spatial_mappings_are_exact(closed),
        sources_and_results_are_distinct: c11_sources_and_results_are_distinct(closed),
        source_alpha_fanout_reads_original_twice: c11_shadow_fanout_is_exact(closed),
        original_source_releases_only_after_merge: c11_shadow_releases_are_exact(closed),
        dependencies_and_last_use_are_exact: c11_dependencies_and_lifetimes_are_exact(
            closed,
            facts_are_proven,
        ),
    }
}

/// Whether plans outside the bounded backdrop subset are refused; `None`, where the plan lacks a
/// pass that is edited.
pub fn c12_rejects_outside_bounded_subset<F: Fn(&LoweredGraphPlan) -> bool>(
    plan: &LoweredGraphPlan,
    closes: &F,
) -> (refused: Option<bool>)
    requires
        decides(*closes),
        c12_is_editable(plan@),
    ensures
        match (
            first_wanted(plan@, WantedPass::BackdropCopy),
            first_wanted(plan@, WantedPass::MirroredHorizontalBlur),
            last_wanted(plan@, WantedPass::LayerComposite),
        ) {
            (Some(copy), Some(mirror), Some(outer)) => refused matches Some(refused)
                && refused_as_observed(
                *closes,
                c12_malformed(plan@, copy, mirror, outer),
                refused,
            ),
            _ => refused is None,
        },
{
    match c12_malformed_plans(plan) {
        Some(plans) => Some(all_refused(&plans, closes)),
        None => None,
    }
}

/// Whether an observation that all plans are accepted is true to the decisions: each may be
/// accepted, or else one may be refused.
pub open spec fn accepted_as_observed<F: Fn(&LoweredGraphPlan) -> bool>(
    closes: F,
    plans: Seq<PlanModel>,
    accepted: bool,
) -> bool {
    if accepted {
        forall|i: int| 0 <= i < plans.len() ==> may_answer(closes, #[trigger] plans[i], true)
    } else {
        exists|i: int| 0 <= i < plans.len() && may_answer(closes, #[trigger] plans[i], false)
    }
}

/// Whether all plans are accepted.
pub fn all_accepted<F: Fn(&LoweredGraphPlan) -> bool>(
    plans: &Vec<LoweredGraphPlan>,
    closes: &F,
) -> (accepted: bool)
    requires
        decides(*closes),
    ensures
        accepted_as_observed(*closes, plan_models(plans@), accepted),
{
    let ghost models = plan_models(plans@);
    let length: usize = plans.len();
    let mut next: usize = 0;
    while next < length
        invariant
            next <= length,
            length == plans@.len(),
            decides(*closes),
            models == plan_models(plans@),
            forall|i: int| 0 <= i < next ==> may_answer(*closes, #[trigger] models[i], true),
        decreases length - next,
    {
        let plan = &plans[next];
        assert(call_requires(*closes, (plan,)));
        let answer = closes(plan);
        assert(models[next as int] == plan@);
        assert(may_answer(*closes, models[next as int], answer));
        if !answer {
            return false;
        }
        next = next + 1;
    }
    true
}

/// What is observed of spatial filters.
#[derive(Clone, Copy, Debug, PartialEq, Eq, Structural)]
pub struct C11ExecutableGraphObservation {
    pub accepts_color_blur_and_drop_shadow_for_all_formats: bool,
    pub preserves_ordered_nonzero_filter_steps: bool,
    pub rejects_empty_missing_and_malformed_spatial_facts: bool,
    pub rejects_wrong_axes_inputs_edges_and_aliases: bool,
    pub rejects_copy_backdrop_stale_forward_and_c12_plus: bool,
    pub rejects_before_resource_acquisition: bool,
}

/// Whether closing a plan with these contents can succeed.
pub open spec fn may_be_closed<K: Fn(&LoweredGraphPlan) -> Option<ClosedExecutableGraph>>(
    close: K,
    plan: PlanModel,
) -> bool {
    exists|graph: ClosedExecutableGraph| #[trigger] may_close(close, plan, Some(graph))
}

/// Whether an observation that all plans close is true to the closings: each may close, or else one
/// may not.
pub open spec fn closed_as_observed<K: Fn(&LoweredGraphPlan) -> Option<ClosedExecutableGraph>>(
    close: K,
    plans: Seq<PlanModel>,
    closed: bool,
) -> bool {
    if closed {
        forall|i: int| 0 <= i < plans.len() ==> may_be_closed(close, #[trigger] plans[i])
    } else {
        exists|i: int| 0 <= i < plans.len() && may_close(close, #[trigger] plans[i], None)
    }
}

/// Whether all plans close.
pub fn all_close<K: Fn(&LoweredGraphPlan) -> Option<ClosedExecutableGraph>>(
    plans: &Vec<LoweredGraphPlan>,
    close: &K,
) -> (closed: bool)
    requires
        closes_any(*close),
    ensures
        closed_as_observed(*close, plan_models(plans@), closed),
{
    let ghost models = plan_models(plans@);
    let length: usize = plans.len();
    let mut next: usize = 0;
    while next < length
        invariant
            next <= length,
            length == plans@.len(),
            closes_any(*close),
            models == plan_models(plans@),
            forall|i: int| 0 <= i < next ==> may_be_closed(*close, #[trigger] models[i]),
        decreases length - next,
    {
        let plan = &plans[next];
        assert(call_requires(*close, (plan,)));
        let closed = close(plan);
        assert(models[next as int] == plan@);
        assert(may_close(*close, models[next as int], closed));
        if closed.is_none() {
            return false;
        }
        assert(may_close(*close, models[next as int], Some(closed->0)));
        next = next + 1;
    }
    true
}

/// Whether an observation is true of a graph of spatial filters that was lowered like this for
/// every format and closed. `stale_of` gives the stale generation of a pass, if it has one.
pub open spec fn is_observed_c11<
    K: Fn(&LoweredGraphPlan) -> Option<ClosedExecutableGraph>,
    S: Fn(RuntimePassId) -> Option<RuntimePassId>,
>(
    observation: Option<C11ExecutableGraphObservation>,
    plans: Seq<PlanModel>,
    graph: ClosedExecutableGraph,
    before: DeviceHoldings,
    after: DeviceHoldings,
    close: K,
    stale_of: S,
) -> bool {
    let plan = plans[0];
    match observation {
        Some(observed) => exists|indices: C11PassIndices, stale: RuntimePassId|
            {
                &&& #[trigger] indices.are_first_in(plan)
                &&& c11_is_editable(plan, indices)
                &&& #[trigger] call_ensures(
                    stale_of,
                    (plan.passes[indices.color as int].id,),
                    Some(stale),
                )
                &&& closed_as_observed(
                    close,
                    plans,
                    observed.accepts_color_blur_and_drop_shadow_for_all_formats,
                )
                &&& observed.preserves_ordered_nonzero_filter_steps == filter_shape_is_exact(graph)
                &&& unclosed_as_observed(
                    close,
                    c11_empty_missing_spatial(plan, indices),
                    observed.rejects_empty_missing_and_malformed_spatial_facts,
                )
                &&& unclosed_as_observed(
                    close,
                    c11_axes_inputs_edges_alias(plan, indices),
                    observed.rejects_wrong_axes_inputs_edges_and_aliases,
                )
                &&& unclosed_as_observed(
                    close,
                    c11_copy_stale_forward(plan, indices, stale),
                    observed.rejects_copy_backdrop_stale_forward_and_c12_plus,
                )
                &&& observed.rejects_before_resource_acquisition == (after == before
                    && observed.rejects_empty_missing_and_malformed_spatial_facts
                    && observed.rejects_wrong_axes_inputs_edges_and_aliases
                    && observed.rejects_copy_backdrop_stale_forward_and_c12_plus)
            },
        None => forall|indices: C11PassIndices| #[trigger]
            indices.are_first_in(plan) ==> {
                ||| !c11_is_editable(plan, indices)
                ||| call_ensures(
                    stale_of,
                    (plan.passes[indices.color as int].id,),
                    None::<RuntimePassId>,
                )
            },
    }
}

/// What is observed of a graph of spatial filters that is lowered for every format. `close` closes
/// the exact graphs of spatial filters, `stale_of` gives the stale generation of a pass, and
/// `before` and `after` are what the device held around the decisions. Nothing can be observed
/// where the graph is not lowered or does not close, where it lacks a filter, or where one cannot
/// be edited.
pub fn c11_executable_graph_observation<
    L: Fn(WorkingFormat, Format) -> Option<LoweredGraphPlan>,
    K: Fn(&LoweredGraphPlan) -> Option<ClosedExecutableGraph>,
    S: Fn(RuntimePassId) -> Option<RuntimePassId>,
>(lower: &L, close: &K, stale_of: &S, before: DeviceHoldings, after: DeviceHoldings) -> (observation:
    Option<C11ExecutableGraphObservation>)
    requires
        lowers_any(*lower),
        closes_any(*close),
        forall|pass: RuntimePassId| #[trigger] call_requires(*stale_of, (pass,)),
    ensures
        exists|plans: Option<Seq<PlanModel>>|
            {
                &&& #[trigger] may_lower_for_every_format(*lower, plans)
                &&& match plans {
                    None => observation is None,
                    Some(plans) => exists|closed: Option<ClosedExecutableGraph>|
                        {
                            &&& #[trigger] may_close(*close, plans[0], closed)
                            &&& match closed {
                                None => observation is None,
                                Some(graph) => is_observed_c11(
                                    observation,
                                    plans,
                                    graph,
                                    before,
                                    after,
                                    *close,
                                    *stale_of,
                                ),
                            }
                        },
                }
            },
{
    let lowered = lower_for_every_format(lower);
    assert(may_lower_for_every_format(*lower, plans_of(lowered)));
    let plans = match &lowered {
        Some(plans) => plans,
        None => return None,
    };
    let plan = &plans[0];
    let ghost models = plan_models(plans@);
    assert(models[0] == plan@);
    assert(call_requires(*close, (plan,)));
    let closed = close(plan);
    assert(may_close(*close, models[0], closed));
    let graph = match &closed {
        Some(graph) => graph,
        None => return None,
    };
    let indices = match C11PassIndices::try_new(plan) {
        Some(indices) => indices,
        None => {
            assert(is_observed_c11(None, models, *graph, before, after, *close, *stale_of));
            return None;
        },
    };
    assert(plan@.passes[indices.color as int] == plan.passes@[indices.color as int]@);
    let found = stale_of(plan.passes[indices.color].id);
    let stale = match found {
        Some(stale) => stale,
        None => {
            assert forall|other: C11PassIndices| #[trigger] other.are_first_in(models[0]) implies {
                ||| !c11_is_editable(models[0], other)
                ||| call_ensures(
                    *stale_of,
                    (models[0].passes[other.color as int].id,),
                    None::<RuntimePassId>,
                )
            } by {
                assert(other == indices);
            }
            assert(is_observed_c11(None, models, *graph, before, after, *close, *stale_of));
            return None;
        },
    };
    let malformed = match c11_malformed_plan_observation(plan, stale, close) {
        Some(malformed) => malformed,
        None => {
            assert(is_observed_c11(None, models, *graph, before, after, *close, *stale_of));
            return None;
        },
    };
    let observation = Some(
        C11ExecutableGraphObservation {
            accepts_color_blur_and_drop_shadow_for_all_formats: all_close(plans, close),
            preserves_ordered_nonzero_filter_steps: c11_filter_step_shape_is_exact(graph),
            rejects_empty_missing_and_malformed_spatial_facts: malformed.empty_missing_spatial,
            rejects_wrong_axes_inputs_edges_and_aliases: malformed.axes_inputs_edges_aliases,
            rejects_copy_backdrop_stale_forward_and_c12_plus: malformed.copy_stale_forward_c12,
            rejects_before_resource_acquisition: malformed.empty_missing_spatial
                && malformed.axes_inputs_edges_aliases && malformed.copy_stale_forward_c12
                && after == before,
        },
    );
    proof {
        assert forall|other: C11PassIndices| #[trigger] other.are_first_in(models[0]) implies other
            == indices by {}
        assert(call_ensures(
            *stale_of,
            (models[0].passes[indices.color as int].id,),
            Some(stale),
        ));
        assert(is_observed_c11(observation, models, *graph, before, after, *close, *stale_of));
    }
    observation
}

/// What is observed of bounded backdrops.
#[derive(Clone, Copy, Debug, PartialEq, Eq, Structural)]
pub struct C12ExecutableGraphObservation {
    pub accepts_bounded_top_level_backdrop: bool,
    pub rejects_outside_bounded_subset: bool,
    pub rejects_before_resource_acquisition: bool,
}

/// Whether a graph is executed as a bounded backdrop.
pub open spec fn is_exact_c12<P>(dispatch: Result<ExecutableGraphDispatchEligibility<P>, Error>) -> bool {
    dispatch matches Ok(ExecutableGraphDispatchEligibility::ExactC12(_))
}

/// Whether an observation is true of a bounded backdrop that was lowered like this for every format.
pub open spec fn is_observed_c12<P, F: Fn(&LoweredGraphPlan) -> bool>(
    observation: Option<C12ExecutableGraphObservation>,
    plans: Seq<PlanModel>,
    dispatch: Result<ExecutableGraphDispatchEligibility<P>, Error>,
    before: DeviceHoldings,
    after: DeviceHoldings,
    closes: F,
) -> bool {
    match (
        first_wanted(plans[0], WantedPass::BackdropCopy),
        first_wanted(plans[0], WantedPass::MirroredHorizontalBlur),
        last_wanted(plans[0], WantedPass::LayerComposite),
    ) {
        (Some(copy), Some(mirror), Some(outer)) => observation matches Some(observed) && {
            &&& exists|accepted: bool| #[trigger]
                accepted_as_observed(closes, plans, accepted)
                    && observed.accepts_bounded_top_level_backdrop == (accepted && is_exact_c12(
                    dispatch,
                ))
            &&& refused_as_observed(
                closes,
                c12_malformed(plans[0], copy, mirror, outer),
                observed.rejects_outside_bounded_subset,
            )
            &&& observed.rejects_before_resource_acquisition == (after == before)
        },
        _ => observation is None,
    }
}

/// What is observed of a bounded backdrop that is lowered for every format. `dispatch` is what
/// classification said of it, and `before` and `after` are what the device held around the
/// decisions. Nothing can be observed where the graph is not lowered, or where the first lowering
/// lacks a pass that is edited.
pub fn c12_executable_graph_observation<
    P,
    L: Fn(WorkingFormat, Format) -> Option<LoweredGraphPlan>,
    F: Fn(&LoweredGraphPlan) -> bool,
>(
    lower: &L,
    dispatch: &Result<ExecutableGraphDispatchEligibility<P>, Error>,
    before: DeviceHoldings,
    after: DeviceHoldings,
    closes: &F,
) -> (observation: Option<C12ExecutableGraphObservation>)
    requires
        lowers_any(*lower),
        decides(*closes),
        forall|plan: PlanModel| #[trigger]
            may_be_lowered_first(*lower, plan) ==> c12_is_editable(plan),
    ensures
        exists|plans: Option<Seq<PlanModel>>|
            {
                &&& #[trigger] may_lower_for_every_format(*lower, plans)
                &&& match plans {
                    None => observation is None,
                    Some(plans) => is_observed_c12(
                        observation,
                        plans,
                        *dispatch,
                        before,
                        after,
                        *closes,
                    ),
                }
            },
{
    let lowered = lower_for_every_format(lower);
    assert(may_lower_for_every_format(*lower, plans_of(lowered)));
    let plans = match &lowered {
        Some(plans) => plans,
        None => return None,
    };
    let ghost models = plan_models(plans@);
    assert(models[0] == plans@[0]@);
    assert(may_be_lowered_first(*lower, models[0]));
    let accepted = all_accepted(plans, closes);
    let observation = match c12_rejects_outside_bounded_subset(&plans[0], closes) {
        Some(refused) => {
            let dispatched = match dispatch {
                Ok(ExecutableGraphDispatchEligibility::ExactC12(_)) => true,
                _ => false,
            };
            Some(
                C12ExecutableGraphObservation {
                    accepts_bounded_top_level_backdrop: accepted && dispatched,
                    rejects_outside_bounded_subset: refused,
                    rejects_before_resource_acquisition: after == before,
                },
            )
        },
        None => None,
    };
    assert(accepted_as_observed(*closes, models, accepted));
    assert(is_observed_c12(observation, models, *dispatch, before, after, *closes));
    observation
}

/// The one color run of a plan, and whether each of its operations is clamped once.
pub fn single_color_run(plan: &LoweredGraphPlan) -> (run: Result<(usize, bool), Error>)
    ensures
        match run {
            Ok((position, clamps)) => {
                &&& color_runs(plan@.passes).len() == 1
                &&& position < plan@.passes.len()
                &&& plan@.passes[position as int] == color_runs(plan@.passes)[0]
                &&& clamps == clamps_once(color_runs(plan@.passes)[0].operations)
            },
            Err(error) => {
                &&& color_runs(plan@.passes).len() != 1
                &&& error == Error::Lowering(LoweringFailure::ColorFilterRunNotUnique)
            },
        },
{
    let runs = color_pass_indices(plan);
    if runs.len() != 1 {
        return Err(Error::Lowering(LoweringFailure::ColorFilterRunNotUnique));
    }
    let position: usize = runs[0];
    assert(plan@.passes[runs@[0] as int] == color_runs(plan@.passes)[0]);
    assert(plan@.passes[position as int] == plan.passes@[position as int]@);
    Ok((position, preserves_one_clamp_per_record(&plan.passes[position].operations)))
}

/// What the diagnostics of a color graph and of a mixed graph name, and that the mixed graph is not
/// prepared as a color graph.
#[derive(Clone, Copy, Debug, PartialEq, Eq, Structural)]
pub struct MixedColorUnsupportedDiagnosticObservation {
    pub pure_color_retains_gpu_color_diagnostic: bool,
    pub color_then_blur_reports_gpu_blur_diagnostic: bool,
    pub mixed_graph_stays_outside_c10_preparation: bool,
}

/// What is observed of the diagnostics of a color graph and of a mixed graph that was lowered as
/// `plan`; nothing, where one has none. `closes` decides which plans are prepared as color graphs.
pub fn mixed_color_unsupported_diagnostic_observation<F: Fn(&LoweredGraphPlan) -> bool>(
    color: Result<Option<UnsupportedPrimitive>, Error>,
    mixed: Result<Option<UnsupportedPrimitive>, Error>,
    plan: &LoweredGraphPlan,
    closes: &F,
) -> (observation: Option<MixedColorUnsupportedDiagnosticObservation>)
    requires
        decides(*closes),
    ensures
        match (color, mixed) {
            (Ok(Some(color)), Ok(Some(mixed))) => observation matches Some(observed) && {
                &&& observed.pure_color_retains_gpu_color_diagnostic == (color == (
                UnsupportedPrimitive {
                    family: PrimitiveFamily::Filters,
                    operation: PrimitiveOperation::GpuColorFilterExecution,
                }))
                &&& observed.color_then_blur_reports_gpu_blur_diagnostic == (mixed == (
                UnsupportedPrimitive {
                    family: PrimitiveFamily::Filters,
                    operation: PrimitiveOperation::GpuBlurFilterExecution,
                }))
                &&& may_answer(
                    *closes,
                    plan@,
                    !observed.mixed_graph_stays_outside_c10_preparation,
                )
            },
            _ => observation is None,
        },
{
    match (color, mixed) {
        (Ok(Some(color)), Ok(Some(mixed))) => {
            assert(call_requires(*closes, (plan,)));
            let prepared = closes(plan);
            assert(may_answer(*closes, plan@, prepared));
            Some(
                MixedColorUnsupportedDiagnosticObservation {
                    pure_color_retains_gpu_color_diagnostic: color.family
                        == PrimitiveFamily::Filters && color.operation
                        == PrimitiveOperation::GpuColorFilterExecution,
                    color_then_blur_reports_gpu_blur_diagnostic: mixed.family
                        == PrimitiveFamily::Filters && mixed.operation
                        == PrimitiveOperation::GpuBlurFilterExecution,
                    mixed_graph_stays_outside_c10_preparation: !prepared,
                },
            )
        },
        _ => None,
    }
}

/// Plans are observed to be refused, or accepted, exactly as they are decided: where every decision is a
/// refusal all are refused, and where every one is an acceptance all are accepted.
pub proof fn law_decisions_are_observed<F: Fn(&LoweredGraphPlan) -> bool>(
    plans: &Vec<LoweredGraphPlan>,
    closes: &F,
    refused: bool,
    accepted: bool,
    i: int,
)
    requires
        call_ensures(all_refused::<F>, (plans, closes), refused),
        call_ensures(all_accepted::<F>, (plans, closes), accepted),
        0 <= i < plans@.len(),
    ensures
        (forall|plan: LoweredGraphPlan| !#[trigger] call_ensures(*closes, (&plan,), true))
            ==> refused && !accepted,
        (forall|plan: LoweredGraphPlan| !#[trigger] call_ensures(*closes, (&plan,), false))
            ==> accepted && !refused,
        refused ==> exists|asked: LoweredGraphPlan|
            asked@ == plans@[i]@ && #[trigger] call_ensures(*closes, (&asked,), false),
        accepted ==> exists|asked: LoweredGraphPlan|
            asked@ == plans@[i]@ && #[trigger] call_ensures(*closes, (&asked,), true),
{
    let models = plan_models(plans@);
    assert(models[i] == plans@[i]@);
    if refused {
        assert(may_answer(*closes, models[i], false));
    }
    if accepted {
        assert(may_answer(*closes, models[i], true));
    }
}

/// Plans are observed to close, or not to, exactly as they do: where none ever closes none does, and
/// where each always closes all do.
pub proof fn law_closings_are_observed<K: Fn(&LoweredGraphPlan) -> Option<ClosedExecutableGraph>>(
    plans: &Vec<LoweredGraphPlan>,
    close: &K,
    none: bool,
    all: bool,
    i: int,
)
    requires
        call_ensures(none_closes::<K>, (plans, close), none),
        call_ensures(all_close::<K>, (plans, close), all),
        0 <= i < plans@.len(),
    ensures
        (forall|plan: LoweredGraphPlan, graph: ClosedExecutableGraph| !#[trigger]
            call_ensures(*close, (&plan,), Some(graph))) ==> none && !all,
        (forall|plan: LoweredGraphPlan| !#[trigger]
            call_ensures(*close, (&plan,), None::<ClosedExecutableGraph>)) ==> all && !none,
{
    let models = plan_models(plans@);
    assert(models[i] == plans@[i]@);
    if none {
        assert(may_close(*close, models[i], None));
    }
    if all {
        assert(may_be_closed(*close, models[i]));
        let graph = choose|graph: ClosedExecutableGraph| #[trigger]
            may_close(*close, models[i], Some(graph));
        let asked = choose|asked: LoweredGraphPlan|
            asked@ == models[i] && #[trigger] call_ensures(*close, (&asked,), Some(graph));
        assert(call_ensures(*close, (&asked,), Some(graph)));
    }
}

/// A graph is lowered for every format in this order: high precision to red first and to blue first,
/// then reduced precision to each; and only if it is lowered for all four.
pub proof fn law_every_format_is_lowered<L: Fn(WorkingFormat, Format) -> Option<LoweredGraphPlan>>(
    lower: &L,
    plans: Vec<LoweredGraphPlan>,
)
    requires
        call_ensures(lower_for_every_format::<L>, (lower,), Some(plans)),
    ensures
        plans@.len() == 4,
        exists|plan: LoweredGraphPlan|
            plan@ == plans@[0]@ && #[trigger] call_ensures(
                *lower,
                (WorkingFormat::HighPrecision, Format::Rgba8),
                Some(plan),
            ),
        exists|plan: LoweredGraphPlan|
            plan@ == plans@[1]@ && #[trigger] call_ensures(
                *lower,
                (WorkingFormat::HighPrecision, Format::Bgra8),
                Some(plan),
            ),
        exists|plan: LoweredGraphPlan|
            plan@ == plans@[2]@ && #[trigger] call_ensures(
                *lower,
                (WorkingFormat::ReducedPrecision, Format::Rgba8),
                Some(plan),
            ),
        exists|plan: LoweredGraphPlan|
            plan@ == plans@[3]@ && #[trigger] call_ensures(
                *lower,
                (WorkingFormat::ReducedPrecision, Format::Bgra8),
                Some(plan),
            ),
{
    let models = plan_models(plans@);
    assert(models.len() == plans@.len());
    assert(models[0] == plans@[0]@);
    assert(models[1] == plans@[1]@);
    assert(models[2] == plans@[2]@);
    assert(models[3] == plans@[3]@);
    lemma_lowered(*lower, WorkingFormat::HighPrecision, Format::Rgba8, models[0]);
    lemma_lowered(*lower, WorkingFormat::HighPrecision, Format::Bgra8, models[1]);
    lemma_lowered(*lower, WorkingFormat::ReducedPrecision, Format::Rgba8, models[2]);
    lemma_lowered(*lower, WorkingFormat::ReducedPrecision, Format::Bgra8, models[3]);
}

proof fn lemma_lowered<L: Fn(WorkingFormat, Format) -> Option<LoweredGraphPlan>>(
    lower: L,
    working_format: WorkingFormat,
    output_format: Format,
    model: PlanModel,
)
    requires
        may_lower(lower, working_format, output_format, Some(model)),
    ensures
        exists|plan: LoweredGraphPlan|
            plan@ == model && #[trigger] call_ensures(
                lower,
                (working_format, output_format),
                Some(plan),
            ),
{
    let lowered = choose|lowered: Option<LoweredGraphPlan>|
        {
            &&& #[trigger] call_ensures(lower, (working_format, output_format), lowered)
            &&& plan_of(lowered) == Some(model)
        };
    assert(lowered == Some(lowered->0));
}

/// The one color run of a plan is the one pass that filters colors and has its work; it is clamped
/// exactly if each of its operations is.
pub proof fn law_single_color_runs(
    plan: &LoweredGraphPlan,
    run: Result<(usize, bool), Error>,
    i: int,
    j: int,
)
    requires
        call_ensures(single_color_run, (plan,), run),
        0 <= i < j < plan@.passes.len(),
    ensures
        run matches Ok((position, clamps)) ==> {
            let pass = plan@.passes[position as int];
            &&& position < plan@.passes.len()
            &&& pass.kind is ColorFilter && pass.kind->ColorFilter_0 is Some
            &&& 0 <= j < pass.operations.len()
                && pass.operations[j].clamp_boundary is Unclamped ==> !clamps
            &&& pass.operations.len() == 1 && !(pass.operations[0].clamp_boundary is Unclamped)
                ==> clamps
        },
        (forall|k: int|
            0 <= k < plan@.passes.len() ==> !((#[trigger] plan@.passes[k]).kind is ColorFilter))
            ==> run is Err,
{
    let passes = plan@.passes;
    let keep = |pass: PassModel| is_color_run(pass.kind);
    #[allow(deprecated)]
    passes.filter_lemma(keep);
    let runs = color_runs(passes);
    assert(runs == passes.filter(keep));
    if run is Ok {
        assert(keep(runs[0]));
    }
    if forall|k: int|
        0 <= k < plan@.passes.len() ==> !((#[trigger] plan@.passes[k]).kind is ColorFilter) {
        if run is Ok {
            let position = (run->Ok_0).0 as int;
            assert(plan@.passes[position].kind is ColorFilter);
        }
    }
}

/// Diagnostics are observed exactly where both graphs have one: of colors exactly if it names the
/// execution of color filters, and of the mixed graph exactly if it names that of blurs.
pub proof fn law_observed_diagnostics<F: Fn(&LoweredGraphPlan) -> bool>(
    color: Result<Option<UnsupportedPrimitive>, Error>,
    mixed: Result<Option<UnsupportedPrimitive>, Error>,
    plan: &LoweredGraphPlan,
    closes: &F,
    observation: Option<MixedColorUnsupportedDiagnosticObservation>,
)
    requires
        call_ensures(
            mixed_color_unsupported_diagnostic_observation::<F>,
            (color, mixed, plan, closes),
            observation,
        ),
    ensures
        observation is Some <==> color is Ok && color->Ok_0 is Some && mixed is Ok
            && mixed->Ok_0 is Some,
        observation matches Some(observed) ==> {
            &&& observed.pure_color_retains_gpu_color_diagnostic <==> color->Ok_0->0.family
                is Filters && color->Ok_0->0.operation is GpuColorFilterExecution
            &&& observed.color_then_blur_reports_gpu_blur_diagnostic <==> mixed->Ok_0->0.family
                is Filters && mixed->Ok_0->0.operation is GpuBlurFilterExecution
            &&& (forall|asked: LoweredGraphPlan| !#[trigger] call_ensures(*closes, (&asked,), true))
                ==> observed.mixed_graph_stays_outside_c10_preparation
            &&& (forall|asked: LoweredGraphPlan| !#[trigger]
                call_ensures(*closes, (&asked,), false))
                ==> !observed.mixed_graph_stays_outside_c10_preparation
        },
{
    if observation is Some {
        let observed = observation->0;
        assert(may_answer(
            *closes,
            plan@,
            !observed.mixed_graph_stays_outside_c10_preparation,
        ));
    }
}

/// What is observed of the filters of a graph are the verdicts on each of their parts.
pub proof fn law_filters_are_judged_in_each_part(
    closed: &ClosedExecutableGraph,
    proven: bool,
    observed: C11FilterGraphObservation,
)
    requires
        call_ensures(c11_filter_graph_observation, (closed, proven), observed),
    ensures
        forall|tags: Vec<C11FilterPassTag>| #[trigger]
            call_ensures(c11_filter_pass_tags, (&closed.filter_steps,), tags) ==> tags@
                == observed.pass_order@,
        forall|exact: bool| #[trigger]
            call_ensures(c11_blur_edges_are_exact, (closed,), exact) ==> exact
                == observed.ordinary_blur_uses_transparent_black,
        forall|exact: bool| #[trigger]
            call_ensures(c11_shadow_facts_are_exact, (closed,), exact) ==> exact
                == observed.drop_shadow_uses_source_alpha_and_continuous_offset,
        forall|exact: bool| #[trigger]
            call_ensures(c11_spatial_mappings_are_exact, (closed,), exact) ==> exact
                == observed.spatial_mappings_are_exact,
        forall|exact: bool| #[trigger]
            call_ensures(c11_sources_and_results_are_distinct, (closed,), exact) ==> exact
                == observed.sources_and_results_are_distinct,
        forall|exact: bool| #[trigger]
            call_ensures(c11_shadow_fanout_is_exact, (closed,), exact) ==> exact
                == observed.source_alpha_fanout_reads_original_twice,
        forall|exact: bool| #[trigger]
            call_ensures(c11_shadow_releases_are_exact, (closed,), exact) ==> exact
                == observed.original_source_releases_only_after_merge,
        forall|exact: bool| #[trigger]
            call_ensures(c11_dependencies_and_lifetimes_are_exact, (closed, proven), exact)
                ==> exact == observed.dependencies_and_last_use_are_exact,
{
}

/// A layered graph is judged by its closed facts, its dispatch and the class of a color graph: a color
/// graph of the same class is not rejected.
pub proof fn law_layered_graphs_are_judged_by_their_class<
    P,
    S: Fn(WorkingFormat, Format) -> Option<LoweredGraphPlan>,
    L: Fn(WorkingFormat, Format) -> Option<LoweredGraphPlan>,
    K: Fn(&LoweredGraphPlan) -> Option<ClosedExecutableGraph>,
>(
    observed: C09ExecutableGraphObservation,
    plan: PlanModel,
    closed: ClosedExecutableGraph,
    spine: S,
    layers: L,
    color: PrePreparationGraphClassification,
    dispatch: Result<ExecutableGraphDispatchEligibility<P>, Error>,
    close: K,
)
    requires
        is_observed_c09(Some(observed), plan, closed, spine, layers, color, dispatch, close),
    ensures
        forall|exact: bool| #[trigger]
            call_ensures(c09_layer_composition_reads_are_exact, (&closed,), exact) ==> exact
                == observed.layer_composition_reads_are_exact,
        observed.preserves_exact_c09_dispatch <==> dispatch is Ok && dispatch->Ok_0 is ExactC09,
        color is ExactC09 ==> !observed.rejects_c10_plus_passes_and_payloads,
        (forall|plan: LoweredGraphPlan, graph: ClosedExecutableGraph| !#[trigger]
            call_ensures(close, (&plan,), Some(graph))) ==> {
            &&& observed.rejects_missing_payloads
            &&& observed.rejects_malformed_graph_facts
            &&& observed.rejects_unsupported_output_binding
            &&& color !is ExactC09 ==> observed.rejects_c10_plus_passes_and_payloads
            &&& !observed.accepts_spine_and_layer_composition_for_all_formats
        },
{
    if forall|plan: LoweredGraphPlan, graph: ClosedExecutableGraph| !#[trigger]
        call_ensures(close, (&plan,), Some(graph)) {
        if observed.accepts_spine_and_layer_composition_for_all_formats {
            assert(format_as_observed(
                spine,
                layers,
                close,
                WorkingFormat::HighPrecision,
                Format::Rgba8,
                true,
            ));
            assert(lowering_as_observed(
                spine,
                close,
                WorkingFormat::HighPrecision,
                Format::Rgba8,
                false,
                true,
            ));
        }
    }
}

/// A bounded backdrop is accepted only if it is dispatched as one, and rejected before anything is
/// acquired exactly if the device holds what it held.
pub proof fn law_backdrops_are_accepted_as_dispatched<P, F: Fn(&LoweredGraphPlan) -> bool>(
    observed: C12ExecutableGraphObservation,
    plans: Seq<PlanModel>,
    dispatch: Result<ExecutableGraphDispatchEligibility<P>, Error>,
    before: DeviceHoldings,
    after: DeviceHoldings,
    closes: F,
)
    requires
        is_observed_c12(Some(observed), plans, dispatch, before, after, closes),
        plans.len() > 0,
    ensures
        observed.accepts_bounded_top_level_backdrop ==> dispatch is Ok
            && dispatch->Ok_0 is ExactC12,
        observed.rejects_before_resource_acquisition <==> after.resources == before.resources
            && after.cached_passes == before.cached_passes,
        (forall|plan: LoweredGraphPlan| !#[trigger] call_ensures(closes, (&plan,), true))
            ==> observed.rejects_outside_bounded_subset
            && !observed.accepts_bounded_top_level_backdrop,
        (forall|plan: LoweredGraphPlan| !#[trigger] call_ensures(closes, (&plan,), false))
            && dispatch is Ok && dispatch->Ok_0 is ExactC12
            ==> observed.accepts_bounded_top_level_backdrop,
{
    if observed.accepts_bounded_top_level_backdrop {
        assert(may_answer(closes, plans[0], true));
    }
}

/// A color graph keeps the public dispatch exactly if classification left it to future passes. Where
/// nothing closes it is rejected in every way and accepted in none; where everything closes it is
/// accepted for all formats, and an unsupported output is not rejected.
pub proof fn law_color_graphs_are_judged_by_what_closes<
    P,
    L: Fn(WorkingFormat, Format) -> Option<LoweredGraphPlan>,
    B: Fn(WorkingFormat, Format) -> Option<LoweredGraphPlan>,
    S: Fn(WorkingFormat, Format) -> Option<LoweredGraphPlan>,
    F: Fn(&LoweredGraphPlan) -> bool,
>(
    authored: usize,
    color: &L,
    blur: &B,
    shadow: &S,
    dispatch: &Result<ExecutableGraphDispatchEligibility<P>, Error>,
    closes: &F,
    observed: C10ExecutableGraphObservation,
)
    requires
        call_ensures(
            c10_executable_graph_observation::<P, L, B, S, F>,
            (authored, color, blur, shadow, dispatch, closes),
            Some(observed),
        ),
    ensures
        observed.preserves_public_c09_dispatch_boundary <==> *dispatch is Ok
            && (*dispatch)->Ok_0 is FuturePasses,
        authored <= 1 ==> !observed.accepts_multiple_ordered_color_runs,
        (forall|plan: LoweredGraphPlan| !#[trigger] call_ensures(*closes, (&plan,), true)) ==> {
            &&& !observed.accepts_multiple_ordered_color_runs
            &&& observed.rejects_empty_missing_and_malformed_color_facts
            &&& observed.rejects_copy_blur_shadow_and_drop_shadow_composite
            &&& observed.rejects_unsupported_output
        },
        (forall|plan: LoweredGraphPlan| !#[trigger] call_ensures(*closes, (&plan,), false)) ==> {
            &&& observed.accepts_spine_composition_and_color_for_all_formats
            &&& !observed.rejects_unsupported_output
        },
{
    let (plans, blur_plan, shadow_plan) = choose|
        plans: Option<Seq<PlanModel>>,
        blur_plan: Option<PlanModel>,
        shadow_plan: Option<PlanModel>,
    |
        {
            &&& #[trigger] may_lower_for_every_format(*color, plans)
            &&& #[trigger] may_lower(
                *blur,
                WorkingFormat::HighPrecision,
                Format::Rgba8,
                blur_plan,
            )
            &&& #[trigger] may_lower(
                *shadow,
                WorkingFormat::HighPrecision,
                Format::Rgba8,
                shadow_plan,
            )
            &&& plans is Some && blur_plan is Some && shadow_plan is Some && is_observed_c10(
                Some(observed),
                authored,
                plans->0,
                blur_plan->0,
                shadow_plan->0,
                *dispatch,
                *closes,
            )
        };
    let plan = plans->0[0];
    let other = seq![PlanModel { output_format: Format::Bgra8, ..plan }];
    if forall|plan: LoweredGraphPlan| !#[trigger] call_ensures(*closes, (&plan,), false) {
        if observed.rejects_unsupported_output {
            assert(may_answer(*closes, other[0], false));
        }
    }
}

/// A graph of spatial filters is rejected before anything is acquired exactly if the device holds what it
/// held and every malformed graph is rejected; where nothing closes, every one is, and the graph is not
/// accepted.
pub proof fn law_filter_graphs_are_judged_by_what_closes<
    K: Fn(&LoweredGraphPlan) -> Option<ClosedExecutableGraph>,
    S: Fn(RuntimePassId) -> Option<RuntimePassId>,
>(
    observed: C11ExecutableGraphObservation,
    plans: Seq<PlanModel>,
    graph: ClosedExecutableGraph,
    before: DeviceHoldings,
    after: DeviceHoldings,
    close: K,
    stale_of: S,
)
    requires
        is_observed_c11(Some(observed), plans, graph, before, after, close, stale_of),
    ensures
        observed.rejects_before_resource_acquisition <==> after.resources == before.resources
            && after.cached_passes == before.cached_passes
            && observed.rejects_empty_missing_and_malformed_spatial_facts
            && observed.rejects_wrong_axes_inputs_edges_and_aliases
            && observed.rejects_copy_backdrop_stale_forward_and_c12_plus,
        (forall|plan: LoweredGraphPlan, closed: ClosedExecutableGraph| !#[trigger]
            call_ensures(close, (&plan,), Some(closed))) ==> {
            &&& observed.rejects_empty_missing_and_malformed_spatial_facts
            &&& observed.rejects_wrong_axes_inputs_edges_and_aliases
            &&& observed.rejects_copy_backdrop_stale_forward_and_c12_plus
        },
{
}

/// A spine and a layered graph are accepted for all formats exactly if each is lowered, and closes as what
/// it is, in every one.
pub proof fn law_formats_are_accepted_together<
    S: Fn(WorkingFormat, Format) -> Option<LoweredGraphPlan>,
    L: Fn(WorkingFormat, Format) -> Option<LoweredGraphPlan>,
    K: Fn(&LoweredGraphPlan) -> Option<ClosedExecutableGraph>,
>(
    spine: &S,
    layers: &L,
    close: &K,
    accepted: bool,
    working_format: WorkingFormat,
    output_format: Format,
)
    requires
        call_ensures(
            c09_accepts_all_working_and_output_formats::<S, L, K>,
            (spine, layers, close),
            accepted,
        ),
    ensures
        accepted ==> exists|plan: LoweredGraphPlan| #[trigger]
            call_ensures(*spine, (working_format, output_format), Some(plan)),
        accepted ==> exists|plan: LoweredGraphPlan| #[trigger]
            call_ensures(*layers, (working_format, output_format), Some(plan)),
        (forall|lowered: Option<LoweredGraphPlan>| #[trigger]
            call_ensures(*spine, (working_format, output_format), lowered) ==> lowered is None)
            ==> !accepted,
        (forall|lowered: Option<LoweredGraphPlan>| #[trigger]
            call_ensures(*layers, (working_format, output_format), lowered) ==> lowered is None)
            ==> !accepted,
{
    if accepted {
        assert(format_as_observed(*spine, *layers, *close, working_format, output_format, true));
        assert(lowering_as_observed(
            *spine,
            *close,
            working_format,
            output_format,
            false,
            true,
        ));
        assert(lowering_as_observed(
            *layers,
            *close,
            working_format,
            output_format,
            true,
            true,
        ));
    }
}

} // verus!
