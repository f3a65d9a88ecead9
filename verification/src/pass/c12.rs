//! One bounded backdrop of a closed graph.

use vstd::prelude::*;

use crate::error::Error;
use crate::pass::bound::looks_up_any;
use crate::pass::c10::{clamps_once, preserves_one_clamp_per_record};
use crate::pass::c11::{c11_filter_pass_tags, filter_tags, samples, C11FilterPassTag};
use crate::pass::closed::{BackdropFacts, ClosedExecutableGraph, LayerCompositionFacts};
use crate::pass::layout::BlurPassFacts;
use crate::pass::mirrored::{C12BackdropBlurCacheRequest, EdgeParameters};
use crate::pass::model::{
    LoweredGraphPlan, PassModel, PlanModel, Rect, RuntimeBlurInput, RuntimeCompositeKind,
    RuntimePass, RuntimePassCacheKeys, RuntimePassId, RuntimeReadRole, RuntimeSamplingEdge,
};
use crate::pass::search::{find_mapped_pass, first_where, lemma_first_where, mapped_pass};
use crate::runtime::WorkingFormat;

verus! {

/// What is observed of the order of a backdrop's passes.
#[derive(Clone, Copy, Debug, PartialEq, Eq, Structural)]
pub struct C12BackdropGraphObservation {
    pub closed_subset_receipt: bool,
    pub reads_completed_parent_once: bool,
    pub copy_precedes_authored_filters: bool,
    pub post_filter_clip_precedes_foreground: bool,
    pub foreground_precedes_outer_composition: bool,
    pub later_sibling_depends_on_completed_group: bool,
}

/// The composition that draws the filtered backdrop.
pub open spec fn backdrop_layer(
    layers: Seq<LayerCompositionFacts>,
    pass: RuntimePassId,
) -> Option<LayerCompositionFacts> {
    match first_where(layers, |layer: LayerCompositionFacts| layer.pass == pass) {
        Some(position) => Some(layers[position]),
        None => None,
    }
}

/// Whether a composition clips, by a coverage of its own.
pub open spec fn clips_by_coverage(layer: LayerCompositionFacts) -> bool {
    layer.composite.kind matches RuntimeCompositeKind::Layer(parameters) && parameters.has_clip
        && parameters.clip_coverage is Some
}

/// Whether every listed pass stands before `position`.
pub open spec fn all_before(passes: Seq<PassModel>, listed: Seq<RuntimePassId>, position: int) -> bool {
    forall|i: int|
        0 <= i < listed.len() ==> (mapped_pass(passes, #[trigger] listed[i]) matches Some(found)
            && found < position)
}

/// Whether every listed pass stands after `position`.
pub open spec fn all_after(passes: Seq<PassModel>, listed: Seq<RuntimePassId>, position: int) -> bool {
    forall|i: int|
        0 <= i < listed.len() ==> (mapped_pass(passes, #[trigger] listed[i]) matches Some(found)
            && position < found)
}

/// Whether a pass depends on the group and samples what it left.
pub open spec fn follows_group(pass: PassModel, backdrop: BackdropFacts) -> bool {
    pass.dependencies.contains(backdrop.outer_composite) && samples(pass.reads, backdrop.result)
}

/// What is observed of one backdrop, where its passes are found.
pub open spec fn backdrop_observed(
    plan: PlanModel,
    layers: Seq<LayerCompositionFacts>,
    backdrop: BackdropFacts,
    receipt: bool,
) -> Option<C12BackdropGraphObservation> {
    match (
        mapped_pass(plan.passes, backdrop.copy),
        mapped_pass(plan.passes, backdrop.backdrop_composite),
        mapped_pass(plan.passes, backdrop.outer_composite),
        backdrop_layer(layers, backdrop.backdrop_composite),
    ) {
        (Some(copy), Some(composite), Some(outer), Some(layer)) => {
            let foreground = match backdrop.foreground_composite {
                Some(pass) => mapped_pass(plan.passes, pass),
                None => None,
            };
            let copies = plan.passes[copy];
            Some(
                C12BackdropGraphObservation {
                    closed_subset_receipt: receipt,
                    reads_completed_parent_once: copies.reads.len() == 1 && copies.reads[0].role
                        == RuntimeReadRole::CompletedParent && copies.reads[0].resource
                        == backdrop.completed_parent,
                    copy_precedes_authored_filters: all_after(
                        plan.passes,
                        backdrop.filter_passes@,
                        copy,
                    ),
                    post_filter_clip_precedes_foreground: clips_by_coverage(layer) && all_before(
                        plan.passes,
                        backdrop.filter_passes@,
                        composite,
                    ) && (foreground matches Some(drawn) && composite < drawn),
                    foreground_precedes_outer_composition: foreground matches Some(drawn) && drawn
                        < outer,
                    later_sibling_depends_on_completed_group: exists|i: int|
                        outer < i < plan.passes.len() && follows_group(
                            #[trigger] plan.passes[i],
                            backdrop,
                        ),
                },
            )
        },
        _ => None,
    }
}

/// Compares the positions of the listed passes with one: whether all are before, and whether all
/// are after.
fn positions_of_filters(
    plan: &LoweredGraphPlan,
    listed: &Vec<RuntimePassId>,
    copy: usize,
    composite: usize,
) -> (order: (bool, bool))
    ensures
        order.0 == all_after(plan@.passes, listed@, copy as int),
        order.1 == all_before(plan@.passes, listed@, composite as int),
{
    let length: usize = listed.len();
    let mut after = true;
    let mut before = true;
    let mut next: usize = 0;
    while next < length
        invariant
            next <= length,
            length == listed@.len(),
            after == (forall|i: int|
                0 <= i < next ==> (mapped_pass(
                    plan@.passes,
                    #[trigger] listed@[i],
                ) matches Some(found) && copy < found)),
            before == (forall|i: int|
                0 <= i < next ==> (mapped_pass(
                    plan@.passes,
                    #[trigger] listed@[i],
                ) matches Some(found) && found < composite)),
        decreases length - next,
    {
        match find_mapped_pass(&plan.passes, listed[next]) {
            Some(position) => {
                after = after && copy < position;
                before = before && position < composite;
            },
            None => {
                after = false;
                before = false;
            },
        }
        next = next + 1;
    }
    (after, before)
}

fn pass_follows_group(pass: &RuntimePass, backdrop: &BackdropFacts) -> (follows: bool)
    ensures
        follows == follows_group(pass@, *backdrop),
{
    let dependencies: usize = pass.dependencies.len();
    let mut depends = false;
    let mut next: usize = 0;
    while next < dependencies
        invariant
            next <= dependencies,
            dependencies == pass.dependencies@.len(),
            depends == (exists|i: int|
                0 <= i < next && #[trigger] pass.dependencies@[i] == backdrop.outer_composite),
        decreases dependencies - next,
    {
        if pass.dependencies[next] == backdrop.outer_composite {
            depends = true;
            assert(pass.dependencies@[next as int] == backdrop.outer_composite);
        }
        next = next + 1;
    }
    let reads: usize = pass.reads.len();
    let mut sampled = false;
    let mut read: usize = 0;
    while read < reads
        invariant
            read <= reads,
            reads == pass.reads@.len(),
            sampled == (exists|i: int|
                0 <= i < read && (#[trigger] pass.reads@[i]).resource == backdrop.result),
        decreases reads - read,
    {
        if pass.reads[read].resource == backdrop.result {
            sampled = true;
            assert(pass.reads@[read as int].resource == backdrop.result);
        }
        read = read + 1;
    }
    assert(depends == pass@.dependencies.contains(backdrop.outer_composite));
    assert(sampled == samples(pass@.reads, backdrop.result));
    depends && sampled
}

fn some_pass_follows(plan: &LoweredGraphPlan, outer: usize, backdrop: &BackdropFacts) -> (found:
    bool)
    requires
        outer < plan@.passes.len(),
    ensures
        found == exists|i: int|
            outer < i < plan@.passes.len() && follows_group(#[trigger] plan@.passes[i], *backdrop),
{
    let length: usize = plan.passes.len();
    let mut next: usize = outer + 1;
    while next < length
        invariant
            outer < next <= length,
            length == plan.passes@.len(),
            forall|i: int|
                outer < i < next ==> !follows_group(#[trigger] plan@.passes[i], *backdrop),
        decreases length - next,
    {
        assert(plan@.passes[next as int] == plan.passes@[next as int]@);
        if pass_follows_group(&plan.passes[next], backdrop) {
            assert(follows_group(plan@.passes[next as int], *backdrop));
            return true;
        }
        next = next + 1;
    }
    false
}

fn find_backdrop_layer(layers: &Vec<LayerCompositionFacts>, pass: RuntimePassId) -> (layer: Option<
    LayerCompositionFacts,
>)
    ensures
        layer == backdrop_layer(layers@, pass),
{
    let ghost chosen = |layer: LayerCompositionFacts| layer.pass == pass;
    proof {
        lemma_first_where(layers@, chosen);
    }
    let length: usize = layers.len();
    let mut next: usize = 0;
    while next < length
        invariant
            next <= length,
            length == layers@.len(),
            chosen == (|layer: LayerCompositionFacts| layer.pass == pass),
            forall|i: int| 0 <= i < next ==> !chosen(#[trigger] layers@[i]),
            match first_where(layers@, chosen) {
                Some(position) => {
                    &&& 0 <= position < layers@.len()
                    &&& chosen(layers@[position])
                    &&& forall|i: int| 0 <= i < position ==> !chosen(#[trigger] layers@[i])
                },
                None => forall|i: int| 0 <= i < layers@.len() ==> !chosen(#[trigger] layers@[i]),
            },
        decreases length - next,
    {
        if layers[next].pass == pass {
            assert(chosen(layers@[next as int]));
            return Some(layers[next]);
        }
        assert(!chosen(layers@[next as int]));
        next = next + 1;
    }
    None
}

/// What is observed of the one backdrop of a graph. `receipt` is the verdict on its closed facts.
pub fn c12_backdrop_graph_observation(closed: &ClosedExecutableGraph, receipt: bool) -> (
observation: Option<C12BackdropGraphObservation>)
    ensures
        observation == (if closed.backdrops@.len() == 1 {
            backdrop_observed(
                closed.lowered@,
                closed.layer_compositions@,
                closed.backdrops@[0],
                receipt,
            )
        } else {
            None
        }),
{
    if closed.backdrops.len() != 1 {
        return None;
    }
    let backdrop = &closed.backdrops[0];
    let plan = &closed.lowered;
    let (copy, composite, outer, layer) = match (
        find_mapped_pass(&plan.passes, backdrop.copy),
        find_mapped_pass(&plan.passes, backdrop.backdrop_composite),
        find_mapped_pass(&plan.passes, backdrop.outer_composite),
        find_backdrop_layer(&closed.layer_compositions, backdrop.backdrop_composite),
    ) {
        (Some(copy), Some(composite), Some(outer), Some(layer)) => (copy, composite, outer, layer),
        _ => return None,
    };
    let foreground = match backdrop.foreground_composite {
        Some(pass) => find_mapped_pass(&plan.passes, pass),
        None => None,
    };
    let copies = &plan.passes[copy];
    assert(plan@.passes[copy as int] == copies@);
    let (after_copy, before_composite) = positions_of_filters(
        plan,
        &backdrop.filter_passes,
        copy,
        composite,
    );
    let clips = match layer.composite.kind {
        RuntimeCompositeKind::Layer(parameters) => parameters.has_clip
            && parameters.clip_coverage.is_some(),
        _ => false,
    };
    let after_composite = match foreground {
        Some(drawn) => composite < drawn,
        None => false,
    };
    let before_outer = match foreground {
        Some(drawn) => drawn < outer,
        None => false,
    };
    Some(
        C12BackdropGraphObservation {
            closed_subset_receipt: receipt,
            reads_completed_parent_once: copies.reads.len() == 1 && copies.reads[0].role
                == RuntimeReadRole::CompletedParent && copies.reads[0].resource
                == backdrop.completed_parent,
            copy_precedes_authored_filters: after_copy,
            post_filter_clip_precedes_foreground: clips && before_composite && after_composite,
            foreground_precedes_outer_composition: before_outer,
            later_sibling_depends_on_completed_group: some_pass_follows(plan, outer, backdrop),
        },
    )
}

/// Where a backdrop is drawn in order, it is copied before its foreground and before the group is
/// composited.
pub proof fn law_backdrop_is_copied_before_it_is_covered(
    plan: PlanModel,
    layers: Seq<LayerCompositionFacts>,
    backdrop: BackdropFacts,
    receipt: bool,
)
    requires
        backdrop_observed(plan, layers, backdrop, receipt) matches Some(observation) && {
            &&& observation.copy_precedes_authored_filters
            &&& observation.post_filter_clip_precedes_foreground
            &&& observation.foreground_precedes_outer_composition
        },
        backdrop.filter_passes@.len() > 0,
    ensures
        mapped_pass(plan.passes, backdrop.copy) matches Some(copy) && mapped_pass(
            plan.passes,
            backdrop.backdrop_composite,
        ) matches Some(composite) && mapped_pass(
            plan.passes,
            backdrop.foreground_composite->0,
        ) matches Some(foreground) && mapped_pass(plan.passes, backdrop.outer_composite) matches Some(
            outer,
        ) && copy < composite < foreground < outer,
{
    let filter = backdrop.filter_passes@[0];
    assert(mapped_pass(plan.passes, filter) is Some);
}

/// One blur edge of a chain: its passes and where they mirror.
#[derive(Clone, Copy, Debug, PartialEq, Eq, Structural)]
pub struct BlurEdge {
    pub horizontal: RuntimePassId,
    pub vertical: RuntimePassId,
    pub edge: RuntimeSamplingEdge,
}

/// The edges of the blurs, then those of the drop shadows.
pub open spec fn blur_edges(closed: ClosedExecutableGraph) -> Seq<BlurEdge> {
    Seq::new(
        closed.blurs@.len(),
        |i: int|
            BlurEdge {
                horizontal: closed.blurs@[i].horizontal,
                vertical: closed.blurs@[i].vertical,
                edge: closed.blurs@[i].blur.edge,
            },
    ) + Seq::new(
        closed.drop_shadows@.len(),
        |i: int|
            BlurEdge {
                horizontal: closed.drop_shadows@[i].horizontal,
                vertical: closed.drop_shadows@[i].vertical,
                edge: closed.drop_shadows@[i].blur.edge,
            },
    )
}

/// Whether a pass has one read, and that mirrors at the bounds.
pub open spec fn mirrors_at(plan: PlanModel, id: RuntimePassId, bounds: Rect) -> bool {
    mapped_pass(plan.passes, id) matches Some(position) && {
        &&& plan.passes[position].reads.len() == 1
        &&& plan.passes[position].reads[0].sampling_edge matches
            RuntimeSamplingEdge::SemanticBorderMirror(read) && read.spec_same_as(bounds)
    }
}

/// Whether an edge mirrors at bounds that a shader can hold, in both of its passes.
pub open spec fn edge_is_exact(plan: PlanModel, edge: BlurEdge, representable: bool) -> bool {
    edge.edge matches RuntimeSamplingEdge::SemanticBorderMirror(bounds) && {
        &&& representable
        &&& mirrors_at(plan, edge.horizontal, bounds)
        &&& mirrors_at(plan, edge.vertical, bounds)
    }
}

fn pass_mirrors_at(plan: &LoweredGraphPlan, id: RuntimePassId, bounds: Rect) -> (exact: bool)
    ensures
        exact == mirrors_at(plan@, id, bounds),
{
    match find_mapped_pass(&plan.passes, id) {
        Some(position) => {
            let pass = &plan.passes[position];
            assert(plan@.passes[position as int] == pass@);
            if pass.reads.len() != 1 {
                return false;
            }
            match pass.reads[0].sampling_edge {
                RuntimeSamplingEdge::SemanticBorderMirror(read) => read.same_as(bounds),
                _ => false,
            }
        },
        None => false,
    }
}

fn collect_blur_edges(closed: &ClosedExecutableGraph) -> (edges: Vec<BlurEdge>)
    ensures
        edges@ == blur_edges(*closed),
{
    let blurs: usize = closed.blurs.len();
    let shadows: usize = closed.drop_shadows.len();
    let mut edges: Vec<BlurEdge> = Vec::new();
    let ghost expected = blur_edges(*closed);
    let mut next: usize = 0;
    while next < blurs
        invariant
            next <= blurs,
            blurs == closed.blurs@.len(),
            expected == blur_edges(*closed),
            edges@.len() == next,
            forall|i: int| 0 <= i < next ==> #[trigger] edges@[i] == expected[i],
        decreases blurs - next,
    {
        let facts = closed.blurs[next];
        edges.push(
            BlurEdge {
                horizontal: facts.horizontal,
                vertical: facts.vertical,
                edge: facts.blur.edge,
            },
        );
        next = next + 1;
    }
    let mut shadow: usize = 0;
    while shadow < shadows
        invariant
            shadow <= shadows,
            blurs == closed.blurs@.len(),
            shadows == closed.drop_shadows@.len(),
            expected == blur_edges(*closed),
            edges@.len() == blurs + shadow,
            forall|i: int| 0 <= i < blurs + shadow ==> #[trigger] edges@[i] == expected[i],
        decreases shadows - shadow,
    {
        let facts = closed.drop_shadows[shadow];
        edges.push(
            BlurEdge {
                horizontal: facts.horizontal,
                vertical: facts.vertical,
                edge: facts.blur.edge,
            },
        );
        proof {
            assert(edges@[blurs + shadow] == expected[blurs + shadow]);
        }
        shadow = shadow + 1;
    }
    proof {
        assert(edges@ =~= expected);
    }
    edges
}

/// What is observed of the filters of a backdrop.
#[derive(Debug)]
pub struct C12BackdropFilterChainObservation {
    pub pass_order: Vec<C11FilterPassTag>,
    pub every_backdrop_blur_uses_mirror: bool,
    pub source_alpha_blur_uses_mirror: bool,
    pub every_color_operation_retains_one_clamp: bool,
    pub semantic_bounds_are_exact: bool,
    pub every_mirrored_stage_is_realizable: bool,
}

/// Whether it may be said of an edge that it is exact. `parameters_of` gives bounds as a shader
/// reads them, where it can hold them.
pub open spec fn may_be_exact<E: Fn(Rect) -> EdgeParameters>(
    parameters_of: E,
    plan: PlanModel,
    edge: BlurEdge,
    exact: bool,
) -> bool {
    match edge.edge {
        RuntimeSamplingEdge::SemanticBorderMirror(bounds) => exists|held: EdgeParameters| #[trigger]
            call_ensures(parameters_of, (bounds,), held) && exact == edge_is_exact(
                plan,
                edge,
                held is Ok,
            ),
        _ => !exact,
    }
}

/// Whether an observation that there are edges and all are exact is true to what is said of each.
pub open spec fn edges_as_observed<E: Fn(Rect) -> EdgeParameters>(
    parameters_of: E,
    plan: PlanModel,
    edges: Seq<BlurEdge>,
    exact: bool,
) -> bool {
    if exact {
        &&& edges.len() > 0
        &&& forall|i: int|
            0 <= i < edges.len() ==> may_be_exact(parameters_of, plan, #[trigger] edges[i], true)
    } else {
        ||| edges.len() == 0
        ||| exists|i: int|
            0 <= i < edges.len() && may_be_exact(parameters_of, plan, #[trigger] edges[i], false)
    }
}

fn edges_are_exact<E: Fn(Rect) -> EdgeParameters>(
    plan: &LoweredGraphPlan,
    edges: &Vec<BlurEdge>,
    parameters_of: &E,
) -> (exact: bool)
    requires
        forall|bounds: Rect| #[trigger] call_requires(*parameters_of, (bounds,)),
    ensures
        edges_as_observed(*parameters_of, plan@, edges@, exact),
{
    let count: usize = edges.len();
    if count == 0 {
        return false;
    }
    let mut next: usize = 0;
    while next < count
        invariant
            next <= count,
            count == edges@.len(),
            forall|bounds: Rect| #[trigger] call_requires(*parameters_of, (bounds,)),
            forall|i: int|
                0 <= i < next ==> may_be_exact(*parameters_of, plan@, #[trigger] edges@[i], true),
        decreases count - next,
    {
        let edge = edges[next];
        let exact = match edge.edge {
            RuntimeSamplingEdge::SemanticBorderMirror(bounds) => {
                let held = parameters_of(bounds);
                let exact = held.is_ok() && pass_mirrors_at(plan, edge.horizontal, bounds)
                    && pass_mirrors_at(plan, edge.vertical, bounds);
                assert(exact == edge_is_exact(plan@, edge, held is Ok));
                exact
            },
            _ => false,
        };
        assert(may_be_exact(*parameters_of, plan@, edges@[next as int], exact));
        if !exact {
            return false;
        }
        next = next + 1;
    }
    true
}

/// Whether a mirrored pass binds what a shader needs.
pub open spec fn is_realizable(facts: Option<BlurPassFacts>) -> bool {
    facts matches Some(facts) && facts.bindings.has_only_expected_sampler
        && facts.bindings.has_exact_data_bindings
}

/// Whether it may be said of a request that its pass can be realized.
pub open spec fn may_be_realizable<F: Fn(RuntimePassCacheKeys) -> Option<BlurPassFacts>>(
    facts_of: F,
    request: C12BackdropBlurCacheRequest,
    realizable: bool,
) -> bool {
    exists|facts: Option<BlurPassFacts>| #[trigger]
        call_ensures(facts_of, (request.keys,), facts) && realizable == is_realizable(facts)
}

/// Whether an observation that all requests can be realized is true to what is said of each.
pub open spec fn stages_as_observed<F: Fn(RuntimePassCacheKeys) -> Option<BlurPassFacts>>(
    facts_of: F,
    requests: Seq<C12BackdropBlurCacheRequest>,
    realizable: bool,
) -> bool {
    if realizable {
        forall|i: int|
            0 <= i < requests.len() ==> may_be_realizable(facts_of, #[trigger] requests[i], true)
    } else {
        exists|i: int|
            0 <= i < requests.len() && may_be_realizable(facts_of, #[trigger] requests[i], false)
    }
}

fn stages_are_realizable<F: Fn(RuntimePassCacheKeys) -> Option<BlurPassFacts>>(
    requests: &Vec<C12BackdropBlurCacheRequest>,
    facts_of: &F,
) -> (realizable: bool)
    requires
        looks_up_any(*facts_of),
    ensures
        stages_as_observed(*facts_of, requests@, realizable),
{
    let count: usize = requests.len();
    let mut next: usize = 0;
    while next < count
        invariant
            next <= count,
            count == requests@.len(),
            looks_up_any(*facts_of),
            forall|i: int|
                0 <= i < next ==> may_be_realizable(*facts_of, #[trigger] requests@[i], true),
        decreases count - next,
    {
        let facts = facts_of(requests[next].keys);
        let realizable = match facts {
            Some(facts) => facts.bindings.has_only_expected_sampler
                && facts.bindings.has_exact_data_bindings,
            None => false,
        };
        assert(realizable == is_realizable(facts));
        assert(may_be_realizable(*facts_of, requests@[next as int], realizable));
        if !realizable {
            return false;
        }
        next = next + 1;
    }
    true
}

/// Whether an observation is true of the filters of a backdrop whose mirrored passes are requested
/// like this.
pub open spec fn is_observed_chain<
    F: Fn(RuntimePassCacheKeys) -> Option<BlurPassFacts>,
    E: Fn(Rect) -> EdgeParameters,
>(
    observation: C12BackdropFilterChainObservation,
    closed: ClosedExecutableGraph,
    requests: Seq<C12BackdropBlurCacheRequest>,
    facts_of: F,
    parameters_of: E,
) -> bool {
    &&& observation.pass_order@ == filter_tags(closed.filter_steps@)
    &&& observation.every_backdrop_blur_uses_mirror == (closed.blurs@.len() > 0 && forall|i: int|
        0 <= i < closed.blurs@.len() ==> (#[trigger] closed.blurs@[i]).blur.edge.spec_is_mirror())
    &&& observation.source_alpha_blur_uses_mirror == (closed.drop_shadows@.len() > 0 && forall|
        i: int,
    |
        0 <= i < closed.drop_shadows@.len() ==> (#[trigger] closed.drop_shadows@[i]).blur.input
            == RuntimeBlurInput::SourceAlpha && closed.drop_shadows@[i].blur.edge.spec_is_mirror())
    &&& observation.every_color_operation_retains_one_clamp == (closed.color_filters@.len() > 0
        && forall|i: int|
        0 <= i < closed.color_filters@.len() ==> (
        #[trigger] closed.color_filters@[i]).operations@.len() > 0 && clamps_once(
            closed.color_filters@[i].operations@,
        ))
    &&& edges_as_observed(
        parameters_of,
        closed.lowered@,
        blur_edges(closed),
        observation.semantic_bounds_are_exact,
    )
    &&& stages_as_observed(facts_of, requests, observation.every_mirrored_stage_is_realizable)
}

/// What is observed of the filters of a backdrop; nothing, where its mirrored passes cannot be
/// requested in high precision. `facts_of` looks up what keys bind, and `parameters_of` gives
/// bounds as a shader reads them.
pub fn c12_backdrop_filter_chain_observation<
    R: Fn(WorkingFormat) -> Result<Vec<C12BackdropBlurCacheRequest>, Error>,
    F: Fn(RuntimePassCacheKeys) -> Option<BlurPassFacts>,
    E: Fn(Rect) -> EdgeParameters,
>(closed: &ClosedExecutableGraph, request: &R, facts_of: &F, parameters_of: &E) -> (observation:
    Option<C12BackdropFilterChainObservation>)
    requires
        call_requires(*request, (WorkingFormat::HighPrecision,)),
        looks_up_any(*facts_of),
        forall|bounds: Rect| #[trigger] call_requires(*parameters_of, (bounds,)),
    ensures
        exists|answer: Result<Vec<C12BackdropBlurCacheRequest>, Error>|
            {
                &&& #[trigger] call_ensures(*request, (WorkingFormat::HighPrecision,), answer)
                &&& match answer {
                    Err(_) => observation is None,
                    Ok(requests) => observation matches Some(observed) && is_observed_chain(
                        observed,
                        *closed,
                        requests@,
                        *facts_of,
                        *parameters_of,
                    ),
                }
            },
{
    let answer = request(WorkingFormat::HighPrecision);
    assert(call_ensures(*request, (WorkingFormat::HighPrecision,), answer));
    let requests = match &answer {
        Ok(requests) => requests,
        Err(_) => return None,
    };
    let blurs: usize = closed.blurs.len();
    let mut blur_mirrors = true;
    let mut next: usize = 0;
    while next < blurs
        invariant
            next <= blurs,
            blurs == closed.blurs@.len(),
            blur_mirrors == (forall|i: int|
                0 <= i < next ==> (#[trigger] closed.blurs@[i]).blur.edge.spec_is_mirror()),
        decreases blurs - next,
    {
        blur_mirrors = closed.blurs[next].blur.edge.is_mirror() && blur_mirrors;
        next = next + 1;
    }
    let shadows: usize = closed.drop_shadows.len();
    let mut shadow_mirrors = true;
    let mut shadow: usize = 0;
    while shadow < shadows
        invariant
            shadow <= shadows,
            shadows == closed.drop_shadows@.len(),
            shadow_mirrors == (forall|i: int|
                0 <= i < shadow ==> (#[trigger] closed.drop_shadows@[i]).blur.input
                    == RuntimeBlurInput::SourceAlpha
                    && closed.drop_shadows@[i].blur.edge.spec_is_mirror()),
        decreases shadows - shadow,
    {
        let facts = closed.drop_shadows[shadow];
        shadow_mirrors = facts.blur.input == RuntimeBlurInput::SourceAlpha
            && facts.blur.edge.is_mirror() && shadow_mirrors;
        shadow = shadow + 1;
    }
    let colors: usize = closed.color_filters.len();
    let mut color_clamps = true;
    let mut color: usize = 0;
    while color < colors
        invariant
            color <= colors,
            colors == closed.color_filters@.len(),
            color_clamps == (forall|i: int|
                0 <= i < color ==> (#[trigger] closed.color_filters@[i]).operations@.len() > 0
                    && clamps_once(closed.color_filters@[i].operations@)),
        decreases colors - color,
    {
        let operations = &closed.color_filters[color].operations;
        let clamps = operations.len() > 0 && preserves_one_clamp_per_record(operations);
        color_clamps = color_clamps && clamps;
        color = color + 1;
    }
    let edges = collect_blur_edges(closed);
    let observation = C12BackdropFilterChainObservation {
        pass_order: c11_filter_pass_tags(&closed.filter_steps),
        every_backdrop_blur_uses_mirror: blurs > 0 && blur_mirrors,
        source_alpha_blur_uses_mirror: shadows > 0 && shadow_mirrors,
        every_color_operation_retains_one_clamp: colors > 0 && color_clamps,
        semantic_bounds_are_exact: edges_are_exact(&closed.lowered, &edges, parameters_of),
        every_mirrored_stage_is_realizable: stages_are_realizable(requests, facts_of),
    };
    assert(is_observed_chain(observation, *closed, requests@, *facts_of, *parameters_of));
    Some(observation)
}

/// What is observed of a backdrop is what its passes show, where each stands once at the given place:
/// the copy reads the completed parent and nothing else, every filter comes behind the copy and before
/// the filtered backdrop is drawn, the foreground is drawn behind that and before the group is.
pub proof fn law_backdrops_are_observed_in_order(
    closed: &ClosedExecutableGraph,
    receipt: bool,
    observed: C12BackdropGraphObservation,
    copy: int,
    composite: int,
    outer: int,
    i: int,
)
    requires
        call_ensures(c12_backdrop_graph_observation, (closed, receipt), Some(observed)),
        mapped_pass(closed.lowered@.passes, closed.backdrops@[0].copy) == Some(copy),
        mapped_pass(closed.lowered@.passes, closed.backdrops@[0].backdrop_composite) == Some(
            composite,
        ),
        mapped_pass(closed.lowered@.passes, closed.backdrops@[0].outer_composite) == Some(outer),
        0 <= i < closed.backdrops@[0].filter_passes@.len(),
    ensures
        closed.backdrops@.len() == 1,
        observed.closed_subset_receipt == receipt,
        observed.reads_completed_parent_once <==> {
            let reads = closed.lowered@.passes[copy].reads;
            &&& reads.len() == 1
            &&& reads[0].role is CompletedParent
            &&& reads[0].resource == closed.backdrops@[0].completed_parent
        },
        ({
            let passes = closed.lowered@.passes;
            let backdrop = closed.backdrops@[0];
            let filter = mapped_pass(passes, backdrop.filter_passes@[i]);
            let drawn = mapped_pass(passes, backdrop.foreground_composite->0);
            let has_foreground = backdrop.foreground_composite is Some && drawn is Some;
            &&& observed.copy_precedes_authored_filters ==> filter is Some && copy < filter->0
            &&& backdrop.filter_passes@.len() == 1 ==> (observed.copy_precedes_authored_filters
                <==> filter is Some && copy < filter->0)
            &&& observed.post_filter_clip_precedes_foreground ==> {
                &&& filter is Some
                &&& filter->0 < composite
                &&& has_foreground
                &&& composite < drawn->0
            }
            &&& observed.foreground_precedes_outer_composition <==> has_foreground && drawn->0
                < outer
        }),
{
    let backdrop = closed.backdrops@[0];
    let passes = closed.lowered@.passes;
    if backdrop.filter_passes@.len() == 1 {
        assert(i == 0);
    }
    let listed = backdrop.filter_passes@[i];
    assert(observed.copy_precedes_authored_filters == all_after(
        passes,
        backdrop.filter_passes@,
        copy,
    ));
    assert(observed.post_filter_clip_precedes_foreground ==> all_before(
        passes,
        backdrop.filter_passes@,
        composite,
    ));
}

/// A clip before the foreground is one by a coverage, of the first composition with the pass that draws
/// the filtered backdrop.
pub proof fn law_backdrops_clip_by_coverage(
    closed: &ClosedExecutableGraph,
    receipt: bool,
    observed: C12BackdropGraphObservation,
)
    requires
        call_ensures(c12_backdrop_graph_observation, (closed, receipt), Some(observed)),
        observed.post_filter_clip_precedes_foreground,
    ensures
        exists|i: int|
            {
                let layer = #[trigger] closed.layer_compositions@[i];
                &&& 0 <= i < closed.layer_compositions@.len()
                &&& layer.pass == closed.backdrops@[0].backdrop_composite
                &&& layer.composite.kind matches RuntimeCompositeKind::Layer(parameters)
                    && parameters.has_clip && parameters.clip_coverage is Some
                &&& forall|j: int|
                    0 <= j < i ==> (#[trigger] closed.layer_compositions@[j]).pass != layer.pass
            },
{
    let layers = closed.layer_compositions@;
    let pass = closed.backdrops@[0].backdrop_composite;
    let chosen = |layer: LayerCompositionFacts| layer.pass == pass;
    lemma_first_where(layers, chosen);
    let i = first_where(layers, chosen)->0;
    assert(layers[i].pass == pass);
    assert forall|j: int| 0 <= j < i implies (#[trigger] layers[j]).pass != layers[i].pass by {
        assert(!chosen(layers[j]));
    }
}

/// A later sibling is observed exactly if some pass behind the group depends on it and samples what it
/// left.
pub proof fn law_later_siblings(
    closed: &ClosedExecutableGraph,
    receipt: bool,
    observed: C12BackdropGraphObservation,
    outer: int,
    later: int,
    d: int,
    r: int,
)
    requires
        call_ensures(c12_backdrop_graph_observation, (closed, receipt), Some(observed)),
        mapped_pass(closed.lowered@.passes, closed.backdrops@[0].outer_composite) == Some(outer),
    ensures
        ({
            let passes = closed.lowered@.passes;
            let backdrop = closed.backdrops@[0];
            outer < later < passes.len() && 0 <= d < passes[later].dependencies.len()
                && passes[later].dependencies[d] == backdrop.outer_composite && 0 <= r
                < passes[later].reads.len() && passes[later].reads[r].resource == backdrop.result
        }) ==> observed.later_sibling_depends_on_completed_group,
        observed.later_sibling_depends_on_completed_group ==> outer + 1
            < closed.lowered@.passes.len(),
        observed.later_sibling_depends_on_completed_group ==> exists|i: int, j: int, k: int|
            {
                &&& outer < i < closed.lowered@.passes.len()
                &&& 0 <= j < closed.lowered@.passes[i].dependencies.len()
                &&& #[trigger] closed.lowered@.passes[i].dependencies[j]
                    == closed.backdrops@[0].outer_composite
                &&& 0 <= k < closed.lowered@.passes[i].reads.len()
                &&& (#[trigger] closed.lowered@.passes[i].reads[k]).resource
                    == closed.backdrops@[0].result
            },
{
    let passes = closed.lowered@.passes;
    let backdrop = closed.backdrops@[0];
    if outer < later < passes.len() && 0 <= d < passes[later].dependencies.len()
        && passes[later].dependencies[d] == backdrop.outer_composite && 0 <= r
        < passes[later].reads.len() && passes[later].reads[r].resource == backdrop.result {
        assert(follows_group(passes[later], backdrop));
    }
    if observed.later_sibling_depends_on_completed_group {
        let i = choose|i: int|
            outer < i < passes.len() && follows_group(#[trigger] passes[i], backdrop);
        let j = choose|j: int|
            0 <= j < passes[i].dependencies.len() && passes[i].dependencies[j]
                == backdrop.outer_composite;
        let k = choose|k: int|
            0 <= k < passes[i].reads.len() && (#[trigger] passes[i].reads[k]).resource
                == backdrop.result;
        assert(closed.lowered@.passes[i].dependencies[j] == backdrop.outer_composite);
        assert(closed.lowered@.passes[i].reads[k].resource == backdrop.result);
    }
}

/// An observation of a backdrop's filters is of its steps, blurs, shadows and color runs: every blur
/// and every shadow mirrors, shadows are of alpha, every color operation clamps, and both passes of a
/// mirrored blur mirror at its bounds.
pub proof fn law_backdrop_filters_are_observed<
    F: Fn(RuntimePassCacheKeys) -> Option<BlurPassFacts>,
    E: Fn(Rect) -> EdgeParameters,
>(
    observed: C12BackdropFilterChainObservation,
    closed: ClosedExecutableGraph,
    requests: Seq<C12BackdropBlurCacheRequest>,
    facts_of: F,
    parameters_of: E,
    blur: int,
    shadow: int,
    color: int,
    operation: int,
)
    requires
        is_observed_chain(observed, closed, requests, facts_of, parameters_of),
        0 <= blur < closed.blurs@.len(),
        0 <= shadow < closed.drop_shadows@.len(),
        0 <= color < closed.color_filters@.len(),
        0 <= operation < closed.color_filters@[color].operations@.len(),
    ensures
        observed.every_backdrop_blur_uses_mirror
            ==> closed.blurs@[blur].blur.edge is SemanticBorderMirror,
        closed.blurs@.len() == 1 ==> observed.every_backdrop_blur_uses_mirror == (
        closed.blurs@[0].blur.edge is SemanticBorderMirror),
        observed.source_alpha_blur_uses_mirror
            ==> closed.drop_shadows@[shadow].blur.edge is SemanticBorderMirror
            && closed.drop_shadows@[shadow].blur.input is SourceAlpha,
        closed.drop_shadows@.len() == 1 ==> observed.source_alpha_blur_uses_mirror == (
        closed.drop_shadows@[0].blur.edge is SemanticBorderMirror
            && closed.drop_shadows@[0].blur.input is SourceAlpha),
        observed.every_color_operation_retains_one_clamp ==> !(
        closed.color_filters@[color].operations@[operation].clamp_boundary is Unclamped),
        observed.semantic_bounds_are_exact ==> {
            let facts = closed.blurs@[blur];
            let passes = closed.lowered@.passes;
            &&& facts.blur.edge matches RuntimeSamplingEdge::SemanticBorderMirror(bounds)
                && mapped_pass(passes, facts.horizontal) matches Some(across) && mapped_pass(
                passes,
                facts.vertical,
            ) matches Some(down) && {
                &&& passes[across].reads.len() == 1
                &&& passes[down].reads.len() == 1
                &&& passes[across].reads[0].sampling_edge matches
                    RuntimeSamplingEdge::SemanticBorderMirror(read) && read.spec_same_as(bounds)
                &&& passes[down].reads[0].sampling_edge matches
                    RuntimeSamplingEdge::SemanticBorderMirror(read) && read.spec_same_as(bounds)
            }
        },
        observed.semantic_bounds_are_exact ==> {
            let facts = closed.drop_shadows@[shadow];
            let passes = closed.lowered@.passes;
            &&& facts.blur.edge matches RuntimeSamplingEdge::SemanticBorderMirror(bounds)
                && mapped_pass(passes, facts.horizontal) matches Some(across) && mapped_pass(
                passes,
                facts.vertical,
            ) matches Some(down) && {
                &&& passes[across].reads.len() == 1
                &&& passes[down].reads.len() == 1
                &&& passes[across].reads[0].sampling_edge matches
                    RuntimeSamplingEdge::SemanticBorderMirror(read) && read.spec_same_as(bounds)
                &&& passes[down].reads[0].sampling_edge matches
                    RuntimeSamplingEdge::SemanticBorderMirror(read) && read.spec_same_as(bounds)
            }
        },
{
    let edges = blur_edges(closed);
    let plan = closed.lowered@;
    if observed.semantic_bounds_are_exact {
        let first = edges[blur];
        assert(may_be_exact(parameters_of, plan, first, true));
        assert(first.horizontal == closed.blurs@[blur].horizontal);
        let second = edges[closed.blurs@.len() + shadow];
        assert(may_be_exact(parameters_of, plan, second, true));
        assert(second.horizontal == closed.drop_shadows@[shadow].horizontal);
    }
}

} // verus!
