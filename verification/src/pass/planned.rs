//! The cache requests of frames that are planned, lowered and classified for them.

use vstd::prelude::*;

use crate::dispatch::FramePlan;
use crate::error::{Error, LoweringFailure};
use crate::pass::c08::{derives_any, may_derive, PassDerivation};
use crate::pass::c08_lowered::lowers;
use crate::pass::c10::{all_operations, clamps_once, color_runs, runtime_color_operations};
use crate::pass::closed::ClosedExecutableGraph;
use crate::pass::executable::{closes_any, single_color_run};
use crate::pass::mirrored::{
    are_mirrored_requests, c12_backdrop_blur_cache_requests, mirrored_at, mirrored_bounds,
    C12BackdropBlurCacheRequest, EdgeParameters,
};
use crate::pass::model::{
    plan_models, LoweredGraphPlan, PassModel, Rect, RuntimeColorOperation, RuntimePassCacheKeys,
    RuntimePassKind,
};
use crate::pass::requests::{
    are_blur_requests, are_spine_requests, blends_with_destination, c08_pass_cache_requests,
    c10_color_filter_cache_requests, c11_blur_cache_requests, c11_drop_shadow_cache_requests, c12_copy_backdrop_cache_request,
    collect_composite_keys, composite_keys, exact_copy_request, exact_shadow_requests,
    is_color_filter_request, is_destination_blend, normal_blend, normal_models, with_normal_blend,
    C11DropShadowCacheRequests, C12CopyBackdropCacheRequest, ClassifiedGraph, NormalKeys,
};
use crate::runtime::{DeviceCapabilities, Format, WorkingFormat};

verus! {

/// Whether a plan, or a failure, is what lowering a planned frame to `Rgba8` gives: a frame that was
/// not planned fails as it did, and one that needs no graph fails with `unplanned`.
pub open spec fn is_lowered_from<
    C,
    G,
    L: Fn(&G, WorkingFormat, Format, DeviceCapabilities) -> Result<LoweredGraphPlan, Error>,
>(
    lowered: Result<LoweredGraphPlan, Error>,
    planned: Result<FramePlan<C, G>, Error>,
    unplanned: LoweringFailure,
    working_format: WorkingFormat,
    capabilities: DeviceCapabilities,
    lower: L,
) -> bool {
    match planned {
        Err(error) => lowered == Err::<LoweredGraphPlan, Error>(error),
        Ok(FramePlan::DirectVello(_)) => lowered == Err::<LoweredGraphPlan, Error>(
            Error::Lowering(unplanned),
        ),
        Ok(FramePlan::GpuGraph(_, graph)) => call_ensures(
            lower,
            (&graph, working_format, Format::Rgba8, capabilities),
            lowered,
        ),
    }
}

fn lower_planned<
    C,
    G,
    L: Fn(&G, WorkingFormat, Format, DeviceCapabilities) -> Result<LoweredGraphPlan, Error>,
>(
    planned: &Result<FramePlan<C, G>, Error>,
    unplanned: LoweringFailure,
    working_format: WorkingFormat,
    capabilities: DeviceCapabilities,
    lower: &L,
) -> (lowered: Result<LoweredGraphPlan, Error>)
    requires
        lowers(*lower),
    ensures
        is_lowered_from(lowered, *planned, unplanned, working_format, capabilities, *lower),
{
    match planned {
        Err(error) => Err(*error),
        Ok(FramePlan::DirectVello(_)) => Err(Error::Lowering(unplanned)),
        Ok(FramePlan::GpuGraph(_, graph)) => lower(
            graph,
            working_format,
            Format::Rgba8,
            capabilities,
        ),
    }
}

/// The keys of every pass of a forced graph, lowered in a pair of formats. `derive` derives what the
/// passes of a plan are held against.
pub fn c08_pass_cache_requests_lowered<
    G,
    L: Fn(&G, WorkingFormat, Format, DeviceCapabilities) -> Result<LoweredGraphPlan, Error>,
    D: Fn(&LoweredGraphPlan) -> Vec<PassDerivation>,
>(
    graph: &Result<G, Error>,
    working_format: WorkingFormat,
    output_format: Format,
    capabilities: DeviceCapabilities,
    lower: &L,
    derive: &D,
) -> (keys: Result<Vec<RuntimePassCacheKeys>, Error>)
    requires
        lowers(*lower),
        derives_any(*derive),
    ensures
        match *graph {
            Err(error) => keys == Err::<Vec<RuntimePassCacheKeys>, Error>(error),
            Ok(graph) => exists|lowered: Result<LoweredGraphPlan, Error>|
                {
                    &&& #[trigger] call_ensures(
                        *lower,
                        (&graph, working_format, output_format, capabilities),
                        lowered,
                    )
                    &&& match lowered {
                        Err(error) => keys == Err::<Vec<RuntimePassCacheKeys>, Error>(error),
                        Ok(plan) => exists|derived: Seq<PassDerivation>| #[trigger]
                            may_derive(*derive, plan@, derived) && are_spine_requests(
                                keys,
                                plan@,
                                derived,
                            ),
                    }
                },
        },
{
    let graph = match graph {
        Ok(graph) => graph,
        Err(error) => return Err(*error),
    };
    let lowered = lower(graph, working_format, output_format, capabilities);
    assert(call_ensures(
        *lower,
        (graph, working_format, output_format, capabilities),
        lowered,
    ));
    match &lowered {
        Err(error) => Err(*error),
        Ok(plan) => {
            assert(call_requires(*derive, (plan,)));
            let derived = derive(plan);
            assert(may_derive(*derive, plan@, derived@));
            c08_pass_cache_requests(plan, &derived)
        },
    }
}

/// The keys of the one color filter of a planned frame.
pub fn c10_color_filter_cache_requests_planned<
    C,
    G,
    L: Fn(&G, WorkingFormat, Format, DeviceCapabilities) -> Result<LoweredGraphPlan, Error>,
>(
    planned: &Result<FramePlan<C, G>, Error>,
    working_format: WorkingFormat,
    capabilities: DeviceCapabilities,
    lower: &L,
) -> (keys: Result<Vec<RuntimePassCacheKeys>, Error>)
    requires
        lowers(*lower),
    ensures
        exists|lowered: Result<LoweredGraphPlan, Error>|
            {
                &&& #[trigger] is_lowered_from(
                    lowered,
                    *planned,
                    LoweringFailure::ColorFilterNotPlanned,
                    working_format,
                    capabilities,
                    *lower,
                )
                &&& match lowered {
                    Err(error) => keys == Err::<Vec<RuntimePassCacheKeys>, Error>(error),
                    Ok(plan) => is_color_filter_request(keys, plan@.passes),
                }
            },
{
    let lowered = lower_planned(
        planned,
        LoweringFailure::ColorFilterNotPlanned,
        working_format,
        capabilities,
        lower,
    );
    match &lowered {
        Err(error) => Err(*error),
        Ok(plan) => c10_color_filter_cache_requests(plan),
    }
}

/// The operations of the color runs of a planned frame, lowered in high precision.
pub fn runtime_color_operations_planned<
    C,
    G,
    L: Fn(&G, WorkingFormat, Format, DeviceCapabilities) -> Result<LoweredGraphPlan, Error>,
>(planned: &Result<FramePlan<C, G>, Error>, capabilities: DeviceCapabilities, lower: &L) -> (
operations: Result<Vec<RuntimeColorOperation>, Error>)
    requires
        lowers(*lower),
    ensures
        exists|lowered: Result<LoweredGraphPlan, Error>|
            {
                &&& #[trigger] is_lowered_from(
                    lowered,
                    *planned,
                    LoweringFailure::ColorOperationsNotPlanned,
                    WorkingFormat::HighPrecision,
                    capabilities,
                    *lower,
                )
                &&& match lowered {
                    Err(error) => operations == Err::<Vec<RuntimeColorOperation>, Error>(error),
                    Ok(plan) => if all_operations(plan@.passes).len() == 0 {
                        operations == Err::<Vec<RuntimeColorOperation>, Error>(
                            Error::Lowering(LoweringFailure::ColorOperationsMissing),
                        )
                    } else {
                        operations matches Ok(operations) && operations@ == all_operations(
                            plan@.passes,
                        )
                    },
                }
            },
{
    let lowered = lower_planned(
        planned,
        LoweringFailure::ColorOperationsNotPlanned,
        WorkingFormat::HighPrecision,
        capabilities,
        lower,
    );
    match &lowered {
        Err(error) => Err(*error),
        Ok(plan) => runtime_color_operations(plan),
    }
}

/// The operations of the one color run of a planned frame, lowered in high precision, and whether
/// each is clamped once.
pub fn single_color_run_planned<
    C,
    G,
    L: Fn(&G, WorkingFormat, Format, DeviceCapabilities) -> Result<LoweredGraphPlan, Error>,
>(planned: &Result<FramePlan<C, G>, Error>, capabilities: DeviceCapabilities, lower: &L) -> (run:
    Result<(Vec<RuntimeColorOperation>, bool), Error>)
    requires
        lowers(*lower),
    ensures
        exists|lowered: Result<LoweredGraphPlan, Error>|
            {
                &&& #[trigger] is_lowered_from(
                    lowered,
                    *planned,
                    LoweringFailure::OperationBytesNotPlanned,
                    WorkingFormat::HighPrecision,
                    capabilities,
                    *lower,
                )
                &&& match lowered {
                    Err(error) => run == Err::<(Vec<RuntimeColorOperation>, bool), Error>(error),
                    Ok(plan) => {
                        let runs = color_runs(plan@.passes);
                        if runs.len() == 1 {
                            run matches Ok((operations, clamps)) && operations@
                                == runs[0].operations && clamps == clamps_once(runs[0].operations)
                        } else {
                            run == Err::<(Vec<RuntimeColorOperation>, bool), Error>(
                                Error::Lowering(LoweringFailure::ColorFilterRunNotUnique),
                            )
                        }
                    },
                }
            },
{
    let lowered = lower_planned(
        planned,
        LoweringFailure::OperationBytesNotPlanned,
        WorkingFormat::HighPrecision,
        capabilities,
        lower,
    );
    match &lowered {
        Err(error) => Err(*error),
        Ok(plan) => match single_color_run(plan) {
            Err(error) => Err(error),
            Ok((position, clamps)) => {
                assert(plan@.passes[position as int] == plan.passes@[position as int]@);
                Ok((crate::pass::model::copy_values(&plan.passes[position].operations), clamps))
            },
        },
    }
}

/// Whether these may be the keys of the passes of a plan with a normal blend, pass by pass. Those of
/// passes that do not sample their destination are left open.
pub open spec fn may_derive_normals<
    N: Fn(&LoweredGraphPlan, usize, RuntimePassKind) -> NormalKeys,
>(normal_of: N, plan: LoweredGraphPlan, normals: Seq<NormalKeys>) -> bool {
    &&& normals.len() == plan@.passes.len()
    &&& forall|i: int|
        0 <= i < normals.len() && blends_with_destination((#[trigger] plan@.passes[i]).kind)
            ==> call_ensures(
            normal_of,
            (&plan, i as usize, with_normal_blend(plan@.passes[i].kind)),
            normals[i],
        )
}

fn normal_keys<N: Fn(&LoweredGraphPlan, usize, RuntimePassKind) -> NormalKeys>(
    plan: &LoweredGraphPlan,
    normal_of: &N,
) -> (normals: Vec<NormalKeys>)
    requires
        forall|plan: &LoweredGraphPlan, position: usize, kind: RuntimePassKind| #[trigger]
            call_requires(*normal_of, (plan, position, kind)),
    ensures
        may_derive_normals(*normal_of, *plan, normals@),
{
    let ghost passes = plan@.passes;
    let length: usize = plan.passes.len();
    let mut normals: Vec<NormalKeys> = Vec::with_capacity(length);
    let mut next: usize = 0;
    while next < length
        invariant
            next <= length,
            length == plan.passes@.len(),
            passes == plan@.passes,
            forall|plan: &LoweredGraphPlan, position: usize, kind: RuntimePassKind| #[trigger]
                call_requires(*normal_of, (plan, position, kind)),
            normals@.len() == next,
            forall|i: int|
                0 <= i < next && blends_with_destination((#[trigger] passes[i]).kind)
                    ==> call_ensures(
                    *normal_of,
                    (plan, i as usize, with_normal_blend(passes[i].kind)),
                    normals@[i],
                ),
        decreases length - next,
    {
        let kind = plan.passes[next].kind;
        assert(passes[next as int] == plan.passes@[next as int]@);
        let normal = if is_destination_blend(kind) {
            normal_of(plan, next, normal_blend(kind))
        } else {
            Ok(None)
        };
        normals.push(normal);
        next = next + 1;
    }
    normals
}

/// Whether the first planned frames lower to these plans.
pub open spec fn are_lowered_first<
    C,
    G,
    L: Fn(&G, WorkingFormat, Format, DeviceCapabilities) -> Result<LoweredGraphPlan, Error>,
>(
    plans: Seq<LoweredGraphPlan>,
    planned: Seq<Result<FramePlan<C, G>, Error>>,
    working_format: WorkingFormat,
    capabilities: DeviceCapabilities,
    lower: L,
) -> bool {
    &&& plans.len() <= planned.len()
    &&& forall|i: int|
        0 <= i < plans.len() ==> is_lowered_from(
            Ok(#[trigger] plans[i]),
            planned[i],
            LoweringFailure::CompositeNotPlanned,
            working_format,
            capabilities,
            lower,
        )
}

/// Whether each plan may have these keys with a normal blend.
pub open spec fn may_have_normals<
    N: Fn(&LoweredGraphPlan, usize, RuntimePassKind) -> NormalKeys,
>(normal_of: N, plans: Seq<LoweredGraphPlan>, normals: Seq<Seq<NormalKeys>>) -> bool {
    &&& normals.len() == plans.len()
    &&& forall|i: int|
        0 <= i < plans.len() ==> may_derive_normals(normal_of, plans[i], #[trigger] normals[i])
}

/// Whether these are the composite keys of planned frames, each once, or the first failure: of the
/// frames in their order, and of each its planning, its lowering and its keys.
pub open spec fn are_composite_requests<
    C,
    G,
    L: Fn(&G, WorkingFormat, Format, DeviceCapabilities) -> Result<LoweredGraphPlan, Error>,
    N: Fn(&LoweredGraphPlan, usize, RuntimePassKind) -> NormalKeys,
>(
    keys: Result<Vec<RuntimePassCacheKeys>, Error>,
    planned: Seq<Result<FramePlan<C, G>, Error>>,
    working_format: WorkingFormat,
    capabilities: DeviceCapabilities,
    lower: L,
    normal_of: N,
) -> bool {
    exists|plans: Seq<LoweredGraphPlan>, normals: Seq<Seq<NormalKeys>>|
        {
            &&& #[trigger] are_lowered_first(plans, planned, working_format, capabilities, lower)
            &&& #[trigger] may_have_normals(normal_of, plans, normals)
            &&& match composite_keys(plan_models(plans), normals, plans.len()) {
                Err(error) => keys == Err::<Vec<RuntimePassCacheKeys>, Error>(error),
                Ok(found) => if plans.len() < planned.len() {
                    keys matches Err(error) && is_lowered_from(
                        Err(error),
                        planned[plans.len() as int],
                        LoweringFailure::CompositeNotPlanned,
                        working_format,
                        capabilities,
                        lower,
                    )
                } else if found.len() == 0 {
                    keys == Err::<Vec<RuntimePassCacheKeys>, Error>(
                        Error::Lowering(LoweringFailure::CompositeVariantsMissing),
                    )
                } else {
                    keys matches Ok(keys) && keys@ == found
                },
            }
        }
}

/// The composite keys of several planned frames. `normal_of` derives the keys of a pass from its
/// kind.
pub fn c09_composite_cache_requests_planned<
    C,
    G,
    L: Fn(&G, WorkingFormat, Format, DeviceCapabilities) -> Result<LoweredGraphPlan, Error>,
    N: Fn(&LoweredGraphPlan, usize, RuntimePassKind) -> NormalKeys,
>(
    planned: &Vec<Result<FramePlan<C, G>, Error>>,
    working_format: WorkingFormat,
    capabilities: DeviceCapabilities,
    lower: &L,
    normal_of: &N,
) -> (keys: Result<Vec<RuntimePassCacheKeys>, Error>)
    requires
        lowers(*lower),
        forall|plan: &LoweredGraphPlan, position: usize, kind: RuntimePassKind| #[trigger]
            call_requires(*normal_of, (plan, position, kind)),
    ensures
        are_composite_requests(
            keys,
            planned@,
            working_format,
            capabilities,
            *lower,
            *normal_of,
        ),
{
    let length: usize = planned.len();
    let mut plans: Vec<LoweredGraphPlan> = Vec::new();
    let mut normals: Vec<Vec<NormalKeys>> = Vec::new();
    let mut failure: Option<Error> = None;
    let mut next: usize = 0;
    while next < length && failure.is_none()
        invariant
            next <= length,
            length == planned@.len(),
            lowers(*lower),
            forall|plan: &LoweredGraphPlan, position: usize, kind: RuntimePassKind| #[trigger]
                call_requires(*normal_of, (plan, position, kind)),
            are_lowered_first(plans@, planned@, working_format, capabilities, *lower),
            may_have_normals(*normal_of, plans@, normal_models(normals@)),
            match failure {
                None => plans@.len() == next,
                Some(error) => {
                    &&& plans@.len() < length
                    &&& is_lowered_from(
                        Err(error),
                        planned@[plans@.len() as int],
                        LoweringFailure::CompositeNotPlanned,
                        working_format,
                        capabilities,
                        *lower,
                    )
                },
            },
        decreases length - next,
    {
        match lower_planned(
            &planned[next],
            LoweringFailure::CompositeNotPlanned,
            working_format,
            capabilities,
            lower,
        ) {
            Err(error) => {
                failure = Some(error);
            },
            Ok(plan) => {
                let normal = normal_keys(&plan, normal_of);
                let ghost others = normal_models(normals@);
                plans.push(plan);
                normals.push(normal);
                proof {
                    let longer = normal_models(normals@);
                    assert(longer =~= others.push(normal@));
                    assert forall|i: int| 0 <= i < plans@.len() implies may_derive_normals(
                        *normal_of,
                        plans@[i],
                        #[trigger] longer[i],
                    ) by {
                        if i < next {
                            assert(longer[i] == others[i]);
                        }
                    }
                }
            },
        }
        next = next + 1;
    }
    proof {
        assert forall|i: int| 0 <= i < plans@.len() implies (#[trigger] normals@[i])@.len()
            == plans@[i]@.passes.len() by {
            assert(normal_models(normals@)[i] == normals@[i]@);
        }
    }
    let keys = match collect_composite_keys(&plans, &normals) {
        Ok(keys) => keys,
        Err(error) => return Err(error),
    };
    if let Some(error) = failure {
        return Err(error);
    }
    if keys.len() == 0 {
        return Err(Error::Lowering(LoweringFailure::CompositeVariantsMissing));
    }
    Ok(keys)
}

/// Whether a graph can be classified, whatever it is lowered to.
pub open spec fn classifies<K: Fn(LoweredGraphPlan) -> ClassifiedGraph<LoweredGraphPlan>>(
    classify: K,
) -> bool {
    forall|plan: LoweredGraphPlan| #[trigger] call_requires(classify, (plan,))
}

/// Whether requests are made of what lowering and classifying an authored graph gives; one that
/// does not lower fails with `unplanned`.
pub open spec fn is_classified_from<
    L: Fn(WorkingFormat, Format, DeviceCapabilities) -> Option<LoweredGraphPlan>,
    K: Fn(LoweredGraphPlan) -> ClassifiedGraph<LoweredGraphPlan>,
>(
    classified: Result<ClassifiedGraph<LoweredGraphPlan>, Error>,
    unplanned: LoweringFailure,
    working_format: WorkingFormat,
    capabilities: DeviceCapabilities,
    lower: L,
    classify: K,
) -> bool {
    exists|lowered: Option<LoweredGraphPlan>|
        {
            &&& #[trigger] call_ensures(
                lower,
                (working_format, Format::Rgba8, capabilities),
                lowered,
            )
            &&& match lowered {
                None => classified == Err::<ClassifiedGraph<LoweredGraphPlan>, Error>(
                    Error::Lowering(unplanned),
                ),
                Some(plan) => classified matches Ok(graph) && call_ensures(
                    classify,
                    (plan,),
                    graph,
                ),
            }
        }
}

fn classify_authored<
    L: Fn(WorkingFormat, Format, DeviceCapabilities) -> Option<LoweredGraphPlan>,
    K: Fn(LoweredGraphPlan) -> ClassifiedGraph<LoweredGraphPlan>,
>(
    unplanned: LoweringFailure,
    working_format: WorkingFormat,
    capabilities: DeviceCapabilities,
    lower: &L,
    classify: &K,
) -> (classified: Result<ClassifiedGraph<LoweredGraphPlan>, Error>)
    requires
        call_requires(*lower, (working_format, Format::Rgba8, capabilities)),
        classifies(*classify),
    ensures
        is_classified_from(
            classified,
            unplanned,
            working_format,
            capabilities,
            *lower,
            *classify,
        ),
{
    match lower(working_format, Format::Rgba8, capabilities) {
        None => Err(Error::Lowering(unplanned)),
        Some(plan) => Ok(classify(plan)),
    }
}

/// The keys of the four blur passes of an authored graph.
pub fn c11_blur_cache_requests_planned<
    L: Fn(WorkingFormat, Format, DeviceCapabilities) -> Option<LoweredGraphPlan>,
    K: Fn(LoweredGraphPlan) -> ClassifiedGraph<LoweredGraphPlan>,
>(
    working_format: WorkingFormat,
    capabilities: DeviceCapabilities,
    lower: &L,
    classify: &K,
) -> (keys: Result<Vec<RuntimePassCacheKeys>, Error>)
    requires
        call_requires(*lower, (working_format, Format::Rgba8, capabilities)),
        classifies(*classify),
    ensures
        exists|classified: Result<ClassifiedGraph<LoweredGraphPlan>, Error>|
            {
                &&& #[trigger] is_classified_from(
                    classified,
                    LoweringFailure::BlurNotPlanned,
                    working_format,
                    capabilities,
                    *lower,
                    *classify,
                )
                &&& match classified {
                    Err(error) => keys == Err::<Vec<RuntimePassCacheKeys>, Error>(error),
                    Ok(found) => are_blur_requests(
                        keys,
                        found.graph@.passes,
                        found.class,
                        found.facts_are_proven,
                    ),
                }
            },
{
    let classified = classify_authored(
        LoweringFailure::BlurNotPlanned,
        working_format,
        capabilities,
        lower,
        classify,
    );
    match &classified {
        Err(error) => Err(*error),
        Ok(found) => c11_blur_cache_requests(&found.graph, found.class, found.facts_are_proven),
    }
}

/// The keys of the one drop shadow of an authored graph.
pub fn c11_drop_shadow_cache_requests_planned<
    L: Fn(WorkingFormat, Format, DeviceCapabilities) -> Option<LoweredGraphPlan>,
    K: Fn(LoweredGraphPlan) -> ClassifiedGraph<LoweredGraphPlan>,
>(
    working_format: WorkingFormat,
    capabilities: DeviceCapabilities,
    lower: &L,
    classify: &K,
) -> (requests: Result<C11DropShadowCacheRequests, Error>)
    requires
        call_requires(*lower, (working_format, Format::Rgba8, capabilities)),
        classifies(*classify),
    ensures
        exists|classified: Result<ClassifiedGraph<LoweredGraphPlan>, Error>|
            {
                &&& #[trigger] is_classified_from(
                    classified,
                    LoweringFailure::DropShadowNotPlanned,
                    working_format,
                    capabilities,
                    *lower,
                    *classify,
                )
                &&& requests == match classified {
                    Err(error) => Err::<C11DropShadowCacheRequests, Error>(error),
                    Ok(found) => exact_shadow_requests(
                        found.graph@.passes,
                        found.class,
                        found.facts_are_proven,
                    ),
                }
            },
{
    let classified = classify_authored(
        LoweringFailure::DropShadowNotPlanned,
        working_format,
        capabilities,
        lower,
        classify,
    );
    match &classified {
        Err(error) => Err(*error),
        Ok(found) => c11_drop_shadow_cache_requests(
            &found.graph,
            found.class,
            found.facts_are_proven,
        ),
    }
}

/// Whether a classified graph, or a failure, is what lowering and classifying a planned frame gives.
pub open spec fn is_classified_plan<
    C,
    G,
    L: Fn(&G, WorkingFormat, Format, DeviceCapabilities) -> Result<LoweredGraphPlan, Error>,
    K: Fn(LoweredGraphPlan) -> ClassifiedGraph<LoweredGraphPlan>,
>(
    classified: Result<ClassifiedGraph<LoweredGraphPlan>, Error>,
    planned: Result<FramePlan<C, G>, Error>,
    unplanned: LoweringFailure,
    working_format: WorkingFormat,
    capabilities: DeviceCapabilities,
    lower: L,
    classify: K,
) -> bool {
    exists|lowered: Result<LoweredGraphPlan, Error>|
        {
            &&& #[trigger] is_lowered_from(
                lowered,
                planned,
                unplanned,
                working_format,
                capabilities,
                lower,
            )
            &&& match lowered {
                Err(error) => classified == Err::<ClassifiedGraph<LoweredGraphPlan>, Error>(error),
                Ok(plan) => classified matches Ok(graph) && call_ensures(classify, (plan,), graph),
            }
        }
}

fn classify_planned<
    C,
    G,
    L: Fn(&G, WorkingFormat, Format, DeviceCapabilities) -> Result<LoweredGraphPlan, Error>,
    K: Fn(LoweredGraphPlan) -> ClassifiedGraph<LoweredGraphPlan>,
>(
    planned: &Result<FramePlan<C, G>, Error>,
    unplanned: LoweringFailure,
    working_format: WorkingFormat,
    capabilities: DeviceCapabilities,
    lower: &L,
    classify: &K,
) -> (classified: Result<ClassifiedGraph<LoweredGraphPlan>, Error>)
    requires
        lowers(*lower),
        classifies(*classify),
    ensures
        is_classified_plan(
            classified,
            *planned,
            unplanned,
            working_format,
            capabilities,
            *lower,
            *classify,
        ),
{
    match lower_planned(planned, unplanned, working_format, capabilities, lower) {
        Err(error) => Err(error),
        Ok(plan) => Ok(classify(plan)),
    }
}

/// Whether this is the closed graph of a planned frame that is lowered to `Rgba8` in high precision:
/// none, where it is not planned as a graph, does not lower or does not close.
pub open spec fn is_closed_from<
    C,
    G,
    L: Fn(&G, WorkingFormat, Format) -> Result<LoweredGraphPlan, Error>,
    K: Fn(&LoweredGraphPlan) -> Option<ClosedExecutableGraph>,
>(
    closed: Option<ClosedExecutableGraph>,
    planned: Result<FramePlan<C, G>, Error>,
    lower: L,
    close: K,
) -> bool {
    match planned {
        Ok(FramePlan::GpuGraph(_, graph)) => exists|lowered: Result<LoweredGraphPlan, Error>|
            {
                &&& #[trigger] call_ensures(
                    lower,
                    (&graph, WorkingFormat::HighPrecision, Format::Rgba8),
                    lowered,
                )
                &&& match lowered {
                    Ok(plan) => call_ensures(close, (&plan,), closed),
                    Err(_) => closed is None,
                }
            },
        _ => closed is None,
    }
}

/// What is observed of the closed graph of a planned frame; nothing, where it has none.
pub fn observe_closed<
    O,
    C,
    G,
    L: Fn(&G, WorkingFormat, Format) -> Result<LoweredGraphPlan, Error>,
    K: Fn(&LoweredGraphPlan) -> Option<ClosedExecutableGraph>,
    F: Fn(&ClosedExecutableGraph) -> Option<O>,
>(planned: &Result<FramePlan<C, G>, Error>, lower: &L, close: &K, observe: &F) -> (observation: Option<
    O,
>)
    requires
        forall|graph: &G, working_format: WorkingFormat, output_format: Format| #[trigger]
            call_requires(*lower, (graph, working_format, output_format)),
        closes_any(*close),
        forall|closed: &ClosedExecutableGraph| #[trigger] call_requires(*observe, (closed,)),
    ensures
        exists|closed: Option<ClosedExecutableGraph>|
            {
                &&& #[trigger] is_closed_from(closed, *planned, *lower, *close)
                &&& match closed {
                    Some(graph) => call_ensures(*observe, (&graph,), observation),
                    None => observation is None,
                }
            },
{
    let graph = match planned {
        Ok(FramePlan::GpuGraph(_, graph)) => graph,
        _ => {
            assert(is_closed_from(None, *planned, *lower, *close));
            return None;
        },
    };
    let lowered = lower(graph, WorkingFormat::HighPrecision, Format::Rgba8);
    assert(call_ensures(
        *lower,
        (graph, WorkingFormat::HighPrecision, Format::Rgba8),
        lowered,
    ));
    let plan = match &lowered {
        Ok(plan) => plan,
        Err(_) => {
            assert(is_closed_from(None, *planned, *lower, *close));
            return None;
        },
    };
    assert(call_requires(*close, (plan,)));
    let closed = close(plan);
    assert(is_closed_from(closed, *planned, *lower, *close));
    match &closed {
        Some(graph) => observe(graph),
        None => None,
    }
}

/// The request of the one backdrop copy of a planned frame.
pub fn c12_copy_backdrop_cache_request_planned<
    C,
    G,
    L: Fn(&G, WorkingFormat, Format, DeviceCapabilities) -> Result<LoweredGraphPlan, Error>,
    K: Fn(LoweredGraphPlan) -> ClassifiedGraph<LoweredGraphPlan>,
>(
    planned: &Result<FramePlan<C, G>, Error>,
    working_format: WorkingFormat,
    capabilities: DeviceCapabilities,
    lower: &L,
    classify: &K,
) -> (request: Result<C12CopyBackdropCacheRequest, Error>)
    requires
        lowers(*lower),
        classifies(*classify),
    ensures
        exists|classified: Result<ClassifiedGraph<LoweredGraphPlan>, Error>|
            {
                &&& #[trigger] is_classified_plan(
                    classified,
                    *planned,
                    LoweringFailure::BackdropCopyNotPlanned,
                    working_format,
                    capabilities,
                    *lower,
                    *classify,
                )
                &&& request == match classified {
                    Err(error) => Err::<C12CopyBackdropCacheRequest, Error>(error),
                    Ok(found) => exact_copy_request(found.graph@.passes, found.class),
                }
            },
{
    let classified = classify_planned(
        planned,
        LoweringFailure::BackdropCopyNotPlanned,
        working_format,
        capabilities,
        lower,
        classify,
    );
    match &classified {
        Err(error) => Err(*error),
        Ok(found) => c12_copy_backdrop_cache_request(&found.graph, found.class),
    }
}

/// Whether these may be the shader parameters of the bounds at which the passes mirror, pass by
/// pass. Those of other passes are left open.
pub open spec fn may_hold<E: Fn(Rect) -> EdgeParameters>(
    parameters_of: E,
    passes: Seq<PassModel>,
    parameters: Seq<EdgeParameters>,
) -> bool {
    &&& parameters.len() == passes.len()
    &&& forall|i: int|
        0 <= i < passes.len() ==> (mirrored_bounds((#[trigger] passes[i]).kind) matches Some(bounds)
            ==> call_ensures(parameters_of, (bounds,), parameters[i]))
}

fn edge_parameters<E: Fn(Rect) -> EdgeParameters>(
    plan: &LoweredGraphPlan,
    parameters_of: &E,
) -> (parameters: Vec<EdgeParameters>)
    requires
        forall|bounds: Rect| #[trigger] call_requires(*parameters_of, (bounds,)),
    ensures
        may_hold(*parameters_of, plan@.passes, parameters@),
{
    let ghost passes = plan@.passes;
    let length: usize = plan.passes.len();
    let mut parameters: Vec<EdgeParameters> = Vec::with_capacity(length);
    let mut next: usize = 0;
    while next < length
        invariant
            next <= length,
            length == plan.passes@.len(),
            passes == plan@.passes,
            forall|bounds: Rect| #[trigger] call_requires(*parameters_of, (bounds,)),
            parameters@.len() == next,
            forall|i: int|
                0 <= i < next ==> (mirrored_bounds((#[trigger] passes[i]).kind) matches Some(bounds)
                    ==> call_ensures(*parameters_of, (bounds,), parameters@[i])),
        decreases length - next,
    {
        assert(passes[next as int] == plan.passes@[next as int]@);
        let held = match mirrored_at(plan.passes[next].kind) {
            Some(bounds) => parameters_of(bounds),
            None => Err(Error::Lowering(LoweringFailure::MirroredBlursNotFour)),
        };
        parameters.push(held);
        next = next + 1;
    }
    parameters
}

/// The requests of the four mirrored blur passes of a planned frame. `parameters_of` gives bounds as
/// a shader reads them.
pub fn c12_backdrop_blur_cache_requests_planned<
    C,
    G,
    L: Fn(&G, WorkingFormat, Format, DeviceCapabilities) -> Result<LoweredGraphPlan, Error>,
    K: Fn(LoweredGraphPlan) -> ClassifiedGraph<LoweredGraphPlan>,
    E: Fn(Rect) -> EdgeParameters,
>(
    planned: &Result<FramePlan<C, G>, Error>,
    working_format: WorkingFormat,
    capabilities: DeviceCapabilities,
    lower: &L,
    classify: &K,
    parameters_of: &E,
) -> (requests: Result<Vec<C12BackdropBlurCacheRequest>, Error>)
    requires
        lowers(*lower),
        classifies(*classify),
        forall|bounds: Rect| #[trigger] call_requires(*parameters_of, (bounds,)),
    ensures
        exists|classified: Result<ClassifiedGraph<LoweredGraphPlan>, Error>|
            {
                &&& #[trigger] is_classified_plan(
                    classified,
                    *planned,
                    LoweringFailure::MirroredBlurNotPlanned,
                    working_format,
                    capabilities,
                    *lower,
                    *classify,
                )
                &&& match classified {
                    Err(error) => requests == Err::<Vec<C12BackdropBlurCacheRequest>, Error>(error),
                    Ok(found) => exists|parameters: Seq<EdgeParameters>|
                        {
                            &&& #[trigger] may_hold(
                                *parameters_of,
                                found.graph@.passes,
                                parameters,
                            )
                            &&& are_mirrored_requests(
                                requests,
                                found.graph@.passes,
                                found.class,
                                parameters,
                            )
                        },
                }
            },
{
    let classified = classify_planned(
        planned,
        LoweringFailure::MirroredBlurNotPlanned,
        working_format,
        capabilities,
        lower,
        classify,
    );
    match &classified {
        Err(error) => Err(*error),
        Ok(found) => {
            let parameters = edge_parameters(&found.graph, parameters_of);
            c12_backdrop_blur_cache_requests(&found.graph, found.class, &parameters)
        },
    }
}

/// A planned frame is lowered as its graph, to red first, in the working format and for the device; one
/// that needs no graph, and one that was not planned, request nothing.
pub proof fn law_planned_frames_are_lowered_as_their_graph<
    C,
    G,
    L: Fn(&G, WorkingFormat, Format, DeviceCapabilities) -> Result<LoweredGraphPlan, Error>,
>(
    planned: &Result<FramePlan<C, G>, Error>,
    working_format: WorkingFormat,
    capabilities: DeviceCapabilities,
    lower: &L,
    keys: Result<Vec<RuntimePassCacheKeys>, Error>,
    operations: Result<Vec<RuntimeColorOperation>, Error>,
    run: Result<(Vec<RuntimeColorOperation>, bool), Error>,
)
    requires
        call_ensures(
            c10_color_filter_cache_requests_planned::<C, G, L>,
            (planned, working_format, capabilities, lower),
            keys,
        ),
        call_ensures(
            runtime_color_operations_planned::<C, G, L>,
            (planned, capabilities, lower),
            operations,
        ),
        call_ensures(single_color_run_planned::<C, G, L>, (planned, capabilities, lower), run),
    ensures
        *planned is Err ==> keys == Err::<Vec<RuntimePassCacheKeys>, Error>((*planned)->Err_0)
            && operations == Err::<Vec<RuntimeColorOperation>, Error>((*planned)->Err_0) && run
            == Err::<(Vec<RuntimeColorOperation>, bool), Error>((*planned)->Err_0),
        (*planned matches Ok(FramePlan::DirectVello(_))) ==> {
            &&& keys == Err::<Vec<RuntimePassCacheKeys>, Error>(
                Error::Lowering(LoweringFailure::ColorFilterNotPlanned),
            )
            &&& operations == Err::<Vec<RuntimeColorOperation>, Error>(
                Error::Lowering(LoweringFailure::ColorOperationsNotPlanned),
            )
            &&& run == Err::<(Vec<RuntimeColorOperation>, bool), Error>(
                Error::Lowering(LoweringFailure::OperationBytesNotPlanned),
            )
        },
        (*planned matches Ok(FramePlan::GpuGraph(_, graph)) && keys is Ok) ==> exists|
            graph: G,
            plan: LoweredGraphPlan,
        |
            #[trigger] call_ensures(
                *lower,
                (&graph, working_format, Format::Rgba8, capabilities),
                Ok::<LoweredGraphPlan, Error>(plan),
            ) && is_color_filter_request(keys, plan@.passes),
        (*planned matches Ok(FramePlan::GpuGraph(_, graph)) && operations is Ok) ==> exists|
            graph: G,
            plan: LoweredGraphPlan,
        |
            #[trigger] call_ensures(
                *lower,
                (&graph, WorkingFormat::HighPrecision, Format::Rgba8, capabilities),
                Ok::<LoweredGraphPlan, Error>(plan),
            ) && operations->Ok_0@ == all_operations(plan@.passes),
{
}

/// A backdrop copy, and mirrored blurs, are requested only of a planned graph that was lowered and
/// classified.
pub proof fn law_backdrops_are_requested_of_planned_graphs<
    C,
    G,
    L: Fn(&G, WorkingFormat, Format, DeviceCapabilities) -> Result<LoweredGraphPlan, Error>,
    K: Fn(LoweredGraphPlan) -> ClassifiedGraph<LoweredGraphPlan>,
>(
    planned: &Result<FramePlan<C, G>, Error>,
    working_format: WorkingFormat,
    capabilities: DeviceCapabilities,
    lower: &L,
    classify: &K,
    request: Result<C12CopyBackdropCacheRequest, Error>,
)
    requires
        call_ensures(
            c12_copy_backdrop_cache_request_planned::<C, G, L, K>,
            (planned, working_format, capabilities, lower, classify),
            request,
        ),
    ensures
        *planned is Err ==> request == Err::<C12CopyBackdropCacheRequest, Error>(
            (*planned)->Err_0,
        ),
        (*planned matches Ok(FramePlan::DirectVello(_))) ==> request == Err::<
            C12CopyBackdropCacheRequest,
            Error,
        >(Error::Lowering(LoweringFailure::BackdropCopyNotPlanned)),
        request is Ok ==> exists|plan: LoweredGraphPlan, found: ClassifiedGraph<LoweredGraphPlan>|
            #[trigger] call_ensures(*classify, (plan,), found) && request == exact_copy_request(
                found.graph@.passes,
                found.class,
            ),
{
}

/// Blurs and shadows are requested only of an authored graph that lowers, to red first in the working
/// format, and of what it is classified as.
pub proof fn law_authored_graphs_are_classified_for_requests<
    L: Fn(WorkingFormat, Format, DeviceCapabilities) -> Option<LoweredGraphPlan>,
    K: Fn(LoweredGraphPlan) -> ClassifiedGraph<LoweredGraphPlan>,
>(
    working_format: WorkingFormat,
    capabilities: DeviceCapabilities,
    lower: &L,
    classify: &K,
    keys: Result<Vec<RuntimePassCacheKeys>, Error>,
    requests: Result<C11DropShadowCacheRequests, Error>,
)
    requires
        call_ensures(
            c11_blur_cache_requests_planned::<L, K>,
            (working_format, capabilities, lower, classify),
            keys,
        ),
        call_ensures(
            c11_drop_shadow_cache_requests_planned::<L, K>,
            (working_format, capabilities, lower, classify),
            requests,
        ),
    ensures
        keys is Ok ==> exists|plan: LoweredGraphPlan, found: ClassifiedGraph<LoweredGraphPlan>|
            {
                &&& #[trigger] call_ensures(
                    *lower,
                    (working_format, Format::Rgba8, capabilities),
                    Some(plan),
                )
                &&& #[trigger] call_ensures(*classify, (plan,), found)
                &&& found.class is ExactC11
                &&& found.facts_are_proven
                &&& are_blur_requests(keys, found.graph@.passes, found.class, true)
            },
        requests is Ok ==> exists|plan: LoweredGraphPlan, found: ClassifiedGraph<LoweredGraphPlan>|
            {
                &&& #[trigger] call_ensures(
                    *lower,
                    (working_format, Format::Rgba8, capabilities),
                    Some(plan),
                )
                &&& #[trigger] call_ensures(*classify, (plan,), found)
                &&& found.class is ExactC11
                &&& found.facts_are_proven
                &&& requests == exact_shadow_requests(found.graph@.passes, found.class, true)
            },
{
}

/// A closed graph is observed only of a planned graph, lowered in high precision to red first; anything
/// else is not observed.
pub proof fn law_only_closed_graphs_are_observed<
    O,
    C,
    G,
    L: Fn(&G, WorkingFormat, Format) -> Result<LoweredGraphPlan, Error>,
    K: Fn(&LoweredGraphPlan) -> Option<ClosedExecutableGraph>,
    F: Fn(&ClosedExecutableGraph) -> Option<O>,
>(
    planned: &Result<FramePlan<C, G>, Error>,
    lower: &L,
    close: &K,
    observe: &F,
    observation: Option<O>,
)
    requires
        call_ensures(
            observe_closed::<O, C, G, L, K, F>,
            (planned, lower, close, observe),
            observation,
        ),
    ensures
        *planned is Err ==> observation is None,
        (*planned matches Ok(FramePlan::DirectVello(_))) ==> observation is None,
        observation is Some ==> exists|plan: LoweredGraphPlan, closed: ClosedExecutableGraph|
            {
                &&& #[trigger] call_ensures(*close, (&plan,), Some(closed))
                &&& call_ensures(*observe, (&closed,), observation)
            },
{
}

} // verus!
