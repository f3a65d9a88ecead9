//! Spines of fixtures, lowered in the working format of a policy.

use vstd::prelude::*;

use crate::dispatch::FramePlan;
use crate::error::{Error, LoweringFailure};
use crate::options::EffectQualityPolicy;
use crate::pass::c08::{derives_any, PassDerivation};
use crate::pass::c08_spines::{
    c08_two_capture_spine, c08_zero_capture_spine, has_redirected_reads, is_two_capture,
    is_zero_capture, two_capture_failure,
};
use crate::pass::model::{LoweredGraphPlan, PlanModel};
use crate::runtime::{DeviceCapabilities, Format, WorkingFormat};

verus! {

/// Whether a graph can be lowered for any format and device.
pub open spec fn lowers<
    G,
    L: Fn(&G, WorkingFormat, Format, DeviceCapabilities) -> Result<LoweredGraphPlan, Error>,
>(lower: L) -> bool {
    forall|
        graph: &G,
        working_format: WorkingFormat,
        output_format: Format,
        capabilities: DeviceCapabilities,
    | #[trigger]
        call_requires(lower, (graph, working_format, output_format, capabilities))
}

/// The spine without captures of a forced graph, lowered to `Rgba8` in the working format that the
/// policy gives on the device. The first failure is reported: of the graph, of the policy, of the
/// lowering, of the spine.
pub fn c08_zero_capture_spine_lowered<
    G,
    L: Fn(&G, WorkingFormat, Format, DeviceCapabilities) -> Result<LoweredGraphPlan, Error>,
>(
    graph: Result<G, Error>,
    capabilities: DeviceCapabilities,
    policy: EffectQualityPolicy,
    lower: &L,
) -> (spine: Result<LoweredGraphPlan, Error>)
    requires
        lowers(*lower),
    ensures
        match (graph, capabilities.spec_working_format(policy)) {
            (Err(error), _) => spine == Err::<LoweredGraphPlan, Error>(error),
            (Ok(_), Err(error)) => spine == Err::<LoweredGraphPlan, Error>(error),
            (Ok(graph), Ok(working_format)) => exists|lowered: Result<LoweredGraphPlan, Error>|
                {
                    &&& #[trigger] call_ensures(
                        *lower,
                        (&graph, working_format, Format::Rgba8, capabilities),
                        lowered,
                    )
                    &&& match lowered {
                        Err(error) => spine == Err::<LoweredGraphPlan, Error>(error),
                        Ok(plan) => is_zero_capture(spine, plan@),
                    }
                },
        },
{
    let graph = match graph {
        Ok(graph) => graph,
        Err(error) => return Err(error),
    };
    let working_format = match capabilities.resolve_effect_working_format(policy) {
        Ok(working_format) => working_format,
        Err(error) => return Err(error),
    };
    match lower(&graph, working_format, Format::Rgba8, capabilities) {
        Ok(plan) => c08_zero_capture_spine(&plan),
        Err(error) => Err(error),
    }
}

/// Whether a lowered graph that some donor extends has the reads that are redirected.
pub open spec fn can_be_extended(plan: PlanModel) -> bool {
    forall|donor: PlanModel|
        #[trigger] two_capture_failure(plan, donor) is None ==> has_redirected_reads(plan)
}

/// Whether a spine with two captures, or a failure, is what a lowered graph and a planned donor
/// give: the donor has to be planned as a graph, and is lowered as the graph was.
pub open spec fn is_donated<
    C,
    G,
    L: Fn(&G, WorkingFormat, Format, DeviceCapabilities) -> Result<LoweredGraphPlan, Error>,
    D: Fn(&LoweredGraphPlan) -> Vec<PassDerivation>,
>(
    spine: Result<LoweredGraphPlan, Error>,
    plan: PlanModel,
    donor: Result<FramePlan<C, G>, Error>,
    lower: L,
    working_format: WorkingFormat,
    capabilities: DeviceCapabilities,
    derive: D,
) -> bool {
    match donor {
        Err(error) => spine == Err::<LoweredGraphPlan, Error>(error),
        Ok(FramePlan::DirectVello(_)) => spine == Err::<LoweredGraphPlan, Error>(
            Error::Lowering(LoweringFailure::DonorNotPlanned),
        ),
        Ok(FramePlan::GpuGraph(_, graph)) => exists|lowered: Result<LoweredGraphPlan, Error>|
            {
                &&& #[trigger] call_ensures(
                    lower,
                    (&graph, working_format, Format::Rgba8, capabilities),
                    lowered,
                )
                &&& match lowered {
                    Err(error) => spine == Err::<LoweredGraphPlan, Error>(error),
                    Ok(donor) => is_two_capture(spine, plan, donor@, derive),
                }
            },
    }
}

/// The spine of a forced graph with a second capture from a donor, both lowered to `Rgba8` in the
/// working format that the policy gives on the device. The first failure is reported: of the
/// policy, of the graph, of its lowering, of the donor, of its lowering, of the spine.
pub fn c08_two_capture_spine_lowered<
    C,
    G,
    L: Fn(&G, WorkingFormat, Format, DeviceCapabilities) -> Result<LoweredGraphPlan, Error>,
    D: Fn(&LoweredGraphPlan) -> Vec<PassDerivation>,
>(
    graph: Result<G, Error>,
    donor: Result<FramePlan<C, G>, Error>,
    capabilities: DeviceCapabilities,
    policy: EffectQualityPolicy,
    lower: &L,
    derive: &D,
) -> (spine: Result<LoweredGraphPlan, Error>)
    requires
        lowers(*lower),
        derives_any(*derive),
        graph matches Ok(graph) ==> forall|
            working_format: WorkingFormat,
            lowered: Result<LoweredGraphPlan, Error>,
        | #[trigger]
            call_ensures(
                *lower,
                (&graph, working_format, Format::Rgba8, capabilities),
                lowered,
            ) ==> (lowered matches Ok(plan) ==> can_be_extended(plan@)),
    ensures
        match (capabilities.spec_working_format(policy), graph) {
            (Err(error), _) => spine == Err::<LoweredGraphPlan, Error>(error),
            (Ok(_), Err(error)) => spine == Err::<LoweredGraphPlan, Error>(error),
            (Ok(working_format), Ok(graph)) => exists|lowered: Result<LoweredGraphPlan, Error>|
                {
                    &&& #[trigger] call_ensures(
                        *lower,
                        (&graph, working_format, Format::Rgba8, capabilities),
                        lowered,
                    )
                    &&& match lowered {
                        Err(error) => spine == Err::<LoweredGraphPlan, Error>(error),
                        Ok(plan) => is_donated(
                            spine,
                            plan@,
                            donor,
                            *lower,
                            working_format,
                            capabilities,
                            *derive,
                        ),
                    }
                },
        },
{
    let working_format = match capabilities.resolve_effect_working_format(policy) {
        Ok(working_format) => working_format,
        Err(error) => return Err(error),
    };
    let graph = match graph {
        Ok(graph) => graph,
        Err(error) => return Err(error),
    };
    let plan = match lower(&graph, working_format, Format::Rgba8, capabilities) {
        Ok(plan) => plan,
        Err(error) => return Err(error),
    };
    let donor_graph = match donor {
        Ok(FramePlan::GpuGraph(_, graph)) => graph,
        Ok(FramePlan::DirectVello(_)) => {
            return Err(Error::Lowering(LoweringFailure::DonorNotPlanned));
        },
        Err(error) => return Err(error),
    };
    match lower(&donor_graph, working_format, Format::Rgba8, capabilities) {
        Ok(donor) => c08_two_capture_spine(plan, &donor, derive),
        Err(error) => Err(error),
    }
}

/// A spine is lowered to `Rgba8`, in high precision on every device that has it, and otherwise only in
/// reduced precision, where the policy allows that and the device has it.
pub proof fn law_spines_are_lowered_in_the_format_of_the_policy<
    G,
    L: Fn(&G, WorkingFormat, Format, DeviceCapabilities) -> Result<LoweredGraphPlan, Error>,
>(
    graph: G,
    capabilities: DeviceCapabilities,
    policy: EffectQualityPolicy,
    lower: &L,
    spine: Result<LoweredGraphPlan, Error>,
)
    requires
        call_ensures(
            c08_zero_capture_spine_lowered::<G, L>,
            (Ok::<G, Error>(graph), capabilities, policy, lower),
            spine,
        ),
    ensures
        !capabilities.high_precision && !(capabilities.reduced_precision
            && policy is AllowReducedPrecision) ==> spine is Err,
        capabilities.high_precision || capabilities.reduced_precision
            && policy is AllowReducedPrecision ==> exists|
            working_format: WorkingFormat,
            output_format: Format,
            lowered: Result<LoweredGraphPlan, Error>,
        |
            {
                &&& #[trigger] call_ensures(
                    *lower,
                    (&graph, working_format, output_format, capabilities),
                    lowered,
                )
                &&& working_format is HighPrecision <==> capabilities.high_precision
                &&& output_format is Rgba8
                &&& lowered matches Err(error) ==> spine == Err::<LoweredGraphPlan, Error>(error)
                &&& lowered is Ok && spine is Ok ==> {
                    &&& spine->Ok_0@.working_format == lowered->Ok_0@.working_format
                    &&& spine->Ok_0@.output_format == lowered->Ok_0@.output_format
                }
            },
{
}

/// A spine with a donated capture is lowered like one without, and what keeps its own graph from being
/// planned or lowered keeps it from being a spine.
pub proof fn law_donated_spines_are_lowered_in_the_format_of_the_policy<
    C,
    G,
    L: Fn(&G, WorkingFormat, Format, DeviceCapabilities) -> Result<LoweredGraphPlan, Error>,
    D: Fn(&LoweredGraphPlan) -> Vec<PassDerivation>,
>(
    graph: Result<G, Error>,
    donor: Result<FramePlan<C, G>, Error>,
    capabilities: DeviceCapabilities,
    policy: EffectQualityPolicy,
    lower: &L,
    derive: &D,
    spine: Result<LoweredGraphPlan, Error>,
)
    requires
        call_ensures(
            c08_two_capture_spine_lowered::<C, G, L, D>,
            (graph, donor, capabilities, policy, lower, derive),
            spine,
        ),
    ensures
        !capabilities.high_precision && !(capabilities.reduced_precision
            && policy is AllowReducedPrecision) ==> spine is Err,
        capabilities.high_precision && graph is Err ==> spine == Err::<LoweredGraphPlan, Error>(
            graph->Err_0,
        ),
        capabilities.high_precision && graph is Ok ==> exists|
            lowered: Result<LoweredGraphPlan, Error>,
        |
            {
                &&& #[trigger] call_ensures(
                    *lower,
                    (&graph->Ok_0, WorkingFormat::HighPrecision, Format::Rgba8, capabilities),
                    lowered,
                )
                &&& lowered matches Err(error) ==> spine == Err::<LoweredGraphPlan, Error>(error)
            },
{
}

} // verus!
