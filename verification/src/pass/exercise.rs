//! A prepared graph run from its first pass to its last.

use vstd::prelude::*;

use crate::error::{Error, PreparationFailure};
use crate::pass::leases::{
    bindings_are_live, complete_every_pass, leases_differ, pass_ids_differ, released_before,
    LeaseId, LeasedPass, PreparedGraph,
};
use crate::pass::model::{RuntimePassId, RuntimeResourceId, RuntimeResultBinding};
use crate::pass::prepared::{
    all_keys_are_kept, allocations_are_exact, bound_resources, bound_resources_of,
    handoff_is_complete, prepared_allocations_are_exact, prepared_handoff_is_complete,
    prepared_pass_view_is_consistent, prepared_spatial_keys_are_exact, view_is_consistent,
    PreparedPass, PreparedResource, RuntimeGraphPreparationPlan, TextureUsages,
};

verus! {

pub open spec fn resource_leases(resources: Seq<RuntimeResourceId>) -> Seq<LeaseId> {
    resources.map_values(|id: RuntimeResourceId| LeaseId::Resource(id))
}

pub open spec fn kernel_leases(kernels: Seq<u64>) -> Seq<LeaseId> {
    kernels.map_values(|key: u64| LeaseId::Kernel(key))
}

/// The images that a pass binds, then its kernel.
pub open spec fn bound_leases(pass: PreparedPass) -> Seq<LeaseId> {
    let images = resource_leases(bound_resources_of(pass.runtime@));
    match pass.kernel {
        Some(key) => images.push(LeaseId::Kernel(key)),
        None => images,
    }
}

/// The images that a pass releases, then the kernels.
pub open spec fn released_leases(pass: PreparedPass) -> Seq<LeaseId> {
    resource_leases(pass.runtime@.releases) + kernel_leases(pass.kernel_releases@)
}

/// Whether a pass is leased as it was prepared.
pub open spec fn is_leased_as(leased: LeasedPass, pass: PreparedPass) -> bool {
    &&& leased.id == pass.runtime.id
    &&& leased.bound@ == bound_leases(pass)
    &&& leased.releases@ == released_leases(pass)
}

/// The leases of a plan: its resources, then its kernels.
pub open spec fn plan_leases(plan: RuntimeGraphPreparationPlan) -> Seq<LeaseId> {
    plan.resources@.map_values(
        |resource: PreparedResource| LeaseId::Resource(resource.runtime.id),
    ) + kernel_leases(plan.kernels@)
}

pub open spec fn are_leased_as(leased: Seq<LeasedPass>, passes: Seq<PreparedPass>) -> bool {
    &&& leased.len() == passes.len()
    &&& forall|i: int| 0 <= i < passes.len() ==> is_leased_as(#[trigger] leased[i], passes[i])
}

fn add_kernels(leases: &mut Vec<LeaseId>, kernels: &Vec<u64>)
    ensures
        final(leases)@ == old(leases)@ + kernel_leases(kernels@),
{
    let ghost start = leases@;
    let length: usize = kernels.len();
    let mut next: usize = 0;
    proof {
        assert(start + kernel_leases(kernels@.take(0)) =~= start);
    }
    while next < length
        invariant
            next <= length,
            length == kernels@.len(),
            leases@ == start + kernel_leases(kernels@.take(next as int)),
        decreases length - next,
    {
        leases.push(LeaseId::Kernel(kernels[next]));
        proof {
            assert(start + kernel_leases(kernels@.take(next + 1)) =~= (start + kernel_leases(
                kernels@.take(next as int),
            )).push(LeaseId::Kernel(kernels@[next as int])));
        }
        next = next + 1;
    }
    proof {
        assert(kernels@.take(length as int) =~= kernels@);
    }
}

fn lease_resources(resources: &Vec<RuntimeResourceId>) -> (leases: Vec<LeaseId>)
    ensures
        leases@ == resource_leases(resources@),
{
    let length: usize = resources.len();
    let mut leases: Vec<LeaseId> = Vec::with_capacity(length);
    let mut next: usize = 0;
    while next < length
        invariant
            next <= length,
            length == resources@.len(),
            leases@.len() == next,
            forall|i: int|
                0 <= i < next ==> #[trigger] leases@[i] == LeaseId::Resource(resources@[i]),
        decreases length - next,
    {
        leases.push(LeaseId::Resource(resources[next]));
        next = next + 1;
    }
    proof {
        assert(leases@ =~= resource_leases(resources@));
    }
    leases
}

fn lease_pass(pass: &PreparedPass) -> (leased: LeasedPass)
    ensures
        is_leased_as(leased, *pass),
{
    let resources = bound_resources(&pass.runtime);
    let mut bound = lease_resources(&resources);
    if let Some(key) = pass.kernel {
        bound.push(LeaseId::Kernel(key));
    }
    let mut releases = lease_resources(&pass.runtime.releases);
    add_kernels(&mut releases, &pass.kernel_releases);
    LeasedPass { id: pass.runtime.id, bound, releases }
}

/// The passes of a plan by what they bind and release.
pub fn lease_passes(plan: &RuntimeGraphPreparationPlan) -> (leased: Vec<LeasedPass>)
    ensures
        are_leased_as(leased@, plan.passes@),
{
    let length: usize = plan.passes.len();
    let mut leased: Vec<LeasedPass> = Vec::with_capacity(length);
    let mut next: usize = 0;
    while next < length
        invariant
            next <= length,
            length == plan.passes@.len(),
            leased@.len() == next,
            forall|i: int|
                0 <= i < next ==> is_leased_as(#[trigger] leased@[i], plan.passes@[i]),
        decreases length - next,
    {
        leased.push(lease_pass(&plan.passes[next]));
        next = next + 1;
    }
    leased
}

/// The leases of a plan.
pub fn lease_plan(plan: &RuntimeGraphPreparationPlan) -> (leases: Vec<LeaseId>)
    ensures
        leases@ == plan_leases(*plan),
{
    let length: usize = plan.resources.len();
    let mut leases: Vec<LeaseId> = Vec::with_capacity(length);
    let mut next: usize = 0;
    while next < length
        invariant
            next <= length,
            length == plan.resources@.len(),
            leases@.len() == next,
            forall|i: int|
                0 <= i < next ==> #[trigger] leases@[i] == LeaseId::Resource(
                    plan.resources@[i].runtime.id,
                ),
        decreases length - next,
    {
        leases.push(LeaseId::Resource(plan.resources[next].runtime.id));
        next = next + 1;
    }
    proof {
        assert(leases@ =~= plan.resources@.map_values(
            |resource: PreparedResource| LeaseId::Resource(resource.runtime.id),
        ));
    }
    add_kernels(&mut leases, &plan.kernels);
    leases
}

/// Whether some lease is not bound by the first pass.
pub open spec fn has_unrelated_lease(passes: Seq<LeasedPass>, leases: Seq<LeaseId>) -> bool {
    exists|i: int|
        0 <= i < leases.len() && leases[i] is Resource && !passes[0].bound@.contains(
            #[trigger] leases[i],
        )
}

/// Tries to complete a pass out of order and to bind what the first pass does not bind; neither
/// changes the graph.
fn prepared_exercise_rejections(
    graph: &mut PreparedGraph,
    final_present: RuntimePassId,
) -> (rejections: (bool, bool))
    requires
        old(graph).wf(),
        old(graph).next_pass == 0,
        old(graph).passes@.len() > 0,
    ensures
        final(graph).wf(),
        final(graph).passes == old(graph).passes,
        final(graph).leases == old(graph).leases,
        rejections.0 == (final_present != old(graph).passes@[0].id),
        rejections.0 ==> final(graph).next_pass == 0,
        rejections.1 == has_unrelated_lease(old(graph).passes@, old(graph).leases@),
        !rejections.0 ==> *final(graph) == *old(graph),
{
    let first = graph.passes[0].id;
    let ghost passes = graph.passes@;
    let ghost leases = graph.leases@;
    let length: usize = graph.leases.len();
    let mut missing = false;
    let mut next: usize = 0;
    while next < length
        invariant
            next <= length,
            *graph == *old(graph),
            graph.wf(),
            graph.next_pass == 0,
            passes == graph.passes@,
            leases == graph.leases@,
            passes.len() > 0,
            first == passes[0].id,
            length == leases.len(),
            missing == (exists|i: int|
                0 <= i < next && leases[i] is Resource && !passes[0].bound@.contains(
                    #[trigger] leases[i],
                )),
        decreases length - next,
    {
        let lease = graph.leases[next];
        if matches!(lease, LeaseId::Resource(_)) {
            match graph.texture_binding_for_pass(first, lease) {
                Ok(_) => {},
                Err(error) => {
                    proof {
                        assert(leases[next as int] == lease);
                        assert(leases.contains(lease));
                        assert(graph.holds(lease));
                        assert(!passes[0].bound@.contains(leases[next as int]));
                    }
                    missing = true;
                },
            }
        }
        next = next + 1;
    }
    let out_of_order = final_present != first && graph.complete_pass(final_present).is_err();
    (out_of_order, missing)
}

/// Whether every pass has the parameter blocks of its kind.
fn views_are_consistent(plan: &RuntimeGraphPreparationPlan) -> (consistent: bool)
    ensures
        consistent == (forall|i: int|
            0 <= i < plan.passes@.len() ==> view_is_consistent(#[trigger] plan.passes@[i])),
{
    let length: usize = plan.passes.len();
    let mut next: usize = 0;
    while next < length
        invariant
            next <= length,
            length == plan.passes@.len(),
            forall|i: int| 0 <= i < next ==> view_is_consistent(#[trigger] plan.passes@[i]),
        decreases length - next,
    {
        if !prepared_pass_view_is_consistent(&plan.passes[next]) {
            assert(!view_is_consistent(plan.passes@[next as int]));
            return false;
        }
        next = next + 1;
    }
    true
}

/// Whether every pass releases only leases of the plan.
pub open spec fn releases_are_known(passes: Seq<LeasedPass>, leases: Seq<LeaseId>) -> bool {
    forall|i: int, j: int|
        0 <= i < passes.len() && 0 <= j < passes[i].releases@.len() ==> leases.contains(
            #[trigger] passes[i].releases@[j],
        )
}

fn all_releases_are_known(graph: &PreparedGraph) -> (known: bool)
    ensures
        known == releases_are_known(graph.passes@, graph.leases@),
{
    let count: usize = graph.passes.len();
    let mut pass: usize = 0;
    while pass < count
        invariant
            pass <= count,
            count == graph.passes@.len(),
            forall|i: int, j: int|
                0 <= i < pass && 0 <= j < graph.passes@[i].releases@.len()
                    ==> graph.leases@.contains(#[trigger] graph.passes@[i].releases@[j]),
        decreases count - pass,
    {
        let length: usize = graph.passes[pass].releases.len();
        let mut next: usize = 0;
        while next < length
            invariant
                next <= length,
                pass < count,
                count == graph.passes@.len(),
                length == graph.passes@[pass as int].releases@.len(),
                forall|j: int|
                    0 <= j < next ==> graph.leases@.contains(
                        #[trigger] graph.passes@[pass as int].releases@[j],
                    ),
            decreases length - next,
        {
            let release = graph.passes[pass].releases[next];
            let total: usize = graph.leases.len();
            let mut found = false;
            let mut lease: usize = 0;
            while lease < total
                invariant
                    lease <= total,
                    total == graph.leases@.len(),
                    found == (exists|i: int|
                        0 <= i < lease && #[trigger] graph.leases@[i] == release),
                decreases total - lease,
            {
                if graph.leases[lease] == release {
                    assert(graph.leases@[lease as int] == release);
                    found = true;
                }
                lease = lease + 1;
            }
            if !found {
                assert(!graph.leases@.contains(
                    graph.passes@[pass as int].releases@[next as int],
                ));
                return false;
            }
            assert(graph.leases@.contains(graph.passes@[pass as int].releases@[next as int]));
            next = next + 1;
        }
        pass = pass + 1;
    }
    true
}

/// What a run of a leased plan shows: passes are refused out of order, unrelated images are not
/// bound, every pass has its parameter blocks, and every lease is given back.
pub open spec fn exercised(
    plan: RuntimeGraphPreparationPlan,
    passes: Seq<LeasedPass>,
    leases: Seq<LeaseId>,
) -> bool {
    &&& plan.final_present != passes[0].id
    &&& has_unrelated_lease(passes, leases)
    &&& forall|i: int|
        0 <= i < plan.passes@.len() ==> view_is_consistent(#[trigger] plan.passes@[i])
    &&& releases_are_known(passes, leases)
    &&& forall|i: int|
        0 <= i < leases.len() ==> released_before(
            passes,
            passes.len() as int,
            #[trigger] leases[i],
        )
}

/// Whether this is what running a plan gives: what its run shows, or why it cannot be run.
pub open spec fn is_exercise_of(
    exercise: Result<bool, Error>,
    plan: RuntimeGraphPreparationPlan,
) -> bool {
    exists|passes: Seq<LeasedPass>|
        {
            let leases = plan_leases(plan);
            &&& #[trigger] are_leased_as(passes, plan.passes@)
            &&& match exercise {
                Ok(shown) => {
                    &&& pass_ids_differ(passes) && leases_differ(leases) && passes.len() > 0
                    &&& bindings_are_live(passes, leases)
                    &&& shown == exercised(plan, passes, leases)
                },
                Err(error) => if !pass_ids_differ(passes) {
                    error == Error::Preparation(PreparationFailure::RepeatedPass)
                } else if !leases_differ(leases) {
                    error == Error::Preparation(PreparationFailure::RepeatedLease)
                } else if passes.len() == 0 {
                    error == Error::Preparation(PreparationFailure::NoFirstPass)
                } else {
                    &&& !bindings_are_live(passes, leases)
                    &&& error == Error::Preparation(PreparationFailure::ResourceReleased)
                },
            }
        }
}

/// Runs a plan from its first pass to its last.
pub fn exercise_prepared_bindings(plan: &RuntimeGraphPreparationPlan) -> (exercise: Result<
    bool,
    Error,
>)
    ensures
        is_exercise_of(exercise, *plan),
{
    let passes = lease_passes(plan);
    let leases = lease_plan(plan);
    let ghost leased = passes@;
    proof {
        assert(are_leased_as(leased, plan.passes@));
    }
    let mut graph = match PreparedGraph::try_new(passes, leases) {
        Ok(graph) => graph,
        Err(error) => return Err(error),
    };
    if graph.passes.len() == 0 {
        return Err(Error::Preparation(PreparationFailure::NoFirstPass));
    }
    let (out_of_order, missing) = prepared_exercise_rejections(&mut graph, plan.final_present);
    let consistent = views_are_consistent(plan);
    let known = all_releases_are_known(&graph);
    match complete_every_pass(&mut graph) {
        Ok(empty) => Ok(out_of_order && missing && consistent && known && empty),
        Err(error) => Err(error),
    }
}

/// What is observed of a prepared plan.
#[derive(Clone, Copy, Debug, PartialEq, Eq, Structural)]
pub struct PreparedGraphExerciseObservation {
    pub complete_resource_and_pass_handoff: bool,
    pub exact_capture_coverage_working_and_mask_allocations: bool,
    pub typed_bindings_and_last_use_releases: bool,
    pub spatial_bytes_and_cache_keys_preserved: bool,
}

/// Observes a prepared plan and runs it.
pub fn exercise_prepared_graph(plan: &RuntimeGraphPreparationPlan, usages: TextureUsages) -> (
observation: Result<PreparedGraphExerciseObservation, Error>)
    ensures
        match observation {
            Ok(observed) => {
                &&& is_exercise_of(Ok(observed.typed_bindings_and_last_use_releases), *plan)
                &&& observed.complete_resource_and_pass_handoff == handoff_is_complete(*plan)
                &&& observed.exact_capture_coverage_working_and_mask_allocations
                    == allocations_are_exact(*plan, usages)
                &&& observed.spatial_bytes_and_cache_keys_preserved == all_keys_are_kept(*plan)
            },
            Err(error) => is_exercise_of(Err(error), *plan),
        },
{
    match exercise_prepared_bindings(plan) {
        Ok(shown) => Ok(
            PreparedGraphExerciseObservation {
                complete_resource_and_pass_handoff: prepared_handoff_is_complete(plan),
                exact_capture_coverage_working_and_mask_allocations: prepared_allocations_are_exact(
                    plan,
                    usages,
                ),
                typed_bindings_and_last_use_releases: shown,
                spatial_bytes_and_cache_keys_preserved: prepared_spatial_keys_are_exact(plan),
            },
        ),
        Err(error) => Err(error),
    }
}

/// The leases of a plan are its resources in order and then its kernels; those of a pass are what it
/// samples and writes and then its kernel, and it releases images before kernels.
pub proof fn law_leases_stand_for_their_plan(
    plan: &RuntimeGraphPreparationPlan,
    leases: Vec<LeaseId>,
    leased: Vec<LeasedPass>,
    i: int,
    j: int,
)
    requires
        call_ensures(lease_plan, (plan,), leases),
        call_ensures(lease_passes, (plan,), leased),
    ensures
        leases@.len() == plan.resources@.len() + plan.kernels@.len(),
        0 <= i < plan.resources@.len() ==> leases@[i] == LeaseId::Resource(
            plan.resources@[i].runtime.id,
        ),
        0 <= i < plan.kernels@.len() ==> leases@[plan.resources@.len() + i] == LeaseId::Kernel(
            plan.kernels@[i],
        ),
        leased@.len() == plan.passes@.len(),
        0 <= i < plan.passes@.len() ==> {
            let pass = plan.passes@[i];
            let reads = pass.runtime.reads@;
            let bound = leased@[i].bound@;
            let written = if pass.runtime.result is Resource {
                1int
            } else {
                0
            };
            &&& leased@[i].id == pass.runtime.id
            &&& 0 <= j < reads.len() ==> bound[j] == LeaseId::Resource(reads[j].resource)
            &&& pass.runtime.result matches RuntimeResultBinding::Resource(id) ==> bound[
            reads.len() as int] == LeaseId::Resource(id)
            &&& pass.kernel matches Some(key) ==> bound[reads.len() + written] == LeaseId::Kernel(
                key,
            )
            &&& bound.len() == reads.len() + written + (if pass.kernel is Some {
                1int
            } else {
                0
            })
            &&& leased@[i].releases@.len() == pass.runtime.releases@.len()
                + pass.kernel_releases@.len()
            &&& 0 <= j < pass.runtime.releases@.len() ==> leased@[i].releases@[j]
                == LeaseId::Resource(pass.runtime.releases@[j])
            &&& 0 <= j < pass.kernel_releases@.len() ==> leased@[i].releases@[
            pass.runtime.releases@.len() + j] == LeaseId::Kernel(pass.kernel_releases@[j])
        },
{
    if 0 <= i < plan.passes@.len() {
        assert(is_leased_as(leased@[i], plan.passes@[i]));
        let pass = plan.passes@[i];
        let resources = bound_resources_of(pass.runtime@);
        let images = resource_leases(resources);
        assert(images.len() == resources.len());
        if 0 <= j < pass.runtime.reads@.len() {
            assert(images[j] == LeaseId::Resource(resources[j]));
        }
        if pass.runtime.result is Resource {
            let last = pass.runtime.reads@.len() as int;
            assert(images[last] == LeaseId::Resource(resources[last]));
        }
    }
}

/// A plan that was run shows what a run is for: the last pass is not the first, some image is not bound
/// by the first pass, releases are of leases of the plan, and each lease is released by some pass.
pub proof fn law_runs_give_everything_back(
    plan: &RuntimeGraphPreparationPlan,
    exercise: Result<bool, Error>,
    i: int,
)
    requires
        call_ensures(exercise_prepared_bindings, (plan,), exercise),
        exercise == Ok::<bool, Error>(true),
    ensures
        plan.passes@.len() > 0,
        plan.final_present != plan.passes@[0].runtime.id,
        0 <= i < plan.resources@.len() ==> exists|j: int|
            0 <= j < plan.passes@.len() && resource_leases(
                (#[trigger] plan.passes@[j]).runtime@.releases,
            ).contains(LeaseId::Resource(plan.resources@[i].runtime.id)),
        0 <= i < plan.passes@.len() ==> view_is_consistent(plan.passes@[i]),
{
    let leases = plan_leases(*plan);
    let passes = choose|passes: Seq<LeasedPass>|
        {
            &&& #[trigger] are_leased_as(passes, plan.passes@)
            &&& pass_ids_differ(passes) && leases_differ(leases) && passes.len() > 0
            &&& bindings_are_live(passes, leases)
            &&& exercised(*plan, passes, leases)
        };
    assert(is_leased_as(passes[0], plan.passes@[0]));
    if 0 <= i < plan.resources@.len() {
        let lease = LeaseId::Resource(plan.resources@[i].runtime.id);
        assert(leases[i] == lease);
        let j = choose|j: int|
            0 <= j < passes.len() && (#[trigger] passes[j]).releases@.contains(lease);
        assert(is_leased_as(passes[j], plan.passes@[j]));
        let released = released_leases(plan.passes@[j]);
        let images = resource_leases(plan.passes@[j].runtime@.releases);
        let k = choose|k: int| 0 <= k < released.len() && released[k] == lease;
        if k < images.len() {
            assert(images[k] == lease);
        } else {
            let kernels = kernel_leases(plan.passes@[j].kernel_releases@);
            assert(kernels[k - images.len()] is Kernel);
        }
    }
}

/// A plan in which a pass or a resource is repeated, or that has no pass, is not run.
pub proof fn law_repeated_plans_are_not_run(
    plan: &RuntimeGraphPreparationPlan,
    exercise: Result<bool, Error>,
    i: int,
    j: int,
)
    requires
        call_ensures(exercise_prepared_bindings, (plan,), exercise),
    ensures
        plan.passes@.len() == 0 ==> exercise is Err,
        0 <= i < j < plan.passes@.len() && plan.passes@[i].runtime.id == plan.passes@[j].runtime.id
            ==> exercise is Err,
        0 <= i < j < plan.resources@.len() && plan.resources@[i].runtime.id
            == plan.resources@[j].runtime.id ==> exercise is Err,
{
    let leases = plan_leases(*plan);
    let passes = choose|passes: Seq<LeasedPass>|
        {
            &&& #[trigger] are_leased_as(passes, plan.passes@)
            &&& match exercise {
                Ok(shown) => {
                    &&& pass_ids_differ(passes) && leases_differ(leases) && passes.len() > 0
                    &&& bindings_are_live(passes, leases)
                    &&& shown == exercised(*plan, passes, leases)
                },
                Err(error) => if !pass_ids_differ(passes) {
                    error == Error::Preparation(PreparationFailure::RepeatedPass)
                } else if !leases_differ(leases) {
                    error == Error::Preparation(PreparationFailure::RepeatedLease)
                } else if passes.len() == 0 {
                    error == Error::Preparation(PreparationFailure::NoFirstPass)
                } else {
                    &&& !bindings_are_live(passes, leases)
                    &&& error == Error::Preparation(PreparationFailure::ResourceReleased)
                },
            }
        };
    if 0 <= i < j < plan.passes@.len() {
        assert(is_leased_as(passes[i], plan.passes@[i]));
        assert(is_leased_as(passes[j], plan.passes@[j]));
    }
    if 0 <= i < j < plan.resources@.len() {
        assert(leases[i] == LeaseId::Resource(plan.resources@[i].runtime.id));
        assert(leases[j] == LeaseId::Resource(plan.resources@[j].runtime.id));
    }
}

/// What is observed of a prepared plan are the verdicts on its handoff, its allocations, its run and its
/// keys.
pub proof fn law_exercised_plans_are_judged_in_each_part(
    plan: &RuntimeGraphPreparationPlan,
    usages: TextureUsages,
    observed: PreparedGraphExerciseObservation,
)
    requires
        call_ensures(
            exercise_prepared_graph,
            (plan, usages),
            Ok::<PreparedGraphExerciseObservation, Error>(observed),
        ),
    ensures
        forall|complete: bool| #[trigger]
            call_ensures(prepared_handoff_is_complete, (plan,), complete) ==> complete
                == observed.complete_resource_and_pass_handoff,
        forall|exact: bool| #[trigger]
            call_ensures(prepared_allocations_are_exact, (plan, usages), exact) ==> exact
                == observed.exact_capture_coverage_working_and_mask_allocations,
        forall|kept: bool| #[trigger]
            call_ensures(prepared_spatial_keys_are_exact, (plan,), kept) ==> kept
                == observed.spatial_bytes_and_cache_keys_preserved,
{
}

} // verus!
