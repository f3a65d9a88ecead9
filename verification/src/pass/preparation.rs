//! What is observed around the preparation of a graph's resources.

use vstd::prelude::*;

use crate::error::Error;
use crate::pass::exercise::PreparedGraphExerciseObservation;
use crate::pass::leases::LeaseId;
use crate::pass::model::{RuntimePassId, RuntimePassKind};
use crate::pass::prepared::{PreparedPass, RuntimeGraphPreparationPlan};

verus! {

/// What a resource manager holds and has done.
#[derive(Clone, Copy, Debug, PartialEq, Eq, Structural)]
pub struct ResourceManagerObservation {
    pub entry_count: usize,
    pub leased_count: usize,
    pub retained_bytes: u64,
    pub payload_creation_attempts: u64,
}

/// The resource that a lease was prepared on.
#[derive(Clone, Copy, Debug, PartialEq, Eq, Structural)]
pub struct AllocationIdentity {
    pub lease: LeaseId,
    pub resource: u64,
}

/// Whether a plan with a repeated resource is refused before the manager does anything. The manager
/// cannot be observed on a device that is gone.
pub fn preparation_preflight_is_atomic(
    before: Result<ResourceManagerObservation, Error>,
    rejected: bool,
    after: Result<ResourceManagerObservation, Error>,
) -> (atomic: Result<bool, Error>)
    ensures
        atomic == (match (before, after) {
            (Err(error), _) => Err::<bool, Error>(error),
            (Ok(_), Err(error)) => Err(error),
            (Ok(before), Ok(after)) => Ok(rejected && before == after),
        }),
{
    match (before, after) {
        (Err(error), _) => Err(error),
        (Ok(_), Err(error)) => Err(error),
        (Ok(before), Ok(after)) => Ok(rejected && before == after),
    }
}

fn same_allocations(first: &Vec<AllocationIdentity>, second: &Vec<AllocationIdentity>) -> (same:
    bool)
    ensures
        same == (first@ =~= second@),
{
    let count: usize = first.len();
    if second.len() != count {
        return false;
    }
    let mut next: usize = 0;
    while next < count
        invariant
            next <= count,
            count == first@.len(),
            count == second@.len(),
            forall|i: int| 0 <= i < next ==> #[trigger] first@[i] == second@[i],
        decreases count - next,
    {
        if first[next] != second[next] {
            return false;
        }
        next = next + 1;
    }
    true
}

/// Whether a second preparation took the allocations of the first and made the manager grow in
/// nothing.
pub open spec fn reuses(
    first: Seq<AllocationIdentity>,
    after_first: ResourceManagerObservation,
    second: Seq<AllocationIdentity>,
    after_second: ResourceManagerObservation,
) -> bool {
    &&& first =~= second
    &&& after_second.payload_creation_attempts == after_first.payload_creation_attempts
    &&& after_second.entry_count == after_first.entry_count
    &&& after_second.retained_bytes == after_first.retained_bytes
}

/// One preparation that was exercised and finished.
#[derive(Debug)]
pub struct FinishedPreparation {
    pub exercise: PreparedGraphExerciseObservation,
    pub allocations: Vec<AllocationIdentity>,
}

/// What two preparations of the same graph show: the exercise of the first, and whether the second
/// reused its allocations. The first failure is reported.
pub fn exercise_preparation_reuse(
    first: Result<FinishedPreparation, Error>,
    after_first: Result<ResourceManagerObservation, Error>,
    second: Result<FinishedPreparation, Error>,
    after_second: Result<ResourceManagerObservation, Error>,
) -> (reuse: Result<(PreparedGraphExerciseObservation, bool), Error>)
    ensures
        match (first, after_first, second, after_second) {
            (Ok(first), Ok(after_first), Ok(second), Ok(after_second)) => reuse == Ok::<
                (PreparedGraphExerciseObservation, bool),
                Error,
            >(
                (
                    first.exercise,
                    reuses(
                        first.allocations@,
                        after_first,
                        second.allocations@,
                        after_second,
                    ),
                ),
            ),
            _ => reuse == Err::<(PreparedGraphExerciseObservation, bool), Error>(
                match (first, after_first, second) {
                    (Err(error), _, _) => error,
                    (_, Err(error), _) => error,
                    (_, _, Err(error)) => error,
                    _ => after_second->Err_0,
                },
            ),
        },
{
    let first = match first {
        Ok(first) => first,
        Err(error) => return Err(error),
    };
    let after_first = match after_first {
        Ok(after_first) => after_first,
        Err(error) => return Err(error),
    };
    let second = match second {
        Ok(second) => second,
        Err(error) => return Err(error),
    };
    let after_second = match after_second {
        Ok(after_second) => after_second,
        Err(error) => return Err(error),
    };
    let reused = same_allocations(&first.allocations, &second.allocations)
        && after_second.payload_creation_attempts == after_first.payload_creation_attempts
        && after_second.entry_count == after_first.entry_count && after_second.retained_bytes
        == after_first.retained_bytes;
    Ok((first.exercise, reused))
}

/// Whether nothing stays leased after a finish that came too early, nor after a preparation that
/// was dropped. The first failure is reported.
pub fn preparation_failure_cleanup(
    early_finish_failed: Result<bool, Error>,
    after_finish: Result<ResourceManagerObservation, Error>,
    dropped: Result<(), Error>,
    after_drop: Result<ResourceManagerObservation, Error>,
) -> (clean: Result<bool, Error>)
    ensures
        clean == (match (early_finish_failed, after_finish, dropped, after_drop) {
            (Err(error), _, _, _) => Err::<bool, Error>(error),
            (_, Err(error), _, _) => Err(error),
            (_, _, Err(error), _) => Err(error),
            (_, _, _, Err(error)) => Err(error),
            (Ok(failed), Ok(after_finish), Ok(_), Ok(after_drop)) => Ok(
                failed && after_finish.leased_count == 0 && after_drop.leased_count == 0,
            ),
        }),
{
    match (early_finish_failed, after_finish, dropped, after_drop) {
        (Err(error), _, _, _) => Err(error),
        (_, Err(error), _, _) => Err(error),
        (_, _, Err(error), _) => Err(error),
        (_, _, _, Err(error)) => Err(error),
        (Ok(failed), Ok(after_finish), Ok(_), Ok(after_drop)) => Ok(
            failed && after_finish.leased_count == 0 && after_drop.leased_count == 0,
        ),
    }
}

/// How many passes of each kind a device has cached.
#[derive(Clone, Copy, Debug, PartialEq, Eq, Structural)]
pub struct PassCacheCounts {
    pub samplers: usize,
    pub layouts: usize,
    pub shaders: usize,
    pub pipelines: usize,
}

impl PassCacheCounts {
    pub open spec fn spec_has_exactly_one_sampler(self) -> bool {
        self == PassCacheCounts { samplers: 1, layouts: 0, shaders: 0, pipelines: 0 }
    }

    pub fn has_exactly_one_sampler(self) -> (exact: bool)
        ensures
            exact == self.spec_has_exactly_one_sampler(),
    {
        self == PassCacheCounts { samplers: 1, layouts: 0, shaders: 0, pipelines: 0 }
    }
}

/// What is observed of the preparation of a graph.
#[derive(Clone, Copy, Debug, PartialEq, Eq, Structural)]
pub struct ResourcePreparationObservation {
    pub exercise: PreparedGraphExerciseObservation,
    pub allocation_preflight_is_atomic: bool,
    pub failure_and_drop_cleanup: bool,
    pub repeated_reuse_is_exact_and_bounded: bool,
    pub populated_pass_cache_is_preserved: bool,
}

/// What is observed of the preparation of a graph, beside a pass cache that was given one sampler
/// beforehand. The first failure is reported.
pub fn resource_preparation_observation(
    cache_before: Result<PassCacheCounts, Error>,
    atomic: Result<bool, Error>,
    reuse: Result<(PreparedGraphExerciseObservation, bool), Error>,
    clean: Result<bool, Error>,
    cache_after: Result<PassCacheCounts, Error>,
) -> (observation: Result<ResourcePreparationObservation, Error>)
    ensures
        observation == (match (cache_before, atomic, reuse, clean, cache_after) {
            (Err(error), _, _, _, _) => Err::<ResourcePreparationObservation, Error>(error),
            (_, Err(error), _, _, _) => Err(error),
            (_, _, Err(error), _, _) => Err(error),
            (_, _, _, Err(error), _) => Err(error),
            (_, _, _, _, Err(error)) => Err(error),
            (Ok(before), Ok(atomic), Ok((exercise, reused)), Ok(clean), Ok(after)) => Ok(
                ResourcePreparationObservation {
                    exercise,
                    allocation_preflight_is_atomic: atomic,
                    failure_and_drop_cleanup: clean,
                    repeated_reuse_is_exact_and_bounded: reused,
                    populated_pass_cache_is_preserved: before.spec_has_exactly_one_sampler()
                        && after == before,
                },
            ),
        }),
{
    match (cache_before, atomic, reuse, clean, cache_after) {
        (Err(error), _, _, _, _) => Err(error),
        (_, Err(error), _, _, _) => Err(error),
        (_, _, Err(error), _, _) => Err(error),
        (_, _, _, Err(error), _) => Err(error),
        (_, _, _, _, Err(error)) => Err(error),
        (Ok(before), Ok(atomic), Ok((exercise, reused)), Ok(clean), Ok(after)) => Ok(
            ResourcePreparationObservation {
                exercise,
                allocation_preflight_is_atomic: atomic,
                failure_and_drop_cleanup: clean,
                repeated_reuse_is_exact_and_bounded: reused,
                populated_pass_cache_is_preserved: before.has_exactly_one_sampler() && after
                    == before,
            },
        ),
    }
}

/// The first color filter of a prepared plan: the one whose operations are to be withheld.
pub open spec fn first_color_filter(passes: Seq<PreparedPass>) -> Option<RuntimePassId>
    decreases passes.len(),
{
    if passes.len() == 0 {
        None
    } else if passes[0].runtime.kind matches RuntimePassKind::ColorFilter(Some(_)) {
        Some(passes[0].runtime.id)
    } else {
        first_color_filter(passes.drop_first())
    }
}

pub fn failing_color_filter(plan: &RuntimeGraphPreparationPlan) -> (pass: Option<RuntimePassId>)
    ensures
        pass == first_color_filter(plan.passes@),
{
    let count: usize = plan.passes.len();
    let mut next: usize = 0;
    assert(plan.passes@.skip(0) =~= plan.passes@);
    while next < count
        invariant
            next <= count,
            count == plan.passes@.len(),
            first_color_filter(plan.passes@) == first_color_filter(plan.passes@.skip(next as int)),
        decreases count - next,
    {
        proof {
            assert(plan.passes@.skip(next as int)[0] == plan.passes@[next as int]);
            assert(plan.passes@.skip(next as int).drop_first() =~= plan.passes@.skip(next + 1));
        }
        if matches!(plan.passes[next].runtime.kind, RuntimePassKind::ColorFilter(Some(_))) {
            return Some(plan.passes[next].runtime.id);
        }
        next = next + 1;
    }
    None
}

/// The layout of the first present that has keys: the one that is to fail in its scope.
pub open spec fn first_present_layout(passes: Seq<PreparedPass>) -> Option<u64>
    decreases passes.len(),
{
    if passes.len() == 0 {
        None
    } else {
        match (passes[0].runtime.kind, passes[0].cache_keys) {
            (RuntimePassKind::Present, Some(keys)) => Some(keys.layout),
            _ => first_present_layout(passes.drop_first()),
        }
    }
}

pub fn failing_present_layout(plan: &RuntimeGraphPreparationPlan) -> (layout: Option<u64>)
    ensures
        layout == first_present_layout(plan.passes@),
{
    let count: usize = plan.passes.len();
    let mut next: usize = 0;
    assert(plan.passes@.skip(0) =~= plan.passes@);
    while next < count
        invariant
            next <= count,
            count == plan.passes@.len(),
            first_present_layout(plan.passes@) == first_present_layout(
                plan.passes@.skip(next as int),
            ),
        decreases count - next,
    {
        proof {
            assert(plan.passes@.skip(next as int)[0] == plan.passes@[next as int]);
            assert(plan.passes@.skip(next as int).drop_first() =~= plan.passes@.skip(next + 1));
        }
        match (plan.passes[next].runtime.kind, plan.passes[next].cache_keys) {
            (RuntimePassKind::Present, Some(keys)) => return Some(keys.layout),
            _ => {},
        }
        next = next + 1;
    }
    None
}

/// A refused plan is atomic exactly if it was refused and the manager holds and has done what it held
/// and had done before; a manager that cannot be observed says nothing.
pub proof fn law_atomic_refusals(
    before: Result<ResourceManagerObservation, Error>,
    rejected: bool,
    after: Result<ResourceManagerObservation, Error>,
    atomic: Result<bool, Error>,
)
    requires
        call_ensures(preparation_preflight_is_atomic, (before, rejected, after), atomic),
    ensures
        atomic is Ok <==> before is Ok && after is Ok,
        before is Ok && after is Ok ==> (atomic->Ok_0 <==> {
            &&& rejected
            &&& after->Ok_0.entry_count == before->Ok_0.entry_count
            &&& after->Ok_0.leased_count == before->Ok_0.leased_count
            &&& after->Ok_0.retained_bytes == before->Ok_0.retained_bytes
            &&& after->Ok_0.payload_creation_attempts == before->Ok_0.payload_creation_attempts
        }),
        before is Err ==> atomic == Err::<bool, Error>(before->Err_0),
        before is Ok && after is Err ==> atomic == Err::<bool, Error>(after->Err_0),
{
}

/// A second preparation reuses the first only if each lease is on the same resource and the manager grew
/// in nothing; what is exercised is the first.
pub proof fn law_reused_preparations(
    first: FinishedPreparation,
    after_first: ResourceManagerObservation,
    second: FinishedPreparation,
    after_second: ResourceManagerObservation,
    exercise: PreparedGraphExerciseObservation,
    reused: bool,
    i: int,
)
    requires
        call_ensures(
            exercise_preparation_reuse,
            (Ok(first), Ok(after_first), Ok(second), Ok(after_second)),
            Ok::<(PreparedGraphExerciseObservation, bool), Error>((exercise, reused)),
        ),
    ensures
        exercise == first.exercise,
        reused ==> {
            &&& first.allocations@.len() == second.allocations@.len()
            &&& 0 <= i < first.allocations@.len() ==> {
                &&& first.allocations@[i].lease == second.allocations@[i].lease
                &&& first.allocations@[i].resource == second.allocations@[i].resource
            }
            &&& after_second.payload_creation_attempts == after_first.payload_creation_attempts
            &&& after_second.entry_count == after_first.entry_count
            &&& after_second.retained_bytes == after_first.retained_bytes
        },
        first.allocations@ == second.allocations@ && after_first == after_second ==> reused,
{
}

/// Cleaning up is observed exactly if the early finish failed and nothing stayed leased, neither after
/// it nor after the drop.
pub proof fn law_cleaned_up_preparations(
    failed: Result<bool, Error>,
    after_finish: Result<ResourceManagerObservation, Error>,
    dropped: Result<(), Error>,
    after_drop: Result<ResourceManagerObservation, Error>,
    clean: Result<bool, Error>,
)
    requires
        call_ensures(
            preparation_failure_cleanup,
            (failed, after_finish, dropped, after_drop),
            clean,
        ),
    ensures
        clean is Ok <==> failed is Ok && after_finish is Ok && dropped is Ok && after_drop is Ok,
        clean is Ok ==> (clean->Ok_0 <==> failed->Ok_0 && after_finish->Ok_0.leased_count == 0
            && after_drop->Ok_0.leased_count == 0),
        failed is Err ==> clean == failed,
{
}

/// What is observed of a preparation is what was observed of its parts; its cache is preserved exactly
/// if it held one sampler and nothing else before, and holds the same after.
pub proof fn law_observed_preparations(
    before: PassCacheCounts,
    atomic: bool,
    exercise: PreparedGraphExerciseObservation,
    reused: bool,
    clean: bool,
    after: PassCacheCounts,
    observation: ResourcePreparationObservation,
)
    requires
        call_ensures(
            resource_preparation_observation,
            (Ok(before), Ok(atomic), Ok((exercise, reused)), Ok(clean), Ok(after)),
            Ok::<ResourcePreparationObservation, Error>(observation),
        ),
    ensures
        observation.exercise == exercise,
        observation.allocation_preflight_is_atomic == atomic,
        observation.failure_and_drop_cleanup == clean,
        observation.repeated_reuse_is_exact_and_bounded == reused,
        observation.populated_pass_cache_is_preserved <==> {
            &&& before.samplers == 1 && before.layouts == 0 && before.shaders == 0
                && before.pipelines == 0
            &&& after.samplers == 1 && after.layouts == 0 && after.shaders == 0 && after.pipelines
                == 0
        },
{
}

/// The color filter that is to fail is the first with its work, and the layout that is to fail is that
/// of the first present with keys.
pub proof fn law_failing_passes_are_the_first(
    plan: &RuntimeGraphPreparationPlan,
    filter: Option<RuntimePassId>,
    layout: Option<u64>,
    i: int,
)
    requires
        call_ensures(failing_color_filter, (plan,), filter),
        call_ensures(failing_present_layout, (plan,), layout),
        0 <= i < plan.passes@.len(),
    ensures
        (plan.passes@[i].runtime.kind matches RuntimePassKind::ColorFilter(Some(_))) && (forall|
            j: int,
        |
            0 <= j < i ==> !((#[trigger] plan.passes@[j]).runtime.kind is ColorFilter))
            ==> filter == Some(plan.passes@[i].runtime.id),
        plan.passes@[i].runtime.kind is Present && plan.passes@[i].cache_keys is Some && (forall|
            j: int,
        | 0 <= j < i ==> !((#[trigger] plan.passes@[j]).runtime.kind is Present)) ==> layout
            == Some(plan.passes@[i].cache_keys->0.layout),
        (forall|j: int|
            0 <= j < plan.passes@.len() ==> !((
            #[trigger] plan.passes@[j]).runtime.kind is ColorFilter)) ==> filter is None,
        (forall|j: int|
            0 <= j < plan.passes@.len() ==> !((
            #[trigger] plan.passes@[j]).runtime.kind is Present)) ==> layout is None,
{
    lemma_failing_passes(plan.passes@, i);
}

proof fn lemma_failing_passes(passes: Seq<PreparedPass>, i: int)
    requires
        0 <= i <= passes.len(),
    ensures
        i < passes.len() && (passes[i].runtime.kind matches RuntimePassKind::ColorFilter(Some(_)))
            && (forall|j: int|
            0 <= j < i ==> !((#[trigger] passes[j]).runtime.kind is ColorFilter))
            ==> first_color_filter(passes) == Some(passes[i].runtime.id),
        i < passes.len() && passes[i].runtime.kind is Present && passes[i].cache_keys is Some && (
        forall|j: int| 0 <= j < i ==> !((#[trigger] passes[j]).runtime.kind is Present))
            ==> first_present_layout(passes) == Some(passes[i].cache_keys->0.layout),
        (forall|j: int|
            0 <= j < passes.len() ==> !((#[trigger] passes[j]).runtime.kind is ColorFilter))
            ==> first_color_filter(passes) is None,
        (forall|j: int|
            0 <= j < passes.len() ==> !((#[trigger] passes[j]).runtime.kind is Present))
            ==> first_present_layout(passes) is None,
    decreases passes.len(),
{
    if passes.len() > 0 {
        let rest = passes.drop_first();
        let k = if i > 0 {
            i - 1
        } else {
            0
        };
        lemma_failing_passes(rest, k);
        assert forall|j: int| 0 <= j < rest.len() implies #[trigger] rest[j] == passes[j + 1] by {}
        assert(passes[0].runtime.kind is ColorFilter || !(passes[0].runtime.kind is ColorFilter));
    }
}

/// A cache holds exactly one sampler if that is all it holds.
pub proof fn law_one_sampler_is_all_there_is(counts: PassCacheCounts, exact: bool)
    requires
        call_ensures(PassCacheCounts::has_exactly_one_sampler, (counts,), exact),
    ensures
        exact <==> counts.samplers == 1 && counts.layouts == 0 && counts.shaders == 0
            && counts.pipelines == 0,
{
}

} // verus!
