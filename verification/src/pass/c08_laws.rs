//! What holds of every exact spine.

use vstd::prelude::*;

use crate::pass::c08::{
    capture_count, group_is_exact, is_spine, present_is_exact, target_of, PassDerivation,
};
use crate::pass::model::{PlanModel, RuntimeResourceId, RuntimeResourceProducer};
use crate::pass::search::{first_resource, lemma_first_resource, lemma_resource_found};

verus! {

/// Every pass before the present writes an image that names it as its producer.
proof fn lemma_target(plan: PlanModel, derived: Seq<PassDerivation>, position: int)
    requires
        is_spine(plan, derived),
        0 <= position < plan.passes.len() - 1,
    ensures
        target_of(plan, position) matches Some(target) && {
            &&& target.producer == RuntimeResourceProducer::Pass(plan.passes[position].id)
            &&& plan.passes[position].result.spec_resource() == Some(target.id)
            &&& first_resource(plan.resources, target.id) == Some(target)
        },
{
    if position > 0 {
        let k = (position - 1) / 3;
        assert(group_is_exact(plan, derived, k));
        assert(position == 3 * k + 1 || position == 3 * k + 2 || position == 3 * k + 3);
    }
    lemma_first_resource(plan.resources, plan.passes[position].result.spec_resource()->0);
}

/// In an exact spine no two passes write the same image.
pub proof fn law_spine_targets_are_distinct(
    plan: PlanModel,
    derived: Seq<PassDerivation>,
    first: int,
    second: int,
)
    requires
        is_spine(plan, derived),
        0 <= first < second < plan.passes.len() - 1,
    ensures
        target_of(plan, first) matches Some(left) && target_of(plan, second) matches Some(right)
            && left.id != right.id,
{
    lemma_target(plan, derived, first);
    lemma_target(plan, derived, second);
    assert(plan.passes[first].id != plan.passes[second].id);
}

/// The pass that uses the image of the pass at `position` last: the composite for a canonical
/// image and for what a composite left, the next pass for a capture, the present for the last.
pub open spec fn reader_of(plan: PlanModel, position: int) -> int {
    if position % 3 == 0 {
        if position + 3 < plan.passes.len() {
            position + 3
        } else {
            position + 1
        }
    } else {
        position + 1
    }
}

/// In an exact spine every image is released by the pass that uses it last, after the pass that
/// wrote it.
pub proof fn law_spine_images_are_released_at_last_use(
    plan: PlanModel,
    derived: Seq<PassDerivation>,
    position: int,
)
    requires
        is_spine(plan, derived),
        0 <= position < plan.passes.len() - 1,
    ensures
        position < reader_of(plan, position) < plan.passes.len(),
        target_of(plan, position) matches Some(target) && {
            &&& target.last_use == plan.passes[reader_of(plan, position)].id
            &&& target.expected_reads == 1
            &&& plan.passes[reader_of(plan, position)].releases.contains(target.id)
        },
{
    lemma_target(plan, derived, position);
    let n = capture_count(plan);
    let reader = reader_of(plan, position);
    let target = target_of(plan, position)->0;
    if position == 3 * n {
        assert(present_is_exact(plan));
        assert(plan.passes[reader].releases[0] == target.id);
    } else if position % 3 == 0 {
        let k = position / 3;
        assert(group_is_exact(plan, derived, k));
        assert(plan.passes[reader].releases[0] == target.id);
    } else {
        let k = (position - 1) / 3;
        assert(group_is_exact(plan, derived, k));
        if position % 3 == 1 {
            assert(plan.passes[reader].releases[0] == target.id);
        } else {
            assert(plan.passes[reader].releases[1] == target.id);
        }
    }
}

/// In an exact spine a pass releases only images that it uses last.
pub proof fn law_spine_releases_are_last_uses(
    plan: PlanModel,
    derived: Seq<PassDerivation>,
    position: int,
    release: int,
)
    requires
        is_spine(plan, derived),
        0 <= position < plan.passes.len(),
        0 <= release < plan.passes[position].releases.len(),
    ensures
        first_resource(plan.resources, plan.passes[position].releases[release]) matches Some(
            image,
        ) && image.last_use == plan.passes[position].id,
{
    let n = capture_count(plan);
    if position == 3 * n + 1 {
        assert(present_is_exact(plan));
        lemma_target(plan, derived, position - 1);
    } else if position > 0 {
        let k = (position - 1) / 3;
        assert(group_is_exact(plan, derived, k));
        if position == 3 * k + 2 {
            lemma_target(plan, derived, 3 * k + 1);
        } else {
            assert(position == 3 * k + 3);
            if release == 0 {
                lemma_target(plan, derived, 3 * k);
            } else {
                lemma_target(plan, derived, 3 * k + 2);
            }
        }
    }
}

/// In an exact spine a pass depends only on passes before it.
pub proof fn law_spine_dependencies_precede(
    plan: PlanModel,
    derived: Seq<PassDerivation>,
    position: int,
    dependency: int,
)
    requires
        is_spine(plan, derived),
        0 <= position < plan.passes.len(),
        0 <= dependency < plan.passes[position].dependencies.len(),
    ensures
        exists|earlier: int|
            0 <= earlier < position && (#[trigger] plan.passes[earlier]).id
                == plan.passes[position].dependencies[dependency],
{
    let n = capture_count(plan);
    let id = plan.passes[position].dependencies[dependency];
    if position == 3 * n + 1 {
        assert(present_is_exact(plan));
        assert(plan.passes[position - 1].id == id);
    } else if position > 0 {
        let k = (position - 1) / 3;
        assert(group_is_exact(plan, derived, k));
        if position == 3 * k + 2 {
            assert(plan.passes[3 * k + 1].id == id);
        } else {
            assert(position == 3 * k + 3);
            if dependency == 0 {
                assert(plan.passes[3 * k].id == id);
            } else {
                assert(plan.passes[3 * k + 2].id == id);
            }
        }
    }
}

/// In an exact spine what a pass samples is released by that pass, and was written before it.
pub proof fn law_spine_reads_are_released(
    plan: PlanModel,
    derived: Seq<PassDerivation>,
    position: int,
    read: int,
)
    requires
        is_spine(plan, derived),
        0 <= position < plan.passes.len(),
        0 <= read < plan.passes[position].reads.len(),
    ensures
        plan.passes[position].releases.len() == plan.passes[position].reads.len(),
        plan.passes[position].releases[read] == plan.passes[position].reads[read].resource,
        exists|earlier: int|
            0 <= earlier < position && #[trigger] target_of(plan, earlier) == first_resource(
                plan.resources,
                plan.passes[position].reads[read].resource,
            ) && target_of(plan, earlier) is Some,
{
    let n = capture_count(plan);
    if position == 3 * n + 1 {
        assert(present_is_exact(plan));
        lemma_target(plan, derived, position - 1);
    } else if position > 0 {
        let k = (position - 1) / 3;
        assert(group_is_exact(plan, derived, k));
        if position == 3 * k + 2 {
            lemma_target(plan, derived, 3 * k + 1);
        } else {
            assert(position == 3 * k + 3);
            if read == 0 {
                lemma_target(plan, derived, 3 * k);
            } else {
                lemma_target(plan, derived, 3 * k + 2);
            }
        }
    }
}

/// In an exact spine every requested image is written by exactly one pass: the requests are the
/// targets of the passes, and nothing is allocated that no pass writes.
pub proof fn law_spine_requests_are_the_targets(
    plan: PlanModel,
    derived: Seq<PassDerivation>,
    request: int,
)
    requires
        is_spine(plan, derived),
        0 <= request < plan.resources.len(),
    ensures
        exists|position: int|
            0 <= position < plan.passes.len() - 1 && #[trigger] target_of(plan, position) == Some(
                plan.resources[request],
            ),
{
    let count = (plan.passes.len() - 1) as nat;
    let targets = Seq::new(count, |i: int| target_of(plan, i)->0.id);
    let requests = Seq::new(plan.resources.len(), |i: int| plan.resources[i].id);
    assert(targets.no_duplicates()) by {
        assert forall|i: int, j: int| 0 <= i < targets.len() && 0 <= j < targets.len() && i != j
            implies targets[i] != targets[j] by {
            if i < j {
                law_spine_targets_are_distinct(plan, derived, i, j);
            } else {
                law_spine_targets_are_distinct(plan, derived, j, i);
            }
        }
    }
    assert(requests.no_duplicates());
    targets.unique_seq_to_set();
    requests.unique_seq_to_set();
    assert(targets.to_set().subset_of(requests.to_set())) by {
        assert forall|id: RuntimeResourceId| targets.to_set().contains(id) implies requests.to_set()
            .contains(id) by {
            let i = choose|i: int| 0 <= i < targets.len() && targets[i] == id;
            lemma_target(plan, derived, i);
            lemma_first_resource(plan.resources, id);
            let target = target_of(plan, i)->0;
            let j = choose|j: int| 0 <= j < plan.resources.len() && #[trigger] plan.resources[j]
                == target;
            assert(requests[j] == id);
        }
    }
    vstd::set_lib::lemma_subset_equality(targets.to_set(), requests.to_set());
    assert(requests[request] == plan.resources[request].id);
    assert(requests.to_set().contains(plan.resources[request].id));
    assert(targets.to_set().contains(plan.resources[request].id));
    let position = choose|i: int| 0 <= i < targets.len() && targets[i]
        == plan.resources[request].id;
    lemma_target(plan, derived, position);
    lemma_resource_found(plan.resources, request);
    assert(target_of(plan, position) == Some(plan.resources[request]));
}

} // verus!
