//! Spines built from other spines: one without a capture, one with a second capture.

use vstd::prelude::*;

use crate::error::{Error, LoweringFailure};
use crate::pass::c08::{
    cache_keys_are_exact, capture_count, capture_pair_is_exact, composite_is_exact,
    derives_any, group_is_exact, is_spine, may_derive, present_is_exact, root_is_exact, target_of,
    PassDerivation,
};
use crate::pass::model::{
    LoweredGraphPlan, PassModel, PlanModel, RuntimePassId, RuntimeReadBinding, RuntimeResourceId,
    RuntimeResourceProducer, RuntimeResourceRequest, RuntimeResultBinding,
};
use crate::pass::search::{
    find_resource, find_resource_position, first_resource, first_where, lemma_filter_distinct,
    lemma_filter_step, lemma_first_resource, lemma_first_where, lemma_resource_found,
    passes_are_distinct, resources_are_distinct,
};

verus! {

/// A read of another resource, otherwise the same.
pub open spec fn reading(read: RuntimeReadBinding, resource: RuntimeResourceId) -> RuntimeReadBinding {
    RuntimeReadBinding { resource, ..read }
}

/// The clear and the present alone, with the root read once, by the present.
pub open spec fn zero_capture_model(plan: PlanModel, root: RuntimeResourceRequest) -> PlanModel {
    let clear = plan.passes[0];
    let present = plan.passes.last();
    PlanModel {
        passes: seq![
            clear,
            PassModel {
                dependencies: seq![clear.id],
                reads: present.reads.update(0, reading(present.reads[0], root.id)),
                releases: seq![root.id],
                ..present
            },
        ],
        resources: seq![
            RuntimeResourceRequest { expected_reads: 1, last_use: present.id, ..root },
        ],
        ..plan
    }
}

/// Whether a spine without captures, or a failure, is what a lowered graph gives.
pub open spec fn is_zero_capture(spine: Result<LoweredGraphPlan, Error>, plan: PlanModel) -> bool {
    match spine {
        Ok(spine) => {
            &&& plan.passes.len() > 0
            &&& first_resource(plan.resources, plan.root_working_image) matches Some(root)
                && plan.passes.last().reads.len() > 0 && spine@ == zero_capture_model(
                plan,
                root,
            )
        },
        Err(error) => error == Error::Lowering(
            if plan.passes.len() == 0 {
                LoweringFailure::ZeroCaptureRootClearMissing
            } else if first_resource(plan.resources, plan.root_working_image) is None {
                LoweringFailure::ZeroCaptureRootResourceMissing
            } else {
                LoweringFailure::ZeroCaptureFinalReadMissing
            },
        ) && (plan.passes.len() == 0 || first_resource(
            plan.resources,
            plan.root_working_image,
        ) is None || plan.passes.last().reads.len() == 0),
    }
}

/// The spine of `plan` without its captures.
pub fn c08_zero_capture_spine(plan: &LoweredGraphPlan) -> (spine: Result<LoweredGraphPlan, Error>)
    ensures
        is_zero_capture(spine, plan@),
{
    let length: usize = plan.passes.len();
    if length == 0 {
        return Err(Error::Lowering(LoweringFailure::ZeroCaptureRootClearMissing));
    }
    let clear = plan.passes[0].duplicate();
    let mut present = plan.passes[length - 1].duplicate();
    let mut root = match find_resource(&plan.resources, plan.root_working_image) {
        Some(root) => root,
        None => return Err(Error::Lowering(LoweringFailure::ZeroCaptureRootResourceMissing)),
    };
    proof {
        assert(plan@.passes.last() == plan.passes@[length - 1]@);
    }
    root.expected_reads = 1;
    root.last_use = present.id;
    if present.reads.len() == 0 {
        return Err(Error::Lowering(LoweringFailure::ZeroCaptureFinalReadMissing));
    }
    present.dependencies = vec![clear.id];
    let mut read = present.reads[0];
    read.resource = root.id;
    present.reads[0] = read;
    present.releases = vec![root.id];
    let ghost clear_model = clear@;
    let ghost present_model = present@;
    let spine = LoweredGraphPlan {
        passes: vec![clear, present],
        resources: vec![root],
        root_working_image: plan.root_working_image,
        final_present: plan.final_present,
        working_format: plan.working_format,
        output_format: plan.output_format,
    };
    proof {
        let found = first_resource(plan@.resources, plan@.root_working_image)->0;
        let expected = zero_capture_model(plan@, found);
        assert(clear_model == plan@.passes[0]);
        assert(present_model =~= expected.passes[1]);
        assert(spine@.passes =~= expected.passes);
        assert(spine@.resources =~= expected.resources);
        assert(spine@ =~= expected);
    }
    Ok(spine)
}

/// A spine without a capture is not executable: the present would follow the clear.
pub proof fn law_zero_capture_spine_is_not_executable(
    plan: PlanModel,
    root: RuntimeResourceRequest,
    derived: Seq<PassDerivation>,
)
    ensures
        !is_spine(zero_capture_model(plan, root), derived),
{
}

/// The identities of a second capture, taken from another graph.
#[derive(Clone, Copy, Debug, PartialEq, Eq, Structural)]
pub struct C08DonorIdentities {
    pub capture_pass: RuntimePassId,
    pub canonicalize_pass: RuntimePassId,
    pub composite_pass: RuntimePassId,
    pub capture_target: RuntimeResourceId,
    pub canonical_target: RuntimeResourceId,
    pub composite_target: RuntimeResourceId,
}

pub open spec fn holds_pass(plan: PlanModel, id: RuntimePassId) -> bool {
    exists|i: int| 0 <= i < plan.passes.len() && (#[trigger] plan.passes[i]).id == id
}

pub open spec fn holds_resource(plan: PlanModel, id: RuntimeResourceId) -> bool {
    exists|i: int| 0 <= i < plan.resources.len() && (#[trigger] plan.resources[i]).id == id
}

pub open spec fn pass_ids(plan: PlanModel) -> Seq<RuntimePassId> {
    plan.passes.map_values(|pass: PassModel| pass.id)
}

pub open spec fn resource_ids(plan: PlanModel) -> Seq<RuntimeResourceId> {
    plan.resources.map_values(|resource: RuntimeResourceRequest| resource.id)
}

/// The passes of the donor that the plan does not have, in order.
pub open spec fn spare_passes(plan: PlanModel, donor: PlanModel) -> Seq<RuntimePassId> {
    pass_ids(donor).filter(|id: RuntimePassId| !holds_pass(plan, id))
}

/// The resources of the donor that the plan does not have, in order.
pub open spec fn spare_resources(plan: PlanModel, donor: PlanModel) -> Seq<RuntimeResourceId> {
    resource_ids(donor).filter(|id: RuntimeResourceId| !holds_resource(plan, id))
}

/// The first three spare passes and the first three spare resources.
pub open spec fn donated(plan: PlanModel, donor: PlanModel) -> C08DonorIdentities {
    let passes = spare_passes(plan, donor);
    let resources = spare_resources(plan, donor);
    C08DonorIdentities {
        capture_pass: passes[0],
        canonicalize_pass: passes[1],
        composite_pass: passes[2],
        capture_target: resources[0],
        canonical_target: resources[1],
        composite_target: resources[2],
    }
}

/// Which identity the donor lacks, if it lacks one.
pub open spec fn donor_failure(plan: PlanModel, donor: PlanModel) -> Option<LoweringFailure> {
    let passes = spare_passes(plan, donor).len();
    let resources = spare_resources(plan, donor).len();
    if passes == 0 {
        Some(LoweringFailure::SpareCapturePassMissing)
    } else if passes == 1 {
        Some(LoweringFailure::SpareCanonicalPassMissing)
    } else if passes == 2 {
        Some(LoweringFailure::SpareCompositePassMissing)
    } else if resources == 0 {
        Some(LoweringFailure::SpareCaptureResourceMissing)
    } else if resources == 1 {
        Some(LoweringFailure::SpareCanonicalResourceMissing)
    } else if resources == 2 {
        Some(LoweringFailure::SpareCompositeResourceMissing)
    } else {
        None
    }
}

fn plan_holds_pass(plan: &LoweredGraphPlan, id: RuntimePassId) -> (holds: bool)
    ensures
        holds == holds_pass(plan@, id),
{
    let length: usize = plan.passes.len();
    let mut next: usize = 0;
    while next < length
        invariant
            next <= length,
            length == plan.passes@.len(),
            forall|i: int| 0 <= i < next ==> (#[trigger] plan@.passes[i]).id != id,
        decreases length - next,
    {
        if plan.passes[next].id == id {
            proof {
                assert(plan@.passes[next as int].id == id);
            }
            return true;
        }
        next = next + 1;
    }
    false
}

fn plan_holds_resource(plan: &LoweredGraphPlan, id: RuntimeResourceId) -> (holds: bool)
    ensures
        holds == holds_resource(plan@, id),
{
    proof {
        lemma_first_resource(plan@.resources, id);
    }
    find_resource(&plan.resources, id).is_some()
}

fn spare_pass_ids(plan: &LoweredGraphPlan, donor: &LoweredGraphPlan) -> (spare: Vec<RuntimePassId>)
    ensures
        spare@ == spare_passes(plan@, donor@),
{
    let ghost ids = pass_ids(donor@);
    let ghost keep = |id: RuntimePassId| !holds_pass(plan@, id);
    let length: usize = donor.passes.len();
    let mut spare: Vec<RuntimePassId> = Vec::new();
    let mut next: usize = 0;
    proof {
        reveal(Seq::filter);
        assert(ids.take(0) =~= Seq::empty());
    }
    while next < length
        invariant
            next <= length,
            length == donor.passes@.len(),
            ids == pass_ids(donor@),
            keep == (|id: RuntimePassId| !holds_pass(plan@, id)),
            spare@ == ids.take(next as int).filter(keep),
        decreases length - next,
    {
        let id = donor.passes[next].id;
        proof {
            lemma_filter_step(ids, keep, next as int);
            assert(ids[next as int] == id);
        }
        if !plan_holds_pass(plan, id) {
            spare.push(id);
        }
        next = next + 1;
    }
    proof {
        assert(ids.take(length as int) =~= ids);
    }
    spare
}

fn spare_resource_ids(plan: &LoweredGraphPlan, donor: &LoweredGraphPlan) -> (spare: Vec<
    RuntimeResourceId,
>)
    ensures
        spare@ == spare_resources(plan@, donor@),
{
    let ghost ids = resource_ids(donor@);
    let ghost keep = |id: RuntimeResourceId| !holds_resource(plan@, id);
    let length: usize = donor.resources.len();
    let mut spare: Vec<RuntimeResourceId> = Vec::new();
    let mut next: usize = 0;
    proof {
        reveal(Seq::filter);
        assert(ids.take(0) =~= Seq::empty());
    }
    while next < length
        invariant
            next <= length,
            length == donor.resources@.len(),
            ids == resource_ids(donor@),
            keep == (|id: RuntimeResourceId| !holds_resource(plan@, id)),
            spare@ == ids.take(next as int).filter(keep),
        decreases length - next,
    {
        let id = donor.resources[next].id;
        proof {
            lemma_filter_step(ids, keep, next as int);
            assert(ids[next as int] == id);
        }
        if !plan_holds_resource(plan, id) {
            spare.push(id);
        }
        next = next + 1;
    }
    proof {
        assert(ids.take(length as int) =~= ids);
    }
    spare
}

/// The identities that a second capture takes from the donor.
pub fn c08_donor_identities(plan: &LoweredGraphPlan, donor: &LoweredGraphPlan) -> (identities:
    Result<C08DonorIdentities, Error>)
    ensures
        identities == (match donor_failure(plan@, donor@) {
            Some(failure) => Err::<C08DonorIdentities, Error>(Error::Lowering(failure)),
            None => Ok(donated(plan@, donor@)),
        }),
{
    let passes = spare_pass_ids(plan, donor);
    let resources = spare_resource_ids(plan, donor);
    let failure = if passes.len() == 0 {
        LoweringFailure::SpareCapturePassMissing
    } else if passes.len() == 1 {
        LoweringFailure::SpareCanonicalPassMissing
    } else if passes.len() == 2 {
        LoweringFailure::SpareCompositePassMissing
    } else if resources.len() == 0 {
        LoweringFailure::SpareCaptureResourceMissing
    } else if resources.len() == 1 {
        LoweringFailure::SpareCanonicalResourceMissing
    } else if resources.len() == 2 {
        LoweringFailure::SpareCompositeResourceMissing
    } else {
        return Ok(
            C08DonorIdentities {
                capture_pass: passes[0],
                canonicalize_pass: passes[1],
                composite_pass: passes[2],
                capture_target: resources[0],
                canonical_target: resources[1],
                composite_target: resources[2],
            },
        );
    };
    Err(Error::Lowering(failure))
}

/// The image that the pass at `position` writes.
pub open spec fn target_id(plan: PlanModel, position: int) -> RuntimeResourceId {
    plan.passes[position].result->Resource_0
}

/// Why no second capture can be added to a plan, before the result is held against the subset.
pub open spec fn two_capture_failure(plan: PlanModel, donor: PlanModel) -> Option<LoweringFailure> {
    if donor_failure(plan, donor) is Some {
        donor_failure(plan, donor)
    } else if plan.passes.len() != 5 || plan.resources.len() != 4 {
        Some(LoweringFailure::NotOneCaptureSpine)
    } else if plan.passes[1].result !is Resource {
        Some(LoweringFailure::CaptureTargetMissing)
    } else if plan.passes[2].result !is Resource {
        Some(LoweringFailure::CanonicalTargetMissing)
    } else if plan.passes[3].result !is Resource {
        Some(LoweringFailure::CompositeTargetMissing)
    } else if first_resource(plan.resources, target_id(plan, 1)) is None {
        Some(LoweringFailure::CaptureResourceLost)
    } else if first_resource(plan.resources, target_id(plan, 2)) is None {
        Some(LoweringFailure::CanonicalResourceLost)
    } else if first_resource(plan.resources, target_id(plan, 3)) is None {
        Some(LoweringFailure::CompositeResourceLost)
    } else {
        None
    }
}

/// The requests of a plan with a second capture: the first result is now used last by the second
/// composite, and the three images of the second capture are like those of the first.
pub open spec fn two_capture_resources(
    plan: PlanModel,
    second: C08DonorIdentities,
) -> Seq<RuntimeResourceRequest> {
    let capture = first_resource(plan.resources, target_id(plan, 1))->0;
    let canonical = first_resource(plan.resources, target_id(plan, 2))->0;
    let composite = first_resource(plan.resources, target_id(plan, 3))->0;
    let position = first_where(
        plan.resources,
        |resource: RuntimeResourceRequest| resource.id == target_id(plan, 3),
    )->0;
    plan.resources.update(
        position,
        RuntimeResourceRequest { last_use: second.composite_pass, ..composite },
    ) + seq![
        RuntimeResourceRequest {
            id: second.capture_target,
            producer: RuntimeResourceProducer::Pass(second.capture_pass),
            last_use: second.canonicalize_pass,
            ..capture
        },
        RuntimeResourceRequest {
            id: second.canonical_target,
            producer: RuntimeResourceProducer::Pass(second.canonicalize_pass),
            last_use: second.composite_pass,
            ..canonical
        },
        RuntimeResourceRequest {
            id: second.composite_target,
            producer: RuntimeResourceProducer::Pass(second.composite_pass),
            last_use: plan.passes[4].id,
            ..composite
        },
    ]
}

/// A plan with a second capture drawn over the result of the first.
pub open spec fn two_capture_model(plan: PlanModel, second: C08DonorIdentities) -> PlanModel {
    let canonicalize = plan.passes[2];
    let composite = plan.passes[3];
    let present = plan.passes[4];
    PlanModel {
        passes: seq![
            plan.passes[0],
            plan.passes[1],
            plan.passes[2],
            plan.passes[3],
            PassModel {
                id: second.capture_pass,
                result: RuntimeResultBinding::Resource(second.capture_target),
                ..plan.passes[1]
            },
            PassModel {
                id: second.canonicalize_pass,
                dependencies: seq![second.capture_pass],
                reads: canonicalize.reads.update(
                    0,
                    reading(canonicalize.reads[0], second.capture_target),
                ),
                result: RuntimeResultBinding::Resource(second.canonical_target),
                releases: seq![second.capture_target],
                ..canonicalize
            },
            PassModel {
                id: second.composite_pass,
                dependencies: seq![composite.id, second.canonicalize_pass],
                reads: composite.reads.update(
                    0,
                    reading(composite.reads[0], target_id(plan, 3)),
                ).update(1, reading(composite.reads[1], second.canonical_target)),
                result: RuntimeResultBinding::Resource(second.composite_target),
                releases: seq![target_id(plan, 3), second.canonical_target],
                ..composite
            },
            PassModel {
                dependencies: seq![second.composite_pass],
                reads: present.reads.update(0, reading(present.reads[0], second.composite_target)),
                releases: seq![second.composite_target],
                ..present
            },
        ],
        resources: two_capture_resources(plan, second),
        ..plan
    }
}

/// Whether the passes that a second capture copies have the reads that it redirects.
pub open spec fn has_redirected_reads(plan: PlanModel) -> bool {
    &&& plan.passes[2].reads.len() >= 1
    &&& plan.passes[3].reads.len() >= 2
    &&& plan.passes[4].reads.len() >= 1
}

/// The requests of a plan with a second capture.
fn c08_second_capture_resources(
    plan: &LoweredGraphPlan,
    first_targets: (RuntimeResourceId, RuntimeResourceId, RuntimeResourceId),
    second: C08DonorIdentities,
) -> (resources: Result<Vec<RuntimeResourceRequest>, Error>)
    requires
        plan@.passes.len() == 5,
        plan@.passes[1].result == RuntimeResultBinding::Resource(first_targets.0),
        plan@.passes[2].result == RuntimeResultBinding::Resource(first_targets.1),
        plan@.passes[3].result == RuntimeResultBinding::Resource(first_targets.2),
    ensures
        match resources {
            Ok(resources) => {
                &&& first_resource(plan@.resources, first_targets.0) is Some
                &&& first_resource(plan@.resources, first_targets.1) is Some
                &&& first_resource(plan@.resources, first_targets.2) is Some
                &&& resources@ == two_capture_resources(plan@, second)
            },
            Err(error) => if first_resource(plan@.resources, first_targets.0) is None {
                error == Error::Lowering(LoweringFailure::CaptureResourceLost)
            } else if first_resource(plan@.resources, first_targets.1) is None {
                error == Error::Lowering(LoweringFailure::CanonicalResourceLost)
            } else {
                &&& first_resource(plan@.resources, first_targets.2) is None
                &&& error == Error::Lowering(LoweringFailure::CompositeResourceLost)
            },
        },
{
    let mut capture = match find_resource(&plan.resources, first_targets.0) {
        Some(capture) => capture,
        None => return Err(Error::Lowering(LoweringFailure::CaptureResourceLost)),
    };
    capture.id = second.capture_target;
    capture.producer = RuntimeResourceProducer::Pass(second.capture_pass);
    capture.last_use = second.canonicalize_pass;
    let mut canonical = match find_resource(&plan.resources, first_targets.1) {
        Some(canonical) => canonical,
        None => return Err(Error::Lowering(LoweringFailure::CanonicalResourceLost)),
    };
    canonical.id = second.canonical_target;
    canonical.producer = RuntimeResourceProducer::Pass(second.canonicalize_pass);
    canonical.last_use = second.composite_pass;
    let position = match find_resource_position(&plan.resources, first_targets.2) {
        Some(position) => position,
        None => return Err(Error::Lowering(LoweringFailure::CompositeResourceLost)),
    };
    let mut first_result = plan.resources[position];
    let mut composite = first_result;
    composite.id = second.composite_target;
    composite.producer = RuntimeResourceProducer::Pass(second.composite_pass);
    composite.last_use = plan.passes[4].id;
    first_result.last_use = second.composite_pass;
    let mut resources = crate::pass::model::copy_values(&plan.resources);
    resources.set(position, first_result);
    resources.push(capture);
    resources.push(canonical);
    resources.push(composite);
    proof {
        assert(plan@.passes[4].id == plan.passes@[4].id);
        assert(target_id(plan@, 3) == first_targets.2);
        assert((|resource: RuntimeResourceRequest| resource.id == target_id(plan@, 3)) =~= (
        |resource: RuntimeResourceRequest| resource.id == first_targets.2));
        assert(resources@ =~= two_capture_resources(plan@, second));
    }
    Ok(resources)
}

/// Whether a spine with two captures, or a failure, is what two lowered graphs give.
pub open spec fn is_two_capture<D: Fn(&LoweredGraphPlan) -> Vec<PassDerivation>>(
    spine: Result<LoweredGraphPlan, Error>,
    plan: PlanModel,
    donor: PlanModel,
    derive: D,
) -> bool {
    let extended = two_capture_model(plan, donated(plan, donor));
    match two_capture_failure(plan, donor) {
        Some(failure) => spine == Err::<LoweredGraphPlan, Error>(Error::Lowering(failure)),
        None => exists|derived: Seq<PassDerivation>|
            {
                &&& #[trigger] may_derive(derive, extended, derived)
                &&& if is_spine(extended, derived) {
                    spine matches Ok(spine) && spine@ == extended
                } else {
                    spine == Err::<LoweredGraphPlan, Error>(
                        Error::Lowering(LoweringFailure::TwoCaptureSubsetLost),
                    )
                }
            },
    }
}

/// A spine with one capture, extended by a second. `derive` gives the derivations of a plan.
pub fn c08_two_capture_spine<D: Fn(&LoweredGraphPlan) -> Vec<PassDerivation>>(
    plan: LoweredGraphPlan,
    donor: &LoweredGraphPlan,
    derive: &D,
) -> (spine: Result<LoweredGraphPlan, Error>)
    requires
        derives_any(*derive),
        two_capture_failure(plan@, donor@) is None ==> has_redirected_reads(plan@),
    ensures
        is_two_capture(spine, plan@, donor@, *derive),
{
    let second = match c08_donor_identities(&plan, donor) {
        Ok(second) => second,
        Err(error) => return Err(error),
    };
    if plan.passes.len() != 5 || plan.resources.len() != 4 {
        return Err(Error::Lowering(LoweringFailure::NotOneCaptureSpine));
    }
    let ghost models = plan@.passes;
    proof {
        assert forall|i: int| 0 <= i < 5 implies #[trigger] models[i] == plan.passes@[i]@ by {}
    }
    let capture_target = match plan.passes[1].result {
        RuntimeResultBinding::Resource(target) => target,
        _ => {
            assert(models[1].result !is Resource);
            return Err(Error::Lowering(LoweringFailure::CaptureTargetMissing));
        },
    };
    assert(models[1].result is Resource);
    let canonical_target = match plan.passes[2].result {
        RuntimeResultBinding::Resource(target) => target,
        _ => {
            assert(models[2].result !is Resource);
            return Err(Error::Lowering(LoweringFailure::CanonicalTargetMissing));
        },
    };
    assert(models[2].result is Resource);
    let composite_target = match plan.passes[3].result {
        RuntimeResultBinding::Resource(target) => target,
        _ => {
            assert(models[3].result !is Resource);
            return Err(Error::Lowering(LoweringFailure::CompositeTargetMissing));
        },
    };
    assert(models[3].result is Resource);
    let resources = match c08_second_capture_resources(
        &plan,
        (capture_target, canonical_target, composite_target),
        second,
    ) {
        Ok(resources) => resources,
        Err(error) => return Err(error),
    };
    assert(has_redirected_reads(plan@));
    assert(models[2].reads == plan.passes@[2].reads@);
    assert(models[3].reads == plan.passes@[3].reads@);
    assert(models[4].reads == plan.passes@[4].reads@);

    let mut second_capture = plan.passes[1].duplicate();
    second_capture.id = second.capture_pass;
    second_capture.result = RuntimeResultBinding::Resource(second.capture_target);

    let mut second_canonicalize = plan.passes[2].duplicate();
    second_canonicalize.id = second.canonicalize_pass;
    second_canonicalize.dependencies = vec![second.capture_pass];
    let mut source = second_canonicalize.reads[0];
    source.resource = second.capture_target;
    second_canonicalize.reads[0] = source;
    second_canonicalize.result = RuntimeResultBinding::Resource(second.canonical_target);
    second_canonicalize.releases = vec![second.capture_target];

    let mut second_composite = plan.passes[3].duplicate();
    second_composite.id = second.composite_pass;
    second_composite.dependencies = vec![plan.passes[3].id, second.canonicalize_pass];
    let mut parent = second_composite.reads[0];
    parent.resource = composite_target;
    second_composite.reads[0] = parent;
    let mut canonical = second_composite.reads[1];
    canonical.resource = second.canonical_target;
    second_composite.reads[1] = canonical;
    second_composite.result = RuntimeResultBinding::Resource(second.composite_target);
    second_composite.releases = vec![composite_target, second.canonical_target];

    let mut present = plan.passes[4].duplicate();
    present.dependencies = vec![second.composite_pass];
    let mut finished = present.reads[0];
    finished.resource = second.composite_target;
    present.reads[0] = finished;
    present.releases = vec![second.composite_target];

    let ghost expected = two_capture_model(plan@, second);
    proof {
        assert(second_capture@ =~= expected.passes[4]);
        assert(second_canonicalize@ =~= expected.passes[5]);
        assert(second_composite@ =~= expected.passes[6]);
        assert(present@ =~= expected.passes[7]);
    }
    let mut passes = plan.passes;
    passes.truncate(4);
    passes.push(second_capture);
    passes.push(second_canonicalize);
    passes.push(second_composite);
    passes.push(present);
    let spine = LoweredGraphPlan {
        passes,
        resources,
        root_working_image: plan.root_working_image,
        final_present: plan.final_present,
        working_format: plan.working_format,
        output_format: plan.output_format,
    };
    proof {
        assert forall|i: int| 0 <= i < 8 implies #[trigger] spine@.passes[i]
            == expected.passes[i] by {
            if i < 4 {
                assert(spine@.passes[i] == models[i]);
            }
        }
        assert(spine@.passes =~= expected.passes);
        assert(spine@ =~= expected);
    }
    assert(call_requires(*derive, (&spine,)));
    let derived = derive(&spine);
    assert(may_derive(*derive, expected, derived@));
    match spine.c08_execution_facts(&derived) {
        Some(_) => Ok(spine),
        None => Err(Error::Lowering(LoweringFailure::TwoCaptureSubsetLost)),
    }
}

proof fn lemma_donated_is_fresh(plan: PlanModel, donor: PlanModel)
    requires
        passes_are_distinct(donor.passes),
        resources_are_distinct(donor.resources),
        donor_failure(plan, donor) is None,
    ensures
        ({
            let second = donated(plan, donor);
            &&& !holds_pass(plan, second.capture_pass)
            &&& !holds_pass(plan, second.canonicalize_pass)
            &&& !holds_pass(plan, second.composite_pass)
            &&& second.capture_pass != second.canonicalize_pass
            &&& second.capture_pass != second.composite_pass
            &&& second.canonicalize_pass != second.composite_pass
            &&& !holds_resource(plan, second.capture_target)
            &&& !holds_resource(plan, second.canonical_target)
            &&& !holds_resource(plan, second.composite_target)
            &&& second.capture_target != second.canonical_target
            &&& second.capture_target != second.composite_target
            &&& second.canonical_target != second.composite_target
        }),
{
    let passes = pass_ids(donor);
    let resources = resource_ids(donor);
    assert(passes.no_duplicates()) by {
        assert forall|i: int, j: int| 0 <= i < passes.len() && 0 <= j < passes.len() && i != j
            implies passes[i] != passes[j] by {
            assert(donor.passes[i].id != donor.passes[j].id);
        }
    }
    assert(resources.no_duplicates()) by {
        assert forall|i: int, j: int|
            0 <= i < resources.len() && 0 <= j < resources.len() && i != j implies resources[i]
            != resources[j] by {
            assert(donor.resources[i].id != donor.resources[j].id);
        }
    }
    let fresh_pass = |id: RuntimePassId| !holds_pass(plan, id);
    let fresh_resource = |id: RuntimeResourceId| !holds_resource(plan, id);
    lemma_filter_distinct(passes, fresh_pass);
    lemma_filter_distinct(resources, fresh_resource);
    assert(fresh_pass(spare_passes(plan, donor)[0]));
    assert(fresh_pass(spare_passes(plan, donor)[1]));
    assert(fresh_pass(spare_passes(plan, donor)[2]));
    assert(fresh_resource(spare_resources(plan, donor)[0]));
    assert(fresh_resource(spare_resources(plan, donor)[1]));
    assert(fresh_resource(spare_resources(plan, donor)[2]));
}

/// Whether the derivations of a plan with a second capture repeat those of the first capture.
pub open spec fn repeats_first_capture(
    derived: Seq<PassDerivation>,
    extended: Seq<PassDerivation>,
) -> bool {
    &&& extended.len() == 8
    &&& derived.len() >= 5
    &&& forall|i: int| 0 <= i < 4 ==> #[trigger] extended[i] == derived[i]
    &&& extended[4] == derived[1]
    &&& extended[5] == derived[2]
    &&& extended[6] == derived[3]
    &&& extended[7] == derived[4]
}

/// A second capture keeps the spine: a plan with one exact capture, extended with the identities
/// of a donor that has enough of its own, is an exact spine with two.
#[verifier::rlimit(50)]
pub proof fn law_second_capture_keeps_the_spine(
    plan: PlanModel,
    donor: PlanModel,
    derived: Seq<PassDerivation>,
    extended: Seq<PassDerivation>,
)
    requires
        is_spine(plan, derived),
        plan.passes.len() == 5,
        passes_are_distinct(donor.passes),
        resources_are_distinct(donor.resources),
        donor_failure(plan, donor) is None,
        repeats_first_capture(derived, extended),
    ensures
        two_capture_failure(plan, donor) is None,
        has_redirected_reads(plan),
        is_spine(two_capture_model(plan, donated(plan, donor)), extended),
{
    let second = donated(plan, donor);
    let spine = two_capture_model(plan, second);
    lemma_donated_is_fresh(plan, donor);
    assert(group_is_exact(plan, derived, 0));
    assert(present_is_exact(plan));
    assert(root_is_exact(plan));
    assert(two_capture_failure(plan, donor) is None);

    let t0 = plan.root_working_image;
    let t1 = target_id(plan, 1);
    let t2 = target_id(plan, 2);
    let t3 = target_id(plan, 3);
    lemma_first_where(plan.resources, |resource: RuntimeResourceRequest| resource.id == t3);
    let position = first_where(
        plan.resources,
        |resource: RuntimeResourceRequest| resource.id == target_id(plan, 3),
    )->0;
    assert((|resource: RuntimeResourceRequest| resource.id == target_id(plan, 3)) =~= (
    |resource: RuntimeResourceRequest| resource.id == t3));
    let old = plan.resources;
    let new = spine.resources;
    assert(new.len() == 7);
    assert(resources_are_distinct(new)) by {
        assert forall|i: int, j: int| 0 <= i < j < new.len() implies (#[trigger] new[i]).id != (
        #[trigger] new[j]).id by {
            if i < 4 {
                assert(new[i].id == old[i].id);
                assert(holds_resource(plan, old[i].id));
                if j < 4 {
                    assert(new[j].id == old[j].id);
                }
            }
        }
    }
    assert(passes_are_distinct(spine.passes)) by {
        assert forall|i: int, j: int| 0 <= i < j < spine.passes.len() implies (
        #[trigger] spine.passes[i]).id != (#[trigger] spine.passes[j]).id by {
            if i < 4 {
                assert(holds_pass(plan, plan.passes[i].id));
            }
            assert(holds_pass(plan, plan.passes[4].id));
        }
    }
    lemma_first_resource(old, t0);
    lemma_first_resource(old, t1);
    lemma_first_resource(old, t2);
    let p0 = choose|i: int| 0 <= i < old.len() && #[trigger] old[i] == first_resource(old, t0)->0;
    let p1 = choose|i: int| 0 <= i < old.len() && #[trigger] old[i] == first_resource(old, t1)->0;
    let p2 = choose|i: int| 0 <= i < old.len() && #[trigger] old[i] == first_resource(old, t2)->0;
    lemma_resource_found(new, p0);
    lemma_resource_found(new, p1);
    lemma_resource_found(new, p2);
    lemma_resource_found(new, position);
    lemma_resource_found(new, 4);
    lemma_resource_found(new, 5);
    lemma_resource_found(new, 6);
    // The four targets differ, because each names another pass as its producer.
    assert(target_of(plan, 0)->0.producer == RuntimeResourceProducer::Pass(plan.passes[0].id));
    assert(plan.passes[0].id != plan.passes[3].id);
    assert(plan.passes[1].id != plan.passes[3].id);
    assert(plan.passes[2].id != plan.passes[3].id);
    assert(p0 != position && p1 != position && p2 != position);
    assert(target_of(spine, 0) == target_of(plan, 0));
    assert(target_of(spine, 1) == target_of(plan, 1));
    assert(target_of(spine, 2) == target_of(plan, 2));
    assert(target_of(spine, 3) == Some(new[position]));
    assert(target_of(spine, 4) == Some(new[4]));
    assert(target_of(spine, 5) == Some(new[5]));
    assert(target_of(spine, 6) == Some(new[6]));
    assert(root_is_exact(spine));
    assert(group_is_exact(spine, extended, 0)) by {
        assert(capture_pair_is_exact(plan, 0));
        assert(composite_is_exact(plan, 0));
        assert(capture_pair_is_exact(spine, 0));
        assert(composite_is_exact(spine, 0));
    }
    assert(group_is_exact(spine, extended, 1)) by {
        assert(capture_pair_is_exact(plan, 0));
        assert(composite_is_exact(plan, 0));
        assert(capture_pair_is_exact(spine, 1));
        assert(composite_is_exact(spine, 1));
    }
    assert(present_is_exact(spine));
    assert(cache_keys_are_exact(spine, extended)) by {
        assert forall|i: int| 0 <= i < spine.passes.len() implies i < extended.len()
            && extended[i].cache_keys == Some((#[trigger] spine.passes[i]).cache_keys) by {
            assert(plan.passes[0].cache_keys == derived[0].cache_keys->0);
            assert(plan.passes[1].cache_keys == derived[1].cache_keys->0);
            assert(plan.passes[2].cache_keys == derived[2].cache_keys->0);
            assert(plan.passes[3].cache_keys == derived[3].cache_keys->0);
            assert(plan.passes[4].cache_keys == derived[4].cache_keys->0);
            if i < 4 {
                assert(extended[i] == derived[i]);
            }
        }
    }
    assert(capture_count(spine) == 2);
    assert forall|k: int| 0 <= k < capture_count(spine) implies #[trigger] group_is_exact(
        spine,
        extended,
        k,
    ) by {
        assert(k == 0 || k == 1);
    }
}

/// A spine without captures is the clear and the present of a graph: the present depends on the clear
/// alone, and reads and releases the root, which is read once and used last by it.
pub proof fn law_zero_capture_spines(plan: &LoweredGraphPlan, spine: LoweredGraphPlan)
    requires
        call_ensures(
            c08_zero_capture_spine,
            (plan,),
            Ok::<LoweredGraphPlan, Error>(spine),
        ),
    ensures
        spine@.passes.len() == 2,
        spine@.passes[0] == plan@.passes[0],
        ({
            let authored = plan@.passes[plan@.passes.len() - 1];
            let present = spine@.passes[1];
            &&& present.id == authored.id
            &&& present.kind == authored.kind
            &&& present.result == authored.result
            &&& present.cache_keys == authored.cache_keys
            &&& present.dependencies == seq![plan@.passes[0].id]
            &&& present.reads.len() == authored.reads.len()
            &&& present.reads[0].resource == plan@.root_working_image
            &&& present.reads[0].role == authored.reads[0].role
            &&& present.releases == seq![plan@.root_working_image]
            &&& spine@.resources.len() == 1
            &&& spine@.resources[0].id == plan@.root_working_image
            &&& spine@.resources[0].expected_reads == 1
            &&& spine@.resources[0].last_use == authored.id
            &&& spine@.root_working_image == plan@.root_working_image
            &&& spine@.final_present == plan@.final_present
            &&& spine@.working_format == plan@.working_format
            &&& spine@.output_format == plan@.output_format
        }),
{
    lemma_first_resource(plan@.resources, plan@.root_working_image);
}

/// The identities that a donor gives are its own, in order, and none that the graph has.
pub proof fn law_donated_identities_are_spare(
    plan: &LoweredGraphPlan,
    donor: &LoweredGraphPlan,
    result: Result<C08DonorIdentities, Error>,
    i: int,
)
    requires
        call_ensures(c08_donor_identities, (plan, donor), result),
    ensures
        ({
            let passes = pass_ids(donor@).filter(|id: RuntimePassId| !holds_pass(plan@, id));
            let images = resource_ids(donor@).filter(
                |id: RuntimeResourceId| !holds_resource(plan@, id),
            );
            &&& result is Ok <==> passes.len() >= 3 && images.len() >= 3
            &&& result matches Ok(found) ==> {
                &&& found.capture_pass == passes[0]
                &&& found.canonicalize_pass == passes[1]
                &&& found.composite_pass == passes[2]
                &&& found.capture_target == images[0]
                &&& found.canonical_target == images[1]
                &&& found.composite_target == images[2]
            }
        }),
        result matches Ok(found) ==> {
            &&& 0 <= i < plan@.passes.len() ==> plan@.passes[i].id != found.capture_pass
                && plan@.passes[i].id != found.canonicalize_pass && plan@.passes[i].id
                != found.composite_pass
            &&& 0 <= i < plan@.resources.len() ==> plan@.resources[i].id != found.capture_target
                && plan@.resources[i].id != found.canonical_target && plan@.resources[i].id
                != found.composite_target
        },
{
    if result is Ok {
        let fresh_pass = |id: RuntimePassId| !holds_pass(plan@, id);
        let fresh_image = |id: RuntimeResourceId| !holds_resource(plan@, id);
        #[allow(deprecated)]
        pass_ids(donor@).filter_lemma(fresh_pass);
        #[allow(deprecated)]
        resource_ids(donor@).filter_lemma(fresh_image);
        assert(fresh_pass(spare_passes(plan@, donor@)[0]));
        assert(fresh_pass(spare_passes(plan@, donor@)[1]));
        assert(fresh_pass(spare_passes(plan@, donor@)[2]));
        assert(fresh_image(spare_resources(plan@, donor@)[0]));
        assert(fresh_image(spare_resources(plan@, donor@)[1]));
        assert(fresh_image(spare_resources(plan@, donor@)[2]));
    }
}

/// A second capture is drawn over what the first composite left: its passes are those of the first with
/// the donated identities, its composite follows the first one and its own canonicalization, and the
/// present reads what it left.
pub proof fn law_second_captures_are_drawn_over_the_first<
    D: Fn(&LoweredGraphPlan) -> Vec<PassDerivation>,
>(
    plan: LoweredGraphPlan,
    donor: &LoweredGraphPlan,
    derive: &D,
    spine: LoweredGraphPlan,
    second: C08DonorIdentities,
    i: int,
)
    requires
        call_ensures(
            c08_two_capture_spine::<D>,
            (plan, donor, derive),
            Ok::<LoweredGraphPlan, Error>(spine),
        ),
        call_ensures(
            c08_donor_identities,
            (&plan, donor),
            Ok::<C08DonorIdentities, Error>(second),
        ),
    ensures
        spine@.passes.len() == 8,
        0 <= i < 4 ==> spine@.passes[i] == plan@.passes[i],
        ({
            let left = plan@.passes[3].result->Resource_0;
            let capture = spine@.passes[4];
            let canonicalize = spine@.passes[5];
            let composite = spine@.passes[6];
            let present = spine@.passes[7];
            &&& capture.id == second.capture_pass
            &&& capture.kind == plan@.passes[1].kind
            &&& capture.result == RuntimeResultBinding::Resource(second.capture_target)
            &&& canonicalize.id == second.canonicalize_pass
            &&& canonicalize.kind == plan@.passes[2].kind
            &&& canonicalize.dependencies == seq![second.capture_pass]
            &&& plan@.passes[2].reads.len() > 0 ==> canonicalize.reads[0].resource
                == second.capture_target
            &&& canonicalize.result == RuntimeResultBinding::Resource(second.canonical_target)
            &&& canonicalize.releases == seq![second.capture_target]
            &&& composite.id == second.composite_pass
            &&& composite.kind == plan@.passes[3].kind
            &&& composite.dependencies == seq![plan@.passes[3].id, second.canonicalize_pass]
            &&& plan@.passes[3].reads.len() > 1 ==> composite.reads[0].resource == left
                && composite.reads[1].resource == second.canonical_target
            &&& composite.result == RuntimeResultBinding::Resource(second.composite_target)
            &&& composite.releases == seq![left, second.canonical_target]
            &&& present.id == plan@.passes[4].id
            &&& present.kind == plan@.passes[4].kind
            &&& present.result == plan@.passes[4].result
            &&& present.dependencies == seq![second.composite_pass]
            &&& plan@.passes[4].reads.len() > 0 ==> present.reads[0].resource
                == second.composite_target
            &&& present.releases == seq![second.composite_target]
        }),
        spine@.resources.len() == plan@.resources.len() + 3,
        spine@.root_working_image == plan@.root_working_image,
        spine@.final_present == plan@.final_present,
        spine@.working_format == plan@.working_format,
        spine@.output_format == plan@.output_format,
{
}

/// The images of a second capture are like those of the first: written by the donated passes, and used
/// last by the pass behind each.
pub proof fn law_second_images_are_like_the_first<
    D: Fn(&LoweredGraphPlan) -> Vec<PassDerivation>,
>(
    plan: LoweredGraphPlan,
    donor: &LoweredGraphPlan,
    derive: &D,
    spine: LoweredGraphPlan,
    second: C08DonorIdentities,
)
    requires
        call_ensures(
            c08_two_capture_spine::<D>,
            (plan, donor, derive),
            Ok::<LoweredGraphPlan, Error>(spine),
        ),
        call_ensures(
            c08_donor_identities,
            (&plan, donor),
            Ok::<C08DonorIdentities, Error>(second),
        ),
    ensures
        ({
            let count = plan@.resources.len() as int;
            let capture = spine@.resources[count];
            let canonical = spine@.resources[count + 1];
            let composite = spine@.resources[count + 2];
            &&& capture.id == second.capture_target
            &&& capture.producer == RuntimeResourceProducer::Pass(second.capture_pass)
            &&& capture.last_use == second.canonicalize_pass
            &&& canonical.id == second.canonical_target
            &&& canonical.producer == RuntimeResourceProducer::Pass(second.canonicalize_pass)
            &&& canonical.last_use == second.composite_pass
            &&& composite.id == second.composite_target
            &&& composite.producer == RuntimeResourceProducer::Pass(second.composite_pass)
            &&& composite.last_use == plan@.passes[4].id
            &&& first_resource(plan@.resources, plan@.passes[1].result->Resource_0) matches Some(
                first,
            ) && capture.format == first.format && capture.spatial == first.spatial && capture.role
                == first.role
            &&& first_resource(plan@.resources, plan@.passes[2].result->Resource_0) matches Some(
                first,
            ) && canonical.format == first.format && canonical.spatial == first.spatial
                && canonical.role == first.role
            &&& first_resource(plan@.resources, plan@.passes[3].result->Resource_0) matches Some(
                first,
            ) && composite.format == first.format && composite.spatial == first.spatial
                && composite.role == first.role
        }),
{
}

} // verus!
