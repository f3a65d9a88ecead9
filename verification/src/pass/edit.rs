//! Copies of a plan that differ in one place.

use vstd::prelude::*;

use crate::pass::model::{
    LoweredGraphPlan, PassModel, PlanModel, RuntimePass, RuntimePassId,
    RuntimePassKind, RuntimeReadBinding, RuntimeResourceId, RuntimeResourceRequest,
    RuntimeResultBinding,
};

verus! {

/// The plan with one pass replaced.
pub open spec fn with_pass(plan: PlanModel, position: int, pass: PassModel) -> PlanModel {
    PlanModel { passes: plan.passes.update(position, pass), ..plan }
}

/// The plan with another kind of pass in one place. The operations and outer clips belong to the
/// payload that is replaced, and go with it.
pub open spec fn with_kind(plan: PlanModel, position: int, kind: RuntimePassKind) -> PlanModel {
    with_pass(
        plan,
        position,
        PassModel {
            kind,
            operations: Seq::empty(),
            outer_clips: Seq::empty(),
            ..plan.passes[position]
        },
    )
}

/// The plan with the payload of one pass edited in place.
pub open spec fn with_payload(plan: PlanModel, position: int, kind: RuntimePassKind) -> PlanModel {
    with_pass(plan, position, PassModel { kind, ..plan.passes[position] })
}

pub open spec fn with_dependencies(
    plan: PlanModel,
    position: int,
    dependencies: Seq<RuntimePassId>,
) -> PlanModel {
    with_pass(plan, position, PassModel { dependencies, ..plan.passes[position] })
}

pub open spec fn with_releases(
    plan: PlanModel,
    position: int,
    releases: Seq<RuntimeResourceId>,
) -> PlanModel {
    with_pass(plan, position, PassModel { releases, ..plan.passes[position] })
}

pub open spec fn with_result(
    plan: PlanModel,
    position: int,
    result: RuntimeResultBinding,
) -> PlanModel {
    with_pass(plan, position, PassModel { result, ..plan.passes[position] })
}

pub open spec fn with_reads(
    plan: PlanModel,
    position: int,
    reads: Seq<RuntimeReadBinding>,
) -> PlanModel {
    with_pass(plan, position, PassModel { reads, ..plan.passes[position] })
}

/// The plan with one resource replaced.
pub open spec fn with_resource(
    plan: PlanModel,
    position: int,
    resource: RuntimeResourceRequest,
) -> PlanModel {
    PlanModel { resources: plan.resources.update(position, resource), ..plan }
}

/// The items with two of them exchanged.
pub open spec fn swapped<T>(items: Seq<T>, left: int, right: int) -> Seq<T> {
    items.update(left, items[right]).update(right, items[left])
}

/// The plan with two passes exchanged.
pub open spec fn with_swapped_passes(plan: PlanModel, left: int, right: int) -> PlanModel {
    PlanModel { passes: swapped(plan.passes, left, right), ..plan }
}

impl LoweredGraphPlan {
    /// A copy with one pass replaced.
    pub fn replacing_pass(&self, position: usize, pass: RuntimePass) -> (plan: Self)
        requires
            position < self@.passes.len(),
        ensures
            plan@ == with_pass(self@, position as int, pass@),
    {
        let mut plan = self.duplicate();
        let ghost before = plan@;
        let ghost model = pass@;
        proof {
            assert(before.passes.len() == plan.passes@.len());
        }
        plan.passes.set(position, pass);
        proof {
            assert(plan@.passes =~= before.passes.update(position as int, model));
            assert(plan@ =~= with_pass(self@, position as int, model));
        }
        plan
    }

    /// A copy with another kind of pass in one place.
    pub fn replacing_kind(&self, position: usize, kind: RuntimePassKind) -> (plan: Self)
        requires
            position < self@.passes.len(),
        ensures
            plan@ == with_kind(self@, position as int, kind),
    {
        let mut pass = self.passes[position].duplicate();
        pass.kind = kind;
        pass.operations = Vec::new();
        pass.outer_clips = Vec::new();
        proof {
            assert(pass@ =~= with_kind(self@, position as int, kind).passes[position as int]);
        }
        self.replacing_pass(position, pass)
    }

    /// A copy with the payload of one pass edited in place.
    pub fn editing_payload(&self, position: usize, kind: RuntimePassKind) -> (plan: Self)
        requires
            position < self@.passes.len(),
        ensures
            plan@ == with_payload(self@, position as int, kind),
    {
        let mut pass = self.passes[position].duplicate();
        pass.kind = kind;
        self.replacing_pass(position, pass)
    }

    pub fn replacing_dependencies(
        &self,
        position: usize,
        dependencies: Vec<RuntimePassId>,
    ) -> (plan: Self)
        requires
            position < self@.passes.len(),
        ensures
            plan@ == with_dependencies(self@, position as int, dependencies@),
    {
        let mut pass = self.passes[position].duplicate();
        pass.dependencies = dependencies;
        self.replacing_pass(position, pass)
    }

    pub fn replacing_releases(&self, position: usize, releases: Vec<RuntimeResourceId>) -> (plan:
        Self)
        requires
            position < self@.passes.len(),
        ensures
            plan@ == with_releases(self@, position as int, releases@),
    {
        let mut pass = self.passes[position].duplicate();
        pass.releases = releases;
        self.replacing_pass(position, pass)
    }

    pub fn replacing_result(&self, position: usize, result: RuntimeResultBinding) -> (plan: Self)
        requires
            position < self@.passes.len(),
        ensures
            plan@ == with_result(self@, position as int, result),
    {
        let mut pass = self.passes[position].duplicate();
        pass.result = result;
        self.replacing_pass(position, pass)
    }

    /// A copy with one read of one pass replaced.
    pub fn replacing_read(
        &self,
        position: usize,
        index: usize,
        read: RuntimeReadBinding,
    ) -> (plan: Self)
        requires
            position < self@.passes.len(),
            index < self@.passes[position as int].reads.len(),
        ensures
            plan@ == with_reads(
                self@,
                position as int,
                self@.passes[position as int].reads.update(index as int, read),
            ),
    {
        let mut pass = self.passes[position].duplicate();
        proof {
            assert(self@.passes[position as int] == self.passes@[position as int]@);
        }
        pass.reads.set(index, read);
        self.replacing_pass(position, pass)
    }

    /// A copy with the first two reads of one pass exchanged.
    pub fn exchanging_first_reads(&self, position: usize) -> (plan: Self)
        requires
            position < self@.passes.len(),
            self@.passes[position as int].reads.len() >= 2,
        ensures
            plan@ == with_reads(
                self@,
                position as int,
                swapped(self@.passes[position as int].reads, 0, 1),
            ),
    {
        let mut pass = self.passes[position].duplicate();
        proof {
            assert(self@.passes[position as int] == self.passes@[position as int]@);
        }
        let first = pass.reads[0];
        let second = pass.reads[1];
        pass.reads.set(0, second);
        pass.reads.set(1, first);
        self.replacing_pass(position, pass)
    }

    pub fn replacing_resource(&self, position: usize, resource: RuntimeResourceRequest) -> (plan:
        Self)
        requires
            position < self@.resources.len(),
        ensures
            plan@ == with_resource(self@, position as int, resource),
    {
        let mut plan = self.duplicate();
        let ghost before = plan@;
        plan.resources.set(position, resource);
        proof {
            assert(plan@.passes =~= before.passes);
            assert(plan@ =~= with_resource(self@, position as int, resource));
        }
        plan
    }

    /// A copy with two passes exchanged.
    pub fn exchanging_passes(&self, left: usize, right: usize) -> (plan: Self)
        requires
            left < self@.passes.len(),
            right < self@.passes.len(),
        ensures
            plan@ == with_swapped_passes(self@, left as int, right as int),
    {
        let first = self.passes[left].duplicate();
        let second = self.passes[right].duplicate();
        let plan = self.replacing_pass(left, second).replacing_pass(right, first);
        proof {
            assert(plan@ =~= with_swapped_passes(self@, left as int, right as int));
        }
        plan
    }

    /// A copy without one pass.
    pub fn without_pass(&self, position: usize) -> (plan: Self)
        requires
            position < self@.passes.len(),
        ensures
            plan@ == (PlanModel { passes: self@.passes.remove(position as int), ..self@ }),
    {
        let mut plan = self.duplicate();
        let ghost before = plan@;
        proof {
            assert(before.passes.len() == plan.passes@.len());
        }
        let removed = plan.passes.remove(position);
        proof {
            assert(plan@.passes =~= before.passes.remove(position as int));
        }
        plan
    }

    /// A copy with the first pass repeated at a position.
    pub fn repeating_first_pass(&self, position: usize) -> (plan: Self)
        requires
            position < self@.passes.len(),
        ensures
            plan@ == (PlanModel {
                passes: self@.passes.insert(position as int, self@.passes[0]),
                ..self@
            }),
    {
        let mut plan = self.duplicate();
        let ghost before = plan@;
        proof {
            assert(before.passes.len() == plan.passes@.len());
        }
        let first = plan.passes[0].duplicate();
        proof {
            assert(first@ == before.passes[0]);
        }
        plan.passes.insert(position, first);
        proof {
            assert(plan@.passes =~= before.passes.insert(position as int, before.passes[0]));
        }
        plan
    }

    /// A copy in which the second resource has the identity of the first.
    pub fn with_duplicate_preparation_resource(&self) -> (plan: Self)
        ensures
            plan@ == (if self@.resources.len() > 1 {
                with_resource(
                    self@,
                    1,
                    RuntimeResourceRequest { id: self@.resources[0].id, ..self@.resources[1] },
                )
            } else {
                self@
            }),
    {
        if self.resources.len() > 1 {
            let mut resource = self.resources[1];
            resource.id = self.resources[0].id;
            self.replacing_resource(1, resource)
        } else {
            self.duplicate()
        }
    }
}

/// An edit of one pass changes that pass, in the one field that it names, and nothing else of the plan.
pub proof fn law_edits_change_one_pass(
    plan: &LoweredGraphPlan,
    position: usize,
    kind: RuntimePassKind,
    result: RuntimeResultBinding,
    dependencies: Vec<RuntimePassId>,
    releases: Vec<RuntimeResourceId>,
    other: int,
)
    requires
        position < plan@.passes.len(),
        0 <= other < plan@.passes.len(),
    ensures
        forall|edited: LoweredGraphPlan| #[trigger]
            call_ensures(LoweredGraphPlan::replacing_kind, (plan, position, kind), edited) ==> {
                &&& edits_only(plan@, edited@, position as int, other)
                &&& edited@.passes[position as int].kind == kind
                &&& edited@.passes[position as int].reads == plan@.passes[position as int].reads
                &&& edited@.passes[position as int].id == plan@.passes[position as int].id
            },
        forall|edited: LoweredGraphPlan| #[trigger]
            call_ensures(LoweredGraphPlan::editing_payload, (plan, position, kind), edited) ==> {
                &&& edits_only(plan@, edited@, position as int, other)
                &&& edited@.passes[position as int].kind == kind
                &&& edited@.passes[position as int].operations
                    == plan@.passes[position as int].operations
                &&& edited@.passes[position as int].result == plan@.passes[position as int].result
            },
        forall|edited: LoweredGraphPlan| #[trigger]
            call_ensures(LoweredGraphPlan::replacing_result, (plan, position, result), edited)
                ==> {
                &&& edits_only(plan@, edited@, position as int, other)
                &&& edited@.passes[position as int].result == result
                &&& edited@.passes[position as int].kind == plan@.passes[position as int].kind
                &&& edited@.passes[position as int].reads == plan@.passes[position as int].reads
            },
        forall|edited: LoweredGraphPlan| #[trigger]
            call_ensures(
                LoweredGraphPlan::replacing_dependencies,
                (plan, position, dependencies),
                edited,
            ) ==> {
                &&& edits_only(plan@, edited@, position as int, other)
                &&& edited@.passes[position as int].dependencies == dependencies@
                &&& edited@.passes[position as int].releases
                    == plan@.passes[position as int].releases
                &&& edited@.passes[position as int].kind == plan@.passes[position as int].kind
            },
        forall|edited: LoweredGraphPlan| #[trigger]
            call_ensures(
                LoweredGraphPlan::replacing_releases,
                (plan, position, releases),
                edited,
            ) ==> {
                &&& edits_only(plan@, edited@, position as int, other)
                &&& edited@.passes[position as int].releases == releases@
                &&& edited@.passes[position as int].dependencies
                    == plan@.passes[position as int].dependencies
                &&& edited@.passes[position as int].kind == plan@.passes[position as int].kind
            },
{
}

/// Whether two plans have the same number of passes and agree in one of them, unless that is edited, and
/// in everything but their passes.
pub open spec fn edits_only(before: PlanModel, after: PlanModel, position: int, other: int) -> bool {
    &&& after.passes.len() == before.passes.len()
    &&& other != position ==> after.passes[other] == before.passes[other]
    &&& after.resources == before.resources
    &&& after.root_working_image == before.root_working_image
    &&& after.final_present == before.final_present
    &&& after.working_format == before.working_format
    &&& after.output_format == before.output_format
}

/// Exchanging two passes puts each where the other stood; exchanging them again gives back the plan.
pub proof fn law_exchanges_undo_themselves(
    plan: &LoweredGraphPlan,
    left: usize,
    right: usize,
    once: LoweredGraphPlan,
    twice: LoweredGraphPlan,
)
    requires
        left < plan@.passes.len(),
        right < plan@.passes.len(),
        call_ensures(LoweredGraphPlan::exchanging_passes, (plan, left, right), once),
        call_ensures(LoweredGraphPlan::exchanging_passes, (&once, left, right), twice),
    ensures
        once@.passes[left as int] == plan@.passes[right as int],
        once@.passes[right as int] == plan@.passes[left as int],
        twice@.passes == plan@.passes,
        twice@.resources == plan@.resources,
{
    assert(twice@.passes =~= plan@.passes);
}

/// An edit of a read, or of a resource, puts the new one in its place and keeps every other.
pub proof fn law_edits_of_reads_and_resources(
    plan: &LoweredGraphPlan,
    position: usize,
    index: usize,
    read: RuntimeReadBinding,
    resource: RuntimeResourceRequest,
    other: int,
)
    requires
        position < plan@.passes.len(),
        index < plan@.passes[position as int].reads.len(),
        position < plan@.resources.len(),
    ensures
        forall|edited: LoweredGraphPlan| #[trigger]
            call_ensures(LoweredGraphPlan::replacing_read, (plan, position, index, read), edited)
                ==> {
                let before = plan@.passes[position as int].reads;
                let after = edited@.passes[position as int].reads;
                &&& after.len() == before.len()
                &&& after[index as int] == read
                &&& 0 <= other < before.len() && other != index ==> after[other] == before[other]
                &&& edited@.passes[position as int].kind == plan@.passes[position as int].kind
            },
        forall|edited: LoweredGraphPlan| #[trigger]
            call_ensures(LoweredGraphPlan::replacing_resource, (plan, position, resource), edited)
                ==> {
                &&& edited@.passes == plan@.passes
                &&& edited@.resources.len() == plan@.resources.len()
                &&& edited@.resources[position as int] == resource
                &&& 0 <= other < plan@.resources.len() && other != position
                    ==> edited@.resources[other] == plan@.resources[other]
            },
        plan@.passes[position as int].reads.len() >= 2 ==> forall|edited: LoweredGraphPlan|
         #[trigger]
            call_ensures(LoweredGraphPlan::exchanging_first_reads, (plan, position), edited) ==> {
                let before = plan@.passes[position as int].reads;
                let after = edited@.passes[position as int].reads;
                &&& after[0] == before[1]
                &&& after[1] == before[0]
                &&& 2 <= other < before.len() ==> after[other] == before[other]
            },
{
}

/// A copy without one pass keeps the others in order; a copy with the first pass repeated has it where
/// it was put and moves those behind; a copy with a repeated resource identity differs in that alone.
pub proof fn law_edits_of_the_order(plan: &LoweredGraphPlan, position: usize, other: int)
    requires
        position < plan@.passes.len(),
        0 <= other < plan@.passes.len(),
    ensures
        forall|edited: LoweredGraphPlan| #[trigger]
            call_ensures(LoweredGraphPlan::without_pass, (plan, position), edited) ==> {
                &&& edited@.passes.len() == plan@.passes.len() - 1
                &&& other < position ==> edited@.passes[other] == plan@.passes[other]
                &&& other > position ==> edited@.passes[other - 1] == plan@.passes[other]
                &&& edited@.resources == plan@.resources
            },
        forall|edited: LoweredGraphPlan| #[trigger]
            call_ensures(LoweredGraphPlan::repeating_first_pass, (plan, position), edited) ==> {
                &&& edited@.passes.len() == plan@.passes.len() + 1
                &&& edited@.passes[position as int] == plan@.passes[0]
                &&& other < position ==> edited@.passes[other] == plan@.passes[other]
                &&& other >= position ==> edited@.passes[other + 1] == plan@.passes[other]
            },
        plan@.resources.len() > 1 ==> forall|edited: LoweredGraphPlan| #[trigger]
            call_ensures(
                LoweredGraphPlan::with_duplicate_preparation_resource,
                (plan,),
                edited,
            ) ==> {
                &&& edited@.resources[1].id == plan@.resources[0].id
                &&& edited@.resources[1].role == plan@.resources[1].role
                &&& edited@.resources[1].spatial == plan@.resources[1].spatial
                &&& edited@.resources[0] == plan@.resources[0]
                &&& edited@.passes == plan@.passes
            },
{
}

/// Replacing a pass puts the new one in its place and leaves every other, the resources and the rest of
/// the plan as they were.
pub proof fn law_replaced_passes_stand_in_their_place(
    plan: &LoweredGraphPlan,
    position: usize,
    pass: RuntimePass,
    edited: LoweredGraphPlan,
    other: int,
)
    requires
        position < plan@.passes.len(),
        call_ensures(LoweredGraphPlan::replacing_pass, (plan, position, pass), edited),
    ensures
        edited@.passes.len() == plan@.passes.len(),
        edited@.passes[position as int] == pass@,
        0 <= other < plan@.passes.len() && other != position ==> edited@.passes[other]
            == plan@.passes[other],
        edited@.resources == plan@.resources,
        edited@.root_working_image == plan@.root_working_image,
        edited@.final_present == plan@.final_present,
        edited@.working_format == plan@.working_format,
        edited@.output_format == plan@.output_format,
{
}

} // verus!
