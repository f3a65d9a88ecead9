//! What lowering keeps of a validated graph.

use vstd::prelude::*;

use crate::dispatch::FramePlan;
use crate::error::{Error, LoweringFailure};
use crate::pass::c08_lowered::lowers;
use crate::pass::key_facts::{
    formats_are_separate, keys_are_exact, keys_are_varied, runtime_cache_key_facts,
    runtime_format_keys_are_separate,
};
use crate::pass::model::{
    LoweredGraphPlan, PassModel, PlanModel, RuntimeCompositeKind, RuntimePass, RuntimePassId,
    RuntimePassKind, RuntimeReadBinding, RuntimeResourceFormat, RuntimeResourceId,
    RuntimeResourceRequest, RuntimeVelloCapture,
};
use crate::pass::prepared::{kind_index, runtime_pass_kind_index};
use crate::runtime::{DeviceCapabilities, Format, WorkingFormat};

verus! {

/// Whether some pass has the kind at a place in the vocabulary.
pub open spec fn plan_speaks(passes: Seq<PassModel>, index: int) -> bool {
    exists|i: int| 0 <= i < passes.len() && kind_index((#[trigger] passes[i]).kind) == index
}

fn speaks_of(plan: &LoweredGraphPlan, index: usize) -> (spoken: bool)
    ensures
        spoken == plan_speaks(plan@.passes, index as int),
{
    let length: usize = plan.passes.len();
    let mut next: usize = 0;
    while next < length
        invariant
            next <= length,
            length == plan.passes@.len(),
            forall|i: int|
                0 <= i < next ==> kind_index((#[trigger] plan@.passes[i]).kind) != index,
        decreases length - next,
    {
        if runtime_pass_kind_index(plan.passes[next].kind) == index {
            assert(kind_index(plan@.passes[next as int].kind) == index);
            return true;
        }
        next = next + 1;
    }
    false
}

/// Whether the passes speak the whole vocabulary.
pub fn runtime_vocabulary_is_exact(plan: &LoweredGraphPlan) -> (exact: bool)
    ensures
        exact == (forall|index: int|
            0 <= index < 10 ==> #[trigger] plan_speaks(plan@.passes, index)),
{
    let mut index: usize = 0;
    while index < 10
        invariant
            index <= 10,
            forall|i: int| 0 <= i < index ==> #[trigger] plan_speaks(plan@.passes, i),
        decreases 10 - index,
    {
        if !speaks_of(plan, index) {
            assert(!plan_speaks(plan@.passes, index as int));
            return false;
        }
        index = index + 1;
    }
    true
}

/// Whether a resource can be allocated and is read.
pub open spec fn is_backend_ready(resource: RuntimeResourceRequest) -> bool {
    &&& resource.spatial.device_extent.width > 0
    &&& resource.spatial.device_extent.height > 0
    &&& resource.expected_reads > 0
}

pub open spec fn holds_format(
    resources: Seq<RuntimeResourceRequest>,
    format: RuntimeResourceFormat,
) -> bool {
    exists|i: int| 0 <= i < resources.len() && (#[trigger] resources[i]).format == format
}

/// The cache keys of the images that the resources import, in order.
pub open spec fn imported_keys(resources: Seq<RuntimeResourceRequest>) -> Seq<u64>
    decreases resources.len(),
{
    if resources.len() == 0 {
        Seq::empty()
    } else {
        let before = imported_keys(resources.drop_last());
        match resources.last().import {
            Some(upload) => before.push(upload.cache_key),
            None => before,
        }
    }
}

fn collect_imported_keys(resources: &Vec<RuntimeResourceRequest>) -> (keys: Vec<u64>)
    ensures
        keys@ == imported_keys(resources@),
{
    let length: usize = resources.len();
    let mut keys: Vec<u64> = Vec::new();
    let mut next: usize = 0;
    while next < length
        invariant
            next <= length,
            length == resources@.len(),
            keys@ == imported_keys(resources@.take(next as int)),
        decreases length - next,
    {
        proof {
            assert(resources@.take(next + 1).drop_last() =~= resources@.take(next as int));
        }
        if let Some(upload) = resources[next].import {
            keys.push(upload.cache_key);
        }
        next = next + 1;
    }
    proof {
        assert(resources@.take(length as int) =~= resources@);
    }
    keys
}

fn resources_hold(
    resources: &Vec<RuntimeResourceRequest>,
    format: RuntimeResourceFormat,
) -> (holds: bool)
    ensures
        holds == holds_format(resources@, format),
{
    let length: usize = resources.len();
    let mut next: usize = 0;
    while next < length
        invariant
            next <= length,
            length == resources@.len(),
            forall|i: int| 0 <= i < next ==> (#[trigger] resources@[i]).format != format,
        decreases length - next,
    {
        if resources[next].format == format {
            assert(resources@[next as int].format == format);
            return true;
        }
        next = next + 1;
    }
    false
}

/// What holds of the resources of a high-precision plan that was lowered for an output, from a
/// graph that imports `authored`.
pub open spec fn resource_facts_hold(
    plan: PlanModel,
    output_format: Format,
    authored: Seq<u64>,
) -> bool {
    &&& plan.working_format == WorkingFormat::HighPrecision
    &&& plan.output_format == output_format
    &&& forall|i: int| 0 <= i < plan.resources.len() ==> is_backend_ready(#[trigger] plan.resources[i])
    &&& holds_format(plan.resources, RuntimeResourceFormat::VelloCaptureRgba8Unorm)
    &&& holds_format(
        plan.resources,
        RuntimeResourceFormat::Working(WorkingFormat::HighPrecision),
    )
    &&& holds_format(plan.resources, RuntimeResourceFormat::ResolvedMaskRgba8Unorm)
    &&& imported_keys(plan.resources) =~= authored
    &&& authored.len() > 0
}

/// Whether the resources keep what a backend needs. `extent_rejected` says whether lowering for a
/// device with too small a texture limit failed.
pub fn runtime_resource_facts_are_exact(
    plan: &LoweredGraphPlan,
    output_format: Format,
    authored: &Vec<u64>,
    extent_rejected: bool,
) -> (exact: bool)
    ensures
        exact == (resource_facts_hold(plan@, output_format, authored@) && extent_rejected),
{
    let length: usize = plan.resources.len();
    let mut ready = true;
    let mut next: usize = 0;
    while next < length
        invariant
            next <= length,
            length == plan.resources@.len(),
            ready == (forall|i: int|
                0 <= i < next ==> is_backend_ready(#[trigger] plan.resources@[i])),
        decreases length - next,
    {
        let resource = plan.resources[next];
        ready = ready && resource.spatial.device_extent.width > 0
            && resource.spatial.device_extent.height > 0 && resource.expected_reads > 0;
        next = next + 1;
    }
    let keys = collect_imported_keys(&plan.resources);
    let count: usize = authored.len();
    let mut same = keys.len() == count;
    let mut place: usize = 0;
    while place < count
        invariant
            place <= count,
            count == authored@.len(),
            same ==> keys@.len() == count,
            same ==> forall|i: int| 0 <= i < place ==> #[trigger] keys@[i] == authored@[i],
            !same ==> !(keys@ =~= authored@),
        decreases count - place,
    {
        if same && keys[place] != authored[place] {
            assert(keys@[place as int] != authored@[place as int]);
            same = false;
        }
        place = place + 1;
    }
    assert(same == (keys@ =~= authored@));
    plan.working_format == WorkingFormat::HighPrecision && plan.output_format == output_format
        && ready && resources_hold(&plan.resources, RuntimeResourceFormat::VelloCaptureRgba8Unorm)
        && resources_hold(
        &plan.resources,
        RuntimeResourceFormat::Working(WorkingFormat::HighPrecision),
    ) && resources_hold(&plan.resources, RuntimeResourceFormat::ResolvedMaskRgba8Unorm) && same
        && count > 0 && extent_rejected
}

/// A pass that lowering must keep.
#[derive(Clone, Copy, Debug, PartialEq, Eq, Structural)]
pub enum SemanticPass {
    CapturedSpan,
    ColorOperations,
    ContinuousShadow,
    MaskedLayer,
}

/// A span with commands captured before outer semantics, a color run with operations, a shadow of
/// the source's alpha at a continuous offset under the unchanged source, or a masked layer.
pub open spec fn means(pass: PassModel, semantic: SemanticPass) -> bool {
    match semantic {
        SemanticPass::CapturedSpan => pass.kind matches RuntimePassKind::VelloCapture(Some(work))
            && work matches RuntimeVelloCapture::Span {
            command_count,
            captured_before_outer_semantics,
            ..
        } && command_count > 0 && captured_before_outer_semantics,
        SemanticPass::ColorOperations => pass.kind matches RuntimePassKind::ColorFilter(Some(_))
            && pass.operations.len() > 0,
        SemanticPass::ContinuousShadow => pass.kind matches RuntimePassKind::DropShadowColorize(
            Some(shadow),
        ) && shadow.uses_source_alpha && shadow.uses_continuous_offset
            && shadow.retains_unchanged_source,
        SemanticPass::MaskedLayer => crate::pass::coverage::composites_mask(pass),
    }
}

pub open spec fn keeps(passes: Seq<PassModel>, semantic: SemanticPass) -> bool {
    exists|i: int| 0 <= i < passes.len() && means(#[trigger] passes[i], semantic)
}

fn pass_means(pass: &RuntimePass, semantic: SemanticPass) -> (kept: bool)
    ensures
        kept == means(pass@, semantic),
{
    match semantic {
        SemanticPass::CapturedSpan => match pass.kind {
            RuntimePassKind::VelloCapture(
                Some(
                    RuntimeVelloCapture::Span {
                        command_count,
                        captured_before_outer_semantics,
                        ..
                    },
                ),
            ) => command_count > 0 && captured_before_outer_semantics,
            _ => false,
        },
        SemanticPass::ColorOperations => matches!(
            pass.kind,
            RuntimePassKind::ColorFilter(Some(_))
        ) && pass.operations.len() > 0,
        SemanticPass::ContinuousShadow => match pass.kind {
            RuntimePassKind::DropShadowColorize(Some(shadow)) => shadow.uses_source_alpha
                && shadow.uses_continuous_offset && shadow.retains_unchanged_source,
            _ => false,
        },
        SemanticPass::MaskedLayer => match pass.kind {
            RuntimePassKind::Composite(Some(composite)) => match composite.kind {
                RuntimeCompositeKind::Layer(layer) => layer.alpha_mask.is_some(),
                _ => false,
            },
            _ => false,
        },
    }
}

fn plan_keeps(plan: &LoweredGraphPlan, semantic: SemanticPass) -> (kept: bool)
    ensures
        kept == keeps(plan@.passes, semantic),
{
    let length: usize = plan.passes.len();
    let mut next: usize = 0;
    while next < length
        invariant
            next <= length,
            length == plan.passes@.len(),
            forall|i: int| 0 <= i < next ==> !means(#[trigger] plan@.passes[i], semantic),
        decreases length - next,
    {
        assert(plan@.passes[next as int] == plan.passes@[next as int]@);
        if pass_means(&plan.passes[next], semantic) {
            assert(means(plan@.passes[next as int], semantic));
            return true;
        }
        next = next + 1;
    }
    false
}

/// Whether every meaning that the graph was authored with is kept by some pass.
pub open spec fn semantics_are_kept(passes: Seq<PassModel>) -> bool {
    &&& keeps(passes, SemanticPass::CapturedSpan)
    &&& keeps(passes, SemanticPass::ColorOperations)
    &&& keeps(passes, SemanticPass::ContinuousShadow)
    &&& keeps(passes, SemanticPass::MaskedLayer)
}

pub fn runtime_semantic_pass_facts_are_exact(plan: &LoweredGraphPlan) -> (exact: bool)
    ensures
        exact == semantics_are_kept(plan@.passes),
{
    plan_keeps(plan, SemanticPass::CapturedSpan) && plan_keeps(plan, SemanticPass::ColorOperations)
        && plan_keeps(plan, SemanticPass::ContinuousShadow) && plan_keeps(
        plan,
        SemanticPass::MaskedLayer,
    )
}

/// A pass of the validated graph; its reads are `None` where they cannot be viewed.
#[derive(Debug)]
pub struct GraphPass {
    pub id: RuntimePassId,
    pub dependencies: Vec<RuntimePassId>,
    pub reads: Option<Vec<RuntimeResourceId>>,
}

/// Whether a pass is lowered with its identity, its dependencies and its reads in order.
pub open spec fn is_lowered_as(graph: GraphPass, pass: PassModel) -> bool {
    &&& graph.id == pass.id
    &&& graph.dependencies@ =~= pass.dependencies
    &&& graph.reads matches Some(reads) && reads@ =~= pass.reads.map_values(
        |read: RuntimeReadBinding| read.resource,
    )
}

fn lowers_to(graph: &GraphPass, pass: &RuntimePass) -> (same: bool)
    ensures
        same == is_lowered_as(*graph, pass@),
{
    if graph.id != pass.id || !crate::pass::c08::lists_passes(
        &graph.dependencies,
        pass.dependencies.as_slice(),
    ) {
        return false;
    }
    match &graph.reads {
        Some(reads) => {
            let length: usize = reads.len();
            let ghost sampled = pass@.reads.map_values(|read: RuntimeReadBinding| read.resource);
            if pass.reads.len() != length {
                assert(sampled.len() != reads@.len());
                return false;
            }
            let mut next: usize = 0;
            while next < length
                invariant
                    next <= length,
                    length == reads@.len(),
                    length == pass.reads@.len(),
                    graph.reads == Some(*reads),
                    sampled == pass@.reads.map_values(|read: RuntimeReadBinding| read.resource),
                    forall|i: int| 0 <= i < next ==> #[trigger] reads@[i] == sampled[i],
                decreases length - next,
            {
                if reads[next] != pass.reads[next].resource {
                    assert(reads@[next as int] != sampled[next as int]);
                    return false;
                }
                next = next + 1;
            }
            assert(reads@ =~= sampled);
            true
        },
        None => false,
    }
}

/// Whether the passes are those of the graph, in order.
pub open spec fn topology_is_exact(graph: Seq<GraphPass>, plan: PlanModel) -> bool {
    &&& graph.len() == plan.passes.len()
    &&& forall|i: int|
        0 <= i < graph.len() ==> is_lowered_as(#[trigger] graph[i], plan.passes[i])
}

pub fn runtime_topology_is_exact(graph: &Vec<GraphPass>, plan: &LoweredGraphPlan) -> (exact: bool)
    ensures
        exact == topology_is_exact(graph@, plan@),
{
    let length: usize = graph.len();
    if plan.passes.len() != length {
        return false;
    }
    let mut next: usize = 0;
    while next < length
        invariant
            next <= length,
            length == graph@.len(),
            length == plan.passes@.len(),
            forall|i: int|
                0 <= i < next ==> is_lowered_as(#[trigger] graph@[i], plan@.passes[i]),
        decreases length - next,
    {
        assert(plan@.passes[next as int] == plan.passes@[next as int]@);
        if !lowers_to(&graph[next], &plan.passes[next]) {
            assert(!is_lowered_as(graph@[next as int], plan@.passes[next as int]));
            return false;
        }
        next = next + 1;
    }
    true
}

/// A resource with a pass.
pub type Use = (RuntimeResourceId, RuntimePassId);

/// The pass that a map holds for a resource: that of its last entry.
pub open spec fn use_of(uses: Seq<Use>, id: RuntimeResourceId) -> Option<RuntimePassId>
    decreases uses.len(),
{
    if uses.len() == 0 {
        None
    } else if uses.last().0 == id {
        Some(uses.last().1)
    } else {
        use_of(uses.drop_last(), id)
    }
}

/// Which pass releases which resource, in order.
pub open spec fn releases_of(passes: Seq<PassModel>) -> Seq<Use>
    decreases passes.len(),
{
    if passes.len() == 0 {
        Seq::empty()
    } else {
        let pass = passes.last();
        releases_of(passes.drop_last()) + pass.releases.map_values(
            |released: RuntimeResourceId| (released, pass.id),
        )
    }
}

fn collect_releases(plan: &LoweredGraphPlan) -> (uses: Vec<Use>)
    ensures
        uses@ == releases_of(plan@.passes),
{
    let length: usize = plan.passes.len();
    let mut uses: Vec<Use> = Vec::new();
    let mut next: usize = 0;
    while next < length
        invariant
            next <= length,
            length == plan.passes@.len(),
            uses@ == releases_of(plan@.passes.take(next as int)),
        decreases length - next,
    {
        let pass = &plan.passes[next];
        let ghost before = uses@;
        let ghost entry = |released: RuntimeResourceId| (released, pass@.id);
        let count: usize = pass.releases.len();
        let mut release: usize = 0;
        proof {
            assert(before + pass.releases@.take(0).map_values(entry) =~= before);
        }
        while release < count
            invariant
                release <= count,
                count == pass.releases@.len(),
                entry == (|released: RuntimeResourceId| (released, pass@.id)),
                uses@ == before + pass.releases@.take(release as int).map_values(entry),
            decreases count - release,
        {
            uses.push((pass.releases[release], pass.id));
            proof {
                assert(before + pass.releases@.take(release + 1).map_values(entry) =~= (before
                    + pass.releases@.take(release as int).map_values(entry)).push(
                    (pass.releases@[release as int], pass.id),
                ));
            }
            release = release + 1;
        }
        proof {
            let taken = plan@.passes.take(next + 1);
            assert(taken.drop_last() =~= plan@.passes.take(next as int));
            assert(taken.last() == pass@);
            assert(pass.releases@.take(count as int) =~= pass.releases@);
            assert(entry =~= (|released: RuntimeResourceId| (released, taken.last().id)));
        }
        next = next + 1;
    }
    proof {
        assert(plan@.passes.take(length as int) =~= plan@.passes);
    }
    uses
}

proof fn lemma_use_of(uses: Seq<Use>, id: RuntimeResourceId)
    ensures
        use_of(uses, id) is Some <==> exists|i: int|
            0 <= i < uses.len() && (#[trigger] uses[i]).0 == id,
    decreases uses.len(),
{
    if uses.len() > 0 {
        lemma_use_of(uses.drop_last(), id);
        if uses.last().0 == id {
            assert(uses[uses.len() - 1].0 == id);
        } else {
            if use_of(uses.drop_last(), id) is Some {
                let i = choose|i: int|
                    0 <= i < uses.drop_last().len() && (#[trigger] uses.drop_last()[i]).0 == id;
                assert(uses[i].0 == id);
            }
            if exists|i: int| 0 <= i < uses.len() && (#[trigger] uses[i]).0 == id {
                let i = choose|i: int| 0 <= i < uses.len() && (#[trigger] uses[i]).0 == id;
                assert(uses.drop_last()[i].0 == id);
            }
        }
    }
}

fn find_use(uses: &Vec<Use>, id: RuntimeResourceId) -> (found: Option<RuntimePassId>)
    ensures
        found == use_of(uses@, id),
{
    let length: usize = uses.len();
    let mut left: usize = length;
    proof {
        assert(uses@.take(length as int) =~= uses@);
    }
    while left > 0
        invariant
            left <= length,
            length == uses@.len(),
            use_of(uses@, id) == use_of(uses@.take(left as int), id),
        decreases left,
    {
        proof {
            let taken = uses@.take(left as int);
            assert(taken.drop_last() =~= uses@.take(left - 1));
            assert(taken.last() == uses@[left - 1]);
        }
        left = left - 1;
        let (resource, pass) = uses[left];
        if resource == id {
            return Some(pass);
        }
    }
    None
}

/// Whether two lists of uses are the same map.
pub open spec fn same_uses(left: Seq<Use>, right: Seq<Use>) -> bool {
    forall|id: RuntimeResourceId| #[trigger] use_of(left, id) == use_of(right, id)
}

fn agrees_on(listed: &Vec<Use>, other: &Vec<Use>) -> (agrees: bool)
    ensures
        agrees == (forall|i: int|
            0 <= i < listed@.len() ==> use_of(listed@, (#[trigger] listed@[i]).0) == use_of(
                other@,
                listed@[i].0,
            )),
{
    let length: usize = listed.len();
    let mut next: usize = 0;
    while next < length
        invariant
            next <= length,
            length == listed@.len(),
            forall|i: int|
                0 <= i < next ==> use_of(listed@, (#[trigger] listed@[i]).0) == use_of(
                    other@,
                    listed@[i].0,
                ),
        decreases length - next,
    {
        let (resource, _) = listed[next];
        if find_use(listed, resource) != find_use(other, resource) {
            assert(use_of(listed@, listed@[next as int].0) != use_of(
                other@,
                listed@[next as int].0,
            ));
            return false;
        }
        next = next + 1;
    }
    true
}

fn uses_are_same(left: &Vec<Use>, right: &Vec<Use>) -> (same: bool)
    ensures
        same == same_uses(left@, right@),
{
    let same = agrees_on(left, right) && agrees_on(right, left);
    proof {
        if same {
            assert forall|id: RuntimeResourceId| #[trigger] use_of(left@, id) == use_of(
                right@,
                id,
            ) by {
                lemma_use_of(left@, id);
                lemma_use_of(right@, id);
                if use_of(left@, id) is Some {
                    let i = choose|i: int| 0 <= i < left@.len() && (#[trigger] left@[i]).0 == id;
                    assert(use_of(left@, left@[i].0) == use_of(right@, left@[i].0));
                } else if use_of(right@, id) is Some {
                    let i = choose|i: int| 0 <= i < right@.len() && (#[trigger] right@[i]).0 == id;
                    assert(use_of(right@, right@[i].0) == use_of(left@, right@[i].0));
                }
            }
        }
    }
    same
}

/// Whether each resource of the graph is released exactly by the pass that uses it last, and some
/// resource is read more than once.
pub open spec fn releases_are_exact(last_uses: Seq<Use>, plan: PlanModel) -> bool {
    &&& same_uses(last_uses, releases_of(plan.passes))
    &&& exists|i: int|
        0 <= i < plan.resources.len() && (#[trigger] plan.resources[i]).expected_reads > 1
}

pub fn runtime_releases_are_exact(last_uses: &Vec<Use>, plan: &LoweredGraphPlan) -> (exact: bool)
    ensures
        exact == releases_are_exact(last_uses@, plan@),
{
    let observed = collect_releases(plan);
    let length: usize = plan.resources.len();
    let mut fans_out = false;
    let mut next: usize = 0;
    while next < length
        invariant
            next <= length,
            length == plan.resources@.len(),
            fans_out == (exists|i: int|
                0 <= i < next && (#[trigger] plan.resources@[i]).expected_reads > 1),
        decreases length - next,
    {
        if plan.resources[next].expected_reads > 1 {
            assert(plan.resources@[next as int].expected_reads > 1);
            fans_out = true;
        }
        next = next + 1;
    }
    uses_are_same(last_uses, &observed) && fans_out
}

/// What is observed of a lowered graph.
#[derive(Clone, Copy, Debug, PartialEq, Eq, Structural)]
pub struct RuntimeLoweringObservation {
    pub has_exact_closed_vocabulary: bool,
    pub preserves_backend_ready_resource_facts: bool,
    pub preserves_semantic_pass_facts: bool,
    pub preserves_topological_bindings: bool,
    pub preserves_exact_last_use_releases: bool,
    pub rejects_inconsistent_bindings_atomically: bool,
    pub has_exact_cache_keys: bool,
    pub keys_separate_program_layout_sampling_and_edge: bool,
    pub keys_separate_source_working_and_output_formats: bool,
}

/// The graph that a plan was lowered from.
#[derive(Debug)]
pub struct LoweredFrom {
    pub passes: Vec<GraphPass>,
    pub last_uses: Vec<Use>,
    pub imported: Vec<u64>,
    pub root: RuntimeResourceId,
    pub present: RuntimePassId,
}

/// A fault that is put into a graph to see that it is not lowered.
#[derive(Clone, Copy, Debug, PartialEq, Eq, Structural)]
pub enum GraphLoweringFault {
    MissingResourceBinding,
    DuplicateReadBinding,
    ForwardDependency,
    StaleResourceGeneration,
    InconsistentLastUse,
}

/// Whether it is true of a graph with a fault that it is rejected: lowered to `Rgba8` in high
/// precision, it fails.
pub open spec fn fault_as_observed<
    G,
    L: Fn(&G, WorkingFormat, Format, DeviceCapabilities) -> Result<LoweredGraphPlan, Error>,
    W: Fn(&G, GraphLoweringFault) -> G,
>(
    graph: G,
    capabilities: DeviceCapabilities,
    lower: L,
    with_fault: W,
    fault: GraphLoweringFault,
    rejected: bool,
) -> bool {
    exists|faulty: G, lowered: Result<LoweredGraphPlan, Error>|
        {
            &&& call_ensures(with_fault, (&graph, fault), faulty)
            &&& #[trigger] call_ensures(
                lower,
                (&faulty, WorkingFormat::HighPrecision, Format::Rgba8, capabilities),
                lowered,
            )
            &&& rejected == lowered is Err
        }
}

/// Whether it is true of a graph that it is rejected with each of the faults.
pub open spec fn faults_as_observed<
    G,
    L: Fn(&G, WorkingFormat, Format, DeviceCapabilities) -> Result<LoweredGraphPlan, Error>,
    W: Fn(&G, GraphLoweringFault) -> G,
>(graph: G, capabilities: DeviceCapabilities, lower: L, with_fault: W, rejected: bool) -> bool {
    if rejected {
        forall|fault: GraphLoweringFault| #[trigger]
            fault_as_observed(graph, capabilities, lower, with_fault, fault, true)
    } else {
        exists|fault: GraphLoweringFault| #[trigger]
            fault_as_observed(graph, capabilities, lower, with_fault, fault, false)
    }
}

fn fault_is_rejected<
    G,
    L: Fn(&G, WorkingFormat, Format, DeviceCapabilities) -> Result<LoweredGraphPlan, Error>,
    W: Fn(&G, GraphLoweringFault) -> G,
>(
    graph: &G,
    capabilities: DeviceCapabilities,
    lower: &L,
    with_fault: &W,
    fault: GraphLoweringFault,
) -> (rejected: bool)
    requires
        lowers(*lower),
        forall|graph: &G, fault: GraphLoweringFault| #[trigger]
            call_requires(*with_fault, (graph, fault)),
    ensures
        fault_as_observed(*graph, capabilities, *lower, *with_fault, fault, rejected),
{
    let faulty = with_fault(graph, fault);
    lower(&faulty, WorkingFormat::HighPrecision, Format::Rgba8, capabilities).is_err()
}

/// Whether a graph is rejected with each of the faults. `with_fault` puts a fault into a graph.
pub fn lowering_faults_are_rejected<
    G,
    L: Fn(&G, WorkingFormat, Format, DeviceCapabilities) -> Result<LoweredGraphPlan, Error>,
    W: Fn(&G, GraphLoweringFault) -> G,
>(graph: &G, capabilities: DeviceCapabilities, lower: &L, with_fault: &W) -> (rejected: bool)
    requires
        lowers(*lower),
        forall|graph: &G, fault: GraphLoweringFault| #[trigger]
            call_requires(*with_fault, (graph, fault)),
    ensures
        faults_as_observed(*graph, capabilities, *lower, *with_fault, rejected),
{
    let missing = GraphLoweringFault::MissingResourceBinding;
    let duplicate = GraphLoweringFault::DuplicateReadBinding;
    let forward = GraphLoweringFault::ForwardDependency;
    let stale = GraphLoweringFault::StaleResourceGeneration;
    let inconsistent = GraphLoweringFault::InconsistentLastUse;
    let rejected = fault_is_rejected(graph, capabilities, lower, with_fault, missing)
        && fault_is_rejected(graph, capabilities, lower, with_fault, duplicate)
        && fault_is_rejected(graph, capabilities, lower, with_fault, forward)
        && fault_is_rejected(graph, capabilities, lower, with_fault, stale)
        && fault_is_rejected(graph, capabilities, lower, with_fault, inconsistent);
    proof {
        if rejected {
            assert forall|fault: GraphLoweringFault| #[trigger]
                fault_as_observed(*graph, capabilities, *lower, *with_fault, fault, true) by {
                match fault {
                    GraphLoweringFault::MissingResourceBinding => {},
                    GraphLoweringFault::DuplicateReadBinding => {},
                    GraphLoweringFault::ForwardDependency => {},
                    GraphLoweringFault::StaleResourceGeneration => {},
                    GraphLoweringFault::InconsistentLastUse => {},
                }
            }
        }
    }
    rejected
}

/// What is observed of a plan beside the graph that it was lowered from, and its lowerings for the
/// other working format and the other output. `extent_rejected` says whether a device with too
/// small a texture limit refused it, and `faults_rejected` whether each faulty graph was refused.
pub open spec fn observed_lowering(
    graph: LoweredFrom,
    plan: PlanModel,
    reduced: PlanModel,
    alternate_output: PlanModel,
    output_format: Format,
    extent_rejected: bool,
    faults_rejected: bool,
) -> RuntimeLoweringObservation {
    RuntimeLoweringObservation {
        has_exact_closed_vocabulary: forall|index: int|
            0 <= index < 10 ==> #[trigger] plan_speaks(plan.passes, index),
        preserves_backend_ready_resource_facts: resource_facts_hold(
            plan,
            output_format,
            graph.imported@,
        ) && extent_rejected,
        preserves_semantic_pass_facts: semantics_are_kept(plan.passes),
        preserves_topological_bindings: topology_is_exact(graph.passes@, plan),
        preserves_exact_last_use_releases: releases_are_exact(graph.last_uses@, plan),
        rejects_inconsistent_bindings_atomically: faults_rejected,
        has_exact_cache_keys: keys_are_exact(plan),
        keys_separate_program_layout_sampling_and_edge: keys_are_varied(plan.passes),
        keys_separate_source_working_and_output_formats: formats_are_separate(
            graph.root,
            graph.present,
            plan,
            reduced.passes,
            alternate_output.passes,
        ),
    }
}

/// Whether an observation, or a failure, is true of a planned graph: it is lowered in high
/// precision, in reduced precision and to `Bgra8`, then viewed, and the first failure is reported;
/// a device with textures of one texel has to refuse it.
pub open spec fn is_observed_lowering<
    G,
    L: Fn(&G, WorkingFormat, Format, DeviceCapabilities) -> Result<LoweredGraphPlan, Error>,
    V: Fn(&G) -> Result<LoweredFrom, Error>,
    W: Fn(&G, GraphLoweringFault) -> G,
>(
    observation: Result<RuntimeLoweringObservation, Error>,
    graph: G,
    output_format: Format,
    capabilities: DeviceCapabilities,
    lower: L,
    view: V,
    with_fault: W,
) -> bool {
    exists|
        plan: Result<LoweredGraphPlan, Error>,
        reduced: Result<LoweredGraphPlan, Error>,
        alternate: Result<LoweredGraphPlan, Error>,
        viewed: Result<LoweredFrom, Error>,
        extent: Result<LoweredGraphPlan, Error>,
        faults_rejected: bool,
    |
        {
            &&& #[trigger] call_ensures(
                lower,
                (&graph, WorkingFormat::HighPrecision, output_format, capabilities),
                plan,
            )
            &&& #[trigger] call_ensures(
                lower,
                (&graph, WorkingFormat::ReducedPrecision, output_format, capabilities),
                reduced,
            )
            &&& #[trigger] call_ensures(
                lower,
                (&graph, WorkingFormat::HighPrecision, Format::Bgra8, capabilities),
                alternate,
            )
            &&& #[trigger] call_ensures(view, (&graph,), viewed)
            &&& #[trigger] call_ensures(
                lower,
                (&graph, WorkingFormat::HighPrecision, output_format, smallest_device()),
                extent,
            )
            &&& #[trigger] faults_as_observed(
                graph,
                capabilities,
                lower,
                with_fault,
                faults_rejected,
            )
            &&& observation == match (plan, reduced, alternate, viewed) {
                (Err(error), _, _, _) => Err(error),
                (_, Err(error), _, _) => Err(error),
                (_, _, Err(error), _) => Err(error),
                (_, _, _, Err(error)) => Err(error),
                (Ok(plan), Ok(reduced), Ok(alternate), Ok(viewed)) => Ok(
                    observed_lowering(
                        viewed,
                        plan@,
                        reduced@,
                        alternate@,
                        output_format,
                        extent is Err,
                        faults_rejected,
                    ),
                ),
            }
        }
}

/// A device with both precisions whose textures hold one texel.
pub open spec fn smallest_device() -> DeviceCapabilities {
    DeviceCapabilities { high_precision: true, reduced_precision: true, max_texture_dimension: 1 }
}

/// What is observed of the lowering of a planned graph. `lower` lowers a graph, `view` gives what
/// it is compared with, and `with_fault` puts a fault into it.
pub fn runtime_lowering_observation<
    C,
    G,
    L: Fn(&G, WorkingFormat, Format, DeviceCapabilities) -> Result<LoweredGraphPlan, Error>,
    V: Fn(&G) -> Result<LoweredFrom, Error>,
    W: Fn(&G, GraphLoweringFault) -> G,
>(
    planned: Result<FramePlan<C, G>, Error>,
    output_format: Format,
    capabilities: DeviceCapabilities,
    lower: &L,
    view: &V,
    with_fault: &W,
) -> (observation: Result<RuntimeLoweringObservation, Error>)
    requires
        lowers(*lower),
        forall|graph: &G| #[trigger] call_requires(*view, (graph,)),
        forall|graph: &G, fault: GraphLoweringFault| #[trigger]
            call_requires(*with_fault, (graph, fault)),
    ensures
        match planned {
            Err(error) => observation == Err::<RuntimeLoweringObservation, Error>(error),
            Ok(FramePlan::DirectVello(_)) => observation == Err::<
                RuntimeLoweringObservation,
                Error,
            >(Error::Lowering(LoweringFailure::LoweringNotPlanned)),
            Ok(FramePlan::GpuGraph(_, graph)) => is_observed_lowering(
                observation,
                graph,
                output_format,
                capabilities,
                *lower,
                *view,
                *with_fault,
            ),
        },
{
    let graph = match planned {
        Ok(FramePlan::GpuGraph(_, graph)) => graph,
        Ok(FramePlan::DirectVello(_)) => {
            return Err(Error::Lowering(LoweringFailure::LoweringNotPlanned));
        },
        Err(error) => return Err(error),
    };
    let smallest = DeviceCapabilities {
        high_precision: true,
        reduced_precision: true,
        max_texture_dimension: 1,
    };
    let high = WorkingFormat::HighPrecision;
    let plan = lower(&graph, high, output_format, capabilities);
    let reduced = lower(&graph, WorkingFormat::ReducedPrecision, output_format, capabilities);
    let alternate = lower(&graph, high, Format::Bgra8, capabilities);
    let viewed = view(&graph);
    let extent = lower(&graph, high, output_format, smallest);
    let faults_rejected = lowering_faults_are_rejected(&graph, capabilities, lower, with_fault);
    assert(smallest == smallest_device());
    let (plan, reduced, alternate, viewed) = match (plan, reduced, alternate, viewed) {
        (Err(error), _, _, _) => return Err(error),
        (_, Err(error), _, _) => return Err(error),
        (_, _, Err(error), _) => return Err(error),
        (_, _, _, Err(error)) => return Err(error),
        (Ok(plan), Ok(reduced), Ok(alternate), Ok(viewed)) => (plan, reduced, alternate, viewed),
    };
    let (exact, varied) = runtime_cache_key_facts(&plan);
    Ok(
        RuntimeLoweringObservation {
            has_exact_closed_vocabulary: runtime_vocabulary_is_exact(&plan),
            preserves_backend_ready_resource_facts: runtime_resource_facts_are_exact(
                &plan,
                output_format,
                &viewed.imported,
                extent.is_err(),
            ),
            preserves_semantic_pass_facts: runtime_semantic_pass_facts_are_exact(&plan),
            preserves_topological_bindings: runtime_topology_is_exact(&viewed.passes, &plan),
            preserves_exact_last_use_releases: runtime_releases_are_exact(
                &viewed.last_uses,
                &plan,
            ),
            rejects_inconsistent_bindings_atomically: faults_rejected,
            has_exact_cache_keys: exact,
            keys_separate_program_layout_sampling_and_edge: varied,
            keys_separate_source_working_and_output_formats: runtime_format_keys_are_separate(
                viewed.root,
                viewed.present,
                &plan,
                &reduced,
                &alternate,
            ),
        },
    )
}

/// A vocabulary is exact only if there is a pass of every kind.
pub proof fn law_exact_vocabularies_have_every_kind(plan: &LoweredGraphPlan, exact: bool, i: int)
    requires
        call_ensures(runtime_vocabulary_is_exact, (plan,), exact),
        exact,
    ensures
        exists|j: int|
            0 <= j < plan@.passes.len() && (#[trigger] plan@.passes[j]).kind is ClearRoot,
        exists|j: int|
            0 <= j < plan@.passes.len() && (#[trigger] plan@.passes[j]).kind is VelloCapture,
        exists|j: int|
            0 <= j < plan@.passes.len() && (#[trigger] plan@.passes[j]).kind is CanonicalizeCapture,
        exists|j: int|
            0 <= j < plan@.passes.len() && (#[trigger] plan@.passes[j]).kind is CopyBackdrop,
        exists|j: int|
            0 <= j < plan@.passes.len() && (#[trigger] plan@.passes[j]).kind is ColorFilter,
        exists|j: int|
            0 <= j < plan@.passes.len() && (#[trigger] plan@.passes[j]).kind is BlurHorizontal,
        exists|j: int|
            0 <= j < plan@.passes.len() && (#[trigger] plan@.passes[j]).kind is BlurVertical,
        exists|j: int|
            0 <= j < plan@.passes.len() && (#[trigger] plan@.passes[j]).kind is DropShadowColorize,
        exists|j: int|
            0 <= j < plan@.passes.len() && (#[trigger] plan@.passes[j]).kind is Composite,
        exists|j: int| 0 <= j < plan@.passes.len() && (#[trigger] plan@.passes[j]).kind is Present,
{
    let passes = plan@.passes;
    assert(plan_speaks(passes, 0) && plan_speaks(passes, 1) && plan_speaks(passes, 2)
        && plan_speaks(passes, 3) && plan_speaks(passes, 4) && plan_speaks(passes, 5)
        && plan_speaks(passes, 6) && plan_speaks(passes, 7) && plan_speaks(passes, 8)
        && plan_speaks(passes, 9));
}

/// The imported keys are those of the resources that are imported.
proof fn lemma_imported_keys(resources: Seq<RuntimeResourceRequest>)
    ensures
        ({
            let imported = resources.filter(
                |resource: RuntimeResourceRequest| resource.import is Some,
            );
            let keys = imported_keys(resources);
            &&& keys.len() == imported.len()
            &&& forall|i: int|
                0 <= i < imported.len() ==> #[trigger] keys[i] == imported[i].import->0.cache_key
        }),
    decreases resources.len(),
{
    reveal(Seq::filter);
    if resources.len() > 0 {
        lemma_imported_keys(resources.drop_last());
    }
}

/// The facts of resources are exact only of a plan in high precision for the output, refused by too
/// small a device: every resource has an extent and is read, captures, working images and masks are
/// among them, and what is imported is what was authored, in order.
pub proof fn law_exact_resource_facts(
    plan: &LoweredGraphPlan,
    output_format: Format,
    authored: &Vec<u64>,
    rejected: bool,
    exact: bool,
    i: int,
)
    requires
        call_ensures(
            runtime_resource_facts_are_exact,
            (plan, output_format, authored, rejected),
            exact,
        ),
        exact,
    ensures
        rejected,
        plan@.working_format is HighPrecision,
        plan@.output_format == output_format,
        0 <= i < plan@.resources.len() ==> {
            &&& plan@.resources[i].spatial.device_extent.width > 0
            &&& plan@.resources[i].spatial.device_extent.height > 0
            &&& plan@.resources[i].expected_reads > 0
        },
        exists|j: int|
            0 <= j < plan@.resources.len() && (
            #[trigger] plan@.resources[j]).format is VelloCaptureRgba8Unorm,
        exists|j: int|
            0 <= j < plan@.resources.len() && (#[trigger] plan@.resources[j]).format
                == RuntimeResourceFormat::Working(WorkingFormat::HighPrecision),
        exists|j: int|
            0 <= j < plan@.resources.len() && (
            #[trigger] plan@.resources[j]).format is ResolvedMaskRgba8Unorm,
        ({
            let imported = plan@.resources.filter(
                |resource: RuntimeResourceRequest| resource.import is Some,
            );
            &&& imported.len() == authored@.len()
            &&& imported.len() > 0
            &&& 0 <= i < imported.len() ==> imported[i].import->0.cache_key == authored@[i]
        }),
{
    lemma_imported_keys(plan@.resources);
}

/// The meaning of a graph is kept exactly if some pass captures commands before outer semantics, some
/// filters colors by an operation, some shadow is of alpha at a continuous offset under its unchanged
/// source, and some layer is masked.
pub proof fn law_kept_meanings(plan: &LoweredGraphPlan, exact: bool)
    requires
        call_ensures(runtime_semantic_pass_facts_are_exact, (plan,), exact),
        exact,
    ensures
        exists|i: int|
            0 <= i < plan@.passes.len() && ((
            #[trigger] plan@.passes[i]).kind matches RuntimePassKind::VelloCapture(Some(work))
                && work matches RuntimeVelloCapture::Span {
                command_count,
                captured_before_outer_semantics,
                ..
            } && command_count > 0 && captured_before_outer_semantics),
        exists|i: int|
            0 <= i < plan@.passes.len() && ((
            #[trigger] plan@.passes[i]).kind matches RuntimePassKind::ColorFilter(Some(_)))
                && plan@.passes[i].operations.len() > 0,
        exists|i: int|
            0 <= i < plan@.passes.len() && ((
            #[trigger] plan@.passes[i]).kind matches RuntimePassKind::DropShadowColorize(
                Some(shadow),
            ) && shadow.uses_source_alpha && shadow.uses_continuous_offset
                && shadow.retains_unchanged_source),
        exists|i: int|
            0 <= i < plan@.passes.len() && ((
            #[trigger] plan@.passes[i]).kind matches RuntimePassKind::Composite(Some(composite))
                && composite.kind matches RuntimeCompositeKind::Layer(layer)
                && layer.alpha_mask is Some),
{
    let passes = plan@.passes;
    let span = choose|i: int|
        0 <= i < passes.len() && means(#[trigger] passes[i], SemanticPass::CapturedSpan);
    assert(means(plan@.passes[span], SemanticPass::CapturedSpan));
    let color = choose|i: int|
        0 <= i < passes.len() && means(#[trigger] passes[i], SemanticPass::ColorOperations);
    assert(means(plan@.passes[color], SemanticPass::ColorOperations));
    let shadow = choose|i: int|
        0 <= i < passes.len() && means(#[trigger] passes[i], SemanticPass::ContinuousShadow);
    assert(means(plan@.passes[shadow], SemanticPass::ContinuousShadow));
    let masked = choose|i: int|
        0 <= i < passes.len() && means(#[trigger] passes[i], SemanticPass::MaskedLayer);
    assert(means(plan@.passes[masked], SemanticPass::MaskedLayer));
}

/// A topology is exact exactly if the passes are those of the graph, in order, each with its identity,
/// its dependencies and what it reads, in order; here of a graph of one pass, and of each pass of any.
pub proof fn law_exact_topologies(
    graph: &Vec<GraphPass>,
    plan: &LoweredGraphPlan,
    exact: bool,
    i: int,
    j: int,
)
    requires
        call_ensures(runtime_topology_is_exact, (graph, plan), exact),
        0 <= i < graph@.len(),
    ensures
        exact ==> graph@.len() == plan@.passes.len(),
        exact ==> {
            let pass = plan@.passes[i];
            &&& graph@[i].id == pass.id
            &&& graph@[i].dependencies@ == pass.dependencies
            &&& graph@[i].reads is Some
            &&& graph@[i].reads->0@.len() == pass.reads.len()
            &&& 0 <= j < pass.reads.len() ==> graph@[i].reads->0@[j] == pass.reads[j].resource
        },
        graph@.len() == 1 && plan@.passes.len() == 1 && graph@[0].id == plan@.passes[0].id
            && graph@[0].dependencies@ == plan@.passes[0].dependencies && graph@[0].reads is Some
            && graph@[0].reads->0@.len() == plan@.passes[0].reads.len() && (forall|k: int|
            0 <= k < plan@.passes[0].reads.len() ==> graph@[0].reads->0@[k]
                == (#[trigger] plan@.passes[0].reads[k]).resource) ==> exact,
{
    if exact {
        assert(is_lowered_as(graph@[i], plan@.passes[i]));
        if 0 <= j < plan@.passes[i].reads.len() {
            let sampled = plan@.passes[i].reads.map_values(
                |read: RuntimeReadBinding| read.resource,
            );
            assert(sampled[j] == plan@.passes[i].reads[j].resource);
        }
    }
    if graph@.len() == 1 && plan@.passes.len() == 1 && graph@[0].id == plan@.passes[0].id
        && graph@[0].dependencies@ == plan@.passes[0].dependencies && graph@[0].reads is Some
        && graph@[0].reads->0@.len() == plan@.passes[0].reads.len() && (forall|k: int|
        0 <= k < plan@.passes[0].reads.len() ==> graph@[0].reads->0@[k] == (
        #[trigger] plan@.passes[0].reads[k]).resource) {
        let sampled = plan@.passes[0].reads.map_values(|read: RuntimeReadBinding| read.resource);
        assert(graph@[0].reads->0@ =~= sampled) by {
            assert forall|k: int| 0 <= k < sampled.len() implies graph@[0].reads->0@[k]
                == sampled[k] by {
                assert(sampled[k] == plan@.passes[0].reads[k].resource);
            }
        }
        assert(is_lowered_as(graph@[0], plan@.passes[0]));
    }
}

/// Which pass releases a resource is told by the releases: a release is the entry of its pass.
proof fn lemma_release_is_an_entry(passes: Seq<PassModel>, i: int, j: int)
    requires
        0 <= i < passes.len(),
        0 <= j < passes[i].releases.len(),
    ensures
        releases_of(passes).contains((passes[i].releases[j], passes[i].id)),
    decreases passes.len(),
{
    let pass = passes.last();
    let before = releases_of(passes.drop_last());
    let own = pass.releases.map_values(|released: RuntimeResourceId| (released, pass.id));
    let all = before + own;
    if i == passes.len() - 1 {
        assert(own[j] == (passes[i].releases[j], passes[i].id));
        assert(all[before.len() + j] == own[j]);
    } else {
        lemma_release_is_an_entry(passes.drop_last(), i, j);
        assert(passes.drop_last()[i] == passes[i]);
        let k = choose|k: int|
            0 <= k < before.len() && before[k] == (passes[i].releases[j], passes[i].id);
        assert(all[k] == before[k]);
    }
}

/// Where releases are exact, what a pass releases has a last use in the graph, and some resource is
/// read more than once.
pub proof fn law_exact_releases(
    last_uses: &Vec<Use>,
    plan: &LoweredGraphPlan,
    exact: bool,
    i: int,
    j: int,
)
    requires
        call_ensures(runtime_releases_are_exact, (last_uses, plan), exact),
        exact,
        0 <= i < plan@.passes.len(),
        0 <= j < plan@.passes[i].releases.len(),
    ensures
        exists|k: int|
            0 <= k < last_uses@.len() && (#[trigger] last_uses@[k]).0
                == plan@.passes[i].releases[j],
        exists|k: int|
            0 <= k < plan@.resources.len() && (#[trigger] plan@.resources[k]).expected_reads > 1,
{
    let id = plan@.passes[i].releases[j];
    let released = releases_of(plan@.passes);
    lemma_release_is_an_entry(plan@.passes, i, j);
    let k = choose|k: int|
        0 <= k < released.len() && released[k] == (
            plan@.passes[i].releases[j],
            plan@.passes[i].id,
        );
    assert(released[k].0 == id);
    lemma_use_of(released, id);
    lemma_use_of(last_uses@, id);
    assert(use_of(last_uses@, id) == use_of(released, id));
}

/// Where each resource has one last use and is released once, releases are exact only if the pass that
/// releases it is the one that uses it last.
pub proof fn law_last_uses_release(
    last_uses: &Vec<Use>,
    plan: &LoweredGraphPlan,
    exact: bool,
    i: int,
    j: int,
    k: int,
)
    requires
        call_ensures(runtime_releases_are_exact, (last_uses, plan), exact),
        exact,
        0 <= i < plan@.passes.len(),
        0 <= j < plan@.passes[i].releases.len(),
        0 <= k < last_uses@.len(),
        last_uses@[k].0 == plan@.passes[i].releases[j],
        forall|l: int| k < l < last_uses@.len() ==> (#[trigger] last_uses@[l]).0 != last_uses@[k].0,
        forall|l: int|
            0 <= l < releases_of(plan@.passes).len() && (#[trigger] releases_of(plan@.passes)[l]).0
                == last_uses@[k].0 ==> releases_of(plan@.passes)[l].1 == plan@.passes[i].id,
    ensures
        last_uses@[k].1 == plan@.passes[i].id,
{
    let id = last_uses@[k].0;
    let released = releases_of(plan@.passes);
    lemma_release_is_an_entry(plan@.passes, i, j);
    lemma_last_use(last_uses@, k);
    lemma_use_of(released, id);
    assert(use_of(last_uses@, id) == use_of(released, id));
    lemma_use_is_an_entry(released, id);
}

proof fn lemma_last_use(uses: Seq<Use>, k: int)
    requires
        0 <= k < uses.len(),
        forall|l: int| k < l < uses.len() ==> (#[trigger] uses[l]).0 != uses[k].0,
    ensures
        use_of(uses, uses[k].0) == Some(uses[k].1),
    decreases uses.len(),
{
    if k < uses.len() - 1 {
        assert(uses[uses.len() - 1].0 != uses[k].0);
        lemma_last_use(uses.drop_last(), k);
    }
}

proof fn lemma_use_is_an_entry(uses: Seq<Use>, id: RuntimeResourceId)
    requires
        use_of(uses, id) is Some,
    ensures
        exists|l: int|
            0 <= l < uses.len() && (#[trigger] uses[l]).0 == id && uses[l].1 == use_of(uses, id)->0,
    decreases uses.len(),
{
    if uses.len() > 0 {
        if uses.last().0 == id {
            assert(uses[uses.len() - 1].0 == id);
        } else {
            lemma_use_is_an_entry(uses.drop_last(), id);
            let l = choose|l: int|
                0 <= l < uses.drop_last().len() && (#[trigger] uses.drop_last()[l]).0 == id
                    && uses.drop_last()[l].1 == use_of(uses.drop_last(), id)->0;
            assert(uses[l].0 == id);
        }
    }
}

/// Where faults are rejected, a graph with any one of them cannot be lowered in high precision; where
/// they are not, one can.
pub proof fn law_faults_are_rejected<
    G,
    L: Fn(&G, WorkingFormat, Format, DeviceCapabilities) -> Result<LoweredGraphPlan, Error>,
    W: Fn(&G, GraphLoweringFault) -> G,
>(
    graph: &G,
    capabilities: DeviceCapabilities,
    lower: &L,
    with_fault: &W,
    rejected: bool,
    fault: GraphLoweringFault,
)
    requires
        call_ensures(
            lowering_faults_are_rejected::<G, L, W>,
            (graph, capabilities, lower, with_fault),
            rejected,
        ),
    ensures
        rejected ==> exists|faulty: G, error: Error|
            call_ensures(*with_fault, (graph, fault), faulty) && #[trigger] call_ensures(
                *lower,
                (&faulty, WorkingFormat::HighPrecision, Format::Rgba8, capabilities),
                Err::<LoweredGraphPlan, Error>(error),
            ),
        !rejected ==> exists|faulty: G, plan: LoweredGraphPlan| #[trigger]
            call_ensures(
                *lower,
                (&faulty, WorkingFormat::HighPrecision, Format::Rgba8, capabilities),
                Ok::<LoweredGraphPlan, Error>(plan),
            ),
{
    if rejected {
        assert(fault_as_observed(*graph, capabilities, *lower, *with_fault, fault, true));
        let (faulty, lowered) = choose|faulty: G, lowered: Result<LoweredGraphPlan, Error>|
            {
                &&& call_ensures(*with_fault, (graph, fault), faulty)
                &&& #[trigger] call_ensures(
                    *lower,
                    (&faulty, WorkingFormat::HighPrecision, Format::Rgba8, capabilities),
                    lowered,
                )
                &&& lowered is Err
            };
        assert(lowered == Err::<LoweredGraphPlan, Error>(lowered->Err_0));
    } else {
        let found = choose|fault: GraphLoweringFault| #[trigger]
            fault_as_observed(*graph, capabilities, *lower, *with_fault, fault, false);
        let (faulty, lowered) = choose|faulty: G, lowered: Result<LoweredGraphPlan, Error>|
            {
                &&& call_ensures(*with_fault, (graph, found), faulty)
                &&& #[trigger] call_ensures(
                    *lower,
                    (&faulty, WorkingFormat::HighPrecision, Format::Rgba8, capabilities),
                    lowered,
                )
                &&& lowered is Ok
            };
        assert(lowered == Ok::<LoweredGraphPlan, Error>(lowered->Ok_0));
    }
}

/// A lowering is observed of a graph alone, and of one that lowers in either working format and to either
/// output; a device on which nothing fits must refuse it.
pub proof fn law_only_graphs_are_observed_in_lowering<
    C,
    G,
    L: Fn(&G, WorkingFormat, Format, DeviceCapabilities) -> Result<LoweredGraphPlan, Error>,
    V: Fn(&G) -> Result<LoweredFrom, Error>,
    W: Fn(&G, GraphLoweringFault) -> G,
>(
    planned: Result<FramePlan<C, G>, Error>,
    output_format: Format,
    capabilities: DeviceCapabilities,
    lower: &L,
    view: &V,
    with_fault: &W,
    observation: Result<RuntimeLoweringObservation, Error>,
)
    requires
        call_ensures(
            runtime_lowering_observation::<C, G, L, V, W>,
            (planned, output_format, capabilities, lower, view, with_fault),
            observation,
        ),
    ensures
        planned matches Err(error) ==> observation == Err::<RuntimeLoweringObservation, Error>(error),
        observation is Ok ==> planned is Ok && planned->Ok_0 is GpuGraph,
        observation is Ok ==> {
            let graph = planned->Ok_0->GpuGraph_1;
            &&& exists|high: LoweredGraphPlan| #[trigger]
                call_ensures(
                    *lower,
                    (&graph, WorkingFormat::HighPrecision, output_format, capabilities),
                    Ok::<LoweredGraphPlan, Error>(high),
                )
            &&& exists|reduced: LoweredGraphPlan| #[trigger]
                call_ensures(
                    *lower,
                    (&graph, WorkingFormat::ReducedPrecision, output_format, capabilities),
                    Ok::<LoweredGraphPlan, Error>(reduced),
                )
            &&& exists|other: LoweredGraphPlan| #[trigger]
                call_ensures(
                    *lower,
                    (&graph, WorkingFormat::HighPrecision, Format::Bgra8, capabilities),
                    Ok::<LoweredGraphPlan, Error>(other),
                )
        },
{
}

} // verus!
