//! The base spine: one root clear, captures composited one after another, one present.

use vstd::prelude::*;

use crate::geometry::PhysicalSize;
use crate::options::Antialiasing;
use crate::pass::model::{
    edge_key, shader_sampling_edge, LoweredGraphPlan, PlanModel, RuntimeComposite,
    RuntimeCompositeKind, RuntimeInitialization, RuntimePassCacheKeys, RuntimePassId,
    RuntimePassKind, RuntimeReadBinding, RuntimeReadRole, RuntimeResourceFormat, RuntimeResourceId,
    RuntimeResourceProducer, RuntimeResourceRequest, RuntimeResourceRole, RuntimeResultBinding,
    RuntimeSamplingEdge, RuntimeSamplingFilter, RuntimeVelloCapture, RuntimeVelloSpanScope,
    SamplerKey, Transform,
};
use crate::pass::search::{
    find_resource, first_resource, lemma_first_resource, pass_ids_are_distinct, passes_are_distinct,
    resource_ids_are_distinct, resources_are_distinct,
};
use crate::runtime::{Format, WorkingFormat};
use crate::scalar::Scalar;

verus! {

/// The kinds of pass that the spine is made of.
#[derive(Clone, Copy, Debug, PartialEq, Eq, Structural)]
pub enum C08PassClass {
    ClearRoot,
    VelloCapture,
    CanonicalizeCapture,
    SpanSourceOver,
    Present,
}

/// The class of a pass, if the spine can hold it.
pub open spec fn class_of(kind: RuntimePassKind) -> Option<C08PassClass> {
    match kind {
        RuntimePassKind::ClearRoot {
            initialization: RuntimeInitialization::SurfaceBaseColor,
            ..
        } => Some(C08PassClass::ClearRoot),
        RuntimePassKind::VelloCapture(Some(_)) => Some(C08PassClass::VelloCapture),
        RuntimePassKind::CanonicalizeCapture => Some(C08PassClass::CanonicalizeCapture),
        RuntimePassKind::Composite(
            Some(
                RuntimeComposite {
                    kind: RuntimeCompositeKind::SpanSourceOver,
                    source_captured_before_outer_semantics: true,
                },
            ),
        ) => Some(C08PassClass::SpanSourceOver),
        RuntimePassKind::Present => Some(C08PassClass::Present),
        _ => None,
    }
}

pub fn c08_pass_class(kind: RuntimePassKind) -> (class: Option<C08PassClass>)
    ensures
        class == class_of(kind),
{
    match kind {
        RuntimePassKind::ClearRoot { initialization, .. } => match initialization {
            RuntimeInitialization::SurfaceBaseColor => Some(C08PassClass::ClearRoot),
            RuntimeInitialization::Transparent => None,
        },
        RuntimePassKind::VelloCapture(Some(_)) => Some(C08PassClass::VelloCapture),
        RuntimePassKind::VelloCapture(None) => None,
        RuntimePassKind::CanonicalizeCapture => Some(C08PassClass::CanonicalizeCapture),
        RuntimePassKind::CopyBackdrop
        | RuntimePassKind::ColorFilter(_)
        | RuntimePassKind::BlurHorizontal(_)
        | RuntimePassKind::BlurVertical(_)
        | RuntimePassKind::DropShadowColorize(_) => None,
        RuntimePassKind::Composite(Some(composite)) => match composite.kind {
            RuntimeCompositeKind::SpanSourceOver => if composite.source_captured_before_outer_semantics {
                Some(C08PassClass::SpanSourceOver)
            } else {
                None
            },
            RuntimeCompositeKind::Layer(_) | RuntimeCompositeKind::DropShadow => None,
        },
        RuntimePassKind::Composite(None) => None,
        RuntimePassKind::Present => Some(C08PassClass::Present),
    }
}

/// What other parts of the renderer derive for one pass: its cache keys, unless deriving them
/// failed, and for a capture the transform that its scene starts with.
#[derive(Clone, Copy, Debug, PartialEq, Eq, Structural)]
pub struct PassDerivation {
    pub cache_keys: Option<Option<RuntimePassCacheKeys>>,
    pub initial_transform: Option<Transform>,
}

/// Whether the derivations of every plan can be asked for.
pub open spec fn derives_any<D: Fn(&LoweredGraphPlan) -> Vec<PassDerivation>>(derive: D) -> bool {
    forall|plan: LoweredGraphPlan| #[trigger] call_requires(derive, (&plan,))
}

/// Whether these may be the derivations of a plan with these contents.
pub open spec fn may_derive<D: Fn(&LoweredGraphPlan) -> Vec<PassDerivation>>(
    derive: D,
    plan: PlanModel,
    derived: Seq<PassDerivation>,
) -> bool {
    exists|asked: LoweredGraphPlan, found: Vec<PassDerivation>|
        {
            &&& asked@ == plan
            &&& found@ == derived
            &&& #[trigger] call_ensures(derive, (&asked,), found)
        }
}

/// Whether a resource is allocated by the named pass with this role and format.
pub open spec fn has_fixed_facts(
    resource: RuntimeResourceRequest,
    role: RuntimeResourceRole,
    format: RuntimeResourceFormat,
    producer: RuntimePassId,
) -> bool {
    &&& resource.role == role
    &&& resource.format == format
    &&& resource.producer == RuntimeResourceProducer::Pass(producer)
    &&& resource.import is None
}

pub fn c08_resource_has_fixed_facts(
    resource: &RuntimeResourceRequest,
    role: RuntimeResourceRole,
    format: RuntimeResourceFormat,
    producer: RuntimePassId,
) -> (fixed: bool)
    ensures
        fixed == has_fixed_facts(*resource, role, format, producer),
{
    resource.role == role && resource.format == format && resource.producer
        == RuntimeResourceProducer::Pass(producer) && resource.import.is_none()
}

/// Whether a read samples `resource` as `role`, with a sampler key that says the same.
pub open spec fn reads_exactly(
    read: RuntimeReadBinding,
    role: RuntimeReadRole,
    resource: RuntimeResourceId,
    edge: RuntimeSamplingEdge,
    source_format: RuntimeResourceFormat,
) -> bool {
    &&& read.role == role
    &&& read.resource == resource
    &&& read.sampling_filter == RuntimeSamplingFilter::Linear
    &&& read.sampling_edge.spec_same_as(edge)
    &&& read.sampler_key == (SamplerKey {
        role,
        source_format,
        filter: RuntimeSamplingFilter::Linear,
        edge: edge_key(edge),
        mask: None,
    })
}

pub fn c08_read_is_exact(
    read: &RuntimeReadBinding,
    role: RuntimeReadRole,
    resource: RuntimeResourceId,
    edge: RuntimeSamplingEdge,
    source_format: RuntimeResourceFormat,
) -> (exact: bool)
    ensures
        exact == reads_exactly(*read, role, resource, edge, source_format),
{
    let sampler_key = SamplerKey {
        role,
        source_format,
        filter: RuntimeSamplingFilter::Linear,
        edge: shader_sampling_edge(edge),
        mask: None,
    };
    read.role == role && read.resource == resource && read.sampling_filter
        == RuntimeSamplingFilter::Linear && read.sampling_edge.same_as(edge) && read.sampler_key
        == sampler_key
}

/// The resource that the pass at `position` writes, as the plan requests it.
pub open spec fn target_of(plan: PlanModel, position: int) -> Option<RuntimeResourceRequest> {
    match plan.passes[position].result {
        RuntimeResultBinding::Resource(id) => first_resource(plan.resources, id),
        _ => None,
    }
}

/// The first pass clears the root working image to the surface's base color.
pub open spec fn root_is_exact(plan: PlanModel) -> bool {
    let clear = plan.passes[0];
    &&& class_of(clear.kind) == Some(C08PassClass::ClearRoot)
    &&& clear.dependencies.len() == 0
    &&& clear.reads.len() == 0
    &&& clear.releases.len() == 0
    &&& clear.cache_keys is None
    &&& clear.result == RuntimeResultBinding::Resource(plan.root_working_image)
    &&& target_of(plan, 0) matches Some(root) && has_fixed_facts(
        root,
        RuntimeResourceRole::RootWorkingImage,
        RuntimeResourceFormat::Working(plan.working_format),
        clear.id,
    )
}

/// Whether a capture rasterizes commands of the surface itself, before any outer semantics.
pub open spec fn is_surface_span(kind: RuntimePassKind) -> bool {
    kind matches RuntimePassKind::VelloCapture(Some(work)) && {
        &&& work is Span
        &&& work->scope == RuntimeVelloSpanScope::SurfaceRoot
        &&& work->captured_before_outer_semantics
    }
}

/// The capture at `3 k + 1` is alone in writing its image, and the pass after it alone in reading
/// and releasing it.
pub open spec fn capture_pair_is_exact(plan: PlanModel, k: int) -> bool {
    let capture = plan.passes[3 * k + 1];
    let canonicalize = plan.passes[3 * k + 2];
    let composite = plan.passes[3 * k + 3];
    &&& is_surface_span(capture.kind)
    &&& capture.dependencies.len() == 0
    &&& capture.reads.len() == 0
    &&& capture.releases.len() == 0
    &&& capture.cache_keys is None
    &&& target_of(plan, 3 * k + 1) matches Some(source) && target_of(plan, 3 * k + 2) matches Some(
        canonical,
    ) && {
        &&& has_fixed_facts(
            source,
            RuntimeResourceRole::CaptureWorkingImage,
            RuntimeResourceFormat::VelloCaptureRgba8Unorm,
            capture.id,
        )
        &&& source.expected_reads == 1
        &&& source.last_use == canonicalize.id
        &&& class_of(canonicalize.kind) == Some(C08PassClass::CanonicalizeCapture)
        &&& canonicalize.dependencies =~= seq![capture.id]
        &&& canonicalize.reads.len() == 1
        &&& reads_exactly(
            canonicalize.reads[0],
            RuntimeReadRole::CaptureSource,
            source.id,
            RuntimeSamplingEdge::ClampToExtent,
            source.format,
        )
        &&& canonicalize.releases =~= seq![source.id]
        &&& has_fixed_facts(
            canonical,
            RuntimeResourceRole::FilterIntermediate,
            RuntimeResourceFormat::Working(plan.working_format),
            canonicalize.id,
        )
        &&& canonical.expected_reads == 1
        &&& canonical.last_use == composite.id
        &&& canonical.spatial.spec_same_as(source.spatial)
    }
}

/// The composite at `3 k + 3` draws the canonical capture over what the pass at `3 k` left, and
/// releases both.
pub open spec fn composite_is_exact(plan: PlanModel, k: int) -> bool {
    let producer = plan.passes[3 * k];
    let canonicalize = plan.passes[3 * k + 2];
    let composite = plan.passes[3 * k + 3];
    &&& class_of(composite.kind) == Some(C08PassClass::SpanSourceOver)
    &&& composite.dependencies =~= seq![producer.id, canonicalize.id]
    &&& composite.reads.len() == 2
    &&& target_of(plan, 0) matches Some(root) && target_of(plan, 3 * k) matches Some(parent)
        && target_of(plan, 3 * k + 2) matches Some(canonical) && target_of(plan, 3 * k + 3)
        matches Some(result) && {
        &&& reads_exactly(
            composite.reads[0],
            RuntimeReadRole::CompositeParent,
            parent.id,
            RuntimeSamplingEdge::ClampToExtent,
            parent.format,
        )
        &&& reads_exactly(
            composite.reads[1],
            RuntimeReadRole::CompositeSource,
            canonical.id,
            RuntimeSamplingEdge::TransparentBlack,
            canonical.format,
        )
        &&& composite.releases =~= seq![parent.id, canonical.id]
        &&& parent.expected_reads == 1
        &&& parent.last_use == composite.id
        &&& has_fixed_facts(
            result,
            RuntimeResourceRole::CompositeResult,
            RuntimeResourceFormat::Working(plan.working_format),
            composite.id,
        )
        &&& result.spatial.spec_same_as(root.spatial)
    }
}

/// The last pass presents what the pass before it left.
pub open spec fn present_is_exact(plan: PlanModel) -> bool {
    let last = plan.passes.len() - 1;
    let present = plan.passes[last];
    let producer = plan.passes[last - 1];
    &&& present.id == plan.final_present
    &&& class_of(present.kind) == Some(C08PassClass::Present)
    &&& present.dependencies =~= seq![producer.id]
    &&& present.reads.len() == 1
    &&& present.result == RuntimeResultBinding::Output(plan.output_format)
    &&& target_of(plan, last - 1) matches Some(parent) && {
        &&& reads_exactly(
            present.reads[0],
            RuntimeReadRole::FinalWorkingImage,
            parent.id,
            RuntimeSamplingEdge::ClampToExtent,
            parent.format,
        )
        &&& present.releases =~= seq![parent.id]
        &&& parent.expected_reads == 1
        &&& parent.last_use == present.id
    }
}

/// Every pass has the cache keys that were derived for it.
pub open spec fn cache_keys_are_exact(plan: PlanModel, derived: Seq<PassDerivation>) -> bool {
    forall|i: int|
        #![trigger plan.passes[i]]
        0 <= i < plan.passes.len() ==> i < derived.len() && derived[i].cache_keys == Some(
            plan.passes[i].cache_keys,
        )
}

/// How many captures a plan of this length has room for.
pub open spec fn capture_count(plan: PlanModel) -> int {
    (plan.passes.len() - 2) / 3
}

/// One capture with the passes that canonicalize and composite it.
pub open spec fn group_is_exact(plan: PlanModel, derived: Seq<PassDerivation>, k: int) -> bool {
    &&& capture_pair_is_exact(plan, k)
    &&& 3 * k + 1 < derived.len() && derived[3 * k + 1].initial_transform is Some
    &&& composite_is_exact(plan, k)
}

/// A capture where a group starts, whose group is cut short or not exact.
pub open spec fn group_is_broken(plan: PlanModel, derived: Seq<PassDerivation>, k: int) -> bool {
    &&& 0 <= k
    &&& 3 * k + 1 < plan.passes.len()
    &&& class_of(plan.passes[3 * k + 1].kind) == Some(C08PassClass::VelloCapture)
    &&& 3 * k + 3 < plan.passes.len() ==> !group_is_exact(plan, derived, k)
}

/// Whether a plan is an exact spine with at least one capture.
pub open spec fn is_spine(plan: PlanModel, derived: Seq<PassDerivation>) -> bool {
    let n = capture_count(plan);
    &&& n >= 1
    &&& plan.passes.len() == 3 * n + 2
    &&& passes_are_distinct(plan.passes)
    &&& resources_are_distinct(plan.resources)
    &&& root_is_exact(plan)
    &&& forall|k: int| 0 <= k < n ==> #[trigger] group_is_exact(plan, derived, k)
    &&& present_is_exact(plan)
    &&& plan.resources.len() == 3 * n + 1
    &&& cache_keys_are_exact(plan, derived)
}

/// What the encoder needs of one capture.
#[derive(Clone, Copy, Debug, PartialEq, Eq, Structural)]
pub struct ExecutableVelloCaptureFacts {
    pub pass: RuntimePassId,
    pub target: RuntimeResourceId,
    pub antialiasing: Antialiasing,
    pub target_extent: PhysicalSize,
    pub texel_x: Scalar,
    pub texel_y: Scalar,
    pub raster_scale: Scalar,
    pub initial_transform: Transform,
}

/// The facts of the capture in group `k` of a spine.
pub open spec fn capture_facts(
    plan: PlanModel,
    derived: Seq<PassDerivation>,
    k: int,
) -> ExecutableVelloCaptureFacts {
    let capture = plan.passes[3 * k + 1];
    let target = target_of(plan, 3 * k + 1)->0;
    ExecutableVelloCaptureFacts {
        pass: capture.id,
        target: target.id,
        antialiasing: capture.kind->VelloCapture_0->0->span_antialiasing,
        target_extent: target.spatial.device_extent,
        texel_x: target.spatial.texel_x,
        texel_y: target.spatial.texel_y,
        raster_scale: target.spatial.raster_scale,
        initial_transform: derived[3 * k + 1].initial_transform->0,
    }
}

/// What a spine executes.
#[derive(Debug)]
pub struct C08ExecutionFacts {
    pub working_format: WorkingFormat,
    pub output_format: Format,
    pub captures: Vec<ExecutableVelloCaptureFacts>,
}

/// The facts of a spine: its formats, and its captures in order.
pub open spec fn are_facts_of(
    facts: C08ExecutionFacts,
    plan: PlanModel,
    derived: Seq<PassDerivation>,
) -> bool {
    &&& facts.working_format == plan.working_format
    &&& facts.output_format == plan.output_format
    &&& facts.captures@.len() == capture_count(plan)
    &&& forall|k: int|
        0 <= k < facts.captures@.len() ==> #[trigger] facts.captures@[k] == capture_facts(
            plan,
            derived,
            k,
        )
}

/// The resource that a pass writes, as the plan requests it.
fn target_resource(plan: &LoweredGraphPlan, position: usize) -> (target: Option<
    RuntimeResourceRequest,
>)
    requires
        position < plan.passes@.len(),
    ensures
        target == target_of(plan@, position as int),
{
    match plan.passes[position].result {
        RuntimeResultBinding::Resource(id) => find_resource(&plan.resources, id),
        _ => None,
    }
}

/// Whether a list holds exactly these passes.
pub fn lists_passes(items: &Vec<RuntimePassId>, expected: &[RuntimePassId]) -> (same: bool)
    ensures
        same == (items@ =~= expected@),
{
    let length: usize = expected.len();
    if items.len() != length {
        return false;
    }
    let mut next: usize = 0;
    while next < length
        invariant
            next <= length,
            length == expected@.len(),
            items@.len() == length,
            forall|i: int| 0 <= i < next ==> #[trigger] items@[i] == expected@[i],
        decreases length - next,
    {
        if items[next] != expected[next] {
            return false;
        }
        next = next + 1;
    }
    true
}

/// Whether a list holds exactly these resources.
pub fn lists_resources(items: &Vec<RuntimeResourceId>, expected: &[RuntimeResourceId]) -> (same:
    bool)
    ensures
        same == (items@ =~= expected@),
{
    let length: usize = expected.len();
    if items.len() != length {
        return false;
    }
    let mut next: usize = 0;
    while next < length
        invariant
            next <= length,
            length == expected@.len(),
            items@.len() == length,
            forall|i: int| 0 <= i < next ==> #[trigger] items@[i] == expected@[i],
        decreases length - next,
    {
        if items[next] != expected[next] {
            return false;
        }
        next = next + 1;
    }
    true
}

fn c08_root_is_exact(plan: &LoweredGraphPlan) -> (exact: bool)
    requires
        plan.passes@.len() > 0,
    ensures
        exact == root_is_exact(plan@),
{
    let clear = &plan.passes[0];
    match target_resource(plan, 0) {
        Some(root) => c08_pass_class(clear.kind) == Some(C08PassClass::ClearRoot)
            && clear.dependencies.len() == 0 && clear.reads.len() == 0 && clear.releases.len() == 0
            && clear.cache_keys.is_none() && clear.result == RuntimeResultBinding::Resource(
            plan.root_working_image,
        ) && c08_resource_has_fixed_facts(
            &root,
            RuntimeResourceRole::RootWorkingImage,
            RuntimeResourceFormat::Working(plan.working_format),
            clear.id,
        ),
        None => false,
    }
}

/// Checks the capture at `3 k + 1` together with the pass that canonicalizes it.
fn c08_capture_pair(plan: &LoweredGraphPlan, k: usize) -> (exact: bool)
    requires
        3 * k + 3 < plan.passes@.len(),
    ensures
        exact == capture_pair_is_exact(plan@, k as int),
{
    let length: usize = plan.passes.len();
    assert(3 * k + 3 < length);
    let capture = &plan.passes[3 * k + 1];
    let canonicalize = &plan.passes[3 * k + 2];
    let composite = &plan.passes[3 * k + 3];
    let is_span = match capture.kind {
        RuntimePassKind::VelloCapture(
            Some(RuntimeVelloCapture::Span { scope, captured_before_outer_semantics, .. }),
        ) => scope == RuntimeVelloSpanScope::SurfaceRoot && captured_before_outer_semantics,
        _ => false,
    };
    if !is_span || capture.dependencies.len() != 0 || capture.reads.len() != 0
        || capture.releases.len() != 0 || capture.cache_keys.is_some() {
        return false;
    }
    let source = match target_resource(plan, 3 * k + 1) {
        Some(source) => source,
        None => return false,
    };
    let canonical = match target_resource(plan, 3 * k + 2) {
        Some(canonical) => canonical,
        None => return false,
    };
    c08_resource_has_fixed_facts(
        &source,
        RuntimeResourceRole::CaptureWorkingImage,
        RuntimeResourceFormat::VelloCaptureRgba8Unorm,
        capture.id,
    ) && source.expected_reads == 1 && source.last_use == canonicalize.id && c08_pass_class(
        canonicalize.kind,
    ) == Some(C08PassClass::CanonicalizeCapture) && lists_passes(
        &canonicalize.dependencies,
        &[capture.id],
    ) && canonicalize.reads.len() == 1 && c08_read_is_exact(
        &canonicalize.reads[0],
        RuntimeReadRole::CaptureSource,
        source.id,
        RuntimeSamplingEdge::ClampToExtent,
        source.format,
    ) && lists_resources(&canonicalize.releases, &[source.id]) && c08_resource_has_fixed_facts(
        &canonical,
        RuntimeResourceRole::FilterIntermediate,
        RuntimeResourceFormat::Working(plan.working_format),
        canonicalize.id,
    ) && canonical.expected_reads == 1 && canonical.last_use == composite.id
        && canonical.spatial.same_as(source.spatial)
}

/// Checks the composite at `3 k + 3`.
fn c08_composite_after_capture(plan: &LoweredGraphPlan, k: usize) -> (exact: bool)
    requires
        3 * k + 3 < plan.passes@.len(),
    ensures
        exact == composite_is_exact(plan@, k as int),
{
    let length: usize = plan.passes.len();
    assert(3 * k + 3 < length);
    let producer = &plan.passes[3 * k];
    let canonicalize = &plan.passes[3 * k + 2];
    let composite = &plan.passes[3 * k + 3];
    let (root, parent, canonical, result) = match (
        target_resource(plan, 0),
        target_resource(plan, 3 * k),
        target_resource(plan, 3 * k + 2),
        target_resource(plan, 3 * k + 3),
    ) {
        (Some(root), Some(parent), Some(canonical), Some(result)) => (
            root,
            parent,
            canonical,
            result,
        ),
        _ => return false,
    };
    c08_pass_class(composite.kind) == Some(C08PassClass::SpanSourceOver) && lists_passes(
        &composite.dependencies,
        &[producer.id, canonicalize.id],
    ) && composite.reads.len() == 2 && c08_read_is_exact(
        &composite.reads[0],
        RuntimeReadRole::CompositeParent,
        parent.id,
        RuntimeSamplingEdge::ClampToExtent,
        parent.format,
    ) && c08_read_is_exact(
        &composite.reads[1],
        RuntimeReadRole::CompositeSource,
        canonical.id,
        RuntimeSamplingEdge::TransparentBlack,
        canonical.format,
    ) && lists_resources(&composite.releases, &[parent.id, canonical.id]) && parent.expected_reads
        == 1 && parent.last_use == composite.id && c08_resource_has_fixed_facts(
        &result,
        RuntimeResourceRole::CompositeResult,
        RuntimeResourceFormat::Working(plan.working_format),
        composite.id,
    ) && result.spatial.same_as(root.spatial)
}

/// Checks that the last pass presents what the one before it left.
fn c08_present_is_exact(plan: &LoweredGraphPlan) -> (exact: bool)
    requires
        plan.passes@.len() >= 2,
    ensures
        exact == present_is_exact(plan@),
{
    let last: usize = plan.passes.len() - 1;
    let present = &plan.passes[last];
    let producer = &plan.passes[last - 1];
    match target_resource(plan, last - 1) {
        Some(parent) => present.id == plan.final_present && c08_pass_class(present.kind) == Some(
            C08PassClass::Present,
        ) && lists_passes(&present.dependencies, &[producer.id]) && present.reads.len() == 1
            && c08_read_is_exact(
            &present.reads[0],
            RuntimeReadRole::FinalWorkingImage,
            parent.id,
            RuntimeSamplingEdge::ClampToExtent,
            parent.format,
        ) && present.result == RuntimeResultBinding::Output(plan.output_format) && lists_resources(
            &present.releases,
            &[parent.id],
        ) && parent.expected_reads == 1 && parent.last_use == present.id,
        None => false,
    }
}

/// Checks that every pass has the cache keys that were derived for it.
fn c08_cache_keys_are_exact(plan: &LoweredGraphPlan, derived: &Vec<PassDerivation>) -> (exact: bool)
    ensures
        exact == cache_keys_are_exact(plan@, derived@),
{
    let length: usize = plan.passes.len();
    let mut next: usize = 0;
    while next < length
        invariant
            next <= length,
            length == plan.passes@.len(),
            forall|i: int|
                0 <= i < next ==> i < derived@.len() && derived@[i].cache_keys == Some(
                    (#[trigger] plan@.passes[i]).cache_keys,
                ),
        decreases length - next,
    {
        let exact = next < derived.len() && match derived[next].cache_keys {
            Some(expected) => expected == plan.passes[next].cache_keys,
            None => false,
        };
        if !exact {
            proof {
                assert(plan@.passes[next as int].cache_keys == plan.passes@[next as int].cache_keys);
            }
            return false;
        }
        next = next + 1;
    }
    true
}

/// The captures of the groups from the first on, while they are exact; `None` at the first group
/// that starts with a capture and is not.
fn c08_capture_sequence(plan: &LoweredGraphPlan, derived: &Vec<PassDerivation>) -> (captures:
    Option<Vec<ExecutableVelloCaptureFacts>>)
    requires
        plan.passes@.len() >= 1,
    ensures
        match captures {
            Some(captures) => {
                &&& forall|k: int|
                    0 <= k < captures@.len() ==> 3 * k + 3 < plan.passes@.len()
                        && #[trigger] group_is_exact(plan@, derived@, k)
                &&& forall|k: int|
                    0 <= k < captures@.len() ==> #[trigger] captures@[k] == capture_facts(
                        plan@,
                        derived@,
                        k,
                    )
                &&& 3 * captures@.len() + 1 < plan.passes@.len() ==> class_of(
                    plan@.passes[3 * (captures@.len() as int) + 1].kind,
                ) != Some(C08PassClass::VelloCapture)
            },
            None => exists|k: int| #[trigger] group_is_broken(plan@, derived@, k),
        },
{
    let length: usize = plan.passes.len();
    let mut captures: Vec<ExecutableVelloCaptureFacts> = Vec::new();
    let mut k: usize = 0;
    while 3 * k + 1 < length && c08_pass_class(plan.passes[3 * k + 1].kind) == Some(
        C08PassClass::VelloCapture,
    )
        invariant
            length == plan.passes@.len(),
            captures@.len() == k,
            3 * k + 1 <= length,
            forall|j: int|
                0 <= j < k ==> 3 * j + 3 < length && #[trigger] group_is_exact(
                    plan@,
                    derived@,
                    j,
                ),
            forall|j: int|
                0 <= j < k ==> #[trigger] captures@[j] == capture_facts(plan@, derived@, j),
        decreases length - 3 * k,
    {
        let group_ends = 3 * k + 3 < length;
        if !group_ends || !c08_capture_pair(plan, k) || !(3 * k + 1 < derived.len())
            || !c08_composite_after_capture(plan, k) {
            proof {
                assert(plan@.passes[3 * k + 1].kind == plan.passes@[3 * k + 1].kind);
                assert(group_is_broken(plan@, derived@, k as int));
            }
            return None;
        }
        let facts = executable_capture_facts(plan, derived, k);
        match facts {
            Some(facts) => captures.push(facts),
            None => {
                proof {
                    assert(group_is_broken(plan@, derived@, k as int));
                }
                return None;
            },
        }
        k = k + 1;
    }
    Some(captures)
}

/// The facts of one exact capture, if its scene has an initial transform.
fn executable_capture_facts(plan: &LoweredGraphPlan, derived: &Vec<PassDerivation>, k: usize) -> (
facts: Option<ExecutableVelloCaptureFacts>)
    requires
        3 * k + 3 < plan.passes@.len(),
        3 * k + 1 < derived@.len(),
        capture_pair_is_exact(plan@, k as int),
    ensures
        facts == (if derived@[3 * k + 1].initial_transform is Some {
            Some(capture_facts(plan@, derived@, k as int))
        } else {
            None
        }),
{
    let length: usize = plan.passes.len();
    assert(3 * k + 3 < length);
    let capture = &plan.passes[3 * k + 1];
    match (capture.kind, target_resource(plan, 3 * k + 1), derived[3 * k + 1].initial_transform) {
        (
            RuntimePassKind::VelloCapture(Some(RuntimeVelloCapture::Span { span_antialiasing, .. })),
            Some(target),
            Some(initial_transform),
        ) => Some(
            ExecutableVelloCaptureFacts {
                pass: capture.id,
                target: target.id,
                antialiasing: span_antialiasing,
                target_extent: target.spatial.device_extent,
                texel_x: target.spatial.texel_x,
                texel_y: target.spatial.texel_y,
                raster_scale: target.spatial.raster_scale,
                initial_transform,
            },
        ),
        _ => None,
    }
}

impl LoweredGraphPlan {
    /// The execution facts of an exact spine.
    pub fn c08_execution_facts(&self, derived: &Vec<PassDerivation>) -> (facts: Option<
        C08ExecutionFacts,
    >)
        ensures
            facts is Some <==> is_spine(self@, derived@),
            facts matches Some(facts) ==> are_facts_of(facts, self@, derived@),
    {
        let length: usize = self.passes.len();
        if length < 2 || !resource_ids_are_distinct(&self.resources) || !pass_ids_are_distinct(
            &self.passes,
        ) || !c08_root_is_exact(self) {
            return None;
        }
        let captures = match c08_capture_sequence(self, derived) {
            Some(captures) => captures,
            None => {
                proof {
                    if is_spine(self@, derived@) {
                        let k = choose|k: int| #[trigger] group_is_broken(self@, derived@, k);
                        assert(k < capture_count(self@)) by {
                            if k == capture_count(self@) {
                                assert(present_is_exact(self@));
                            }
                        }
                        assert(group_is_exact(self@, derived@, k));
                    }
                }
                return None;
            },
        };
        let count: usize = captures.len();
        proof {
            if is_spine(self@, derived@) {
                if count < capture_count(self@) {
                    assert(group_is_exact(self@, derived@, count as int));
                }
                if count > capture_count(self@) {
                    let k = capture_count(self@);
                    assert(group_is_exact(self@, derived@, k));
                }
            }
        }
        if count == 0 || (length - 2) / 3 != count || (length - 2) % 3 != 0
            || !c08_present_is_exact(self) || self.resources.len() != 3 * count + 1
            || !c08_cache_keys_are_exact(self, derived) {
            return None;
        }
        Some(
            C08ExecutionFacts {
                working_format: self.working_format,
                output_format: self.output_format,
                captures,
            },
        )
    }
}

/// The spine holds a clear to the surface's base color, a capture that has its work, a canonicalization,
/// a span that was captured before outer semantics and is drawn over, and a present; nothing else.
pub proof fn law_classes_of_the_spine(kind: RuntimePassKind, class: Option<C08PassClass>)
    requires
        call_ensures(c08_pass_class, (kind,), class),
    ensures
        class == Some(C08PassClass::ClearRoot) <==> kind is ClearRoot
            && kind->initialization is SurfaceBaseColor,
        class == Some(C08PassClass::VelloCapture) <==> kind is VelloCapture
            && kind->VelloCapture_0 is Some,
        class == Some(C08PassClass::CanonicalizeCapture) <==> kind is CanonicalizeCapture,
        class == Some(C08PassClass::SpanSourceOver) <==> kind is Composite
            && kind->Composite_0 is Some && kind->Composite_0->0.kind is SpanSourceOver
            && kind->Composite_0->0.source_captured_before_outer_semantics,
        class == Some(C08PassClass::Present) <==> kind is Present,
{
}

/// A resource has its fixed facts exactly if it has the role and the format, is written by the pass and
/// is not imported.
pub proof fn law_fixed_facts(
    resource: &RuntimeResourceRequest,
    role: RuntimeResourceRole,
    format: RuntimeResourceFormat,
    producer: RuntimePassId,
    fixed: bool,
)
    requires
        call_ensures(c08_resource_has_fixed_facts, (resource, role, format, producer), fixed),
    ensures
        fixed <==> {
            &&& resource.role == role
            &&& resource.format == format
            &&& resource.producer == RuntimeResourceProducer::Pass(producer)
            &&& resource.import is None
        },
{
}

/// A read is exact exactly if it samples the resource in the role, linearly and with the edge, and its
/// key says the same, of a source of that format and of no mask.
pub proof fn law_exact_reads(
    read: &RuntimeReadBinding,
    role: RuntimeReadRole,
    resource: RuntimeResourceId,
    edge: RuntimeSamplingEdge,
    source_format: RuntimeResourceFormat,
    exact: bool,
)
    requires
        call_ensures(c08_read_is_exact, (read, role, resource, edge, source_format), exact),
    ensures
        exact <==> {
            let key = read.sampler_key;
            &&& read.role == role
            &&& read.resource == resource
            &&& read.sampling_filter is Linear
            &&& read.sampling_edge.spec_same_as(edge)
            &&& key.role == role
            &&& key.source_format == source_format
            &&& key.filter is Linear
            &&& key.mask is None
            &&& key.edge is TransparentBlack <==> edge is TransparentBlack
            &&& key.edge is ClampToExtent <==> edge is ClampToExtent
            &&& key.edge is Mirror <==> edge is SemanticBorderMirror
        },
{
}

/// Lists are the same exactly if they have the same items in the same order.
pub proof fn law_lists_hold_their_items(
    passes: &Vec<RuntimePassId>,
    expected: &[RuntimePassId],
    same: bool,
    i: int,
)
    requires
        call_ensures(lists_passes, (passes, expected), same),
    ensures
        same ==> passes@.len() == expected@.len(),
        same && 0 <= i < passes@.len() ==> passes@[i] == expected@[i],
        passes@ == expected@ ==> same,
{
}

/// A spine begins with a clear of the root image to the base color, in the working format, and ends with
/// the present of what the last composite left, to the output format.
pub proof fn law_spines_begin_and_end(
    plan: &LoweredGraphPlan,
    derived: &Vec<PassDerivation>,
    facts: C08ExecutionFacts,
)
    requires
        call_ensures(LoweredGraphPlan::c08_execution_facts, (plan, derived), Some(facts)),
    ensures
        facts.working_format == plan.working_format,
        facts.output_format == plan.output_format,
        facts.captures@.len() >= 1,
        plan@.passes.len() == 3 * facts.captures@.len() + 2,
        plan@.resources.len() == 3 * facts.captures@.len() + 1,
        ({
            let clear = plan@.passes[0];
            let last = plan@.passes.len() - 1;
            let present = plan@.passes[last];
            let before = plan@.passes[last - 1];
            &&& clear.kind is ClearRoot && clear.kind->initialization is SurfaceBaseColor
            &&& clear.result == RuntimeResultBinding::Resource(plan.root_working_image)
            &&& clear.dependencies.len() == 0
            &&& clear.reads.len() == 0
            &&& clear.releases.len() == 0
            &&& clear.cache_keys is None
            &&& first_resource(plan@.resources, plan.root_working_image) matches Some(root)
                && root.role is RootWorkingImage && root.format == RuntimeResourceFormat::Working(
                plan.working_format,
            )
            &&& present.kind is Present
            &&& present.id == plan.final_present
            &&& present.result == RuntimeResultBinding::Output(plan.output_format)
            &&& present.dependencies.len() == 1 && present.dependencies[0] == before.id
            &&& present.reads.len() == 1 && present.reads[0].role is FinalWorkingImage
            &&& before.result == RuntimeResultBinding::Resource(present.reads[0].resource)
            &&& present.releases.len() == 1 && present.releases[0] == present.reads[0].resource
        }),
{
    let root = plan.root_working_image;
    lemma_first_resource(plan@.resources, root);
    let last = plan@.passes.len() - 1;
    lemma_first_resource(plan@.resources, plan@.passes[last - 1].result.spec_resource()->0);
}

/// Each capture of a spine stands alone before the pass that canonicalizes it, and that before the
/// composite that draws it over what was there: the composite samples the parent with the nearest
/// texel and the capture with nothing outside it, and releases both.
pub proof fn law_captures_are_drawn_over(
    plan: &LoweredGraphPlan,
    derived: &Vec<PassDerivation>,
    facts: C08ExecutionFacts,
    k: int,
)
    requires
        call_ensures(LoweredGraphPlan::c08_execution_facts, (plan, derived), Some(facts)),
        0 <= k < facts.captures@.len(),
    ensures
        ({
            let parent = plan@.passes[3 * k];
            let capture = plan@.passes[3 * k + 1];
            let canonicalize = plan@.passes[3 * k + 2];
            let composite = plan@.passes[3 * k + 3];
            &&& capture.kind matches RuntimePassKind::VelloCapture(Some(work)) && work is Span
                && work->scope is SurfaceRoot && work->captured_before_outer_semantics
            &&& capture.dependencies.len() == 0
            &&& capture.reads.len() == 0
            &&& capture.releases.len() == 0
            &&& capture.cache_keys is None
            &&& canonicalize.kind is CanonicalizeCapture
            &&& canonicalize.dependencies == seq![capture.id]
            &&& canonicalize.reads.len() == 1
            &&& canonicalize.reads[0].role is CaptureSource
            &&& capture.result == RuntimeResultBinding::Resource(canonicalize.reads[0].resource)
            &&& canonicalize.releases == seq![canonicalize.reads[0].resource]
            &&& composite.kind matches RuntimePassKind::Composite(Some(work))
                && work.kind is SpanSourceOver && work.source_captured_before_outer_semantics
            &&& composite.dependencies == seq![parent.id, canonicalize.id]
            &&& composite.reads.len() == 2
            &&& composite.reads[0].role is CompositeParent
            &&& composite.reads[0].sampling_edge is ClampToExtent
            &&& composite.reads[1].role is CompositeSource
            &&& composite.reads[1].sampling_edge is TransparentBlack
            &&& parent.result == RuntimeResultBinding::Resource(composite.reads[0].resource)
            &&& canonicalize.result == RuntimeResultBinding::Resource(composite.reads[1].resource)
            &&& composite.releases == seq![
                composite.reads[0].resource,
                composite.reads[1].resource,
            ]
        }),
{
    assert(group_is_exact(plan@, derived@, k));
    lemma_first_resource(plan@.resources, plan@.passes[3 * k].result.spec_resource()->0);
    lemma_first_resource(plan@.resources, plan@.passes[3 * k + 1].result.spec_resource()->0);
    lemma_first_resource(plan@.resources, plan@.passes[3 * k + 2].result.spec_resource()->0);
    lemma_first_resource(plan@.resources, plan@.passes[3 * k + 3].result.spec_resource()->0);
}

/// What is executed of a capture is its pass, with the image that it writes: that image's extent, texel
/// origin and scale, the antialiasing of its span and the transform that was derived for it.
pub proof fn law_captures_are_executed_as_lowered(
    plan: &LoweredGraphPlan,
    derived: &Vec<PassDerivation>,
    facts: C08ExecutionFacts,
    k: int,
)
    requires
        call_ensures(LoweredGraphPlan::c08_execution_facts, (plan, derived), Some(facts)),
        0 <= k < facts.captures@.len(),
    ensures
        ({
            let capture = plan@.passes[3 * k + 1];
            let found = facts.captures@[k];
            &&& found.pass == capture.id
            &&& capture.result == RuntimeResultBinding::Resource(found.target)
            &&& first_resource(plan@.resources, found.target) matches Some(target) && {
                &&& found.target_extent.width == target.spatial.device_extent.width
                &&& found.target_extent.height == target.spatial.device_extent.height
                &&& found.texel_x == target.spatial.texel_x
                &&& found.texel_y == target.spatial.texel_y
                &&& found.raster_scale == target.spatial.raster_scale
                &&& target.role is CaptureWorkingImage
                &&& target.format is VelloCaptureRgba8Unorm
            }
            &&& derived@[3 * k + 1].initial_transform == Some(found.initial_transform)
            &&& capture.kind matches RuntimePassKind::VelloCapture(Some(work)) && work is Span
                && found.antialiasing == work->span_antialiasing
        }),
{
    assert(group_is_exact(plan@, derived@, k));
    lemma_first_resource(plan@.resources, plan@.passes[3 * k + 1].result.spec_resource()->0);
}

/// A spine has the keys that were derived for it, and no plan shorter than five passes is one.
pub proof fn law_spines_have_their_derived_keys(
    plan: &LoweredGraphPlan,
    derived: &Vec<PassDerivation>,
    facts: Option<C08ExecutionFacts>,
    i: int,
)
    requires
        call_ensures(LoweredGraphPlan::c08_execution_facts, (plan, derived), facts),
        0 <= i < plan@.passes.len(),
    ensures
        facts is Some ==> i < derived@.len() && derived@[i].cache_keys == Some(
            plan@.passes[i].cache_keys,
        ),
        plan@.passes.len() < 5 ==> facts is None,
{
}

/// A list holds the expected resources exactly if it has as many, and each in its place.
pub proof fn law_listed_resources_stand_in_order(
    items: &Vec<RuntimeResourceId>,
    expected: &[RuntimeResourceId],
    same: bool,
)
    requires
        call_ensures(lists_resources, (items, expected), same),
    ensures
        same <==> items@.len() == expected@.len() && forall|i: int|
            0 <= i < items@.len() ==> #[trigger] items@[i] == expected@[i],
{
    if items@.len() == expected@.len() && forall|i: int|
        0 <= i < items@.len() ==> #[trigger] items@[i] == expected@[i] {
        assert(items@ =~= expected@);
    }
}

} // verus!
