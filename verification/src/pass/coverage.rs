//! Clip coverage captures and mask uploads.

use vstd::prelude::*;

use crate::geometry::PhysicalSize;
use crate::options::Antialiasing;
use crate::pass::model::{
    copy_values, LoweredGraphPlan, PassModel, PlanModel, RuntimeCompositeKind, RuntimePass,
    RuntimePassCacheKeys, RuntimePassKind, RuntimeReadBinding, RuntimeReadRole,
    RuntimeResourceFormat, RuntimeResourceId, RuntimeResourceRequest, RuntimeResourceRole,
    Transform,
};
use crate::pass::search::{
    count_where, find_mapped_resource, first_where, lemma_count_step, lemma_filter_step,
    law_counting_is_filtering, lemma_first_where, mapped_resource,
};
use crate::scalar::Scalar;

verus! {

/// One clip of a coverage, by the identity of its path.
#[derive(Clone, Copy, Debug, PartialEq, Eq, Structural)]
pub struct ClipElement {
    pub clip: u64,
    pub transform: Transform,
}

/// One closed capture; its elements are `None` unless it captures a clip coverage.
#[derive(Debug)]
pub struct CapturedWork {
    pub target: RuntimeResourceId,
    pub elements: Option<Vec<ClipElement>>,
    pub antialiasing: Antialiasing,
    pub target_extent: PhysicalSize,
    pub texel_x: Scalar,
    pub texel_y: Scalar,
    pub raster_scale: Scalar,
    pub initial_transform: Transform,
}

/// What the encoder made of one coverage.
#[derive(Clone, Copy, Debug, PartialEq, Eq, Structural)]
pub struct CoverageScene {
    pub emitted_draws: usize,
    pub transparent_base: bool,
    pub antialiasing: Antialiasing,
    pub target_extent: PhysicalSize,
}

/// What is observed of one coverage capture.
#[derive(Debug)]
pub struct ClipCoverageCaptureObservation {
    pub elements: Vec<ClipElement>,
    pub antialiasing: Antialiasing,
    pub device_x: i32,
    pub device_y: i32,
    pub target_extent: PhysicalSize,
    pub texel_x: Scalar,
    pub texel_y: Scalar,
    pub raster_scale: Scalar,
    pub initial_transform: Transform,
    pub scene: CoverageScene,
    pub uses_coverage_resource_role: bool,
    pub uses_rgba8_target: bool,
}

/// Whether a capture is of a coverage whose image is requested and whose scene was encoded.
pub open spec fn is_observable_coverage(
    plan: PlanModel,
    capture: CapturedWork,
    scene: Option<CoverageScene>,
) -> bool {
    &&& capture.elements is Some
    &&& mapped_resource(plan.resources, capture.target) is Some
    &&& scene is Some
}

pub open spec fn coverage_observed(
    observation: ClipCoverageCaptureObservation,
    plan: PlanModel,
    capture: CapturedWork,
    scene: Option<CoverageScene>,
) -> bool {
    let resource = mapped_resource(plan.resources, capture.target)->0;
    &&& observation.elements@ == capture.elements->0@
    &&& observation.antialiasing == capture.antialiasing
    &&& observation.device_x == resource.spatial.device_x
    &&& observation.device_y == resource.spatial.device_y
    &&& observation.target_extent == capture.target_extent
    &&& observation.texel_x == capture.texel_x
    &&& observation.texel_y == capture.texel_y
    &&& observation.raster_scale == capture.raster_scale
    &&& observation.initial_transform == capture.initial_transform
    &&& scene == Some(observation.scene)
    &&& observation.uses_coverage_resource_role == (resource.role
        == RuntimeResourceRole::ClipCoverage)
    &&& observation.uses_rgba8_target == (resource.format
        == RuntimeResourceFormat::ClipCoverageRgba8Unorm)
}

/// Whether what is observed is the capture at a position.
pub open spec fn observed_at(
    observation: ClipCoverageCaptureObservation,
    plan: PlanModel,
    captures: Seq<CapturedWork>,
    scenes: Seq<Option<CoverageScene>>,
    position: int,
) -> bool {
    &&& 0 <= position < captures.len()
    &&& coverage_observed(observation, plan, captures[position], scenes[position])
}

/// The positions of the observable coverage captures among the first `count`.
pub open spec fn coverage_positions(
    plan: PlanModel,
    captures: Seq<CapturedWork>,
    scenes: Seq<Option<CoverageScene>>,
    count: nat,
) -> Seq<int>
    decreases count,
{
    if count == 0 {
        Seq::empty()
    } else {
        let before = coverage_positions(plan, captures, scenes, (count - 1) as nat);
        if is_observable_coverage(plan, captures[count - 1], scenes[count - 1]) {
            before.push(count - 1)
        } else {
            before
        }
    }
}

/// What is observed of the clip coverage of a graph.
#[derive(Debug)]
pub struct GraphClipCoverageObservation {
    pub captures: Vec<ClipCoverageCaptureObservation>,
    pub all_vello_capture_count: usize,
    pub composite_coverage_read_count: usize,
}

pub open spec fn is_capture(pass: PassModel) -> bool {
    pass.kind matches RuntimePassKind::VelloCapture(Some(_))
}

/// How often the passes sample a clip coverage.
pub open spec fn coverage_reads(passes: Seq<PassModel>) -> nat
    decreases passes.len(),
{
    if passes.len() == 0 {
        0
    } else {
        coverage_reads(passes.drop_last()) + count_where(
            passes.last().reads,
            |read: RuntimeReadBinding| read.role == RuntimeReadRole::ClipCoverage,
        )
    }
}

/// How often a run of passes samples anything.
pub open spec fn total_reads(passes: Seq<PassModel>) -> nat
    decreases passes.len(),
{
    if passes.len() == 0 {
        0
    } else {
        total_reads(passes.drop_last()) + passes.last().reads.len()
    }
}

fn pass_coverage_reads(pass: &RuntimePass) -> (count: usize)
    ensures
        count == count_where(
            pass@.reads,
            |read: RuntimeReadBinding| read.role == RuntimeReadRole::ClipCoverage,
        ),
        count <= pass@.reads.len(),
{
    let ghost reads = pass@.reads;
    let ghost chosen = |read: RuntimeReadBinding| read.role == RuntimeReadRole::ClipCoverage;
    let length: usize = pass.reads.len();
    let mut count: usize = 0;
    let mut next: usize = 0;
    while next < length
        invariant
            next <= length,
            length == pass.reads@.len(),
            reads == pass.reads@,
            chosen == (|read: RuntimeReadBinding| read.role == RuntimeReadRole::ClipCoverage),
            count <= next,
            count == count_where(reads.take(next as int), chosen),
        decreases length - next,
    {
        proof {
            lemma_count_step(reads, chosen, next as int);
        }
        if pass.reads[next].role == RuntimeReadRole::ClipCoverage {
            count = count + 1;
        }
        next = next + 1;
    }
    proof {
        assert(reads.take(length as int) =~= reads);
    }
    count
}

fn vello_capture_count(plan: &LoweredGraphPlan) -> (count: usize)
    ensures
        count == count_where(plan@.passes, |pass: PassModel| is_capture(pass)),
{
    let ghost passes = plan@.passes;
    let ghost chosen = |pass: PassModel| is_capture(pass);
    let length: usize = plan.passes.len();
    let mut count: usize = 0;
    let mut next: usize = 0;
    while next < length
        invariant
            next <= length,
            length == plan.passes@.len(),
            passes == plan@.passes,
            chosen == (|pass: PassModel| is_capture(pass)),
            count <= next,
            count == count_where(passes.take(next as int), chosen),
        decreases length - next,
    {
        proof {
            lemma_count_step(passes, chosen, next as int);
            assert(passes[next as int] == plan.passes@[next as int]@);
        }
        if matches!(plan.passes[next].kind, RuntimePassKind::VelloCapture(Some(_))) {
            count = count + 1;
        }
        next = next + 1;
    }
    proof {
        assert(passes.take(length as int) =~= passes);
    }
    count
}

proof fn lemma_reads_grow(passes: Seq<PassModel>, count: int)
    requires
        0 <= count <= passes.len(),
    ensures
        coverage_reads(passes.take(count)) <= total_reads(passes.take(count)) <= total_reads(passes),
    decreases passes.len(), passes.len() - count,
{
    if count == passes.len() {
        assert(passes.take(count) =~= passes);
        if passes.len() > 0 {
            let before = passes.drop_last();
            lemma_reads_grow(before, before.len() as int);
            assert(before.take(before.len() as int) =~= before);
            crate::pass::search::lemma_count_where_bound(
                passes.last().reads,
                |read: RuntimeReadBinding| read.role == RuntimeReadRole::ClipCoverage,
            );
        }
    } else {
        let before = passes.drop_last();
        lemma_reads_grow(before, count);
        assert(before.take(count) =~= passes.take(count));
    }
}

fn composite_coverage_reads(plan: &LoweredGraphPlan) -> (count: usize)
    requires
        total_reads(plan@.passes) <= usize::MAX,
    ensures
        count == coverage_reads(plan@.passes),
{
    let ghost passes = plan@.passes;
    let length: usize = plan.passes.len();
    let mut count: usize = 0;
    let mut next: usize = 0;
    proof {
        assert(passes.take(0) =~= Seq::empty());
    }
    while next < length
        invariant
            next <= length,
            length == plan.passes@.len(),
            passes == plan@.passes,
            total_reads(passes) <= usize::MAX,
            count == coverage_reads(passes.take(next as int)),
        decreases length - next,
    {
        proof {
            let taken = passes.take(next + 1);
            assert(taken.drop_last() =~= passes.take(next as int));
            assert(taken.last() == plan.passes@[next as int]@);
            lemma_reads_grow(passes, next + 1);
        }
        count = count + pass_coverage_reads(&plan.passes[next]);
        next = next + 1;
    }
    proof {
        assert(passes.take(length as int) =~= passes);
    }
    count
}

/// Whether an observation is true of the clip coverage of a graph of whose captures the encoder made
/// these scenes.
pub open spec fn is_observed_coverage(
    observation: GraphClipCoverageObservation,
    plan: PlanModel,
    captures: Seq<CapturedWork>,
    scenes: Seq<Option<CoverageScene>>,
) -> bool {
    let positions = coverage_positions(plan, captures, scenes, captures.len());
    &&& observation.all_vello_capture_count == count_where(
        plan.passes,
        |pass: PassModel| is_capture(pass),
    )
    &&& observation.composite_coverage_read_count == coverage_reads(plan.passes)
    &&& observation.captures@.len() == positions.len()
    &&& forall|i: int|
        0 <= i < observation.captures@.len() ==> observed_at(
            #[trigger] observation.captures@[i],
            plan,
            captures,
            scenes,
            positions[i],
        )
}

/// Whether the encoder may have made these scenes of the captures that have clip coverage. Those of
/// other captures are left open.
pub open spec fn may_encode<E: Fn(&CapturedWork) -> Option<CoverageScene>>(
    encode: E,
    captures: Seq<CapturedWork>,
    scenes: Seq<Option<CoverageScene>>,
) -> bool {
    &&& scenes.len() == captures.len()
    &&& forall|i: int|
        0 <= i < captures.len() && (#[trigger] captures[i]).elements is Some ==> call_ensures(
            encode,
            (&captures[i],),
            scenes[i],
        )
}

fn encode_scenes<E: Fn(&CapturedWork) -> Option<CoverageScene>>(
    captures: &Vec<CapturedWork>,
    encode: &E,
) -> (scenes: Vec<Option<CoverageScene>>)
    requires
        forall|work: &CapturedWork| #[trigger] call_requires(*encode, (work,)),
    ensures
        may_encode(*encode, captures@, scenes@),
{
    let length: usize = captures.len();
    let mut scenes: Vec<Option<CoverageScene>> = Vec::with_capacity(length);
    let mut next: usize = 0;
    while next < length
        invariant
            next <= length,
            length == captures@.len(),
            forall|work: &CapturedWork| #[trigger] call_requires(*encode, (work,)),
            scenes@.len() == next,
            forall|i: int|
                0 <= i < next && (#[trigger] captures@[i]).elements is Some ==> call_ensures(
                    *encode,
                    (&captures@[i],),
                    scenes@[i],
                ),
        decreases length - next,
    {
        let work = &captures[next];
        let scene = if work.elements.is_some() {
            encode(work)
        } else {
            None
        };
        scenes.push(scene);
        next = next + 1;
    }
    scenes
}

/// What is observed of the clip coverage of a graph. `encode` makes a scene of the coverage of a
/// capture, where it can.
pub fn graph_clip_coverage_observation<E: Fn(&CapturedWork) -> Option<CoverageScene>>(
    plan: &LoweredGraphPlan,
    captures: &Vec<CapturedWork>,
    encode: &E,
) -> (observation: GraphClipCoverageObservation)
    requires
        forall|work: &CapturedWork| #[trigger] call_requires(*encode, (work,)),
        total_reads(plan@.passes) <= usize::MAX,
    ensures
        exists|scenes: Seq<Option<CoverageScene>>| #[trigger]
            may_encode(*encode, captures@, scenes) && is_observed_coverage(
                observation,
                plan@,
                captures@,
                scenes,
            ),
{
    let scenes = encode_scenes(captures, encode);
    assert(may_encode(*encode, captures@, scenes@));
    observe_coverage(plan, captures, &scenes)
}

fn observe_coverage(
    plan: &LoweredGraphPlan,
    captures: &Vec<CapturedWork>,
    scenes: &Vec<Option<CoverageScene>>,
) -> (observation: GraphClipCoverageObservation)
    requires
        scenes@.len() == captures@.len(),
        total_reads(plan@.passes) <= usize::MAX,
    ensures
        is_observed_coverage(observation, plan@, captures@, scenes@),
{
    let length: usize = captures.len();
    let mut observed: Vec<ClipCoverageCaptureObservation> = Vec::new();
    let mut next: usize = 0;
    while next < length
        invariant
            next <= length,
            length == captures@.len(),
            length == scenes@.len(),
            observed@.len() == coverage_positions(plan@, captures@, scenes@, next as nat).len(),
            forall|i: int|
                0 <= i < observed@.len() ==> observed_at(
                    #[trigger] observed@[i],
                    plan@,
                    captures@,
                    scenes@,
                    coverage_positions(plan@, captures@, scenes@, next as nat)[i],
                ),
        decreases length - next,
    {
        let capture = &captures[next];
        if let Some(elements) = &capture.elements {
            match (find_mapped_resource(&plan.resources, capture.target), scenes[next]) {
                (Some(resource), Some(scene)) => {
                    observed.push(
                        ClipCoverageCaptureObservation {
                            elements: copy_values(elements),
                            antialiasing: capture.antialiasing,
                            device_x: resource.spatial.device_x,
                            device_y: resource.spatial.device_y,
                            target_extent: capture.target_extent,
                            texel_x: capture.texel_x,
                            texel_y: capture.texel_y,
                            raster_scale: capture.raster_scale,
                            initial_transform: capture.initial_transform,
                            scene,
                            uses_coverage_resource_role: resource.role
                                == RuntimeResourceRole::ClipCoverage,
                            uses_rgba8_target: resource.format
                                == RuntimeResourceFormat::ClipCoverageRgba8Unorm,
                        },
                    );
                },
                _ => {},
            }
        }
        next = next + 1;
    }
    GraphClipCoverageObservation {
        captures: observed,
        all_vello_capture_count: vello_capture_count(plan),
        composite_coverage_read_count: composite_coverage_reads(plan),
    }
}

/// The resources that are uploaded.
pub open spec fn uploaded(resources: Seq<RuntimeResourceRequest>) -> Seq<RuntimeResourceRequest> {
    resources.filter(|resource: RuntimeResourceRequest| resource.import is Some)
}

/// The extents of the uploaded masks, in order.
pub fn mask_upload_allocation_extents(plan: &LoweredGraphPlan) -> (extents: Vec<PhysicalSize>)
    ensures
        extents@ == uploaded(plan@.resources).map_values(
            |resource: RuntimeResourceRequest| resource.spatial.device_extent,
        ),
{
    let ghost resources = plan@.resources;
    let ghost keep = |resource: RuntimeResourceRequest| resource.import is Some;
    let length: usize = plan.resources.len();
    let mut extents: Vec<PhysicalSize> = Vec::new();
    let mut next: usize = 0;
    proof {
        reveal(Seq::filter);
        assert(resources.take(0) =~= Seq::empty());
    }
    while next < length
        invariant
            next <= length,
            length == plan.resources@.len(),
            resources == plan.resources@,
            keep == (|resource: RuntimeResourceRequest| resource.import is Some),
            extents@.len() == resources.take(next as int).filter(keep).len(),
            forall|i: int|
                0 <= i < extents@.len() ==> #[trigger] extents@[i] == resources.take(
                    next as int,
                ).filter(keep)[i].spatial.device_extent,
        decreases length - next,
    {
        proof {
            lemma_filter_step(resources, keep, next as int);
        }
        if plan.resources[next].import.is_some() {
            extents.push(plan.resources[next].spatial.device_extent);
        }
        next = next + 1;
    }
    proof {
        assert(resources.take(length as int) =~= resources);
        assert(extents@ =~= uploaded(resources).map_values(
            |resource: RuntimeResourceRequest| resource.spatial.device_extent,
        ));
    }
    extents
}

/// Whether a pass composites a layer through a mask.
pub open spec fn composites_mask(pass: PassModel) -> bool {
    pass.kind matches RuntimePassKind::Composite(Some(composite)) && composite.kind matches
        RuntimeCompositeKind::Layer(layer) && layer.alpha_mask is Some
}

/// The keys of the first pass that composites a layer through a mask and has keys.
pub open spec fn first_mask_keys(passes: Seq<PassModel>) -> Option<RuntimePassCacheKeys> {
    match first_where(passes, |pass: PassModel| composites_mask(pass) && pass.cache_keys is Some) {
        Some(position) => passes[position].cache_keys,
        None => None,
    }
}

fn find_first_mask_keys(plan: &LoweredGraphPlan) -> (keys: Option<RuntimePassCacheKeys>)
    ensures
        keys == first_mask_keys(plan@.passes),
{
    let ghost passes = plan@.passes;
    let ghost chosen = |pass: PassModel| composites_mask(pass) && pass.cache_keys is Some;
    proof {
        lemma_first_where(passes, chosen);
    }
    let length: usize = plan.passes.len();
    let mut next: usize = 0;
    while next < length
        invariant
            next <= length,
            length == plan.passes@.len(),
            passes == plan@.passes,
            chosen == (|pass: PassModel| composites_mask(pass) && pass.cache_keys is Some),
            forall|i: int| 0 <= i < next ==> !chosen(#[trigger] passes[i]),
            match first_where(passes, chosen) {
                Some(position) => {
                    &&& 0 <= position < passes.len()
                    &&& chosen(passes[position])
                    &&& forall|i: int| 0 <= i < position ==> !chosen(#[trigger] passes[i])
                },
                None => forall|i: int| 0 <= i < passes.len() ==> !chosen(#[trigger] passes[i]),
            },
        decreases length - next,
    {
        let pass = &plan.passes[next];
        assert(passes[next as int] == pass@);
        let masked = match pass.kind {
            RuntimePassKind::Composite(Some(composite)) => match composite.kind {
                RuntimeCompositeKind::Layer(layer) => layer.alpha_mask.is_some(),
                _ => false,
            },
            _ => false,
        };
        if masked && pass.cache_keys.is_some() {
            assert(chosen(passes[next as int]));
            return pass.cache_keys;
        }
        assert(!chosen(passes[next as int]));
        next = next + 1;
    }
    None
}

/// Whether two graphs that differ in the images of their masks share their mask pipelines.
pub fn mask_pipeline_keys_exclude_image_identity(
    first: &LoweredGraphPlan,
    second: &LoweredGraphPlan,
) -> (same: bool)
    ensures
        same == (first_mask_keys(first@.passes) == first_mask_keys(second@.passes)),
{
    find_first_mask_keys(first) == find_first_mask_keys(second)
}

/// What is observed of a coverage is what its capture holds: its clips, its extent, its texel origin,
/// its scale and its transform, at the device origin of its image, with the scene that was encoded.
pub proof fn law_observed_coverages_are_their_captures(
    observation: ClipCoverageCaptureObservation,
    plan: PlanModel,
    capture: CapturedWork,
    scene: CoverageScene,
    resource: RuntimeResourceRequest,
)
    requires
        mapped_resource(plan.resources, capture.target) == Some(resource),
        coverage_observed(observation, plan, capture, Some(scene)),
    ensures
        observation.elements@ == capture.elements->0@,
        observation.antialiasing == capture.antialiasing,
        observation.device_x == resource.spatial.device_x,
        observation.device_y == resource.spatial.device_y,
        observation.target_extent.width == capture.target_extent.width,
        observation.target_extent.height == capture.target_extent.height,
        observation.texel_x == capture.texel_x,
        observation.texel_y == capture.texel_y,
        observation.raster_scale == capture.raster_scale,
        observation.initial_transform == capture.initial_transform,
        observation.scene == scene,
        observation.uses_coverage_resource_role <==> resource.role is ClipCoverage,
        observation.uses_rgba8_target <==> resource.format is ClipCoverageRgba8Unorm,
{
}

/// The positions of coverages are in order, and one is among them exactly if its capture has clips, its
/// image is requested and its scene was encoded.
pub proof fn law_coverages_keep_their_order(
    plan: PlanModel,
    captures: Seq<CapturedWork>,
    scenes: Seq<Option<CoverageScene>>,
    count: nat,
)
    ensures
        ({
            let positions = coverage_positions(plan, captures, scenes, count);
            &&& forall|i: int, j: int|
                0 <= i < j < positions.len() ==> #[trigger] positions[i] < #[trigger] positions[j]
            &&& forall|i: int|
                0 <= i < positions.len() ==> {
                    let position = #[trigger] positions[i];
                    &&& 0 <= position < count
                    &&& captures[position].elements is Some
                    &&& mapped_resource(plan.resources, captures[position].target) is Some
                    &&& scenes[position] is Some
                }
            &&& forall|position: int|
                0 <= position < count && (#[trigger] captures[position]).elements is Some
                    && mapped_resource(plan.resources, captures[position].target) is Some
                    && scenes[position] is Some ==> positions.contains(position)
        }),
    decreases count,
{
    if count > 0 {
        law_coverages_keep_their_order(plan, captures, scenes, (count - 1) as nat);
        let before = coverage_positions(plan, captures, scenes, (count - 1) as nat);
        let positions = coverage_positions(plan, captures, scenes, count);
        assert forall|position: int| 0 <= position < count && (
        #[trigger] captures[position]).elements is Some && mapped_resource(
            plan.resources,
            captures[position].target,
        ) is Some && scenes[position] is Some implies positions.contains(position) by {
            if position < count - 1 {
                let i = choose|i: int| 0 <= i < before.len() && before[i] == position;
                assert(positions[i] == position);
            } else {
                assert(positions[positions.len() - 1] == position);
            }
        }
    }
}

/// An observation of coverages counts the captures of the graph and how often passes sample a coverage,
/// and has one capture for each position, in order.
pub proof fn law_coverage_is_counted(
    observation: GraphClipCoverageObservation,
    plan: PlanModel,
    captures: Seq<CapturedWork>,
    scenes: Seq<Option<CoverageScene>>,
    i: int,
)
    requires
        is_observed_coverage(observation, plan, captures, scenes),
    ensures
        observation.all_vello_capture_count == plan.passes.filter(
            |pass: PassModel| pass.kind is VelloCapture && pass.kind->VelloCapture_0 is Some,
        ).len(),
        plan.passes.len() == 1 ==> observation.composite_coverage_read_count
            == plan.passes[0].reads.filter(
            |read: RuntimeReadBinding| read.role is ClipCoverage,
        ).len(),
        observation.captures@.len() == coverage_positions(
            plan,
            captures,
            scenes,
            captures.len(),
        ).len(),
        0 <= i < observation.captures@.len() ==> coverage_observed(
            observation.captures@[i],
            plan,
            captures[coverage_positions(plan, captures, scenes, captures.len())[i]],
            scenes[coverage_positions(plan, captures, scenes, captures.len())[i]],
        ),
{
    let captured = |pass: PassModel|
        pass.kind is VelloCapture && pass.kind->VelloCapture_0 is Some;
    assert((|pass: PassModel| is_capture(pass)) =~= captured);
    law_counting_is_filtering(plan.passes, captured);
    if plan.passes.len() == 1 {
        let covers = |read: RuntimeReadBinding| read.role is ClipCoverage;
        assert((|read: RuntimeReadBinding| read.role == RuntimeReadRole::ClipCoverage) =~= covers);
        law_counting_is_filtering(plan.passes[0].reads, covers);
        assert(coverage_reads(plan.passes.drop_last()) == 0);
    }
    if 0 <= i < observation.captures@.len() {
        assert(observed_at(
            observation.captures@[i],
            plan,
            captures,
            scenes,
            coverage_positions(plan, captures, scenes, captures.len())[i],
        ));
    }
}

/// The reads of coverages add up over the passes.
pub proof fn law_coverage_reads_add_up(first: Seq<PassModel>, second: Seq<PassModel>)
    ensures
        coverage_reads(first + second) == coverage_reads(first) + coverage_reads(second),
    decreases second.len(),
{
    if second.len() == 0 {
        assert(first + second =~= first);
    } else {
        law_coverage_reads_add_up(first, second.drop_last());
        assert((first + second).drop_last() =~= first + second.drop_last());
        assert((first + second).last() == second.last());
    }
}

/// The extents of uploaded masks are those of the resources that are imported, in order.
pub proof fn law_uploads_have_the_extents_of_their_masks(
    plan: &LoweredGraphPlan,
    extents: Vec<PhysicalSize>,
    i: int,
)
    requires
        call_ensures(mask_upload_allocation_extents, (plan,), extents),
    ensures
        ({
            let imported = plan@.resources.filter(
                |resource: RuntimeResourceRequest| resource.import is Some,
            );
            &&& extents@.len() == imported.len()
            &&& 0 <= i < imported.len() ==> {
                &&& extents@[i].width == imported[i].spatial.device_extent.width
                &&& extents@[i].height == imported[i].spatial.device_extent.height
            }
        }),
{
}

/// Graphs share their mask pipelines exactly if the first masked layer composites that have keys have
/// the same; here of graphs that begin with one.
pub proof fn law_mask_pipelines_are_those_of_the_first_mask(
    first: &LoweredGraphPlan,
    second: &LoweredGraphPlan,
    same: bool,
    i: int,
    j: int,
)
    requires
        call_ensures(mask_pipeline_keys_exclude_image_identity, (first, second), same),
        0 <= i < first@.passes.len(),
        0 <= j < second@.passes.len(),
        (first@.passes[i].kind matches RuntimePassKind::Composite(Some(composite))
            && composite.kind matches RuntimeCompositeKind::Layer(layer)
            && layer.alpha_mask is Some),
        (second@.passes[j].kind matches RuntimePassKind::Composite(Some(composite))
            && composite.kind matches RuntimeCompositeKind::Layer(layer)
            && layer.alpha_mask is Some),
        first@.passes[i].cache_keys is Some,
        second@.passes[j].cache_keys is Some,
        forall|k: int| 0 <= k < i ==> !((#[trigger] first@.passes[k]).kind is Composite),
        forall|k: int| 0 <= k < j ==> !((#[trigger] second@.passes[k]).kind is Composite),
    ensures
        same <==> first@.passes[i].cache_keys == second@.passes[j].cache_keys,
{
    let chosen = |pass: PassModel| composites_mask(pass) && pass.cache_keys is Some;
    lemma_first_where(first@.passes, chosen);
    lemma_first_where(second@.passes, chosen);
    assert(chosen(first@.passes[i]));
    assert(chosen(second@.passes[j]));
    assert forall|k: int| 0 <= k < i implies !chosen(#[trigger] first@.passes[k]) by {}
    assert forall|k: int| 0 <= k < j implies !chosen(#[trigger] second@.passes[k]) by {}
}

} // verus!
