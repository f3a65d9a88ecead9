//! Graphs whose executable facts are closed over their passes.

use vstd::prelude::*;

use crate::error::{Error, ExactGraph, PreparationFailure};
use crate::geometry::PhysicalSize;
use crate::pass::model::{
    LoweredGraphPlan, PlanModel, RuntimeBlur, RuntimeColorOperation, RuntimeComposite,
    RuntimeDropShadow,
    RuntimePassId, RuntimeReadBinding, RuntimeReadRole, RuntimeResourceId, RuntimeResourceRequest,
    RuntimeSpatialDescriptor, RuntimeSpatialMapping,
};
use crate::pass::search::{
    find_pass, find_resource, first_pass, first_resource, lemma_first_resource, lemma_first_where,
};

verus! {

/// One layer composition.
#[derive(Clone, Copy, Debug, PartialEq, Eq, Structural)]
pub struct LayerCompositionFacts {
    pub pass: RuntimePassId,
    pub parent: RuntimeResourceId,
    pub source: RuntimeResourceId,
    pub clip_coverage: Option<RuntimeResourceId>,
    pub alpha_mask: Option<RuntimeResourceId>,
    pub composite: RuntimeComposite,
}

/// One color filter run.
#[derive(Debug)]
pub struct ColorFilterFacts {
    pub pass: RuntimePassId,
    pub spatial: RuntimeSpatialMapping,
    pub operations: Vec<RuntimeColorOperation>,
}

/// One blur: a horizontal pass into an intermediate image, then a vertical pass.
#[derive(Clone, Copy, Debug, PartialEq, Eq, Structural)]
pub struct BlurFacts {
    pub horizontal: RuntimePassId,
    pub vertical: RuntimePassId,
    pub source: RuntimeResourceId,
    pub intermediate: RuntimeResourceId,
    pub result: RuntimeResourceId,
    pub blur: RuntimeBlur,
}

/// One drop shadow: the source's alpha blurred, colorized, and the source drawn over it.
#[derive(Clone, Copy, Debug, PartialEq, Eq, Structural)]
pub struct DropShadowFacts {
    pub horizontal: RuntimePassId,
    pub vertical: RuntimePassId,
    pub merge: RuntimePassId,
    pub source: RuntimeResourceId,
    pub horizontal_result: RuntimeResourceId,
    pub vertical_result: RuntimeResourceId,
    pub shadow: RuntimeResourceId,
    pub result: RuntimeResourceId,
    pub blur: RuntimeBlur,
    pub parameters: RuntimeDropShadow,
}

/// One authored filter, in order.
#[derive(Clone, Copy, Debug, PartialEq, Eq, Structural)]
pub enum FilterStep {
    Color,
    Blur,
    DropShadow,
}

/// One bounded backdrop.
#[derive(Debug)]
pub struct BackdropFacts {
    pub copy: RuntimePassId,
    pub backdrop_composite: RuntimePassId,
    pub foreground_composite: Option<RuntimePassId>,
    pub outer_composite: RuntimePassId,
    pub completed_parent: RuntimeResourceId,
    pub copied: RuntimeResourceId,
    pub result: RuntimeResourceId,
    pub filter_passes: Vec<RuntimePassId>,
}

/// A lowered graph with its executable facts.
#[derive(Debug)]
pub struct ClosedExecutableGraph {
    pub lowered: LoweredGraphPlan,
    pub layer_compositions: Vec<LayerCompositionFacts>,
    pub color_filters: Vec<ColorFilterFacts>,
    pub blurs: Vec<BlurFacts>,
    pub drop_shadows: Vec<DropShadowFacts>,
    pub filter_steps: Vec<FilterStep>,
    pub backdrops: Vec<BackdropFacts>,
}

/// The reads that a layer composition has: its parent, its source, its clip and its mask.
pub open spec fn expected_layer_reads(layer: LayerCompositionFacts) -> Seq<
    (RuntimeReadRole, RuntimeResourceId),
> {
    let drawn = seq![
        (RuntimeReadRole::CompositeParent, layer.parent),
        (RuntimeReadRole::CompositeSource, layer.source),
    ];
    let clipped = match layer.clip_coverage {
        Some(coverage) => drawn.push((RuntimeReadRole::ClipCoverage, coverage)),
        None => drawn,
    };
    match layer.alpha_mask {
        Some(mask) => clipped.push((RuntimeReadRole::AlphaMask, mask)),
        None => clipped,
    }
}

/// What a pass samples, and as what.
pub open spec fn read_roles(reads: Seq<RuntimeReadBinding>) -> Seq<
    (RuntimeReadRole, RuntimeResourceId),
> {
    Seq::new(reads.len(), |i: int| (reads[i].role, reads[i].resource))
}

pub open spec fn layer_reads_are_exact(plan: PlanModel, layer: LayerCompositionFacts) -> bool {
    first_pass(plan.passes, layer.pass) matches Some(position) && read_roles(
        plan.passes[position].reads,
    ) == expected_layer_reads(layer)
}

fn layer_reads_match(plan: &LoweredGraphPlan, layer: &LayerCompositionFacts) -> (exact: bool)
    ensures
        exact == layer_reads_are_exact(plan@, *layer),
{
    let position = match find_pass(&plan.passes, layer.pass) {
        Some(position) => position,
        None => return false,
    };
    let pass = &plan.passes[position];
    let mut expected: Vec<(RuntimeReadRole, RuntimeResourceId)> = Vec::with_capacity(4);
    expected.push((RuntimeReadRole::CompositeParent, layer.parent));
    expected.push((RuntimeReadRole::CompositeSource, layer.source));
    if let Some(coverage) = layer.clip_coverage {
        expected.push((RuntimeReadRole::ClipCoverage, coverage));
    }
    if let Some(mask) = layer.alpha_mask {
        expected.push((RuntimeReadRole::AlphaMask, mask));
    }
    assert(expected@ =~= expected_layer_reads(*layer));
    let ghost found = read_roles(plan@.passes[position as int].reads);
    assert(plan@.passes[position as int].reads == pass.reads@);
    let length: usize = expected.len();
    if pass.reads.len() != length {
        assert(found.len() != expected@.len());
        return false;
    }
    let mut next: usize = 0;
    while next < length
        invariant
            next <= length,
            length == expected@.len(),
            pass.reads@.len() == length,
            found == read_roles(pass.reads@),
            found == read_roles(plan@.passes[position as int].reads),
            first_pass(plan@.passes, layer.pass) == Some(position as int),
            expected@ == expected_layer_reads(*layer),
            forall|i: int| 0 <= i < next ==> #[trigger] found[i] == expected@[i],
        decreases length - next,
    {
        let (role, resource) = expected[next];
        if pass.reads[next].role != role || pass.reads[next].resource != resource {
            assert(found[next as int] != expected@[next as int]);
            return false;
        }
        next = next + 1;
    }
    assert(found =~= expected@);
    true
}

/// Whether the graph composites layers, and each by exactly the reads that its facts name.
pub open spec fn layer_compositions_are_exact(closed: ClosedExecutableGraph) -> bool {
    closed.layer_compositions@.len() > 0 && forall|i: int|
        0 <= i < closed.layer_compositions@.len() ==> layer_reads_are_exact(
            closed.lowered@,
            #[trigger] closed.layer_compositions@[i],
        )
}

pub fn c09_layer_composition_reads_are_exact(closed: &ClosedExecutableGraph) -> (exact: bool)
    ensures
        exact == layer_compositions_are_exact(*closed),
{
    let length: usize = closed.layer_compositions.len();
    let mut next: usize = 0;
    while next < length
        invariant
            next <= length,
            length == closed.layer_compositions@.len(),
            forall|i: int|
                0 <= i < next ==> layer_reads_are_exact(
                    closed.lowered@,
                    #[trigger] closed.layer_compositions@[i],
                ),
        decreases length - next,
    {
        if !layer_reads_match(&closed.lowered, &closed.layer_compositions[next]) {
            assert(!layer_reads_are_exact(
                closed.lowered@,
                closed.layer_compositions@[next as int],
            ));
            return false;
        }
        next = next + 1;
    }
    length > 0
}

impl ClosedExecutableGraph {
    /// The extent of the root working image of an exact graph.
    pub open spec fn spec_output_extent(&self, graph: ExactGraph) -> Result<PhysicalSize, Error> {
        match first_resource(self.lowered@.resources, self.lowered@.root_working_image) {
            Some(root) => Ok(root.spatial.device_extent),
            None => Err(Error::Preparation(PreparationFailure::RootOutputMissing { graph })),
        }
    }

    pub fn output_extent(&self, graph: ExactGraph) -> (extent: Result<PhysicalSize, Error>)
        ensures
            extent == self.spec_output_extent(graph),
    {
        match find_resource(&self.lowered.resources, self.lowered.root_working_image) {
            Some(root) => Ok(root.spatial.device_extent),
            None => Err(Error::Preparation(PreparationFailure::RootOutputMissing { graph })),
        }
    }

    /// Where the first color filter reads.
    pub open spec fn spec_first_color_spatial(&self) -> Option<RuntimeSpatialDescriptor> {
        if self.color_filters@.len() > 0 {
            Some(self.color_filters@[0].spatial.source)
        } else {
            None
        }
    }

    pub fn first_color_spatial(&self) -> (spatial: Option<RuntimeSpatialDescriptor>)
        ensures
            spatial == self.spec_first_color_spatial(),
    {
        if self.color_filters.len() > 0 {
            Some(self.color_filters[0].spatial.source)
        } else {
            None
        }
    }

    /// Where the first blur reads and writes, or else the first drop shadow.
    pub open spec fn spec_first_filter_spatial(&self) -> Option<
        (RuntimeSpatialDescriptor, RuntimeSpatialDescriptor),
    > {
        if self.blurs@.len() > 0 {
            Some((self.blurs@[0].blur.spatial.source, self.blurs@[0].blur.spatial.result))
        } else if self.drop_shadows@.len() > 0 {
            Some(
                (
                    self.drop_shadows@[0].blur.spatial.source,
                    self.drop_shadows@[0].parameters.spatial.result,
                ),
            )
        } else {
            None
        }
    }

    pub fn first_filter_spatial(&self) -> (spatial: Option<
        (RuntimeSpatialDescriptor, RuntimeSpatialDescriptor),
    >)
        ensures
            spatial == self.spec_first_filter_spatial(),
    {
        if self.blurs.len() > 0 {
            let blur = self.blurs[0].blur;
            Some((blur.spatial.source, blur.spatial.result))
        } else if self.drop_shadows.len() > 0 {
            let shadow = self.drop_shadows[0];
            Some((shadow.blur.spatial.source, shadow.parameters.spatial.result))
        } else {
            None
        }
    }

    /// Where the parent of the one backdrop and its copy lie.
    pub open spec fn spec_backdrop_spatial(&self) -> Option<
        (RuntimeSpatialDescriptor, RuntimeSpatialDescriptor),
    > {
        if self.backdrops@.len() == 1 {
            match (
                first_resource(self.lowered@.resources, self.backdrops@[0].completed_parent),
                first_resource(self.lowered@.resources, self.backdrops@[0].copied),
            ) {
                (Some(parent), Some(copied)) => Some((parent.spatial, copied.spatial)),
                _ => None,
            }
        } else {
            None
        }
    }

    pub fn backdrop_spatial(&self) -> (spatial: Option<
        (RuntimeSpatialDescriptor, RuntimeSpatialDescriptor),
    >)
        ensures
            spatial == self.spec_backdrop_spatial(),
    {
        if self.backdrops.len() != 1 {
            return None;
        }
        let backdrop = &self.backdrops[0];
        match (
            find_resource(&self.lowered.resources, backdrop.completed_parent),
            find_resource(&self.lowered.resources, backdrop.copied),
        ) {
            (Some(parent), Some(copied)) => Some((parent.spatial, copied.spatial)),
            _ => None,
        }
    }
}

/// The output of an exact graph is as wide and as high as its root working image; a graph without that
/// image has none.
pub proof fn law_outputs_have_the_extent_of_the_root(
    closed: &ClosedExecutableGraph,
    graph: ExactGraph,
    at: int,
    result: Result<PhysicalSize, Error>,
)
    requires
        call_ensures(ClosedExecutableGraph::output_extent, (closed, graph), result),
        0 <= at < closed.lowered.resources@.len(),
        closed.lowered.resources@[at].id == closed.lowered.root_working_image,
        forall|i: int|
            0 <= i < at ==> (#[trigger] closed.lowered.resources@[i]).id
                != closed.lowered.root_working_image,
    ensures
        result matches Ok(extent) && {
            &&& extent.width == closed.lowered.resources@[at].spatial.device_extent.width
            &&& extent.height == closed.lowered.resources@[at].spatial.device_extent.height
        },
{
    let id = closed.lowered.root_working_image;
    let chosen = |resource: RuntimeResourceRequest| resource.id == id;
    lemma_first_where(closed.lowered.resources@, chosen);
    assert(chosen(closed.lowered.resources@[at]));
}

/// Where filters read and write: the first color filter reads at its own source; the first blur from
/// its source to its result, and without one the first shadow from the source of its blur to the result
/// of its colorization; a backdrop from its parent to its copy, and only if it is the one backdrop.
pub proof fn law_filters_read_and_write_where_they_say(
    closed: &ClosedExecutableGraph,
    color: Option<RuntimeSpatialDescriptor>,
    filter: Option<(RuntimeSpatialDescriptor, RuntimeSpatialDescriptor)>,
    backdrop: Option<(RuntimeSpatialDescriptor, RuntimeSpatialDescriptor)>,
)
    requires
        call_ensures(ClosedExecutableGraph::first_color_spatial, (closed,), color),
        call_ensures(ClosedExecutableGraph::first_filter_spatial, (closed,), filter),
        call_ensures(ClosedExecutableGraph::backdrop_spatial, (closed,), backdrop),
    ensures
        color is Some <==> closed.color_filters@.len() > 0,
        color matches Some(source) ==> source == closed.color_filters@[0].spatial.source,
        filter is Some <==> closed.blurs@.len() > 0 || closed.drop_shadows@.len() > 0,
        closed.blurs@.len() > 0 ==> (filter matches Some((source, result)) && source
            == closed.blurs@[0].blur.spatial.source && result
            == closed.blurs@[0].blur.spatial.result),
        closed.blurs@.len() == 0 && closed.drop_shadows@.len() > 0 ==> (filter matches Some(
            (source, result),
        ) && source == closed.drop_shadows@[0].blur.spatial.source && result
            == closed.drop_shadows@[0].parameters.spatial.result),
        backdrop is Some ==> closed.backdrops@.len() == 1,
        backdrop matches Some((parent, copied)) ==> exists|i: int, j: int|
            {
                &&& 0 <= i < closed.lowered.resources@.len()
                &&& 0 <= j < closed.lowered.resources@.len()
                &&& (#[trigger] closed.lowered.resources@[i]).id
                    == closed.backdrops@[0].completed_parent
                &&& (#[trigger] closed.lowered.resources@[j]).id == closed.backdrops@[0].copied
                &&& parent == closed.lowered.resources@[i].spatial
                &&& copied == closed.lowered.resources@[j].spatial
            },
{
    if closed.backdrops@.len() == 1 {
        lemma_first_resource(
            closed.lowered.resources@,
            closed.backdrops@[0].completed_parent,
        );
        lemma_first_resource(closed.lowered.resources@, closed.backdrops@[0].copied);
    }
}

/// Exact layer compositions read their parent first, then their source, then their clip coverage and
/// their mask where they have them, and nothing else.
pub proof fn law_layer_compositions_read_in_order(
    closed: &ClosedExecutableGraph,
    exact: bool,
    i: int,
    position: int,
)
    requires
        call_ensures(c09_layer_composition_reads_are_exact, (closed,), exact),
        exact,
        0 <= i < closed.layer_compositions@.len(),
        first_pass(closed.lowered@.passes, closed.layer_compositions@[i].pass) == Some(position),
    ensures
        ({
            let layer = closed.layer_compositions@[i];
            let reads = closed.lowered@.passes[position].reads;
            let clips = if layer.clip_coverage is Some {
                1int
            } else {
                0
            };
            &&& reads.len() == 2 + clips + (if layer.alpha_mask is Some {
                1int
            } else {
                0
            })
            &&& reads[0].role is CompositeParent
            &&& reads[0].resource == layer.parent
            &&& reads[1].role is CompositeSource
            &&& reads[1].resource == layer.source
            &&& layer.clip_coverage matches Some(coverage) ==> reads[2].role is ClipCoverage
                && reads[2].resource == coverage
            &&& layer.alpha_mask matches Some(mask) ==> reads[2 + clips].role is AlphaMask
                && reads[2 + clips].resource == mask
        }),
{
    let layer = closed.layer_compositions@[i];
    let reads = closed.lowered@.passes[position].reads;
    let found = read_roles(reads);
    assert(layer_reads_are_exact(closed.lowered@, layer));
    assert(found == expected_layer_reads(layer));
    assert(found[0] == (reads[0].role, reads[0].resource));
    assert(found[1] == (reads[1].role, reads[1].resource));
    if layer.clip_coverage is Some || layer.alpha_mask is Some {
        assert(found[2] == (reads[2].role, reads[2].resource));
    }
    if layer.clip_coverage is Some && layer.alpha_mask is Some {
        assert(found[3] == (reads[3].role, reads[3].resource));
    }
}

} // verus!
