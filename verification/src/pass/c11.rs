//! Blurs and drop shadows of a closed graph.

use vstd::prelude::*;

use crate::pass::c08::{is_spine, PassDerivation};
use crate::pass::c08_laws::{law_spine_dependencies_precede, law_spine_releases_are_last_uses};
use crate::pass::closed::{BlurFacts, ClosedExecutableGraph, DropShadowFacts, FilterStep};
use crate::pass::model::{
    LoweredGraphPlan, PassModel, PlanModel, RuntimeBlur, RuntimeBlurInput, RuntimePass,
    RuntimePassId, RuntimePassKind, RuntimeReadBinding, RuntimeResourceId, RuntimeResourceRequest,
    RuntimeSamplingEdge,
};
use crate::pass::search::{
    find_mapped_pass, find_mapped_resource, find_pass, find_resource, first_pass, first_resource,
    lemma_first_resource, lemma_last_where, lemma_resource_found, mapped_pass, mapped_resource,
};

verus! {

/// Whether the filters are a color run, one blur of positive deviation, one drop shadow and
/// another color run.
pub open spec fn filter_shape_is_exact(closed: ClosedExecutableGraph) -> bool {
    &&& closed.filter_steps@ =~= seq![
        FilterStep::Color,
        FilterStep::Blur,
        FilterStep::DropShadow,
        FilterStep::Color,
    ]
    &&& closed.color_filters@.len() == 2
    &&& closed.blurs@.len() == 1
    &&& closed.drop_shadows@.len() == 1
    &&& closed.blurs@[0].blur.standard_deviation.spec_is_positive()
}

pub fn c11_filter_step_shape_is_exact(closed: &ClosedExecutableGraph) -> (exact: bool)
    ensures
        exact == filter_shape_is_exact(*closed),
{
    closed.filter_steps.len() == 4 && closed.filter_steps[0] == FilterStep::Color
        && closed.filter_steps[1] == FilterStep::Blur && closed.filter_steps[2]
        == FilterStep::DropShadow && closed.filter_steps[3] == FilterStep::Color
        && closed.color_filters.len() == 2 && closed.blurs.len() == 1 && closed.drop_shadows.len()
        == 1 && closed.blurs[0].blur.standard_deviation.is_positive()
}

/// One pass of a filter.
#[derive(Clone, Copy, Debug, PartialEq, Eq, Structural)]
pub enum C11FilterPassTag {
    Color,
    BlurHorizontalRgba,
    BlurVerticalRgba,
    BlurHorizontalSourceAlpha,
    BlurVerticalSourceAlpha,
    DropShadowColorize,
    DropShadowMerge,
}

/// The passes that one filter takes.
pub open spec fn step_tags(step: FilterStep) -> Seq<C11FilterPassTag> {
    match step {
        FilterStep::Color => seq![C11FilterPassTag::Color],
        FilterStep::Blur => seq![
            C11FilterPassTag::BlurHorizontalRgba,
            C11FilterPassTag::BlurVerticalRgba,
        ],
        FilterStep::DropShadow => seq![
            C11FilterPassTag::BlurHorizontalSourceAlpha,
            C11FilterPassTag::BlurVerticalSourceAlpha,
            C11FilterPassTag::DropShadowColorize,
            C11FilterPassTag::DropShadowMerge,
        ],
    }
}

/// The passes that a run of filters takes, in order.
pub open spec fn filter_tags(steps: Seq<FilterStep>) -> Seq<C11FilterPassTag>
    decreases steps.len(),
{
    if steps.len() == 0 {
        Seq::empty()
    } else {
        filter_tags(steps.drop_last()) + step_tags(steps.last())
    }
}

/// The passes that the filters take, in order.
pub fn c11_filter_pass_tags(steps: &Vec<FilterStep>) -> (tags: Vec<C11FilterPassTag>)
    ensures
        tags@ == filter_tags(steps@),
{
    let length: usize = steps.len();
    let mut tags: Vec<C11FilterPassTag> = Vec::new();
    let mut next: usize = 0;
    while next < length
        invariant
            next <= length,
            length == steps@.len(),
            tags@ == filter_tags(steps@.take(next as int)),
        decreases length - next,
    {
        let ghost before = tags@;
        proof {
            let taken = steps@.take(next + 1);
            assert(taken.drop_last() =~= steps@.take(next as int));
        }
        match steps[next] {
            FilterStep::Color => {
                tags.push(C11FilterPassTag::Color);
            },
            FilterStep::Blur => {
                tags.push(C11FilterPassTag::BlurHorizontalRgba);
                tags.push(C11FilterPassTag::BlurVerticalRgba);
            },
            FilterStep::DropShadow => {
                tags.push(C11FilterPassTag::BlurHorizontalSourceAlpha);
                tags.push(C11FilterPassTag::BlurVerticalSourceAlpha);
                tags.push(C11FilterPassTag::DropShadowColorize);
                tags.push(C11FilterPassTag::DropShadowMerge);
            },
        }
        proof {
            assert(tags@ =~= before + step_tags(steps@[next as int]));
        }
        next = next + 1;
    }
    proof {
        assert(steps@.take(length as int) =~= steps@);
    }
    tags
}

/// The passes of a run of filters are those of its parts, one after the other.
pub proof fn law_filter_passes_follow_the_filters(first: Seq<FilterStep>, second: Seq<FilterStep>)
    ensures
        filter_tags(first + second) == filter_tags(first) + filter_tags(second),
    decreases second.len(),
{
    if second.len() == 0 {
        assert(first + second =~= first);
        assert(filter_tags(first) + filter_tags(second) =~= filter_tags(first));
    } else {
        law_filter_passes_follow_the_filters(first, second.drop_last());
        assert((first + second).drop_last() =~= first + second.drop_last());
        assert((first + second).last() == second.last());
        assert(filter_tags(first + second) =~= filter_tags(first) + filter_tags(second));
    }
}

/// Whether the pass reads once, and shows nothing outside its source.
pub open spec fn reads_transparently(plan: PlanModel, id: RuntimePassId) -> bool {
    first_pass(plan.passes, id) matches Some(position) && {
        &&& plan.passes[position].reads.len() == 1
        &&& plan.passes[position].reads[0].sampling_edge is TransparentBlack
    }
}

/// Whether both axes of a blur show nothing outside their source.
pub open spec fn blur_edge_is_exact(plan: PlanModel, facts: BlurFacts) -> bool {
    &&& facts.blur.edge is TransparentBlack
    &&& reads_transparently(plan, facts.horizontal)
    &&& reads_transparently(plan, facts.vertical)
}

fn is_transparent(edge: RuntimeSamplingEdge) -> (transparent: bool)
    ensures
        transparent == (edge is TransparentBlack),
{
    matches!(edge, RuntimeSamplingEdge::TransparentBlack)
}

fn pass_reads_transparently(plan: &LoweredGraphPlan, id: RuntimePassId) -> (exact: bool)
    ensures
        exact == reads_transparently(plan@, id),
{
    match find_pass(&plan.passes, id) {
        Some(position) => {
            let pass = &plan.passes[position];
            assert(plan@.passes[position as int] == pass@);
            pass.reads.len() == 1 && is_transparent(pass.reads[0].sampling_edge)
        },
        None => false,
    }
}

/// Whether there are blurs, and all show nothing outside their sources.
pub fn c11_blur_edges_are_exact(closed: &ClosedExecutableGraph) -> (exact: bool)
    ensures
        exact == (closed.blurs@.len() > 0 && forall|i: int|
            0 <= i < closed.blurs@.len() ==> blur_edge_is_exact(
                closed.lowered@,
                #[trigger] closed.blurs@[i],
            )),
{
    let length: usize = closed.blurs.len();
    let mut next: usize = 0;
    while next < length
        invariant
            next <= length,
            length == closed.blurs@.len(),
            forall|i: int|
                0 <= i < next ==> blur_edge_is_exact(
                    closed.lowered@,
                    #[trigger] closed.blurs@[i],
                ),
        decreases length - next,
    {
        let facts = closed.blurs[next];
        if !is_transparent(facts.blur.edge) || !pass_reads_transparently(
            &closed.lowered,
            facts.horizontal,
        ) || !pass_reads_transparently(&closed.lowered, facts.vertical) {
            assert(!blur_edge_is_exact(closed.lowered@, closed.blurs@[next as int]));
            return false;
        }
        next = next + 1;
    }
    length > 0
}

/// Whether a shadow is of the source's alpha, at a continuous offset, under the unchanged source.
pub open spec fn shadow_is_exact(facts: DropShadowFacts) -> bool {
    &&& facts.blur.input == RuntimeBlurInput::SourceAlpha
    &&& facts.parameters.uses_source_alpha
    &&& facts.parameters.uses_continuous_offset
    &&& facts.parameters.retains_unchanged_source
    &&& facts.parameters.edge is TransparentBlack
}

pub fn c11_shadow_facts_are_exact(closed: &ClosedExecutableGraph) -> (exact: bool)
    ensures
        exact == (closed.drop_shadows@.len() > 0 && forall|i: int|
            0 <= i < closed.drop_shadows@.len() ==> shadow_is_exact(
                #[trigger] closed.drop_shadows@[i],
            )),
{
    let length: usize = closed.drop_shadows.len();
    let mut next: usize = 0;
    while next < length
        invariant
            next <= length,
            length == closed.drop_shadows@.len(),
            forall|i: int| 0 <= i < next ==> shadow_is_exact(#[trigger] closed.drop_shadows@[i]),
        decreases length - next,
    {
        let facts = closed.drop_shadows[next];
        if !(facts.blur.input == RuntimeBlurInput::SourceAlpha && facts.parameters.uses_source_alpha
            && facts.parameters.uses_continuous_offset && facts.parameters.retains_unchanged_source
            && is_transparent(facts.parameters.edge)) {
            assert(!shadow_is_exact(closed.drop_shadows@[next as int]));
            return false;
        }
        next = next + 1;
    }
    length > 0
}

/// The vertical blur of the pass with an identity.
pub open spec fn vertical_blur(plan: PlanModel, id: RuntimePassId) -> Option<RuntimeBlur> {
    match first_pass(plan.passes, id) {
        Some(position) => match plan.passes[position].kind {
            RuntimePassKind::BlurVertical(blur) => blur,
            _ => None,
        },
        None => None,
    }
}

/// The horizontal pass maps the source to the intermediate, the vertical the intermediate to the
/// result, and the two images lie alike.
pub open spec fn blur_mapping_is_exact(plan: PlanModel, facts: BlurFacts) -> bool {
    &&& mapped_resource(plan.resources, facts.source) matches Some(source) && mapped_resource(
        plan.resources,
        facts.intermediate,
    ) matches Some(intermediate) && mapped_resource(plan.resources, facts.result) matches Some(
        result,
    ) && {
        &&& facts.blur.spatial.source.spec_same_as(source.spatial)
        &&& facts.blur.spatial.result.spec_same_as(intermediate.spatial)
        &&& facts.blur.spatial.result.spec_same_as(result.spatial)
        &&& vertical_blur(plan, facts.vertical) matches Some(blur) && {
            &&& blur.spatial.source.spec_same_as(intermediate.spatial)
            &&& blur.spatial.result.spec_same_as(result.spatial)
        }
    }
}

/// The blur maps the source to both blurred images, and the colorization maps those to the shadow
/// and to the merged result.
pub open spec fn shadow_mapping_is_exact(plan: PlanModel, facts: DropShadowFacts) -> bool {
    &&& mapped_resource(plan.resources, facts.source) matches Some(source) && mapped_resource(
        plan.resources,
        facts.horizontal_result,
    ) matches Some(horizontal) && mapped_resource(plan.resources, facts.vertical_result) matches Some(
        vertical,
    ) && mapped_resource(plan.resources, facts.shadow) matches Some(shadow) && mapped_resource(
        plan.resources,
        facts.result,
    ) matches Some(result) && {
        &&& facts.blur.spatial.source.spec_same_as(source.spatial)
        &&& facts.blur.spatial.result.spec_same_as(horizontal.spatial)
        &&& facts.blur.spatial.result.spec_same_as(vertical.spatial)
        &&& facts.parameters.spatial.source.spec_same_as(vertical.spatial)
        &&& facts.parameters.spatial.result.spec_same_as(shadow.spatial)
        &&& facts.parameters.spatial.result.spec_same_as(result.spatial)
    }
}

fn find_vertical_blur(plan: &LoweredGraphPlan, id: RuntimePassId) -> (blur: Option<RuntimeBlur>)
    ensures
        blur == vertical_blur(plan@, id),
{
    match find_pass(&plan.passes, id) {
        Some(position) => {
            assert(plan@.passes[position as int] == plan.passes@[position as int]@);
            match plan.passes[position].kind {
                RuntimePassKind::BlurVertical(blur) => blur,
                _ => None,
            }
        },
        None => None,
    }
}

fn blur_maps_exactly(plan: &LoweredGraphPlan, facts: &BlurFacts) -> (exact: bool)
    ensures
        exact == blur_mapping_is_exact(plan@, *facts),
{
    match (
        find_mapped_resource(&plan.resources, facts.source),
        find_mapped_resource(&plan.resources, facts.intermediate),
        find_mapped_resource(&plan.resources, facts.result),
        find_vertical_blur(plan, facts.vertical),
    ) {
        (Some(source), Some(intermediate), Some(result), Some(blur)) => {
            facts.blur.spatial.source.same_as(source.spatial) && facts.blur.spatial.result.same_as(
                intermediate.spatial,
            ) && facts.blur.spatial.result.same_as(result.spatial) && blur.spatial.source.same_as(
                intermediate.spatial,
            ) && blur.spatial.result.same_as(result.spatial)
        },
        _ => false,
    }
}

fn shadow_maps_exactly(plan: &LoweredGraphPlan, facts: &DropShadowFacts) -> (exact: bool)
    ensures
        exact == shadow_mapping_is_exact(plan@, *facts),
{
    match (
        find_mapped_resource(&plan.resources, facts.source),
        find_mapped_resource(&plan.resources, facts.horizontal_result),
        find_mapped_resource(&plan.resources, facts.vertical_result),
        find_mapped_resource(&plan.resources, facts.shadow),
        find_mapped_resource(&plan.resources, facts.result),
    ) {
        (Some(source), Some(horizontal), Some(vertical), Some(shadow), Some(result)) => {
            facts.blur.spatial.source.same_as(source.spatial) && facts.blur.spatial.result.same_as(
                horizontal.spatial,
            ) && facts.blur.spatial.result.same_as(vertical.spatial)
                && facts.parameters.spatial.source.same_as(vertical.spatial)
                && facts.parameters.spatial.result.same_as(shadow.spatial)
                && facts.parameters.spatial.result.same_as(result.spatial)
        },
        _ => false,
    }
}

/// Whether every blur and every shadow maps exactly the images that it names.
pub fn c11_spatial_mappings_are_exact(closed: &ClosedExecutableGraph) -> (exact: bool)
    ensures
        exact == ({
            &&& forall|i: int|
                0 <= i < closed.blurs@.len() ==> blur_mapping_is_exact(
                    closed.lowered@,
                    #[trigger] closed.blurs@[i],
                )
            &&& forall|i: int|
                0 <= i < closed.drop_shadows@.len() ==> shadow_mapping_is_exact(
                    closed.lowered@,
                    #[trigger] closed.drop_shadows@[i],
                )
        }),
{
    let blurs: usize = closed.blurs.len();
    let mut next: usize = 0;
    while next < blurs
        invariant
            next <= blurs,
            blurs == closed.blurs@.len(),
            forall|i: int|
                0 <= i < next ==> blur_mapping_is_exact(
                    closed.lowered@,
                    #[trigger] closed.blurs@[i],
                ),
        decreases blurs - next,
    {
        if !blur_maps_exactly(&closed.lowered, &closed.blurs[next]) {
            assert(!blur_mapping_is_exact(closed.lowered@, closed.blurs@[next as int]));
            return false;
        }
        next = next + 1;
    }
    let shadows: usize = closed.drop_shadows.len();
    let mut shadow: usize = 0;
    while shadow < shadows
        invariant
            shadow <= shadows,
            shadows == closed.drop_shadows@.len(),
            forall|i: int|
                0 <= i < shadow ==> shadow_mapping_is_exact(
                    closed.lowered@,
                    #[trigger] closed.drop_shadows@[i],
                ),
        decreases shadows - shadow,
    {
        if !shadow_maps_exactly(&closed.lowered, &closed.drop_shadows[shadow]) {
            assert(!shadow_mapping_is_exact(
                closed.lowered@,
                closed.drop_shadows@[shadow as int],
            ));
            return false;
        }
        shadow = shadow + 1;
    }
    true
}

/// The images of a blur.
pub open spec fn blur_images(facts: BlurFacts) -> Seq<RuntimeResourceId> {
    seq![facts.source, facts.intermediate, facts.result]
}

/// The images of a drop shadow.
pub open spec fn shadow_images(facts: DropShadowFacts) -> Seq<RuntimeResourceId> {
    seq![
        facts.source,
        facts.horizontal_result,
        facts.vertical_result,
        facts.shadow,
        facts.result,
    ]
}

/// Whether no image is named twice.
fn images_are_distinct(images: &[RuntimeResourceId]) -> (distinct: bool)
    ensures
        distinct == images@.no_duplicates(),
{
    let length: usize = images.len();
    let mut right: usize = 0;
    while right < length
        invariant
            right <= length,
            length == images@.len(),
            forall|i: int, j: int|
                0 <= i < right && 0 <= j < right && i != j ==> images@[i] != images@[j],
        decreases length - right,
    {
        let mut left: usize = 0;
        while left < right
            invariant
                left <= right < length,
                length == images@.len(),
                forall|i: int| 0 <= i < left ==> #[trigger] images@[i] != images@[right as int],
            decreases right - left,
        {
            if images[left] == images[right] {
                assert(images@[left as int] == images@[right as int]);
                return false;
            }
            left = left + 1;
        }
        right = right + 1;
    }
    true
}

/// Whether no blur and no shadow writes an image that it also reads or writes elsewhere.
pub fn c11_sources_and_results_are_distinct(closed: &ClosedExecutableGraph) -> (distinct: bool)
    ensures
        distinct == ({
            &&& forall|i: int|
                0 <= i < closed.blurs@.len() ==> blur_images(
                    #[trigger] closed.blurs@[i],
                ).no_duplicates()
            &&& forall|i: int|
                0 <= i < closed.drop_shadows@.len() ==> shadow_images(
                    #[trigger] closed.drop_shadows@[i],
                ).no_duplicates()
        }),
{
    let blurs: usize = closed.blurs.len();
    let mut next: usize = 0;
    while next < blurs
        invariant
            next <= blurs,
            blurs == closed.blurs@.len(),
            forall|i: int|
                0 <= i < next ==> blur_images(#[trigger] closed.blurs@[i]).no_duplicates(),
        decreases blurs - next,
    {
        let facts = closed.blurs[next];
        let images = [facts.source, facts.intermediate, facts.result];
        assert(images@ =~= blur_images(facts));
        if !images_are_distinct(&images) {
            assert(!blur_images(closed.blurs@[next as int]).no_duplicates());
            return false;
        }
        next = next + 1;
    }
    let shadows: usize = closed.drop_shadows.len();
    let mut shadow: usize = 0;
    while shadow < shadows
        invariant
            shadow <= shadows,
            shadows == closed.drop_shadows@.len(),
            forall|i: int|
                0 <= i < shadow ==> shadow_images(
                    #[trigger] closed.drop_shadows@[i],
                ).no_duplicates(),
        decreases shadows - shadow,
    {
        let facts = closed.drop_shadows[shadow];
        let images = [
            facts.source,
            facts.horizontal_result,
            facts.vertical_result,
            facts.shadow,
            facts.result,
        ];
        assert(images@ =~= shadow_images(facts));
        if !images_are_distinct(&images) {
            assert(!shadow_images(closed.drop_shadows@[shadow as int]).no_duplicates());
            return false;
        }
        shadow = shadow + 1;
    }
    true
}

pub open spec fn samples(reads: Seq<RuntimeReadBinding>, id: RuntimeResourceId) -> bool {
    exists|i: int| 0 <= i < reads.len() && (#[trigger] reads[i]).resource == id
}

/// The passes that sample an image, in order.
pub open spec fn readers(passes: Seq<PassModel>, id: RuntimeResourceId) -> Seq<RuntimePassId>
    decreases passes.len(),
{
    if passes.len() == 0 {
        Seq::empty()
    } else {
        let before = readers(passes.drop_last(), id);
        if samples(passes.last().reads, id) {
            before.push(passes.last().id)
        } else {
            before
        }
    }
}

fn pass_samples(pass: &RuntimePass, id: RuntimeResourceId) -> (sampled: bool)
    ensures
        sampled == samples(pass@.reads, id),
{
    let length: usize = pass.reads.len();
    let mut next: usize = 0;
    while next < length
        invariant
            next <= length,
            length == pass.reads@.len(),
            forall|i: int| 0 <= i < next ==> (#[trigger] pass.reads@[i]).resource != id,
        decreases length - next,
    {
        if pass.reads[next].resource == id {
            assert(pass@.reads[next as int].resource == id);
            return true;
        }
        next = next + 1;
    }
    false
}

fn passes_that_sample(plan: &LoweredGraphPlan, id: RuntimeResourceId) -> (found: Vec<
    RuntimePassId,
>)
    ensures
        found@ == readers(plan@.passes, id),
{
    let length: usize = plan.passes.len();
    let mut found: Vec<RuntimePassId> = Vec::new();
    let mut next: usize = 0;
    while next < length
        invariant
            next <= length,
            length == plan.passes@.len(),
            found@ == readers(plan@.passes.take(next as int), id),
        decreases length - next,
    {
        proof {
            let taken = plan@.passes.take(next + 1);
            assert(taken.drop_last() =~= plan@.passes.take(next as int));
            assert(taken.last() == plan.passes@[next as int]@);
        }
        if pass_samples(&plan.passes[next], id) {
            found.push(plan.passes[next].id);
        }
        next = next + 1;
    }
    proof {
        assert(plan@.passes.take(length as int) =~= plan@.passes);
    }
    found
}

/// The source of a shadow is sampled by its horizontal blur and by its merge, and by no other.
pub open spec fn shadow_fanout(plan: PlanModel, facts: DropShadowFacts) -> bool {
    &&& readers(plan.passes, facts.source) == seq![facts.horizontal, facts.merge]
    &&& first_resource(plan.resources, facts.source) matches Some(source) && source.expected_reads
        == 2
}

/// The source of a shadow outlives its horizontal blur and is released by its merge.
pub open spec fn shadow_release(plan: PlanModel, facts: DropShadowFacts) -> bool {
    &&& first_pass(plan.passes, facts.horizontal) matches Some(horizontal)
        && !plan.passes[horizontal].releases.contains(facts.source)
    &&& first_pass(plan.passes, facts.merge) matches Some(merge)
        && plan.passes[merge].releases.contains(facts.source)
    &&& first_resource(plan.resources, facts.source) matches Some(source) && source.last_use
        == facts.merge
}

fn fans_out(plan: &LoweredGraphPlan, facts: &DropShadowFacts) -> (exact: bool)
    ensures
        exact == shadow_fanout(plan@, *facts),
{
    let found = passes_that_sample(plan, facts.source);
    let expected = [facts.horizontal, facts.merge];
    assert(expected@ =~= seq![facts.horizontal, facts.merge]);
    let read_by_both = crate::pass::c08::lists_passes(&found, &expected);
    match find_resource(&plan.resources, facts.source) {
        Some(source) => read_by_both && source.expected_reads == 2,
        None => false,
    }
}

fn pass_releases(pass: &RuntimePass, id: RuntimeResourceId) -> (released: bool)
    ensures
        released == pass@.releases.contains(id),
{
    let length: usize = pass.releases.len();
    let mut next: usize = 0;
    while next < length
        invariant
            next <= length,
            length == pass.releases@.len(),
            forall|i: int| 0 <= i < next ==> #[trigger] pass.releases@[i] != id,
        decreases length - next,
    {
        if pass.releases[next] == id {
            assert(pass@.releases[next as int] == id);
            return true;
        }
        next = next + 1;
    }
    false
}

fn releases_after_merge(plan: &LoweredGraphPlan, facts: &DropShadowFacts) -> (exact: bool)
    ensures
        exact == shadow_release(plan@, *facts),
{
    let kept = match find_pass(&plan.passes, facts.horizontal) {
        Some(position) => {
            assert(plan@.passes[position as int] == plan.passes@[position as int]@);
            !pass_releases(&plan.passes[position], facts.source)
        },
        None => false,
    };
    let released = match find_pass(&plan.passes, facts.merge) {
        Some(position) => {
            assert(plan@.passes[position as int] == plan.passes@[position as int]@);
            pass_releases(&plan.passes[position], facts.source)
        },
        None => false,
    };
    let used_last = match find_resource(&plan.resources, facts.source) {
        Some(source) => source.last_use == facts.merge,
        None => false,
    };
    kept && released && used_last
}

pub fn c11_shadow_fanout_is_exact(closed: &ClosedExecutableGraph) -> (exact: bool)
    ensures
        exact == (forall|i: int|
            0 <= i < closed.drop_shadows@.len() ==> shadow_fanout(
                closed.lowered@,
                #[trigger] closed.drop_shadows@[i],
            )),
{
    let length: usize = closed.drop_shadows.len();
    let mut next: usize = 0;
    while next < length
        invariant
            next <= length,
            length == closed.drop_shadows@.len(),
            forall|i: int|
                0 <= i < next ==> shadow_fanout(
                    closed.lowered@,
                    #[trigger] closed.drop_shadows@[i],
                ),
        decreases length - next,
    {
        if !fans_out(&closed.lowered, &closed.drop_shadows[next]) {
            assert(!shadow_fanout(closed.lowered@, closed.drop_shadows@[next as int]));
            return false;
        }
        next = next + 1;
    }
    true
}

pub fn c11_shadow_releases_are_exact(closed: &ClosedExecutableGraph) -> (exact: bool)
    ensures
        exact == (forall|i: int|
            0 <= i < closed.drop_shadows@.len() ==> shadow_release(
                closed.lowered@,
                #[trigger] closed.drop_shadows@[i],
            )),
{
    let length: usize = closed.drop_shadows.len();
    let mut next: usize = 0;
    while next < length
        invariant
            next <= length,
            length == closed.drop_shadows@.len(),
            forall|i: int|
                0 <= i < next ==> shadow_release(
                    closed.lowered@,
                    #[trigger] closed.drop_shadows@[i],
                ),
        decreases length - next,
    {
        if !releases_after_merge(&closed.lowered, &closed.drop_shadows[next]) {
            assert(!shadow_release(closed.lowered@, closed.drop_shadows@[next as int]));
            return false;
        }
        next = next + 1;
    }
    true
}

/// A pass depends only on earlier passes.
pub open spec fn dependencies_precede(plan: PlanModel, position: int) -> bool {
    forall|i: int|
        0 <= i < plan.passes[position].dependencies.len() ==> (mapped_pass(
            plan.passes,
            #[trigger] plan.passes[position].dependencies[i],
        ) matches Some(earlier) && earlier < position)
}

/// A pass releases only images that it uses last.
pub open spec fn releases_are_last_uses(plan: PlanModel, position: int) -> bool {
    forall|i: int|
        0 <= i < plan.passes[position].releases.len() ==> (mapped_resource(
            plan.resources,
            #[trigger] plan.passes[position].releases[i],
        ) matches Some(resource) && resource.last_use == plan.passes[position].id)
}

pub open spec fn pass_lifetimes_are_exact(plan: PlanModel, position: int) -> bool {
    dependencies_precede(plan, position) && releases_are_last_uses(plan, position)
}

/// Whether dependencies precede and releases are last uses, in every pass.
pub open spec fn lifetimes_are_exact(plan: PlanModel) -> bool {
    forall|position: int|
        0 <= position < plan.passes.len() ==> #[trigger] pass_lifetimes_are_exact(plan, position)
}

fn pass_dependencies_precede(plan: &LoweredGraphPlan, position: usize) -> (exact: bool)
    requires
        position < plan@.passes.len(),
    ensures
        exact == dependencies_precede(plan@, position as int),
{
    let pass = &plan.passes[position];
    assert(plan@.passes[position as int] == pass@);
    let length: usize = pass.dependencies.len();
    let mut next: usize = 0;
    while next < length
        invariant
            next <= length,
            length == pass.dependencies@.len(),
            plan@.passes[position as int].dependencies == pass.dependencies@,
            forall|i: int|
                0 <= i < next ==> (mapped_pass(
                    plan@.passes,
                    #[trigger] pass.dependencies@[i],
                ) matches Some(earlier) && earlier < position),
        decreases length - next,
    {
        let precedes = match find_mapped_pass(&plan.passes, pass.dependencies[next]) {
            Some(earlier) => earlier < position,
            None => false,
        };
        if !precedes {
            assert(plan@.passes[position as int].dependencies[next as int]
                == pass.dependencies@[next as int]);
            return false;
        }
        next = next + 1;
    }
    true
}

fn pass_releases_last_uses(plan: &LoweredGraphPlan, position: usize) -> (exact: bool)
    requires
        position < plan@.passes.len(),
    ensures
        exact == releases_are_last_uses(plan@, position as int),
{
    let pass = &plan.passes[position];
    assert(plan@.passes[position as int] == pass@);
    let length: usize = pass.releases.len();
    let mut next: usize = 0;
    while next < length
        invariant
            next <= length,
            length == pass.releases@.len(),
            plan@.passes[position as int].releases == pass.releases@,
            plan@.passes[position as int].id == pass.id,
            forall|i: int|
                0 <= i < next ==> (mapped_resource(
                    plan@.resources,
                    #[trigger] pass.releases@[i],
                ) matches Some(resource) && resource.last_use == pass.id),
        decreases length - next,
    {
        let last = match find_mapped_resource(&plan.resources, pass.releases[next]) {
            Some(resource) => resource.last_use == pass.id,
            None => false,
        };
        if !last {
            assert(plan@.passes[position as int].releases[next as int]
                == pass.releases@[next as int]);
            return false;
        }
        next = next + 1;
    }
    true
}

/// In an exact spine dependencies precede and releases are last uses.
pub proof fn law_spine_lifetimes_are_exact(plan: PlanModel, derived: Seq<PassDerivation>)
    requires
        is_spine(plan, derived),
    ensures
        lifetimes_are_exact(plan),
{
    assert forall|position: int| 0 <= position < plan.passes.len() implies
        #[trigger] pass_lifetimes_are_exact(plan, position) by {
        assert forall|i: int| 0 <= i < plan.passes[position].dependencies.len() implies (
        mapped_pass(plan.passes, #[trigger] plan.passes[position].dependencies[i]) matches Some(
            earlier,
        ) && earlier < position) by {
            let id = plan.passes[position].dependencies[i];
            law_spine_dependencies_precede(plan, derived, position, i);
            let chosen = |pass: PassModel| pass.id == id;
            lemma_last_where(plan.passes, chosen);
            let earlier = choose|earlier: int|
                0 <= earlier < position && (#[trigger] plan.passes[earlier]).id == id;
            assert(chosen(plan.passes[earlier]));
        }
        assert forall|i: int| 0 <= i < plan.passes[position].releases.len() implies (
        mapped_resource(
            plan.resources,
            #[trigger] plan.passes[position].releases[i],
        ) matches Some(resource) && resource.last_use == plan.passes[position].id) by {
            law_spine_releases_are_last_uses(plan, derived, position, i);
            let id = plan.passes[position].releases[i];
            lemma_first_resource(plan.resources, id);
            let resource = first_resource(plan.resources, id)->0;
            let j = choose|j: int|
                0 <= j < plan.resources.len() && #[trigger] plan.resources[j] == resource;
            lemma_resource_found(plan.resources, j);
        }
    }
}

/// Whether the closed facts are proven, dependencies precede, and releases are last uses.
pub fn c11_dependencies_and_lifetimes_are_exact(
    closed: &ClosedExecutableGraph,
    facts_are_proven: bool,
) -> (exact: bool)
    ensures
        exact == (facts_are_proven && lifetimes_are_exact(closed.lowered@)),
{
    let length: usize = closed.lowered.passes.len();
    let mut next: usize = 0;
    while next < length
        invariant
            next <= length,
            length == closed.lowered.passes@.len(),
            forall|position: int|
                0 <= position < next ==> #[trigger] pass_lifetimes_are_exact(
                    closed.lowered@,
                    position,
                ),
        decreases length - next,
    {
        if !pass_dependencies_precede(&closed.lowered, next) || !pass_releases_last_uses(
            &closed.lowered,
            next,
        ) {
            assert(!pass_lifetimes_are_exact(closed.lowered@, next as int));
            return false;
        }
        assert(pass_lifetimes_are_exact(closed.lowered@, next as int));
        next = next + 1;
    }
    facts_are_proven
}

/// One more filter adds its passes behind those of the filters before it: a color filter takes one, a
/// blur one across and one down, and a drop shadow blurs the alpha across and down, colors it and
/// merges it under the source.
pub proof fn law_each_filter_adds_its_passes(
    steps: &Vec<FilterStep>,
    more: &Vec<FilterStep>,
    tags: Vec<C11FilterPassTag>,
    extended: Vec<C11FilterPassTag>,
)
    requires
        call_ensures(c11_filter_pass_tags, (steps,), tags),
        call_ensures(c11_filter_pass_tags, (more,), extended),
        more@.len() == steps@.len() + 1,
        forall|i: int| 0 <= i < steps@.len() ==> more@[i] == #[trigger] steps@[i],
    ensures
        steps@.len() == 0 ==> tags@.len() == 0,
        forall|i: int| 0 <= i < tags@.len() ==> extended@[i] == #[trigger] tags@[i],
        more@[steps@.len() as int] is Color ==> {
            &&& extended@.len() == tags@.len() + 1
            &&& extended@[tags@.len() as int] is Color
        },
        more@[steps@.len() as int] is Blur ==> {
            &&& extended@.len() == tags@.len() + 2
            &&& extended@[tags@.len() as int] is BlurHorizontalRgba
            &&& extended@[(tags@.len() + 1) as int] is BlurVerticalRgba
        },
        more@[steps@.len() as int] is DropShadow ==> {
            &&& extended@.len() == tags@.len() + 4
            &&& extended@[tags@.len() as int] is BlurHorizontalSourceAlpha
            &&& extended@[(tags@.len() + 1) as int] is BlurVerticalSourceAlpha
            &&& extended@[(tags@.len() + 2) as int] is DropShadowColorize
            &&& extended@[(tags@.len() + 3) as int] is DropShadowMerge
        },
{
    assert(more@.drop_last() =~= steps@);
    assert(extended@ =~= tags@ + step_tags(more@.last()));
}

/// The shape of the filters is exact exactly if they are, in order, a color filter, a blur, a drop
/// shadow and a color filter, with two color runs, one shadow and one blur that spreads.
pub proof fn law_filter_shapes(closed: &ClosedExecutableGraph, exact: bool)
    requires
        call_ensures(c11_filter_step_shape_is_exact, (closed,), exact),
    ensures
        exact <==> {
            &&& closed.filter_steps@.len() == 4
            &&& closed.filter_steps@[0] is Color
            &&& closed.filter_steps@[1] is Blur
            &&& closed.filter_steps@[2] is DropShadow
            &&& closed.filter_steps@[3] is Color
            &&& closed.color_filters@.len() == 2
            &&& closed.blurs@.len() == 1
            &&& closed.drop_shadows@.len() == 1
            &&& 0 < closed.blurs@[0].blur.standard_deviation.bits <= 0x7ff0_0000_0000_0000
        },
{
    if closed.filter_steps@.len() == 4 && closed.filter_steps@[0] is Color
        && closed.filter_steps@[1] is Blur && closed.filter_steps@[2] is DropShadow
        && closed.filter_steps@[3] is Color {
        assert(closed.filter_steps@ =~= seq![
            FilterStep::Color,
            FilterStep::Blur,
            FilterStep::DropShadow,
            FilterStep::Color,
        ]);
    }
}

/// The edges of blurs are exact only if there are blurs, each shows nothing outside its source, and so
/// does the one read of each of its two passes; for a single blur that is enough.
pub proof fn law_blur_edges(
    closed: &ClosedExecutableGraph,
    exact: bool,
    i: int,
    across: int,
    down: int,
)
    requires
        call_ensures(c11_blur_edges_are_exact, (closed,), exact),
        0 <= i < closed.blurs@.len(),
        first_pass(closed.lowered@.passes, closed.blurs@[i].horizontal) == Some(across),
        first_pass(closed.lowered@.passes, closed.blurs@[i].vertical) == Some(down),
    ensures
        ({
            let passes = closed.lowered@.passes;
            let transparent = {
                &&& closed.blurs@[i].blur.edge is TransparentBlack
                &&& passes[across].reads.len() == 1
                &&& passes[across].reads[0].sampling_edge is TransparentBlack
                &&& passes[down].reads.len() == 1
                &&& passes[down].reads[0].sampling_edge is TransparentBlack
            };
            &&& exact ==> transparent
            &&& closed.blurs@.len() == 1 ==> exact == transparent
        }),
{
    if closed.blurs@.len() == 1 {
        assert(i == 0);
    }
    assert(exact ==> blur_edge_is_exact(closed.lowered@, closed.blurs@[i]));
}

/// Where there are no blurs, or no shadows, none are exact.
pub proof fn law_nothing_is_not_exact(closed: &ClosedExecutableGraph, edges: bool, shadows: bool)
    requires
        call_ensures(c11_blur_edges_are_exact, (closed,), edges),
        call_ensures(c11_shadow_facts_are_exact, (closed,), shadows),
    ensures
        edges ==> closed.blurs@.len() > 0,
        shadows ==> closed.drop_shadows@.len() > 0,
{
}

/// Shadows are exact only if each blurs the alpha of its source, at a continuous offset, keeps the
/// source as it is and shows nothing outside it; for a single shadow that is enough.
pub proof fn law_exact_shadows(closed: &ClosedExecutableGraph, exact: bool, i: int)
    requires
        call_ensures(c11_shadow_facts_are_exact, (closed,), exact),
        0 <= i < closed.drop_shadows@.len(),
    ensures
        ({
            let facts = closed.drop_shadows@[i];
            let of_alpha = {
                &&& facts.blur.input is SourceAlpha
                &&& facts.parameters.uses_source_alpha
                &&& facts.parameters.uses_continuous_offset
                &&& facts.parameters.retains_unchanged_source
                &&& facts.parameters.edge is TransparentBlack
            };
            &&& exact ==> of_alpha
            &&& closed.drop_shadows@.len() == 1 ==> exact == of_alpha
        }),
{
    assert(exact ==> shadow_is_exact(closed.drop_shadows@[i]));
}

/// Exact mappings follow the images: a blur goes across from its source to its intermediate image and
/// down from there to its result, and a shadow is blurred from its source and colored from what was
/// blurred down.
pub proof fn law_mappings_follow_the_images(
    closed: &ClosedExecutableGraph,
    exact: bool,
    i: int,
    j: int,
)
    requires
        call_ensures(c11_spatial_mappings_are_exact, (closed,), exact),
        exact,
        0 <= i < closed.blurs@.len(),
        0 <= j < closed.drop_shadows@.len(),
    ensures
        ({
            let resources = closed.lowered@.resources;
            let blur = closed.blurs@[i];
            let shadow = closed.drop_shadows@[j];
            &&& mapped_resource(resources, blur.source) matches Some(source)
                && blur.blur.spatial.source.spec_same_as(source.spatial)
            &&& mapped_resource(resources, blur.intermediate) matches Some(intermediate)
                && blur.blur.spatial.result.spec_same_as(intermediate.spatial)
            &&& mapped_resource(resources, blur.result) matches Some(result)
                && blur.blur.spatial.result.spec_same_as(result.spatial)
            &&& first_pass(closed.lowered@.passes, blur.vertical) matches Some(position)
                && closed.lowered@.passes[position].kind matches RuntimePassKind::BlurVertical(
                Some(down),
            ) && down.spatial.source.spec_same_as(
                mapped_resource(resources, blur.intermediate)->0.spatial,
            ) && down.spatial.result.spec_same_as(
                mapped_resource(resources, blur.result)->0.spatial,
            )
            &&& mapped_resource(resources, shadow.source) matches Some(source)
                && shadow.blur.spatial.source.spec_same_as(source.spatial)
            &&& mapped_resource(resources, shadow.horizontal_result) matches Some(across)
                && shadow.blur.spatial.result.spec_same_as(across.spatial)
            &&& mapped_resource(resources, shadow.vertical_result) matches Some(down)
                && shadow.blur.spatial.result.spec_same_as(down.spatial)
                && shadow.parameters.spatial.source.spec_same_as(down.spatial)
            &&& mapped_resource(resources, shadow.shadow) matches Some(colored)
                && shadow.parameters.spatial.result.spec_same_as(colored.spatial)
            &&& mapped_resource(resources, shadow.result) matches Some(merged)
                && shadow.parameters.spatial.result.spec_same_as(merged.spatial)
        }),
{
    assert(blur_mapping_is_exact(closed.lowered@, closed.blurs@[i]));
    assert(shadow_mapping_is_exact(closed.lowered@, closed.drop_shadows@[j]));
}

/// Images are distinct only if no filter names one twice; for one blur and one shadow that is enough.
pub proof fn law_distinct_images(closed: &ClosedExecutableGraph, distinct: bool, i: int, j: int)
    requires
        call_ensures(c11_sources_and_results_are_distinct, (closed,), distinct),
        0 <= i < closed.blurs@.len(),
        0 <= j < closed.drop_shadows@.len(),
    ensures
        ({
            let blur = closed.blurs@[i];
            let shadow = closed.drop_shadows@[j];
            let apart = {
                &&& blur.source != blur.intermediate
                &&& blur.source != blur.result
                &&& blur.intermediate != blur.result
                &&& shadow.source != shadow.horizontal_result
                &&& shadow.source != shadow.vertical_result
                &&& shadow.source != shadow.shadow
                &&& shadow.source != shadow.result
                &&& shadow.horizontal_result != shadow.vertical_result
                &&& shadow.horizontal_result != shadow.shadow
                &&& shadow.horizontal_result != shadow.result
                &&& shadow.vertical_result != shadow.shadow
                &&& shadow.vertical_result != shadow.result
                &&& shadow.shadow != shadow.result
            };
            &&& distinct ==> apart
            &&& closed.blurs@.len() == 1 && closed.drop_shadows@.len() == 1 ==> distinct == apart
        }),
{
    let images = blur_images(closed.blurs@[i]);
    let others = shadow_images(closed.drop_shadows@[j]);
    assert(images[0] == closed.blurs@[i].source);
    assert(images[1] == closed.blurs@[i].intermediate);
    assert(images[2] == closed.blurs@[i].result);
    assert(others[0] == closed.drop_shadows@[j].source);
    assert(others[1] == closed.drop_shadows@[j].horizontal_result);
    assert(others[2] == closed.drop_shadows@[j].vertical_result);
    assert(others[3] == closed.drop_shadows@[j].shadow);
    assert(others[4] == closed.drop_shadows@[j].result);
    assert(distinct ==> images.no_duplicates() && others.no_duplicates());
    if closed.blurs@.len() == 1 && closed.drop_shadows@.len() == 1 {
        assert(distinct == (images.no_duplicates() && others.no_duplicates()));
    }
}

/// Where the fanout is exact, a pass samples the source of a shadow only if it is the one that blurs it
/// across or the one that merges it, and the source is read twice; where releases are exact, the merge
/// uses the source last and releases it, and the blur does not.
pub proof fn law_shadow_sources_are_read_twice(
    closed: &ClosedExecutableGraph,
    fanout: bool,
    releases: bool,
    i: int,
    reader: int,
)
    requires
        call_ensures(c11_shadow_fanout_is_exact, (closed,), fanout),
        call_ensures(c11_shadow_releases_are_exact, (closed,), releases),
        0 <= i < closed.drop_shadows@.len(),
        0 <= reader < closed.lowered@.passes.len(),
    ensures
        ({
            let plan = closed.lowered@;
            let shadow = closed.drop_shadows@[i];
            let source = first_resource(plan.resources, shadow.source);
            &&& fanout && (exists|k: int|
                0 <= k < plan.passes[reader].reads.len() && (
                #[trigger] plan.passes[reader].reads[k]).resource == shadow.source)
                ==> plan.passes[reader].id == shadow.horizontal || plan.passes[reader].id
                == shadow.merge
            &&& fanout ==> source is Some && source->0.expected_reads == 2
            &&& releases ==> source is Some && source->0.last_use == shadow.merge
            &&& releases ==> (first_pass(plan.passes, shadow.horizontal) matches Some(across)
                && !plan.passes[across].releases.contains(shadow.source))
            &&& releases ==> (first_pass(plan.passes, shadow.merge) matches Some(merge)
                && plan.passes[merge].releases.contains(shadow.source))
        }),
{
    let plan = closed.lowered@;
    let shadow = closed.drop_shadows@[i];
    assert(fanout ==> shadow_fanout(plan, shadow));
    assert(releases ==> shadow_release(plan, shadow));
    if fanout && samples(plan.passes[reader].reads, shadow.source) {
        lemma_readers_are_listed(plan.passes, shadow.source, reader);
        let found = readers(plan.passes, shadow.source);
        let k = choose|k: int| 0 <= k < found.len() && found[k] == plan.passes[reader].id;
        assert(found =~= seq![shadow.horizontal, shadow.merge]);
    }
}

/// A pass that samples an image is among its readers.
proof fn lemma_readers_are_listed(passes: Seq<PassModel>, id: RuntimeResourceId, reader: int)
    requires
        0 <= reader < passes.len(),
        samples(passes[reader].reads, id),
    ensures
        readers(passes, id).contains(passes[reader].id),
    decreases passes.len(),
{
    let before = readers(passes.drop_last(), id);
    if reader == passes.len() - 1 {
        let found = readers(passes, id);
        assert(found[found.len() - 1] == passes[reader].id);
    } else {
        lemma_readers_are_listed(passes.drop_last(), id, reader);
        assert(passes.drop_last()[reader] == passes[reader]);
        let k = choose|k: int| 0 <= k < before.len() && before[k] == passes[reader].id;
        assert(readers(passes, id)[k] == before[k]);
    }
}

/// Where lifetimes are exact, what a pass depends on stands before it and what it releases it uses
/// last; and they are exact only of proven facts.
pub proof fn law_exact_lifetimes(
    closed: &ClosedExecutableGraph,
    proven: bool,
    exact: bool,
    position: int,
    i: int,
)
    requires
        call_ensures(c11_dependencies_and_lifetimes_are_exact, (closed, proven), exact),
        exact,
        0 <= position < closed.lowered@.passes.len(),
    ensures
        proven,
        ({
            let plan = closed.lowered@;
            let pass = plan.passes[position];
            &&& 0 <= i < pass.dependencies.len() ==> exists|earlier: int|
                0 <= earlier < position && (#[trigger] plan.passes[earlier]).id
                    == pass.dependencies[i]
            &&& 0 <= i < pass.releases.len() ==> exists|j: int|
                0 <= j < plan.resources.len() && (#[trigger] plan.resources[j]).id
                    == pass.releases[i] && plan.resources[j].last_use == pass.id
        }),
{
    let plan = closed.lowered@;
    let pass = plan.passes[position];
    assert(pass_lifetimes_are_exact(plan, position));
    if 0 <= i < pass.dependencies.len() {
        let id = pass.dependencies[i];
        lemma_last_where(plan.passes, |pass: PassModel| pass.id == id);
    }
    if 0 <= i < pass.releases.len() {
        let id = pass.releases[i];
        lemma_last_where(plan.resources, |resource: RuntimeResourceRequest| resource.id == id);
    }
}

} // verus!
