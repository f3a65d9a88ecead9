//! Layer composition and clip coverage as a closed graph holds them.

use vstd::prelude::*;

use crate::filter::materialized::FilterColor;
use crate::pass::closed::{ClosedExecutableGraph, LayerCompositionFacts};
use crate::pass::model::{
    copy_values, LoweredGraphPlan, PassModel, PlanModel, RuntimeCompositeKind,
    RuntimeInitialization, RuntimeLayerComposite, RuntimePass, RuntimePassKind, RuntimeReadBinding,
    RuntimeReadRole, RuntimeResourceId, Transform,
};
use crate::pass::search::{
    count_where, find_mapped_resource, find_pass, first_pass, last_where, law_counting_is_filtering,
    lemma_count_step, lemma_last_where, mapped_resource,
};
use crate::reference::pixel::BlendMode;
use crate::scalar::Scalar;

verus! {

/// An authored command, as far as masks are concerned.
#[derive(Debug)]
pub enum RenderCommand {
    Draw,
    Layer { mask: Option<u64>, children: Vec<RenderCommand> },
}

/// The masks of the layers, those of inner layers before that of the layer around them.
pub open spec fn mask_ids(commands: Seq<RenderCommand>) -> Seq<u64>
    decreases commands,
{
    if commands.len() == 0 {
        Seq::empty()
    } else {
        let before = mask_ids(commands.drop_last());
        match commands[commands.len() - 1] {
            RenderCommand::Draw => before,
            RenderCommand::Layer { mask, children } => {
                let inner = before + mask_ids(children@);
                match mask {
                    Some(id) => inner.push(id),
                    None => inner,
                }
            },
        }
    }
}

fn collect_mask_ids(commands: &Vec<RenderCommand>, ids: &mut Vec<u64>)
    ensures
        final(ids)@ == old(ids)@ + mask_ids(commands@),
    decreases commands@,
{
    let length: usize = commands.len();
    let ghost start = ids@;
    let mut next: usize = 0;
    proof {
        assert(start + mask_ids(commands@.take(0)) =~= start);
    }
    while next < length
        invariant
            next <= length,
            length == commands@.len(),
            ids@ == start + mask_ids(commands@.take(next as int)),
        decreases length - next,
    {
        let command = &commands[next];
        let ghost before = ids@;
        proof {
            let taken = commands@.take(next + 1);
            assert(taken.drop_last() =~= commands@.take(next as int));
            assert(taken[taken.len() - 1] == commands@[next as int]);
            assert(decreases_to!(commands@ => commands@[next as int]));
        }
        if let RenderCommand::Layer { mask, children } = command {
            collect_mask_ids(children, ids);
            if let Some(id) = mask {
                ids.push(*id);
            }
            proof {
                assert(ids@ =~= start + mask_ids(commands@.take(next + 1)));
            }
        }
        next = next + 1;
    }
    proof {
        assert(commands@.take(length as int) =~= commands@);
    }
}

/// The masks of the layers, inner before outer.
pub fn resolved_mask_image_ids_inner_to_outer(commands: &Vec<RenderCommand>) -> (ids: Vec<u64>)
    ensures
        ids@ == mask_ids(commands@),
{
    let mut ids: Vec<u64> = Vec::new();
    collect_mask_ids(commands, &mut ids);
    proof {
        assert(Seq::<u64>::empty() + mask_ids(commands@) =~= mask_ids(commands@));
    }
    ids
}

/// The masks of a run of commands are those of its parts, one after the other.
pub proof fn law_masks_follow_the_commands(first: Seq<RenderCommand>, second: Seq<RenderCommand>)
    ensures
        mask_ids(first + second) == mask_ids(first) + mask_ids(second),
    decreases second.len(),
{
    let joined = first + second;
    if second.len() == 0 {
        assert(joined =~= first);
        assert(mask_ids(first) + mask_ids(second) =~= mask_ids(first));
    } else {
        law_masks_follow_the_commands(first, second.drop_last());
        assert(joined.drop_last() =~= first + second.drop_last());
        assert(joined[joined.len() - 1] == second[second.len() - 1]);
        assert(mask_ids(joined) =~= mask_ids(first) + mask_ids(second));
    }
}

/// What a layer composition samples.
#[derive(Clone, Copy, Debug, PartialEq, Eq, Structural)]
pub enum CompositionRead {
    Parent,
    Source,
    ClipCoverage,
    AlphaMask,
}

/// What a layer composition does with its source, in order.
#[derive(Clone, Copy, Debug, PartialEq, Eq, Structural)]
pub enum CompositionOuterOperation {
    SourceMapping,
    ClipCoverage,
    AlphaMask,
    Opacity,
    Blend,
}

pub open spec fn composition_read(role: RuntimeReadRole) -> Option<CompositionRead> {
    match role {
        RuntimeReadRole::CompositeParent => Some(CompositionRead::Parent),
        RuntimeReadRole::CompositeSource => Some(CompositionRead::Source),
        RuntimeReadRole::ClipCoverage => Some(CompositionRead::ClipCoverage),
        RuntimeReadRole::AlphaMask => Some(CompositionRead::AlphaMask),
        _ => None,
    }
}

pub open spec fn reads_are_composition(reads: Seq<RuntimeReadBinding>) -> bool {
    forall|i: int| 0 <= i < reads.len() ==> composition_read((#[trigger] reads[i]).role) is Some
}

pub open spec fn composition_reads(reads: Seq<RuntimeReadBinding>) -> Seq<CompositionRead> {
    Seq::new(reads.len(), |i: int| composition_read(reads[i].role)->0)
}

/// The operations of a composition: the clip where there is one of its own or an outer one, the
/// mask where there is one.
pub open spec fn outer_operations(clips: bool, masks: bool) -> Seq<CompositionOuterOperation> {
    let mapped = seq![CompositionOuterOperation::SourceMapping];
    let clipped = if clips {
        mapped.push(CompositionOuterOperation::ClipCoverage)
    } else {
        mapped
    };
    let masked = if masks {
        clipped.push(CompositionOuterOperation::AlphaMask)
    } else {
        clipped
    };
    masked.push(CompositionOuterOperation::Opacity).push(CompositionOuterOperation::Blend)
}

/// The clip precedes the mask, the mask the opacity, and the blend is last, whatever a layer has.
pub proof fn law_outer_operations_are_ordered(clips: bool, masks: bool, i: int, j: int)
    requires
        0 <= i < j < outer_operations(clips, masks).len(),
    ensures
        operation_rank(outer_operations(clips, masks)[i]) < operation_rank(
            outer_operations(clips, masks)[j],
        ),
        outer_operations(clips, masks).first() == CompositionOuterOperation::SourceMapping,
        outer_operations(clips, masks).last() == CompositionOuterOperation::Blend,
{
}

pub open spec fn operation_rank(operation: CompositionOuterOperation) -> int {
    match operation {
        CompositionOuterOperation::SourceMapping => 0,
        CompositionOuterOperation::ClipCoverage => 1,
        CompositionOuterOperation::AlphaMask => 2,
        CompositionOuterOperation::Opacity => 3,
        CompositionOuterOperation::Blend => 4,
    }
}

/// What is observed of one layer composition.
#[derive(Debug)]
pub struct LayerCompositionObservation {
    pub transform: Transform,
    pub opacity: Scalar,
    pub blend: BlendMode,
    pub has_own_clip: bool,
    pub inherited_outer_clip_count: usize,
    pub inherited_outer_clip_transforms: Vec<Transform>,
    pub reads: Vec<CompositionRead>,
    pub outer_operations: Vec<CompositionOuterOperation>,
    pub source_captured_before_outer_semantics: bool,
}

/// The uploaded image of a mask, where the mask is requested and imported.
pub open spec fn mask_image(plan: PlanModel, mask: RuntimeResourceId) -> Option<u64> {
    match mapped_resource(plan.resources, mask) {
        Some(resource) => match resource.import {
            Some(upload) => Some(upload.image_id),
            None => None,
        },
        None => None,
    }
}

/// The layer parameters, where the composition is of a layer whose clip and mask are those that
/// its facts name, whose mask is imported, and whose pass samples nothing else.
pub open spec fn observable_layer(plan: PlanModel, layer: LayerCompositionFacts) -> Option<
    RuntimeLayerComposite,
> {
    match layer.composite.kind {
        RuntimeCompositeKind::Layer(parameters) => {
            if parameters.clip_coverage != layer.clip_coverage || parameters.alpha_mask
                != layer.alpha_mask {
                None
            } else if parameters.alpha_mask matches Some(mask) && mask_image(plan, mask) is None {
                None
            } else {
                match first_pass(plan.passes, layer.pass) {
                    Some(position) => if reads_are_composition(plan.passes[position].reads) {
                        Some(parameters)
                    } else {
                        None
                    },
                    None => None,
                }
            }
        },
        _ => None,
    }
}

pub open spec fn layer_observed(
    observation: LayerCompositionObservation,
    plan: PlanModel,
    layer: LayerCompositionFacts,
) -> bool {
    let parameters = observable_layer(plan, layer)->0;
    let pass = plan.passes[first_pass(plan.passes, layer.pass)->0];
    &&& observation.transform == parameters.transform
    &&& observation.opacity == parameters.opacity
    &&& observation.blend == parameters.blend
    &&& observation.has_own_clip == parameters.has_clip
    &&& observation.inherited_outer_clip_count == pass.outer_clips.len()
    &&& observation.inherited_outer_clip_transforms@ == pass.outer_clips
    &&& observation.reads@ == composition_reads(pass.reads)
    &&& observation.outer_operations@ == outer_operations(
        parameters.has_clip || pass.outer_clips.len() > 0,
        parameters.alpha_mask is Some,
    )
    &&& observation.source_captured_before_outer_semantics
        == layer.composite.source_captured_before_outer_semantics
}

/// The masks of one observable layer.
pub open spec fn layer_masks(plan: PlanModel, layer: LayerCompositionFacts) -> Seq<u64> {
    match layer.alpha_mask {
        Some(mask) => seq![mask_image(plan, mask)->0],
        None => Seq::empty(),
    }
}

/// Whether a layer is seen as far as its mask: its clip and mask are those that its facts name, and
/// its mask is imported.
pub open spec fn mask_is_seen(plan: PlanModel, layer: LayerCompositionFacts) -> bool {
    layer.composite.kind matches RuntimeCompositeKind::Layer(parameters) && {
        &&& parameters.clip_coverage == layer.clip_coverage
        &&& parameters.alpha_mask == layer.alpha_mask
        &&& layer.alpha_mask matches Some(mask) ==> mask_image(plan, mask) is Some
    }
}

fn find_mask_image(plan: &LoweredGraphPlan, mask: RuntimeResourceId) -> (image: Option<u64>)
    ensures
        image == mask_image(plan@, mask),
{
    match find_mapped_resource(&plan.resources, mask) {
        Some(resource) => match resource.import {
            Some(upload) => Some(upload.image_id),
            None => None,
        },
        None => None,
    }
}

fn collect_composition_reads(pass: &RuntimePass) -> (reads: Option<Vec<CompositionRead>>)
    ensures
        match reads {
            Some(reads) => reads_are_composition(pass@.reads) && reads@ == composition_reads(
                pass@.reads,
            ),
            None => !reads_are_composition(pass@.reads),
        },
{
    let length: usize = pass.reads.len();
    let mut reads: Vec<CompositionRead> = Vec::with_capacity(length);
    let mut next: usize = 0;
    while next < length
        invariant
            next <= length,
            length == pass.reads@.len(),
            reads@.len() == next,
            forall|i: int|
                0 <= i < next ==> composition_read((#[trigger] pass.reads@[i]).role) == Some(
                    reads@[i],
                ),
        decreases length - next,
    {
        let read = match pass.reads[next].role {
            RuntimeReadRole::CompositeParent => CompositionRead::Parent,
            RuntimeReadRole::CompositeSource => CompositionRead::Source,
            RuntimeReadRole::ClipCoverage => CompositionRead::ClipCoverage,
            RuntimeReadRole::AlphaMask => CompositionRead::AlphaMask,
            RuntimeReadRole::CaptureSource
            | RuntimeReadRole::CompletedParent
            | RuntimeReadRole::FilterSource
            | RuntimeReadRole::BlurredSourceAlpha
            | RuntimeReadRole::Shadow
            | RuntimeReadRole::FinalWorkingImage => {
                assert(composition_read(pass@.reads[next as int].role) is None);
                return None;
            },
        };
        reads.push(read);
        next = next + 1;
    }
    proof {
        assert forall|i: int| 0 <= i < pass@.reads.len() implies composition_read(
            (#[trigger] pass@.reads[i]).role,
        ) is Some by {
            assert(pass.reads@[i] == pass@.reads[i]);
        }
        assert(reads@ =~= composition_reads(pass@.reads)) by {
            assert forall|i: int| 0 <= i < reads@.len() implies reads@[i] == composition_reads(
                pass@.reads,
            )[i] by {
                assert(composition_read(pass.reads@[i].role) == Some(reads@[i]));
            }
        }
    }
    Some(reads)
}

/// Observes one layer composition, and adds its mask to those observed before.
pub fn observe_layer_composition(
    plan: &LoweredGraphPlan,
    layer: &LayerCompositionFacts,
    observed_mask_ids: &mut Vec<u64>,
) -> (observation: Option<LayerCompositionObservation>)
    ensures
        observation is Some <==> observable_layer(plan@, *layer) is Some,
        observation matches Some(observation) ==> layer_observed(observation, plan@, *layer),
        final(observed_mask_ids)@ == (if mask_is_seen(plan@, *layer) {
            old(observed_mask_ids)@ + layer_masks(plan@, *layer)
        } else {
            old(observed_mask_ids)@
        }),
{
    let parameters = match layer.composite.kind {
        RuntimeCompositeKind::Layer(parameters) => parameters,
        _ => return None,
    };
    if parameters.clip_coverage != layer.clip_coverage || parameters.alpha_mask
        != layer.alpha_mask {
        return None;
    }
    let ghost before = observed_mask_ids@;
    if let Some(mask) = parameters.alpha_mask {
        match find_mask_image(plan, mask) {
            Some(image) => observed_mask_ids.push(image),
            None => return None,
        }
    }
    proof {
        assert(observed_mask_ids@ =~= before + layer_masks(plan@, *layer));
    }
    let position = match find_pass(&plan.passes, layer.pass) {
        Some(position) => position,
        None => return None,
    };
    let pass = &plan.passes[position];
    assert(plan@.passes[position as int] == pass@);
    let reads = match collect_composition_reads(pass) {
        Some(reads) => reads,
        None => return None,
    };
    let mut operations: Vec<CompositionOuterOperation> = Vec::with_capacity(5);
    operations.push(CompositionOuterOperation::SourceMapping);
    if parameters.has_clip || pass.outer_clips.len() > 0 {
        operations.push(CompositionOuterOperation::ClipCoverage);
    }
    if parameters.alpha_mask.is_some() {
        operations.push(CompositionOuterOperation::AlphaMask);
    }
    operations.push(CompositionOuterOperation::Opacity);
    operations.push(CompositionOuterOperation::Blend);
    proof {
        assert(operations@ =~= outer_operations(
            parameters.has_clip || pass@.outer_clips.len() > 0,
            parameters.alpha_mask is Some,
        ));
    }
    Some(
        LayerCompositionObservation {
            transform: parameters.transform,
            opacity: parameters.opacity,
            blend: parameters.blend,
            has_own_clip: parameters.has_clip,
            inherited_outer_clip_count: pass.outer_clips.len(),
            inherited_outer_clip_transforms: copy_values(&pass.outer_clips),
            reads,
            outer_operations: operations,
            source_captured_before_outer_semantics: layer
                .composite
                .source_captured_before_outer_semantics,
        },
    )
}

/// Whether every channel is zero.
pub open spec fn is_transparent(color: FilterColor) -> bool {
    &&& color.red.spec_is_zero()
    &&& color.green.spec_is_zero()
    &&& color.blue.spec_is_zero()
    &&& color.alpha.spec_is_zero()
}

/// What the clears of a graph start from.
#[derive(Clone, Copy, Debug, PartialEq, Eq, Structural)]
pub struct CompositionClearObservation {
    pub root_surface_base_clears: usize,
    pub root_surface_base_color: Option<FilterColor>,
    pub transparent_isolation_clears: usize,
    pub nontransparent_isolation_clears: usize,
}

pub open spec fn clears_to_base(pass: PassModel) -> bool {
    pass.kind matches RuntimePassKind::ClearRoot { initialization, .. } && initialization
        == RuntimeInitialization::SurfaceBaseColor
}

pub open spec fn isolates(pass: PassModel, transparently: bool) -> bool {
    pass.kind matches RuntimePassKind::ClearRoot { initialization, color } && initialization
        == RuntimeInitialization::Transparent && is_transparent(color) == transparently
}

pub open spec fn clears_observed(passes: Seq<PassModel>, observation: CompositionClearObservation) -> bool {
    &&& observation.root_surface_base_clears == count_where(
        passes,
        |pass: PassModel| clears_to_base(pass),
    )
    &&& observation.root_surface_base_color == (match last_where(
        passes,
        |pass: PassModel| clears_to_base(pass),
    ) {
        Some(position) => Some(passes[position].kind->color),
        None => None,
    })
    &&& observation.transparent_isolation_clears == count_where(
        passes,
        |pass: PassModel| isolates(pass, true),
    )
    &&& observation.nontransparent_isolation_clears == count_where(
        passes,
        |pass: PassModel| isolates(pass, false),
    )
}

fn color_is_transparent(color: FilterColor) -> (transparent: bool)
    ensures
        transparent == is_transparent(color),
{
    color.red.is_zero() && color.green.is_zero() && color.blue.is_zero() && color.alpha.is_zero()
}

/// Counts the clears of a graph by what they start from, and keeps the last base color.
pub fn composition_clear_observation(plan: &LoweredGraphPlan) -> (observation:
    CompositionClearObservation)
    ensures
        clears_observed(plan@.passes, observation),
{
    let ghost passes = plan@.passes;
    let ghost to_base = |pass: PassModel| clears_to_base(pass);
    let ghost transparent = |pass: PassModel| isolates(pass, true);
    let ghost opaque = |pass: PassModel| isolates(pass, false);
    let length: usize = plan.passes.len();
    let mut observation = CompositionClearObservation {
        root_surface_base_clears: 0,
        root_surface_base_color: None,
        transparent_isolation_clears: 0,
        nontransparent_isolation_clears: 0,
    };
    let mut next: usize = 0;
    while next < length
        invariant
            next <= length,
            length == plan.passes@.len(),
            passes == plan@.passes,
            to_base == (|pass: PassModel| clears_to_base(pass)),
            transparent == (|pass: PassModel| isolates(pass, true)),
            opaque == (|pass: PassModel| isolates(pass, false)),
            observation.root_surface_base_clears <= next,
            observation.transparent_isolation_clears <= next,
            observation.nontransparent_isolation_clears <= next,
            observation.root_surface_base_clears == count_where(
                passes.take(next as int),
                to_base,
            ),
            observation.root_surface_base_color == (match last_where(
                passes.take(next as int),
                to_base,
            ) {
                Some(position) => Some(passes.take(next as int)[position].kind->color),
                None => None,
            }),
            observation.transparent_isolation_clears == count_where(
                passes.take(next as int),
                transparent,
            ),
            observation.nontransparent_isolation_clears == count_where(
                passes.take(next as int),
                opaque,
            ),
        decreases length - next,
    {
        let ghost taken = passes.take(next + 1);
        proof {
            lemma_count_step(passes, to_base, next as int);
            lemma_count_step(passes, transparent, next as int);
            lemma_count_step(passes, opaque, next as int);
            assert(taken.drop_last() =~= passes.take(next as int));
            assert(taken.last() == plan.passes@[next as int]@);
            crate::pass::search::lemma_last_where(passes.take(next as int), to_base);
        }
        if let RuntimePassKind::ClearRoot { initialization, color } = plan.passes[next].kind {
            match initialization {
                RuntimeInitialization::SurfaceBaseColor => {
                    observation.root_surface_base_clears = observation.root_surface_base_clears + 1;
                    observation.root_surface_base_color = Some(color);
                },
                RuntimeInitialization::Transparent => {
                    if color_is_transparent(color) {
                        observation.transparent_isolation_clears = observation.transparent_isolation_clears
                            + 1;
                    } else {
                        observation.nontransparent_isolation_clears = observation.nontransparent_isolation_clears
                            + 1;
                    }
                },
            }
        }
        next = next + 1;
    }
    proof {
        assert(passes.take(length as int) =~= passes);
    }
    observation
}

/// What is observed of the layer compositions of a graph.
#[derive(Debug)]
pub struct CompositionGraphObservation {
    pub layers_inner_to_outer: Vec<LayerCompositionObservation>,
    pub mask_identity_is_preserved: bool,
    pub clears: CompositionClearObservation,
}

/// The masks of a run of layers.
pub open spec fn all_layer_masks(plan: PlanModel, layers: Seq<LayerCompositionFacts>) -> Seq<u64>
    decreases layers.len(),
{
    if layers.len() == 0 {
        Seq::empty()
    } else {
        all_layer_masks(plan, layers.drop_last()) + layer_masks(plan, layers.last())
    }
}

fn same_ids(left: &Vec<u64>, right: &Vec<u64>) -> (same: bool)
    ensures
        same == (left@ =~= right@),
{
    let length: usize = left.len();
    if right.len() != length {
        return false;
    }
    let mut next: usize = 0;
    while next < length
        invariant
            next <= length,
            length == left@.len(),
            length == right@.len(),
            forall|i: int| 0 <= i < next ==> #[trigger] left@[i] == right@[i],
        decreases length - next,
    {
        if left[next] != right[next] {
            return false;
        }
        next = next + 1;
    }
    true
}

/// What is observed of the layer compositions of a graph that was authored as `commands`; `None`,
/// where some composition is not observable.
pub fn composition_graph_observation(
    commands: &Vec<RenderCommand>,
    closed: &ClosedExecutableGraph,
) -> (observation: Option<CompositionGraphObservation>)
    ensures
        observation is Some <==> forall|i: int|
            0 <= i < closed.layer_compositions@.len() ==> observable_layer(
                closed.lowered@,
                #[trigger] closed.layer_compositions@[i],
            ) is Some,
        observation matches Some(observation) ==> {
            &&& observation.layers_inner_to_outer@.len() == closed.layer_compositions@.len()
            &&& forall|i: int|
                0 <= i < closed.layer_compositions@.len() ==> layer_observed(
                    #[trigger] observation.layers_inner_to_outer@[i],
                    closed.lowered@,
                    closed.layer_compositions@[i],
                )
            &&& observation.mask_identity_is_preserved == (mask_ids(commands@) =~= all_layer_masks(
                closed.lowered@,
                closed.layer_compositions@,
            ))
            &&& clears_observed(closed.lowered@.passes, observation.clears)
        },
{
    let authored = resolved_mask_image_ids_inner_to_outer(commands);
    let mut observed: Vec<u64> = Vec::new();
    let length: usize = closed.layer_compositions.len();
    let ghost facts = closed.layer_compositions@;
    let mut layers: Vec<LayerCompositionObservation> = Vec::with_capacity(length);
    let mut next: usize = 0;
    while next < length
        invariant
            next <= length,
            facts == closed.layer_compositions@,
            length == facts.len(),
            layers@.len() == next,
            forall|i: int|
                0 <= i < next ==> observable_layer(closed.lowered@, #[trigger] facts[i]) is Some,
            forall|i: int|
                0 <= i < next ==> layer_observed(
                    #[trigger] layers@[i],
                    closed.lowered@,
                    facts[i],
                ),
            observed@ == all_layer_masks(closed.lowered@, facts.take(next as int)),
        decreases length - next,
    {
        proof {
            assert(facts.take(next + 1).drop_last() =~= facts.take(next as int));
        }
        match observe_layer_composition(
            &closed.lowered,
            &closed.layer_compositions[next],
            &mut observed,
        ) {
            Some(layer) => layers.push(layer),
            None => {
                assert(observable_layer(closed.lowered@, facts[next as int]) is None);
                return None;
            },
        }
        next = next + 1;
    }
    proof {
        assert(facts.take(length as int) =~= facts);
    }
    Some(
        CompositionGraphObservation {
            layers_inner_to_outer: layers,
            mask_identity_is_preserved: same_ids(&authored, &observed),
            clears: composition_clear_observation(&closed.lowered),
        },
    )
}

/// One more layer adds the masks inside it and then its own; anything else drawn adds none.
pub proof fn law_outer_masks_come_last(
    commands: &Vec<RenderCommand>,
    more: &Vec<RenderCommand>,
    children: &Vec<RenderCommand>,
    ids: Vec<u64>,
    extended: Vec<u64>,
    inner: Vec<u64>,
)
    requires
        call_ensures(resolved_mask_image_ids_inner_to_outer, (commands,), ids),
        call_ensures(resolved_mask_image_ids_inner_to_outer, (more,), extended),
        call_ensures(resolved_mask_image_ids_inner_to_outer, (children,), inner),
        more@.len() == commands@.len() + 1,
        forall|i: int| 0 <= i < commands@.len() ==> more@[i] == #[trigger] commands@[i],
    ensures
        commands@.len() == 0 ==> ids@.len() == 0,
        more@[commands@.len() as int] is Draw ==> extended@ == ids@,
        (more@[commands@.len() as int] matches RenderCommand::Layer { mask, children: found }
            && mask is None && found@ == children@) ==> extended@ == ids@ + inner@,
        (more@[commands@.len() as int] matches RenderCommand::Layer { mask, children: found }
            && mask is Some && found@ == children@) ==> extended@ == ids@ + inner@.push(
            more@[commands@.len() as int]->mask->0,
        ),
{
    assert(more@.drop_last() =~= commands@);
    assert(more@[more@.len() - 1] == more@[commands@.len() as int]);
    let last = more@[commands@.len() as int];
    if let RenderCommand::Layer { mask, children: found } = last {
        if found@ == children@ && mask is Some {
            assert(extended@ =~= ids@ + inner@.push(mask->0));
        }
    }
}

/// What is observed of a layer is what its parameters say: transform, opacity, blend and clip, the
/// outer clips of its pass, what the pass samples in order, and the operations that this takes.
pub proof fn law_observed_layers_are_their_parameters(
    plan: &LoweredGraphPlan,
    layer: &LayerCompositionFacts,
    position: int,
    i: int,
)
    requires
        first_pass(plan@.passes, layer.pass) == Some(position),
    ensures
        forall|ids: &mut Vec<u64>, result: Option<LayerCompositionObservation>| #[trigger]
            call_ensures(observe_layer_composition, (plan, layer, ids), result) && result is Some
                ==> {
                let found = result->0;
                let pass = plan@.passes[position];
                let operations = found.outer_operations@;
                let clips = found.has_own_clip || pass.outer_clips.len() > 0;
                &&& layer.composite.kind matches RuntimeCompositeKind::Layer(parameters) && {
                    &&& found.transform == parameters.transform
                    &&& found.opacity == parameters.opacity
                    &&& found.blend == parameters.blend
                    &&& found.has_own_clip == parameters.has_clip
                    &&& parameters.clip_coverage == layer.clip_coverage
                    &&& parameters.alpha_mask == layer.alpha_mask
                }
                &&& found.inherited_outer_clip_count == pass.outer_clips.len()
                &&& found.inherited_outer_clip_transforms@ == pass.outer_clips
                &&& found.source_captured_before_outer_semantics
                    == layer.composite.source_captured_before_outer_semantics
                &&& found.reads@.len() == pass.reads.len()
                &&& 0 <= i < pass.reads.len() ==> {
                    &&& found.reads@[i] is Parent <==> pass.reads[i].role is CompositeParent
                    &&& found.reads@[i] is Source <==> pass.reads[i].role is CompositeSource
                    &&& found.reads@[i] is ClipCoverage <==> pass.reads[i].role is ClipCoverage
                    &&& found.reads@[i] is AlphaMask <==> pass.reads[i].role is AlphaMask
                }
                &&& operations[0] is SourceMapping
                &&& operations.contains(CompositionOuterOperation::ClipCoverage) <==> clips
                &&& operations.contains(CompositionOuterOperation::AlphaMask)
                    <==> layer.alpha_mask is Some
                &&& operations[operations.len() - 2] is Opacity
                &&& operations[operations.len() - 1] is Blend
                &&& operations.len() == 3 + (if clips {
                    1int
                } else {
                    0
                }) + (if layer.alpha_mask is Some {
                    1int
                } else {
                    0
                })
            },
{
    assert forall|ids: &mut Vec<u64>, result: Option<LayerCompositionObservation>| #[trigger]
        call_ensures(observe_layer_composition, (plan, layer, ids), result) && result is Some implies ({
        let found = result->0;
        let pass = plan@.passes[position];
        let operations = found.outer_operations@;
        let clips = found.has_own_clip || pass.outer_clips.len() > 0;
        &&& operations.contains(CompositionOuterOperation::ClipCoverage) <==> clips
        &&& operations.contains(CompositionOuterOperation::AlphaMask) <==> layer.alpha_mask is Some
        &&& 0 <= i < pass.reads.len() ==> composition_read(pass.reads[i].role) == Some(
            found.reads@[i],
        )
    }) by {
        let found = result->0;
        let pass = plan@.passes[position];
        let operations = found.outer_operations@;
        let clips = found.has_own_clip || pass.outer_clips.len() > 0;
        assert(layer_observed(found, plan@, *layer));
        assert(operations == outer_operations(clips, layer.alpha_mask is Some));
        if clips {
            assert(operations[1] is ClipCoverage);
        }
        if layer.alpha_mask is Some {
            assert(operations[operations.len() - 3] is AlphaMask);
        }
        if 0 <= i < pass.reads.len() {
            assert(composition_read(pass.reads[i].role) is Some);
            assert(found.reads@[i] == composition_reads(pass.reads)[i]);
        }
    }
}

/// Observing a layer keeps the masks that were observed before, and adds at most its own: the image
/// that is uploaded for its mask.
pub proof fn law_layers_add_their_mask(plan: &LoweredGraphPlan, layer: &LayerCompositionFacts)
    ensures
        forall|ids: &mut Vec<u64>, found: Option<LayerCompositionObservation>| #[trigger]
            call_ensures(observe_layer_composition, (plan, layer, ids), found) ==> {
                let before = (*ids)@;
                let after = (*final(ids))@;
                &&& forall|i: int| 0 <= i < before.len() ==> after[i] == #[trigger] before[i]
                &&& layer.alpha_mask is None ==> after == before
                &&& found is Some && layer.alpha_mask is Some ==> (mapped_resource(
                    plan@.resources,
                    layer.alpha_mask->0,
                ) matches Some(resource) && resource.import is Some && after == before.push(
                    resource.import->0.image_id,
                ))
            },
{
    assert forall|ids: &mut Vec<u64>, found: Option<LayerCompositionObservation>| #[trigger]
        call_ensures(observe_layer_composition, (plan, layer, ids), found) implies {
        let before = (*ids)@;
        let after = (*final(ids))@;
        &&& layer.alpha_mask is None ==> after == before
        &&& found is Some && layer.alpha_mask is Some ==> (mapped_resource(
            plan@.resources,
            layer.alpha_mask->0,
        ) matches Some(resource) && resource.import is Some && after == before.push(
            resource.import->0.image_id,
        ))
    } by {
        let before = (*ids)@;
        let after = (*final(ids))@;
        let masks = layer_masks(plan@, *layer);
        if layer.alpha_mask is None {
            assert(before + masks =~= before);
        } else if mask_is_seen(plan@, *layer) {
            assert(before + masks =~= before.push(mask_image(plan@, layer.alpha_mask->0)->0));
        }
    }
}

/// The clears of a graph are counted by what they start from, and the base color is that of the last
/// clear to it.
pub proof fn law_clears_are_counted(
    plan: &LoweredGraphPlan,
    observation: CompositionClearObservation,
    i: int,
)
    requires
        call_ensures(composition_clear_observation, (plan,), observation),
    ensures
        observation.root_surface_base_clears == plan@.passes.filter(
            |pass: PassModel|
                pass.kind is ClearRoot && pass.kind->initialization is SurfaceBaseColor,
        ).len(),
        observation.transparent_isolation_clears == plan@.passes.filter(
            |pass: PassModel|
                pass.kind is ClearRoot && pass.kind->initialization is Transparent
                    && pass.kind->color.red.spec_is_zero() && pass.kind->color.green.spec_is_zero()
                    && pass.kind->color.blue.spec_is_zero()
                    && pass.kind->color.alpha.spec_is_zero(),
        ).len(),
        observation.nontransparent_isolation_clears == plan@.passes.filter(
            |pass: PassModel|
                pass.kind is ClearRoot && pass.kind->initialization is Transparent && !(
                pass.kind->color.red.spec_is_zero() && pass.kind->color.green.spec_is_zero()
                    && pass.kind->color.blue.spec_is_zero()
                    && pass.kind->color.alpha.spec_is_zero()),
        ).len(),
        0 <= i < plan@.passes.len() && plan@.passes[i].kind is ClearRoot
            && plan@.passes[i].kind->initialization is SurfaceBaseColor && (forall|j: int|
            i < j < plan@.passes.len() ==> !((#[trigger] plan@.passes[j]).kind is ClearRoot))
            ==> observation.root_surface_base_color == Some(plan@.passes[i].kind->color),
        (forall|j: int|
            0 <= j < plan@.passes.len() ==> !((#[trigger] plan@.passes[j]).kind is ClearRoot
                && plan@.passes[j].kind->initialization is SurfaceBaseColor))
            ==> observation.root_surface_base_color is None,
{
    let passes = plan@.passes;
    let to_base = |pass: PassModel| clears_to_base(pass);
    let based = |pass: PassModel|
        pass.kind is ClearRoot && pass.kind->initialization is SurfaceBaseColor;
    assert(to_base =~= based);
    law_counting_is_filtering(passes, based);
    let clear = |pass: PassModel|
        pass.kind is ClearRoot && pass.kind->initialization is Transparent
            && pass.kind->color.red.spec_is_zero() && pass.kind->color.green.spec_is_zero()
            && pass.kind->color.blue.spec_is_zero() && pass.kind->color.alpha.spec_is_zero();
    assert((|pass: PassModel| isolates(pass, true)) =~= clear);
    law_counting_is_filtering(passes, clear);
    let opaque = |pass: PassModel|
        pass.kind is ClearRoot && pass.kind->initialization is Transparent && !(
        pass.kind->color.red.spec_is_zero() && pass.kind->color.green.spec_is_zero()
            && pass.kind->color.blue.spec_is_zero() && pass.kind->color.alpha.spec_is_zero());
    assert((|pass: PassModel| isolates(pass, false)) =~= opaque);
    law_counting_is_filtering(passes, opaque);
    lemma_last_where(passes, to_base);
    if 0 <= i < passes.len() {
        assert(to_base(passes[i]) == based(passes[i]));
    }
}

/// A graph keeps the identity of its masks exactly if those that were authored are those of its layers;
/// here of a graph of one layer.
pub proof fn law_masks_keep_their_identity(
    commands: &Vec<RenderCommand>,
    closed: &ClosedExecutableGraph,
    ids: Vec<u64>,
    observation: CompositionGraphObservation,
)
    requires
        call_ensures(resolved_mask_image_ids_inner_to_outer, (commands,), ids),
        call_ensures(composition_graph_observation, (commands, closed), Some(observation)),
        closed.layer_compositions@.len() == 1,
    ensures
        observation.layers_inner_to_outer@.len() == 1,
        closed.layer_compositions@[0].alpha_mask is None ==> (observation.mask_identity_is_preserved
            <==> ids@.len() == 0),
        (closed.layer_compositions@[0].alpha_mask matches Some(mask) && mapped_resource(
            closed.lowered@.resources,
            mask,
        ) matches Some(resource) && resource.import matches Some(upload)
            && observation.mask_identity_is_preserved) ==> ids@.len() == 1,
        (closed.layer_compositions@[0].alpha_mask matches Some(mask) && mapped_resource(
            closed.lowered@.resources,
            mask,
        ) matches Some(resource) && resource.import matches Some(upload)
            && ids@.len() == 1) ==> (observation.mask_identity_is_preserved <==> ids@[0]
            == mapped_resource(
            closed.lowered@.resources,
            closed.layer_compositions@[0].alpha_mask->0,
        )->0.import->0.image_id),
{
    let layers = closed.layer_compositions@;
    let plan = closed.lowered@;
    let masks = all_layer_masks(plan, layers);
    assert(all_layer_masks(plan, layers.drop_last()) =~= Seq::empty());
    assert(masks =~= layer_masks(plan, layers[0]));
    assert(observation.mask_identity_is_preserved == (ids@ =~= masks));
}

} // verus!
