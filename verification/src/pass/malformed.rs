//! Plans that are one edit away from a layer, color, filter or backdrop graph.

use vstd::prelude::*;

use crate::pass::c10::is_color_run;
use crate::pass::edit::{
    swapped, with_dependencies, with_kind, with_pass, with_payload, with_reads, with_releases,
    with_resource, with_result, with_swapped_passes,
};
use crate::pass::model::{
    plan_models,
    LoweredGraphPlan, PassModel, PlanModel, Rect, RuntimeBlur, RuntimeBlurAxis, RuntimeBlurInput,
    RuntimeColorOperation, RuntimeComposite, RuntimeCompositeKind, RuntimeDropShadow,
    RuntimeLayerComposite, RuntimePassId, RuntimePassKind, RuntimeReadBinding, RuntimeReadRole,
    RuntimeResourceRequest, RuntimeResultBinding, RuntimeSamplingEdge, RuntimeSamplingFilter,
    RuntimeSpatialDescriptor, RuntimeSpatialMapping, Transform,
};
use crate::pass::requests::composites_layer;
use crate::pass::c11::{dependencies_precede, lifetimes_are_exact, pass_lifetimes_are_exact};
use crate::pass::search::{
    find_resource_position, first_where, last_where, lemma_first_where, lemma_last_where,
    mapped_pass, passes_are_distinct,
};
use crate::runtime::Format;
use crate::scalar::{Scalar, ONE_BITS};

verus! {

/// A kind of pass that an edit looks for.
#[derive(Clone, Copy, Debug, PartialEq, Eq, Structural)]
pub enum WantedPass {
    BoundCapture,
    Canonicalize,
    LayerComposite,
    Present,
    ColorRun,
    RgbaHorizontalBlur,
    AlphaHorizontalBlur,
    ShadowColorize,
    ShadowMerge,
    BackdropCopy,
    MirroredHorizontalBlur,
}

/// Whether a kind of pass is a horizontal blur of an input.
pub open spec fn blurs_horizontally(kind: RuntimePassKind, input: RuntimeBlurInput) -> bool {
    kind matches RuntimePassKind::BlurHorizontal(Some(blur)) && blur.input == input
}

pub open spec fn is_wanted(wanted: WantedPass, kind: RuntimePassKind) -> bool {
    match wanted {
        WantedPass::BoundCapture => kind matches RuntimePassKind::VelloCapture(Some(_)),
        WantedPass::Canonicalize => kind is CanonicalizeCapture,
        WantedPass::LayerComposite => composites_layer(kind),
        WantedPass::Present => kind is Present,
        WantedPass::ColorRun => is_color_run(kind),
        WantedPass::RgbaHorizontalBlur => blurs_horizontally(kind, RuntimeBlurInput::Rgba),
        WantedPass::AlphaHorizontalBlur => blurs_horizontally(kind, RuntimeBlurInput::SourceAlpha),
        WantedPass::ShadowColorize => kind matches RuntimePassKind::DropShadowColorize(Some(_)),
        WantedPass::ShadowMerge => kind matches RuntimePassKind::Composite(Some(composite))
            && composite.kind is DropShadow,
        WantedPass::BackdropCopy => kind is CopyBackdrop,
        WantedPass::MirroredHorizontalBlur => kind matches RuntimePassKind::BlurHorizontal(
            Some(blur),
        ) && blur.edge.spec_is_mirror(),
    }
}

fn kind_is_wanted(wanted: WantedPass, kind: RuntimePassKind) -> (found: bool)
    ensures
        found == is_wanted(wanted, kind),
{
    match wanted {
        WantedPass::BoundCapture => matches!(kind, RuntimePassKind::VelloCapture(Some(_))),
        WantedPass::Canonicalize => matches!(kind, RuntimePassKind::CanonicalizeCapture),
        WantedPass::LayerComposite => crate::pass::requests::is_layer_composite(kind),
        WantedPass::Present => matches!(kind, RuntimePassKind::Present),
        WantedPass::ColorRun => matches!(kind, RuntimePassKind::ColorFilter(Some(_))),
        WantedPass::RgbaHorizontalBlur => match kind {
            RuntimePassKind::BlurHorizontal(Some(blur)) => blur.input == RuntimeBlurInput::Rgba,
            _ => false,
        },
        WantedPass::AlphaHorizontalBlur => match kind {
            RuntimePassKind::BlurHorizontal(Some(blur)) => blur.input
                == RuntimeBlurInput::SourceAlpha,
            _ => false,
        },
        WantedPass::ShadowColorize => matches!(kind, RuntimePassKind::DropShadowColorize(Some(_))),
        WantedPass::ShadowMerge => match kind {
            RuntimePassKind::Composite(Some(composite)) => matches!(
                composite.kind,
                RuntimeCompositeKind::DropShadow
            ),
            _ => false,
        },
        WantedPass::BackdropCopy => matches!(kind, RuntimePassKind::CopyBackdrop),
        WantedPass::MirroredHorizontalBlur => match kind {
            RuntimePassKind::BlurHorizontal(Some(blur)) => blur.edge.is_mirror(),
            _ => false,
        },
    }
}

pub open spec fn wants(wanted: WantedPass) -> spec_fn(PassModel) -> bool {
    |pass: PassModel| is_wanted(wanted, pass.kind)
}

/// The position of the first pass of a kind.
pub open spec fn first_wanted(plan: PlanModel, wanted: WantedPass) -> Option<int> {
    first_where(plan.passes, wants(wanted))
}

/// The position of the last pass of a kind.
pub open spec fn last_wanted(plan: PlanModel, wanted: WantedPass) -> Option<int> {
    last_where(plan.passes, wants(wanted))
}

pub fn find_wanted(plan: &LoweredGraphPlan, wanted: WantedPass) -> (found: Option<usize>)
    ensures
        match found {
            Some(position) => {
                &&& first_wanted(plan@, wanted) == Some(position as int)
                &&& position < plan@.passes.len()
                &&& is_wanted(wanted, plan@.passes[position as int].kind)
            },
            None => first_wanted(plan@, wanted) is None,
        },
{
    let ghost passes = plan@.passes;
    let ghost chosen = wants(wanted);
    proof {
        lemma_first_where(passes, chosen);
    }
    let length: usize = plan.passes.len();
    let mut next: usize = 0;
    while next < length
        invariant
            next <= length,
            length == plan.passes@.len(),
            passes == plan@.passes,
            chosen == wants(wanted),
            forall|i: int| 0 <= i < next ==> !chosen(#[trigger] passes[i]),
            match first_where(passes, chosen) {
                Some(position) => {
                    &&& 0 <= position < passes.len()
                    &&& chosen(passes[position])
                    &&& forall|i: int| 0 <= i < position ==> !chosen(#[trigger] passes[i])
                },
                None => forall|i: int| 0 <= i < passes.len() ==> !chosen(#[trigger] passes[i]),
            },
        decreases length - next,
    {
        assert(passes[next as int] == plan.passes@[next as int]@);
        if kind_is_wanted(wanted, plan.passes[next].kind) {
            assert(chosen(passes[next as int]));
            return Some(next);
        }
        assert(!chosen(passes[next as int]));
        next = next + 1;
    }
    None
}

pub fn find_last_wanted(plan: &LoweredGraphPlan, wanted: WantedPass) -> (found: Option<usize>)
    ensures
        match found {
            Some(position) => {
                &&& last_wanted(plan@, wanted) == Some(position as int)
                &&& position < plan@.passes.len()
                &&& is_wanted(wanted, plan@.passes[position as int].kind)
            },
            None => last_wanted(plan@, wanted) is None,
        },
{
    let ghost passes = plan@.passes;
    let ghost chosen = wants(wanted);
    proof {
        lemma_last_where(passes, chosen);
    }
    let length: usize = plan.passes.len();
    let mut left: usize = length;
    while left > 0
        invariant
            left <= length,
            length == plan.passes@.len(),
            passes == plan@.passes,
            chosen == wants(wanted),
            forall|i: int| left <= i < length ==> !chosen(#[trigger] passes[i]),
            match last_where(passes, chosen) {
                Some(position) => {
                    &&& 0 <= position < passes.len()
                    &&& chosen(passes[position])
                    &&& forall|i: int| position < i < passes.len() ==> !chosen(#[trigger] passes[i])
                },
                None => forall|i: int| 0 <= i < passes.len() ==> !chosen(#[trigger] passes[i]),
            },
        decreases left,
    {
        left = left - 1;
        assert(passes[left as int] == plan.passes@[left as int]@);
        if kind_is_wanted(wanted, plan.passes[left].kind) {
            assert(chosen(passes[left as int]));
            return Some(left);
        }
        assert(!chosen(passes[left as int]));
    }
    None
}

/// The plan with other operations in one color run.
pub open spec fn with_operations(
    plan: PlanModel,
    position: int,
    operations: Seq<RuntimeColorOperation>,
) -> PlanModel {
    with_pass(plan, position, PassModel { operations, ..plan.passes[position] })
}

fn clearing_operations(plan: &LoweredGraphPlan, position: usize) -> (edited: LoweredGraphPlan)
    requires
        position < plan@.passes.len(),
    ensures
        edited@ == with_operations(plan@, position as int, Seq::empty()),
{
    let mut pass = plan.passes[position].duplicate();
    pass.operations = Vec::new();
    plan.replacing_pass(position, pass)
}

/// The plan with one fact of its first layer composition, or of the resources, changed.
pub open spec fn c09_malformed(
    plan: PlanModel,
    capture: int,
    canonicalize: int,
    layer: int,
) -> Seq<PlanModel> {
    let reads = plan.passes[layer].reads;
    seq![
        with_dependencies(plan, canonicalize, Seq::empty()),
        with_reads(plan, layer, swapped(reads, 0, 1)),
        with_result(plan, layer, RuntimeResultBinding::Resource(reads[0].resource)),
        with_releases(plan, layer, Seq::empty()),
        with_resource(
            plan,
            0,
            RuntimeResourceRequest {
                expected_reads: if plan.resources[0].expected_reads < u32::MAX {
                    (plan.resources[0].expected_reads + 1) as u32
                } else {
                    u32::MAX
                },
                ..plan.resources[0]
            },
        ),
        with_swapped_passes(plan, capture, canonicalize),
        with_resource(
            plan,
            1,
            RuntimeResourceRequest { id: plan.resources[0].id, ..plan.resources[1] },
        ),
    ]
}

/// Plans with one fact of a layer composition, or of the resources, changed.
pub fn c09_malformed_plans(
    plan: &LoweredGraphPlan,
    capture: usize,
    canonicalize: usize,
    layer: usize,
) -> (plans: Vec<LoweredGraphPlan>)
    requires
        capture < plan@.passes.len(),
        canonicalize < plan@.passes.len(),
        layer < plan@.passes.len(),
        plan@.passes[layer as int].reads.len() >= 2,
        plan@.resources.len() >= 2,
    ensures
        plan_models(plans@) == c09_malformed(
            plan@,
            capture as int,
            canonicalize as int,
            layer as int,
        ),
{
    assert(plan@.passes[layer as int] == plan.passes@[layer as int]@);
    let parent = plan.passes[layer].reads[0].resource;
    let mut read_more = plan.resources[0];
    if read_more.expected_reads < u32::MAX {
        read_more.expected_reads = read_more.expected_reads + 1;
    }
    let mut plans: Vec<LoweredGraphPlan> = Vec::new();
    plans.push(plan.replacing_dependencies(canonicalize, Vec::new()));
    plans.push(plan.exchanging_first_reads(layer));
    plans.push(plan.replacing_result(layer, RuntimeResultBinding::Resource(parent)));
    plans.push(plan.replacing_releases(layer, Vec::new()));
    plans.push(plan.replacing_resource(0, read_more));
    plans.push(plan.exchanging_passes(capture, canonicalize));
    plans.push(plan.with_duplicate_preparation_resource());
    proof {
        assert(plan_models(plans@) =~= c09_malformed(
            plan@,
            capture as int,
            canonicalize as int,
            layer as int,
        ));
    }
    plans
}

/// The plan with a pass of a later subset, or a pass without its work, in place of one of its own,
/// and with another output format in its present.
pub open spec fn c09_foreign(
    plan: PlanModel,
    capture: int,
    layer: int,
    present: int,
) -> Seq<PlanModel> {
    seq![
        with_kind(plan, layer, RuntimePassKind::CopyBackdrop),
        with_kind(
            plan,
            layer,
            RuntimePassKind::Composite(
                Some(
                    RuntimeComposite {
                        kind: RuntimeCompositeKind::DropShadow,
                        source_captured_before_outer_semantics: true,
                    },
                ),
            ),
        ),
        with_kind(plan, capture, RuntimePassKind::VelloCapture(None)),
        with_kind(plan, layer, RuntimePassKind::Composite(None)),
        with_result(plan, present, RuntimeResultBinding::Output(Format::Bgra8)),
    ]
}

/// Plans with a pass that layer composition does not hold; `None` where the plan lacks a capture,
/// a canonicalization, a layer composition or a present.
pub fn c09_foreign_plans(plan: &LoweredGraphPlan) -> (plans: Option<Vec<LoweredGraphPlan>>)
    ensures
        match (
            first_wanted(plan@, WantedPass::LayerComposite),
            first_wanted(plan@, WantedPass::BoundCapture),
            first_wanted(plan@, WantedPass::Canonicalize),
            first_wanted(plan@, WantedPass::Present),
        ) {
            (Some(layer), Some(capture), Some(_), Some(present)) => plans matches Some(plans)
                && plan_models(plans@) == c09_foreign(plan@, capture, layer, present),
            _ => plans is None,
        },
{
    let (layer, capture, present) = match (
        find_wanted(plan, WantedPass::LayerComposite),
        find_wanted(plan, WantedPass::BoundCapture),
        find_wanted(plan, WantedPass::Canonicalize),
        find_wanted(plan, WantedPass::Present),
    ) {
        (Some(layer), Some(capture), Some(_), Some(present)) => (layer, capture, present),
        _ => return None,
    };
    let shadow = RuntimeComposite {
        kind: RuntimeCompositeKind::DropShadow,
        source_captured_before_outer_semantics: true,
    };
    let mut plans: Vec<LoweredGraphPlan> = Vec::new();
    plans.push(plan.replacing_kind(layer, RuntimePassKind::CopyBackdrop));
    plans.push(plan.replacing_kind(layer, RuntimePassKind::Composite(Some(shadow))));
    plans.push(plan.replacing_kind(capture, RuntimePassKind::VelloCapture(None)));
    plans.push(plan.replacing_kind(layer, RuntimePassKind::Composite(None)));
    plans.push(plan.replacing_result(present, RuntimeResultBinding::Output(Format::Bgra8)));
    proof {
        assert(plan_models(plans@) =~= c09_foreign(
            plan@,
            capture as int,
            layer as int,
            present as int,
        ));
    }
    Some(plans)
}

/// A resource moved by one device pixel to the right.
pub open spec fn moved_right(resource: RuntimeResourceRequest) -> RuntimeResourceRequest {
    RuntimeResourceRequest {
        spatial: RuntimeSpatialDescriptor {
            device_x: (resource.spatial.device_x + 1) as i32,
            ..resource.spatial
        },
        ..resource
    }
}

/// The plan with one fact of its first color run, or the order of its first two, changed.
pub open spec fn c10_malformed(plan: PlanModel, runs: Seq<usize>, image: int) -> Seq<PlanModel> {
    let first = runs[0] as int;
    let run = plan.passes[first];
    let edited = seq![
        with_kind(plan, first, RuntimePassKind::ColorFilter(None)),
        with_operations(plan, first, Seq::empty()),
        with_dependencies(plan, first, Seq::empty()),
        with_reads(
            plan,
            first,
            run.reads.update(
                0,
                RuntimeReadBinding {
                    sampling_filter: RuntimeSamplingFilter::Linear,
                    ..run.reads[0]
                },
            ),
        ),
        with_result(plan, first, RuntimeResultBinding::Resource(run.reads[0].resource)),
        with_releases(plan, first, Seq::empty()),
        with_resource(plan, image, moved_right(plan.resources[image])),
    ];
    if runs.len() > 1 {
        edited.push(with_swapped_passes(plan, first, runs[1] as int))
    } else {
        edited
    }
}

/// The position of the image that the first color run writes, where there is a run with its work,
/// the image is requested, and it can be moved right.
pub open spec fn c10_edited_image(plan: PlanModel, runs: Seq<usize>) -> Option<int> {
    if runs.len() == 0 || !is_color_run(plan.passes[runs[0] as int].kind) {
        None
    } else {
        match plan.passes[runs[0] as int].result {
            RuntimeResultBinding::Resource(result) => match first_where(
                plan.resources,
                |resource: RuntimeResourceRequest| resource.id == result,
            ) {
                Some(image) => if plan.resources[image].spatial.device_x < i32::MAX {
                    Some(image)
                } else {
                    None
                },
                None => None,
            },
            _ => None,
        }
    }
}

/// Plans with one fact of the color runs changed; `None` where the first run cannot be edited.
pub fn c10_malformed_color_plans(plan: &LoweredGraphPlan, runs: &Vec<usize>) -> (plans: Option<
    Vec<LoweredGraphPlan>,
>)
    requires
        forall|i: int| 0 <= i < runs@.len() ==> (#[trigger] runs@[i]) < plan@.passes.len(),
        runs@.len() > 0 && is_color_run(plan@.passes[runs@[0] as int].kind)
            ==> plan@.passes[runs@[0] as int].reads.len() > 0,
    ensures
        match c10_edited_image(plan@, runs@) {
            Some(image) => plans matches Some(plans) && plan_models(plans@) == c10_malformed(
                plan@,
                runs@,
                image,
            ),
            None => plans is None,
        },
{
    if runs.len() == 0 {
        return None;
    }
    let first: usize = runs[0];
    assert(runs@[0] < plan@.passes.len());
    let run = &plan.passes[first];
    assert(plan@.passes[first as int] == run@);
    if !matches!(run.kind, RuntimePassKind::ColorFilter(Some(_))) {
        return None;
    }
    let result = match run.result {
        RuntimeResultBinding::Resource(result) => result,
        _ => return None,
    };
    let image = match find_resource_position(&plan.resources, result) {
        Some(image) => image,
        None => return None,
    };
    let mut moved = plan.resources[image];
    if moved.spatial.device_x == i32::MAX {
        return None;
    }
    moved.spatial.device_x = moved.spatial.device_x + 1;
    let mut filtered = run.reads[0];
    filtered.sampling_filter = RuntimeSamplingFilter::Linear;
    let source = run.reads[0].resource;
    let mut plans: Vec<LoweredGraphPlan> = Vec::new();
    plans.push(plan.replacing_kind(first, RuntimePassKind::ColorFilter(None)));
    plans.push(clearing_operations(plan, first));
    plans.push(plan.replacing_dependencies(first, Vec::new()));
    plans.push(plan.replacing_read(first, 0, filtered));
    plans.push(plan.replacing_result(first, RuntimeResultBinding::Resource(source)));
    plans.push(plan.replacing_releases(first, Vec::new()));
    plans.push(plan.replacing_resource(image, moved));
    if runs.len() > 1 {
        let second: usize = runs[1];
        assert(runs@[1] < plan@.passes.len());
        plans.push(plan.exchanging_passes(first, second));
    }
    proof {
        assert(plan_models(plans@) =~= c10_malformed(plan@, runs@, image as int));
    }
    Some(plans)
}

/// Where the filters of a graph stand.
#[derive(Clone, Copy, Debug, PartialEq, Eq, Structural)]
pub struct C11PassIndices {
    pub color: usize,
    pub blur_horizontal: usize,
    pub shadow_horizontal: usize,
    pub shadow_colorize: usize,
    pub shadow_merge: usize,
}

impl C11PassIndices {
    /// Whether these are the first passes of their kinds.
    pub open spec fn are_first_in(self, plan: PlanModel) -> bool {
        &&& first_wanted(plan, WantedPass::ColorRun) == Some(self.color as int)
        &&& first_wanted(plan, WantedPass::RgbaHorizontalBlur) == Some(self.blur_horizontal as int)
        &&& first_wanted(plan, WantedPass::AlphaHorizontalBlur) == Some(
            self.shadow_horizontal as int,
        )
        &&& first_wanted(plan, WantedPass::ShadowColorize) == Some(self.shadow_colorize as int)
        &&& first_wanted(plan, WantedPass::ShadowMerge) == Some(self.shadow_merge as int)
    }

    /// Whether these are passes of their kinds.
    pub open spec fn are_in(self, plan: PlanModel) -> bool {
        &&& self.color < plan.passes.len()
        &&& is_wanted(WantedPass::ColorRun, plan.passes[self.color as int].kind)
        &&& self.blur_horizontal < plan.passes.len()
        &&& is_wanted(
            WantedPass::RgbaHorizontalBlur,
            plan.passes[self.blur_horizontal as int].kind,
        )
        &&& self.shadow_horizontal < plan.passes.len()
        &&& is_wanted(
            WantedPass::AlphaHorizontalBlur,
            plan.passes[self.shadow_horizontal as int].kind,
        )
        &&& self.shadow_colorize < plan.passes.len()
        &&& is_wanted(WantedPass::ShadowColorize, plan.passes[self.shadow_colorize as int].kind)
        &&& self.shadow_merge < plan.passes.len()
        &&& is_wanted(WantedPass::ShadowMerge, plan.passes[self.shadow_merge as int].kind)
    }

    /// The first pass of each kind, if the graph has every kind.
    pub fn try_new(plan: &LoweredGraphPlan) -> (indices: Option<Self>)
        ensures
            match indices {
                Some(indices) => indices.are_first_in(plan@) && indices.are_in(plan@),
                None => {
                    ||| first_wanted(plan@, WantedPass::ColorRun) is None
                    ||| first_wanted(plan@, WantedPass::RgbaHorizontalBlur) is None
                    ||| first_wanted(plan@, WantedPass::AlphaHorizontalBlur) is None
                    ||| first_wanted(plan@, WantedPass::ShadowColorize) is None
                    ||| first_wanted(plan@, WantedPass::ShadowMerge) is None
                },
            },
    {
        match (
            find_wanted(plan, WantedPass::ColorRun),
            find_wanted(plan, WantedPass::RgbaHorizontalBlur),
            find_wanted(plan, WantedPass::AlphaHorizontalBlur),
            find_wanted(plan, WantedPass::ShadowColorize),
            find_wanted(plan, WantedPass::ShadowMerge),
        ) {
            (
                Some(color),
                Some(blur_horizontal),
                Some(shadow_horizontal),
                Some(shadow_colorize),
                Some(shadow_merge),
            ) => Some(
                C11PassIndices {
                    color,
                    blur_horizontal,
                    shadow_horizontal,
                    shadow_colorize,
                    shadow_merge,
                },
            ),
            _ => None,
        }
    }
}

/// The blur of a horizontal blur pass.
pub open spec fn horizontal_blur(plan: PlanModel, position: int) -> RuntimeBlur {
    plan.passes[position].kind->BlurHorizontal_0->0
}

pub open spec fn with_blur(plan: PlanModel, position: int, blur: RuntimeBlur) -> PlanModel {
    with_payload(plan, position, RuntimePassKind::BlurHorizontal(Some(blur)))
}

/// A blur whose result lies one device pixel to the right.
pub open spec fn blur_moved_right(blur: RuntimeBlur) -> RuntimeBlur {
    RuntimeBlur {
        spatial: RuntimeSpatialMapping {
            result: RuntimeSpatialDescriptor {
                device_x: (blur.spatial.result.device_x + 1) as i32,
                ..blur.spatial.result
            },
            ..blur.spatial
        },
        ..blur
    }
}

/// The plan with an empty color run, with a blur or a shadow without its work, with a blur of no
/// deviation, and with a blur that moves its result.
pub open spec fn c11_empty_missing_spatial(plan: PlanModel, indices: C11PassIndices) -> Seq<
    PlanModel,
> {
    let blur = horizontal_blur(plan, indices.blur_horizontal as int);
    seq![
        with_operations(plan, indices.color as int, Seq::empty()),
        with_kind(plan, indices.blur_horizontal as int, RuntimePassKind::BlurHorizontal(None)),
        with_kind(plan, indices.shadow_colorize as int, RuntimePassKind::DropShadowColorize(None)),
        with_blur(
            plan,
            indices.blur_horizontal as int,
            RuntimeBlur { standard_deviation: Scalar { bits: 0 }, ..blur },
        ),
        with_blur(plan, indices.blur_horizontal as int, blur_moved_right(blur)),
    ]
}

fn horizontal_blur_at(plan: &LoweredGraphPlan, position: usize) -> (blur: Option<RuntimeBlur>)
    requires
        position < plan@.passes.len(),
    ensures
        blur == (match plan@.passes[position as int].kind {
            RuntimePassKind::BlurHorizontal(blur) => blur,
            _ => None,
        }),
{
    match plan.passes[position].kind {
        RuntimePassKind::BlurHorizontal(blur) => blur,
        _ => None,
    }
}

/// Plans with an empty, missing or displaced filter; `None` where the blur cannot be moved right.
pub fn c11_empty_missing_spatial_plans(plan: &LoweredGraphPlan, indices: C11PassIndices) -> (plans:
    Option<Vec<LoweredGraphPlan>>)
    requires
        indices.are_in(plan@),
    ensures
        if horizontal_blur(
            plan@,
            indices.blur_horizontal as int,
        ).spatial.result.device_x < i32::MAX {
            plans matches Some(plans) && plan_models(plans@) == c11_empty_missing_spatial(
                plan@,
                indices,
            )
        } else {
            plans is None
        },
{
    let blur = match horizontal_blur_at(plan, indices.blur_horizontal) {
        Some(blur) => blur,
        None => return None,
    };
    if blur.spatial.result.device_x == i32::MAX {
        return None;
    }
    let mut flat = blur;
    flat.standard_deviation = Scalar { bits: 0 };
    let mut moved = blur;
    moved.spatial.result.device_x = moved.spatial.result.device_x + 1;
    let mut plans: Vec<LoweredGraphPlan> = Vec::new();
    plans.push(clearing_operations(plan, indices.color));
    plans.push(plan.replacing_kind(indices.blur_horizontal, RuntimePassKind::BlurHorizontal(None)));
    plans.push(
        plan.replacing_kind(indices.shadow_colorize, RuntimePassKind::DropShadowColorize(None)),
    );
    plans.push(
        plan.editing_payload(indices.blur_horizontal, RuntimePassKind::BlurHorizontal(Some(flat))),
    );
    plans.push(
        plan.editing_payload(indices.blur_horizontal, RuntimePassKind::BlurHorizontal(Some(moved))),
    );
    proof {
        assert(plan_models(plans@) =~= c11_empty_missing_spatial(plan@, indices));
    }
    Some(plans)
}

/// The unit square at the origin.
pub open spec fn unit_square() -> Rect {
    let zero = Scalar { bits: 0 };
    let one = Scalar { bits: ONE_BITS };
    Rect { x: zero, y: zero, width: one, height: one }
}

/// The shadow of a colorization pass.
pub open spec fn colorized_shadow(plan: PlanModel, position: int) -> RuntimeDropShadow {
    plan.passes[position].kind->DropShadowColorize_0->0
}

/// The plan with a blur of another axis, input or edge, with a shadow of all channels, with a blur
/// that writes what it samples, and with a colorization that ignores the alpha.
pub open spec fn c11_axes_inputs_edges_alias(plan: PlanModel, indices: C11PassIndices) -> Seq<
    PlanModel,
> {
    let position = indices.blur_horizontal as int;
    let blur = horizontal_blur(plan, position);
    let shadow_position = indices.shadow_horizontal as int;
    let shadow_blur = horizontal_blur(plan, shadow_position);
    let colorize = indices.shadow_colorize as int;
    seq![
        with_blur(plan, position, RuntimeBlur { axis: RuntimeBlurAxis::Vertical, ..blur }),
        with_blur(plan, position, RuntimeBlur { input: RuntimeBlurInput::SourceAlpha, ..blur }),
        with_blur(
            plan,
            position,
            RuntimeBlur {
                edge: RuntimeSamplingEdge::SemanticBorderMirror(unit_square()),
                ..blur
            },
        ),
        with_blur(
            plan,
            shadow_position,
            RuntimeBlur { input: RuntimeBlurInput::Rgba, ..shadow_blur },
        ),
        with_result(
            plan,
            position,
            RuntimeResultBinding::Resource(plan.passes[position].reads[0].resource),
        ),
        with_payload(
            plan,
            colorize,
            RuntimePassKind::DropShadowColorize(
                Some(
                    RuntimeDropShadow {
                        uses_source_alpha: false,
                        ..colorized_shadow(plan, colorize)
                    },
                ),
            ),
        ),
    ]
}

/// Plans with a wrong axis, input, edge or target; `None` where the blur samples nothing.
pub fn c11_axes_inputs_edges_alias_plans(plan: &LoweredGraphPlan, indices: C11PassIndices) -> (
plans: Option<Vec<LoweredGraphPlan>>)
    requires
        indices.are_in(plan@),
    ensures
        if plan@.passes[indices.blur_horizontal as int].reads.len() > 0 {
            plans matches Some(plans) && plan_models(plans@) == c11_axes_inputs_edges_alias(
                plan@,
                indices,
            )
        } else {
            plans is None
        },
{
    let position: usize = indices.blur_horizontal;
    assert(plan@.passes[position as int] == plan.passes@[position as int]@);
    assert(plan@.passes[indices.shadow_colorize as int]
        == plan.passes@[indices.shadow_colorize as int]@);
    let (blur, shadow_blur) = match (
        horizontal_blur_at(plan, position),
        horizontal_blur_at(plan, indices.shadow_horizontal),
    ) {
        (Some(blur), Some(shadow_blur)) => (blur, shadow_blur),
        _ => return None,
    };
    let shadow = match plan.passes[indices.shadow_colorize].kind {
        RuntimePassKind::DropShadowColorize(Some(shadow)) => shadow,
        _ => return None,
    };
    if plan.passes[position].reads.len() == 0 {
        return None;
    }
    let source = plan.passes[position].reads[0].resource;
    let zero = Scalar { bits: 0 };
    let one = Scalar { bits: ONE_BITS };
    let mut vertical = blur;
    vertical.axis = RuntimeBlurAxis::Vertical;
    let mut alpha = blur;
    alpha.input = RuntimeBlurInput::SourceAlpha;
    let mut mirrored = blur;
    mirrored.edge = RuntimeSamplingEdge::SemanticBorderMirror(
        Rect { x: zero, y: zero, width: one, height: one },
    );
    let mut colored = shadow_blur;
    colored.input = RuntimeBlurInput::Rgba;
    let mut opaque = shadow;
    opaque.uses_source_alpha = false;
    let mut plans: Vec<LoweredGraphPlan> = Vec::new();
    plans.push(plan.editing_payload(position, RuntimePassKind::BlurHorizontal(Some(vertical))));
    plans.push(plan.editing_payload(position, RuntimePassKind::BlurHorizontal(Some(alpha))));
    plans.push(plan.editing_payload(position, RuntimePassKind::BlurHorizontal(Some(mirrored))));
    plans.push(
        plan.editing_payload(
            indices.shadow_horizontal,
            RuntimePassKind::BlurHorizontal(Some(colored)),
        ),
    );
    plans.push(plan.replacing_result(position, RuntimeResultBinding::Resource(source)));
    plans.push(
        plan.editing_payload(
            indices.shadow_colorize,
            RuntimePassKind::DropShadowColorize(Some(opaque)),
        ),
    );
    proof {
        assert(plan_models(plans@) =~= c11_axes_inputs_edges_alias(plan@, indices));
    }
    Some(plans)
}

/// The plan with a backdrop copy in place of its blur, with a blur that depends on the pass after
/// it, with a merge that forgets the source, and with a blur that depends on a stale pass.
pub open spec fn c11_copy_stale_forward(
    plan: PlanModel,
    indices: C11PassIndices,
    stale: RuntimePassId,
) -> Seq<PlanModel> {
    let blur = indices.blur_horizontal as int;
    seq![
        with_kind(plan, blur, RuntimePassKind::CopyBackdrop),
        with_dependencies(plan, blur, seq![plan.passes[blur + 1].id]),
        with_dependencies(
            plan,
            indices.shadow_merge as int,
            seq![plan.passes[indices.shadow_colorize as int].id],
        ),
        with_dependencies(plan, blur, seq![stale]),
    ]
}

/// Plans with a foreign pass or a wrong dependency; `None` where no pass follows the blur.
pub fn c11_copy_stale_forward_plans(
    plan: &LoweredGraphPlan,
    indices: C11PassIndices,
    stale: RuntimePassId,
) -> (plans: Option<Vec<LoweredGraphPlan>>)
    requires
        indices.are_in(plan@),
    ensures
        if indices.blur_horizontal + 1 < plan@.passes.len() {
            plans matches Some(plans) && plan_models(plans@) == c11_copy_stale_forward(
                plan@,
                indices,
                stale,
            )
        } else {
            plans is None
        },
{
    let blur: usize = indices.blur_horizontal;
    let length: usize = plan.passes.len();
    if length - blur <= 1 {
        return None;
    }
    let forward = plan.passes[blur + 1].id;
    let colorize = plan.passes[indices.shadow_colorize].id;
    assert(plan@.passes[blur + 1].id == forward);
    assert(plan@.passes[indices.shadow_colorize as int].id == colorize);
    let mut plans: Vec<LoweredGraphPlan> = Vec::new();
    let after: Vec<RuntimePassId> = vec![forward];
    let only_shadow: Vec<RuntimePassId> = vec![colorize];
    let only_stale: Vec<RuntimePassId> = vec![stale];
    assert(after@ =~= seq![forward]);
    assert(only_shadow@ =~= seq![colorize]);
    assert(only_stale@ =~= seq![stale]);
    plans.push(plan.replacing_kind(blur, RuntimePassKind::CopyBackdrop));
    plans.push(plan.replacing_dependencies(blur, after));
    plans.push(plan.replacing_dependencies(indices.shadow_merge, only_shadow));
    plans.push(plan.replacing_dependencies(blur, only_stale));
    proof {
        assert(plan_models(plans@) =~= c11_copy_stale_forward(plan@, indices, stale));
    }
    Some(plans)
}

/// A dependency on a later pass is a broken lifetime: where no identity is repeated, a plan whose
/// blur depends on the pass after it has no exact lifetimes.
pub proof fn law_forward_dependencies_break_lifetimes(
    plan: PlanModel,
    indices: C11PassIndices,
    stale: RuntimePassId,
)
    requires
        indices.are_in(plan),
        indices.blur_horizontal + 1 < plan.passes.len(),
        passes_are_distinct(plan.passes),
    ensures
        !lifetimes_are_exact(c11_copy_stale_forward(plan, indices, stale)[1]),
{
    let blur = indices.blur_horizontal as int;
    let edited = c11_copy_stale_forward(plan, indices, stale)[1];
    let id = plan.passes[blur + 1].id;
    let chosen = |pass: PassModel| pass.id == id;
    lemma_last_where(edited.passes, chosen);
    assert(edited.passes[blur + 1] == plan.passes[blur + 1]);
    assert(chosen(edited.passes[blur + 1]));
    assert(edited.passes[blur].dependencies[0] == id);
    if lifetimes_are_exact(edited) {
        assert(pass_lifetimes_are_exact(edited, blur));
        assert(dependencies_precede(edited, blur));
        let found = mapped_pass(edited.passes, id)->0;
        assert(found < blur);
    }
}

/// The transform that moves by one to the right.
pub open spec fn translation_by_one() -> Transform {
    let zero = Scalar { bits: 0 };
    let one = Scalar { bits: ONE_BITS };
    Transform { a: one, b: zero, c: zero, d: one, e: one, f: zero }
}

/// The composite of a layer composition, moved by one to the right.
pub open spec fn moved_composite(kind: RuntimePassKind) -> RuntimePassKind {
    let composite = kind->Composite_0->0;
    RuntimePassKind::Composite(
        Some(
            RuntimeComposite {
                kind: RuntimeCompositeKind::Layer(
                    RuntimeLayerComposite {
                        transform: translation_by_one(),
                        ..composite.kind->Layer_0
                    },
                ),
                ..composite
            },
        ),
    )
}

/// The plan with a backdrop copy that waits for nothing or samples as a filter, with a second copy
/// in place of a mirrored blur, with a mirrored blur that shows nothing outside, and with a moved
/// group.
pub open spec fn c12_malformed(plan: PlanModel, copy: int, mirror: int, outer: int) -> Seq<
    PlanModel,
> {
    let copies = plan.passes[copy];
    seq![
        with_dependencies(plan, copy, Seq::empty()),
        with_reads(
            plan,
            copy,
            copies.reads.update(
                0,
                RuntimeReadBinding { role: RuntimeReadRole::FilterSource, ..copies.reads[0] },
            ),
        ),
        with_kind(plan, mirror, RuntimePassKind::CopyBackdrop),
        with_blur(
            plan,
            mirror,
            RuntimeBlur {
                edge: RuntimeSamplingEdge::TransparentBlack,
                ..horizontal_blur(plan, mirror)
            },
        ),
        with_payload(plan, outer, moved_composite(plan.passes[outer].kind)),
    ]
}

/// Whether the backdrop copy of a plan that has every pass that is edited reads something.
pub open spec fn c12_is_editable(plan: PlanModel) -> bool {
    match (
        first_wanted(plan, WantedPass::BackdropCopy),
        first_wanted(plan, WantedPass::MirroredHorizontalBlur),
        last_wanted(plan, WantedPass::LayerComposite),
    ) {
        (Some(copy), Some(_), Some(_)) => plan.passes[copy].reads.len() > 0,
        _ => true,
    }
}

/// Plans with one fact of the backdrop changed; `None` where the plan lacks a backdrop copy, a
/// mirrored blur or a layer composition.
pub fn c12_malformed_plans(plan: &LoweredGraphPlan) -> (plans: Option<Vec<LoweredGraphPlan>>)
    requires
        c12_is_editable(plan@),
    ensures
        match (
            first_wanted(plan@, WantedPass::BackdropCopy),
            first_wanted(plan@, WantedPass::MirroredHorizontalBlur),
            last_wanted(plan@, WantedPass::LayerComposite),
        ) {
            (Some(copy), Some(mirror), Some(outer)) => plans matches Some(plans) && plan_models(
                plans@,
            ) == c12_malformed(plan@, copy, mirror, outer),
            _ => plans is None,
        },
{
    let (copy, mirror, outer) = match (
        find_wanted(plan, WantedPass::BackdropCopy),
        find_wanted(plan, WantedPass::MirroredHorizontalBlur),
        find_last_wanted(plan, WantedPass::LayerComposite),
    ) {
        (Some(copy), Some(mirror), Some(outer)) => (copy, mirror, outer),
        _ => return None,
    };
    assert(plan@.passes[copy as int] == plan.passes@[copy as int]@);
    assert(plan@.passes[outer as int] == plan.passes@[outer as int]@);
    let mut transparent = match horizontal_blur_at(plan, mirror) {
        Some(blur) => blur,
        None => return None,
    };
    transparent.edge = RuntimeSamplingEdge::TransparentBlack;
    let moved = match plan.passes[outer].kind {
        RuntimePassKind::Composite(Some(composite)) => match composite.kind {
            RuntimeCompositeKind::Layer(layer) => {
                let zero = Scalar { bits: 0 };
                let one = Scalar { bits: ONE_BITS };
                let mut layer = layer;
                layer.transform = Transform { a: one, b: zero, c: zero, d: one, e: one, f: zero };
                RuntimePassKind::Composite(
                    Some(
                        RuntimeComposite {
                            kind: RuntimeCompositeKind::Layer(layer),
                            source_captured_before_outer_semantics: composite
                                .source_captured_before_outer_semantics,
                        },
                    ),
                )
            },
            _ => return None,
        },
        _ => return None,
    };
    let mut filtered = plan.passes[copy].reads[0];
    filtered.role = RuntimeReadRole::FilterSource;
    let mut plans: Vec<LoweredGraphPlan> = Vec::new();
    plans.push(plan.replacing_dependencies(copy, Vec::new()));
    plans.push(plan.replacing_read(copy, 0, filtered));
    plans.push(plan.replacing_kind(mirror, RuntimePassKind::CopyBackdrop));
    plans.push(plan.editing_payload(mirror, RuntimePassKind::BlurHorizontal(Some(transparent))));
    plans.push(plan.editing_payload(outer, moved));
    proof {
        assert(plan_models(plans@) =~= c12_malformed(
            plan@,
            copy as int,
            mirror as int,
            outer as int,
        ));
    }
    Some(plans)
}

/// A wanted pass is the first of its kind, or the last where that is asked for.
pub proof fn law_wanted_passes(
    plan: &LoweredGraphPlan,
    wanted: WantedPass,
    first: Option<usize>,
    last: Option<usize>,
    i: int,
)
    requires
        call_ensures(find_wanted, (plan, wanted), first),
        call_ensures(find_last_wanted, (plan, wanted), last),
        0 <= i < plan@.passes.len(),
        ({
            let kind = plan@.passes[i].kind;
            match wanted {
                WantedPass::BoundCapture => kind is VelloCapture && kind->VelloCapture_0 is Some,
                WantedPass::Canonicalize => kind is CanonicalizeCapture,
                WantedPass::LayerComposite => kind is Composite && kind->Composite_0 is Some
                    && kind->Composite_0->0.kind is Layer,
                WantedPass::Present => kind is Present,
                WantedPass::ColorRun => kind is ColorFilter && kind->ColorFilter_0 is Some,
                WantedPass::RgbaHorizontalBlur => kind is BlurHorizontal
                    && kind->BlurHorizontal_0 is Some && kind->BlurHorizontal_0->0.input is Rgba,
                WantedPass::AlphaHorizontalBlur => kind is BlurHorizontal
                    && kind->BlurHorizontal_0 is Some
                    && kind->BlurHorizontal_0->0.input is SourceAlpha,
                WantedPass::ShadowColorize => kind is DropShadowColorize
                    && kind->DropShadowColorize_0 is Some,
                WantedPass::ShadowMerge => kind is Composite && kind->Composite_0 is Some
                    && kind->Composite_0->0.kind is DropShadow,
                WantedPass::BackdropCopy => kind is CopyBackdrop,
                WantedPass::MirroredHorizontalBlur => kind is BlurHorizontal
                    && kind->BlurHorizontal_0 is Some
                    && kind->BlurHorizontal_0->0.edge is SemanticBorderMirror,
            }
        }),
    ensures
        first is Some,
        last is Some,
        first->0 <= i <= last->0,
        ({
            let found = plan@.passes[first->0 as int].kind;
            match wanted {
                WantedPass::BoundCapture => found is VelloCapture,
                WantedPass::Canonicalize => found is CanonicalizeCapture,
                WantedPass::LayerComposite => found is Composite,
                WantedPass::Present => found is Present,
                WantedPass::ColorRun => found is ColorFilter,
                WantedPass::RgbaHorizontalBlur => found is BlurHorizontal
                    && found->BlurHorizontal_0->0.input is Rgba,
                WantedPass::AlphaHorizontalBlur => found is BlurHorizontal
                    && found->BlurHorizontal_0->0.input is SourceAlpha,
                WantedPass::ShadowColorize => found is DropShadowColorize,
                WantedPass::ShadowMerge => found is Composite
                    && found->Composite_0->0.kind is DropShadow,
                WantedPass::BackdropCopy => found is CopyBackdrop,
                WantedPass::MirroredHorizontalBlur => found is BlurHorizontal
                    && found->BlurHorizontal_0->0.edge is SemanticBorderMirror,
            }
        }),
{
    let chosen = wants(wanted);
    lemma_first_where(plan@.passes, chosen);
    lemma_last_where(plan@.passes, chosen);
    assert(chosen(plan@.passes[i]));
}

/// Every malformed layer graph differs from its plan in one place: a canonicalization that waits for
/// nothing, a layer with its first reads exchanged, that writes its parent or releases nothing, a
/// resource with one more read, a capture behind its canonicalization, and a repeated identity.
pub proof fn law_malformed_layers(
    plan: &LoweredGraphPlan,
    capture: usize,
    canonicalize: usize,
    layer: usize,
    plans: Vec<LoweredGraphPlan>,
)
    requires
        capture < plan@.passes.len(),
        canonicalize < plan@.passes.len(),
        layer < plan@.passes.len(),
        plan@.passes[layer as int].reads.len() >= 2,
        plan@.resources.len() >= 2,
        plan@.resources[0].expected_reads < u32::MAX,
        call_ensures(c09_malformed_plans, (plan, capture, canonicalize, layer), plans),
    ensures
        plans@.len() == 7,
        plans@[0]@.passes[canonicalize as int].dependencies.len() == 0,
        plans@[1]@.passes[layer as int].reads[0] == plan@.passes[layer as int].reads[1],
        plans@[1]@.passes[layer as int].reads[1] == plan@.passes[layer as int].reads[0],
        plans@[2]@.passes[layer as int].result == RuntimeResultBinding::Resource(
            plan@.passes[layer as int].reads[0].resource,
        ),
        plans@[3]@.passes[layer as int].releases.len() == 0,
        plans@[4]@.resources[0].expected_reads == plan@.resources[0].expected_reads + 1,
        plans@[4]@.passes == plan@.passes,
        plans@[5]@.passes[capture as int] == plan@.passes[canonicalize as int],
        plans@[5]@.passes[canonicalize as int] == plan@.passes[capture as int],
        plans@[6]@.resources[1].id == plan@.resources[0].id,
        plans@[6]@.passes == plan@.passes,
{
    let models = plan_models(plans@);
    assert(models.len() == plans@.len());
    assert(models[0] == plans@[0]@);
    assert(models[1] == plans@[1]@);
    assert(models[2] == plans@[2]@);
    assert(models[3] == plans@[3]@);
    assert(models[4] == plans@[4]@);
    assert(models[5] == plans@[5]@);
    assert(models[6] == plans@[6]@);
}

/// Every foreign layer graph has one pass that layer composition does not hold: a backdrop copy or a
/// shadow in place of the layer, a capture or a layer without its work, and a present to another
/// format.
pub proof fn law_foreign_layers(
    plan: &LoweredGraphPlan,
    plans: Vec<LoweredGraphPlan>,
    layer: int,
    capture: int,
    present: int,
)
    requires
        call_ensures(c09_foreign_plans, (plan,), Some(plans)),
        first_wanted(plan@, WantedPass::LayerComposite) == Some(layer),
        first_wanted(plan@, WantedPass::BoundCapture) == Some(capture),
        first_wanted(plan@, WantedPass::Present) == Some(present),
    ensures
        plans@.len() == 5,
        plans@[0]@.passes[layer].kind is CopyBackdrop,
        plans@[1]@.passes[layer].kind is Composite,
        plans@[1]@.passes[layer].kind->Composite_0 is Some,
        plans@[1]@.passes[layer].kind->Composite_0->0.kind is DropShadow,
        plans@[2]@.passes[capture].kind == RuntimePassKind::VelloCapture(None),
        plans@[3]@.passes[layer].kind == RuntimePassKind::Composite(None),
        plans@[4]@.passes[present].result == RuntimeResultBinding::Output(Format::Bgra8),
        plans@[0]@.resources == plan@.resources,
        plans@[4]@.passes.len() == plan@.passes.len(),
{
    lemma_first_where(plan@.passes, wants(WantedPass::LayerComposite));
    lemma_first_where(plan@.passes, wants(WantedPass::BoundCapture));
    lemma_first_where(plan@.passes, wants(WantedPass::Present));
    let models = plan_models(plans@);
    assert(models.len() == plans@.len());
    assert(models[0] == plans@[0]@);
    assert(models[1] == plans@[1]@);
    assert(models[2] == plans@[2]@);
    assert(models[3] == plans@[3]@);
    assert(models[4] == plans@[4]@);
}

/// Every malformed color graph differs in one fact of its first run: without its work, its operations,
/// its dependencies or its releases, sampled between texels, written to what it reads, or with its
/// image one pixel to the right; and with two runs, in their order.
pub proof fn law_malformed_colors(
    plan: &LoweredGraphPlan,
    runs: &Vec<usize>,
    plans: Vec<LoweredGraphPlan>,
    image: int,
)
    requires
        call_ensures(c10_malformed_color_plans, (plan, runs), Some(plans)),
        c10_edited_image(plan@, runs@) == Some(image),
        runs@[0] < plan@.passes.len(),
        runs@.len() > 1 ==> runs@[1] < plan@.passes.len(),
        plan@.passes[runs@[0] as int].reads.len() > 0,
    ensures
        ({
            let first = runs@[0] as int;
            let run = plan@.passes[first];
            &&& plans@.len() == (if runs@.len() > 1 {
                8int
            } else {
                7
            })
            &&& plans@[0]@.passes[first].kind == RuntimePassKind::ColorFilter(None)
            &&& plans@[1]@.passes[first].operations.len() == 0
            &&& plans@[1]@.passes[first].kind == run.kind
            &&& plans@[2]@.passes[first].dependencies.len() == 0
            &&& plans@[3]@.passes[first].reads[0].sampling_filter is Linear
            &&& plans@[3]@.passes[first].reads[0].resource == run.reads[0].resource
            &&& plans@[4]@.passes[first].result == RuntimeResultBinding::Resource(
                run.reads[0].resource,
            )
            &&& plans@[5]@.passes[first].releases.len() == 0
            &&& plans@[6]@.resources[image].spatial.device_x
                == plan@.resources[image].spatial.device_x + 1
            &&& plans@[6]@.resources[image].spatial.device_y
                == plan@.resources[image].spatial.device_y
            &&& run.result == RuntimeResultBinding::Resource(plan@.resources[image].id)
            &&& runs@.len() > 1 ==> plans@[7]@.passes[first] == plan@.passes[runs@[1] as int]
                && plans@[7]@.passes[runs@[1] as int] == run
        }),
{
    let result = plan@.passes[runs@[0] as int].result->Resource_0;
    lemma_first_where(
        plan@.resources,
        |resource: RuntimeResourceRequest| resource.id == result,
    );
    let models = plan_models(plans@);
    assert(models.len() == plans@.len());
    assert(models[0] == plans@[0]@);
    assert(models[1] == plans@[1]@);
    assert(models[2] == plans@[2]@);
    assert(models[3] == plans@[3]@);
    assert(models[4] == plans@[4]@);
    assert(models[5] == plans@[5]@);
    assert(models[6] == plans@[6]@);
    if runs@.len() > 1 {
        assert(models[7] == plans@[7]@);
    }
}

/// Every malformed filter graph differs in one filter: an empty color run, a blur or a shadow without
/// its work, a blur that spreads nothing or whose result lies one pixel to the right; one of another
/// axis, input or edge, or that writes what it reads; a shadow of all channels, or that ignores alpha.
pub proof fn law_malformed_filters(
    plan: &LoweredGraphPlan,
    indices: C11PassIndices,
    empty: Vec<LoweredGraphPlan>,
    wrong: Vec<LoweredGraphPlan>,
)
    requires
        indices.are_in(plan@),
        call_ensures(c11_empty_missing_spatial_plans, (plan, indices), Some(empty)),
        call_ensures(c11_axes_inputs_edges_alias_plans, (plan, indices), Some(wrong)),
    ensures
        ({
            let at = indices.blur_horizontal as int;
            let blur = plan@.passes[at].kind->BlurHorizontal_0->0;
            let colorize = indices.shadow_colorize as int;
            &&& empty@.len() == 5
            &&& empty@[0]@.passes[indices.color as int].operations.len() == 0
            &&& empty@[1]@.passes[at].kind == RuntimePassKind::BlurHorizontal(None)
            &&& empty@[2]@.passes[colorize].kind == RuntimePassKind::DropShadowColorize(None)
            &&& empty@[3]@.passes[at].kind matches RuntimePassKind::BlurHorizontal(Some(flat))
                && flat.standard_deviation.bits == 0 && flat.axis == blur.axis
            &&& empty@[4]@.passes[at].kind matches RuntimePassKind::BlurHorizontal(Some(moved))
                && moved.spatial.result.device_x == blur.spatial.result.device_x + 1
                && moved.spatial.result.device_y == blur.spatial.result.device_y
                && moved.spatial.source == blur.spatial.source
            &&& wrong@.len() == 6
            &&& wrong@[0]@.passes[at].kind matches RuntimePassKind::BlurHorizontal(Some(edited))
                && edited.axis is Vertical && edited.input == blur.input
            &&& wrong@[1]@.passes[at].kind matches RuntimePassKind::BlurHorizontal(Some(edited))
                && edited.input is SourceAlpha && edited.axis == blur.axis
            &&& wrong@[2]@.passes[at].kind matches RuntimePassKind::BlurHorizontal(Some(edited))
                && edited.edge is SemanticBorderMirror && edited.input == blur.input
            &&& wrong@[3]@.passes[indices.shadow_horizontal as int].kind matches
                RuntimePassKind::BlurHorizontal(Some(edited)) && edited.input is Rgba
            &&& wrong@[4]@.passes[at].result == RuntimeResultBinding::Resource(
                plan@.passes[at].reads[0].resource,
            )
            &&& wrong@[5]@.passes[colorize].kind matches RuntimePassKind::DropShadowColorize(
                Some(edited),
            ) && !edited.uses_source_alpha
        }),
{
    let models = plan_models(empty@);
    assert(models.len() == empty@.len());
    assert(models[0] == empty@[0]@);
    assert(models[1] == empty@[1]@);
    assert(models[2] == empty@[2]@);
    assert(models[3] == empty@[3]@);
    assert(models[4] == empty@[4]@);
    let others = plan_models(wrong@);
    assert(others.len() == wrong@.len());
    assert(others[0] == wrong@[0]@);
    assert(others[1] == wrong@[1]@);
    assert(others[2] == wrong@[2]@);
    assert(others[3] == wrong@[3]@);
    assert(others[4] == wrong@[4]@);
    assert(others[5] == wrong@[5]@);
}

/// A filter graph is also malformed by a backdrop copy in place of its blur, by a blur that depends on
/// the pass behind it or on a stale one, and by a merge that depends on its coloring alone.
pub proof fn law_misplaced_filters(
    plan: &LoweredGraphPlan,
    indices: C11PassIndices,
    stale: RuntimePassId,
    plans: Vec<LoweredGraphPlan>,
)
    requires
        indices.are_in(plan@),
        call_ensures(c11_copy_stale_forward_plans, (plan, indices, stale), Some(plans)),
    ensures
        ({
            let at = indices.blur_horizontal as int;
            &&& plans@.len() == 4
            &&& plans@[0]@.passes[at].kind is CopyBackdrop
            &&& plans@[1]@.passes[at].dependencies == seq![plan@.passes[at + 1].id]
            &&& plans@[2]@.passes[indices.shadow_merge as int].dependencies == seq![
                plan@.passes[indices.shadow_colorize as int].id,
            ]
            &&& plans@[3]@.passes[at].dependencies == seq![stale]
        }),
{
    let models = plan_models(plans@);
    assert(models.len() == plans@.len());
    assert(models[0] == plans@[0]@);
    assert(models[1] == plans@[1]@);
    assert(models[2] == plans@[2]@);
    assert(models[3] == plans@[3]@);
}

/// Every malformed backdrop differs in one place: a copy that waits for nothing or samples as a filter,
/// a copy in place of the mirrored blur, a blur that shows nothing outside, and an outer layer moved by
/// one to the right.
pub proof fn law_malformed_backdrops(
    plan: &LoweredGraphPlan,
    plans: Vec<LoweredGraphPlan>,
    copy: int,
    mirror: int,
    outer: int,
)
    requires
        call_ensures(c12_malformed_plans, (plan,), Some(plans)),
        first_wanted(plan@, WantedPass::BackdropCopy) == Some(copy),
        first_wanted(plan@, WantedPass::MirroredHorizontalBlur) == Some(mirror),
        last_wanted(plan@, WantedPass::LayerComposite) == Some(outer),
        plan@.passes[copy].reads.len() > 0,
    ensures
        plans@.len() == 5,
        plans@[0]@.passes[copy].dependencies.len() == 0,
        plans@[1]@.passes[copy].reads[0].role is FilterSource,
        plans@[1]@.passes[copy].reads[0].resource == plan@.passes[copy].reads[0].resource,
        plans@[2]@.passes[mirror].kind is CopyBackdrop,
        plans@[3]@.passes[mirror].kind matches RuntimePassKind::BlurHorizontal(Some(blur))
            && blur.edge is TransparentBlack,
        plans@[4]@.passes[outer].kind matches RuntimePassKind::Composite(Some(composite))
            && composite.kind matches RuntimeCompositeKind::Layer(layer) && {
            &&& layer.transform.a.bits == 0x3ff0_0000_0000_0000
            &&& layer.transform.b.bits == 0
            &&& layer.transform.c.bits == 0
            &&& layer.transform.d.bits == 0x3ff0_0000_0000_0000
            &&& layer.transform.e.bits == 0x3ff0_0000_0000_0000
            &&& layer.transform.f.bits == 0
            &&& layer.blend == plan@.passes[outer].kind->Composite_0->0.kind->Layer_0.blend
        },
{
    lemma_first_where(plan@.passes, wants(WantedPass::BackdropCopy));
    lemma_first_where(plan@.passes, wants(WantedPass::MirroredHorizontalBlur));
    lemma_last_where(plan@.passes, wants(WantedPass::LayerComposite));
    let models = plan_models(plans@);
    assert(models.len() == plans@.len());
    assert(models[0] == plans@[0]@);
    assert(models[1] == plans@[1]@);
    assert(models[2] == plans@[2]@);
    assert(models[3] == plans@[3]@);
    assert(models[4] == plans@[4]@);
}

} // verus!
