//! Plans that are one edit away from a spine, and that no such plan is one.

use vstd::prelude::*;

use crate::filter::materialized::FilterColor;
use crate::pass::c08::{
    c08_pass_class, class_of, derives_any, group_is_exact, is_spine, may_derive, present_is_exact,
    root_is_exact, target_of, C08PassClass, PassDerivation,
};
use crate::pass::edit::{
    swapped, with_dependencies, with_kind, with_pass, with_payload, with_reads, with_releases,
    with_resource, with_result, with_swapped_passes,
};
use crate::pass::model::{
    plan_models,
    LoweredGraphPlan, PassModel, PlanModel, RuntimeComposite, RuntimeCompositeKind,
    RuntimeInitialization, RuntimeLayerComposite, RuntimePassKind, RuntimeReadBinding,
    RuntimeReadRole, RuntimeResourceFormat, RuntimeResourceRequest, RuntimeResultBinding,
    RuntimeVelloCapture, RuntimeVelloSpanScope, Transform,
};
use crate::pass::c08_laws::law_spine_targets_are_distinct;
use crate::pass::search::{
    first_where, lemma_first_resource, lemma_first_where, lemma_resource_found,
};
use crate::reference::pixel::BlendMode;
use crate::runtime::Format;
use crate::scalar::{Scalar, ONE_BITS};

verus! {

/// The class of the pass at a position of a spine of `length` passes.
pub open spec fn class_at(length: int, position: int) -> C08PassClass {
    if position == 0 {
        C08PassClass::ClearRoot
    } else if position == length - 1 {
        C08PassClass::Present
    } else if position % 3 == 1 {
        C08PassClass::VelloCapture
    } else if position % 3 == 2 {
        C08PassClass::CanonicalizeCapture
    } else {
        C08PassClass::SpanSourceOver
    }
}

/// In an exact spine the position of a pass fixes its class.
pub proof fn law_spine_classes(plan: PlanModel, derived: Seq<PassDerivation>, position: int)
    requires
        is_spine(plan, derived),
        0 <= position < plan.passes.len(),
    ensures
        class_of(plan.passes[position].kind) == Some(class_at(plan.passes.len() as int, position)),
{
    if position == 0 {
        assert(root_is_exact(plan));
    } else if position == plan.passes.len() - 1 {
        assert(present_is_exact(plan));
    } else {
        let k = (position - 1) / 3;
        assert(group_is_exact(plan, derived, k));
        assert(position == 3 * k + 1 || position == 3 * k + 2 || position == 3 * k + 3);
    }
}

/// A spine with a pass of another class in any place is no spine.
pub proof fn law_spine_rejects_other_kinds(
    plan: PlanModel,
    derived: Seq<PassDerivation>,
    position: int,
    kind: RuntimePassKind,
    other: Seq<PassDerivation>,
)
    requires
        is_spine(plan, derived),
        0 <= position < plan.passes.len(),
        class_of(kind) != class_of(plan.passes[position].kind),
    ensures
        !is_spine(with_kind(plan, position, kind), other),
{
    law_spine_classes(plan, derived, position);
    if is_spine(with_kind(plan, position, kind), other) {
        law_spine_classes(with_kind(plan, position, kind), other, position);
    }
}

/// A spine without one of its passes is no spine.
pub proof fn law_spine_rejects_missing_passes(
    plan: PlanModel,
    derived: Seq<PassDerivation>,
    position: int,
    other: Seq<PassDerivation>,
)
    requires
        is_spine(plan, derived),
        0 <= position < plan.passes.len(),
    ensures
        !is_spine((PlanModel { passes: plan.passes.remove(position), ..plan }), other),
{
}

/// A spine with one more pass is no spine.
pub proof fn law_spine_rejects_added_passes(
    plan: PlanModel,
    derived: Seq<PassDerivation>,
    position: int,
    pass: PassModel,
    other: Seq<PassDerivation>,
)
    requires
        is_spine(plan, derived),
        0 <= position <= plan.passes.len(),
    ensures
        !is_spine((PlanModel { passes: plan.passes.insert(position, pass), ..plan }), other),
{
}

/// A spine with two passes of different classes exchanged is no spine.
pub proof fn law_spine_rejects_reordered_passes(
    plan: PlanModel,
    derived: Seq<PassDerivation>,
    left: int,
    right: int,
    other: Seq<PassDerivation>,
)
    requires
        is_spine(plan, derived),
        0 <= left < plan.passes.len(),
        0 <= right < plan.passes.len(),
        class_of(plan.passes[left].kind) != class_of(plan.passes[right].kind),
    ensures
        !is_spine(with_swapped_passes(plan, left, right), other),
{
    law_spine_classes(plan, derived, left);
    law_spine_classes(plan, derived, right);
    let edited = with_swapped_passes(plan, left, right);
    if is_spine(edited, other) {
        law_spine_classes(edited, other, left);
        assert(edited.passes[left].kind == plan.passes[right].kind);
    }
}

/// The transform that changes nothing.
pub open spec fn identity_transform() -> Transform {
    let one = Scalar { bits: ONE_BITS };
    let zero = Scalar { bits: 0 };
    Transform { a: one, b: zero, c: zero, d: one, e: zero, f: zero }
}

pub fn identity() -> (transform: Transform)
    ensures
        transform == identity_transform(),
{
    let one = Scalar { bits: ONE_BITS };
    let zero = Scalar { bits: 0 };
    Transform { a: one, b: zero, c: zero, d: one, e: zero, f: zero }
}

/// The composite payloads that the spine does not hold: none, a span captured too late, a layer
/// and a drop shadow.
pub open spec fn foreign_composites() -> Seq<RuntimePassKind> {
    seq![
        RuntimePassKind::Composite(None),
        RuntimePassKind::Composite(
            Some(
                RuntimeComposite {
                    kind: RuntimeCompositeKind::SpanSourceOver,
                    source_captured_before_outer_semantics: false,
                },
            ),
        ),
        RuntimePassKind::Composite(
            Some(
                RuntimeComposite {
                    kind: RuntimeCompositeKind::Layer(
                        RuntimeLayerComposite {
                            transform: identity_transform(),
                            opacity: Scalar { bits: ONE_BITS },
                            blend: BlendMode::Normal,
                            alpha_mask: None,
                            has_clip: false,
                            clip_coverage: None,
                        },
                    ),
                    source_captured_before_outer_semantics: true,
                },
            ),
        ),
        RuntimePassKind::Composite(
            Some(
                RuntimeComposite {
                    kind: RuntimeCompositeKind::DropShadow,
                    source_captured_before_outer_semantics: true,
                },
            ),
        ),
    ]
}

/// The kinds of pass that the spine does not hold.
pub open spec fn foreign_kinds() -> Seq<RuntimePassKind> {
    let zero = Scalar { bits: 0 };
    seq![
        RuntimePassKind::ClearRoot {
            initialization: RuntimeInitialization::Transparent,
            color: FilterColor { red: zero, green: zero, blue: zero, alpha: zero },
        },
        RuntimePassKind::VelloCapture(None),
        RuntimePassKind::CopyBackdrop,
        RuntimePassKind::ColorFilter(None),
        RuntimePassKind::BlurHorizontal(None),
        RuntimePassKind::BlurVertical(None),
        RuntimePassKind::DropShadowColorize(None),
        RuntimePassKind::Composite(None),
    ]
}

/// No class holds a foreign kind.
pub proof fn law_foreign_kinds_have_no_class(i: int)
    requires
        0 <= i < foreign_kinds().len(),
    ensures
        class_of(foreign_kinds()[i]) is None,
{
}

/// Whether none of the plans is a spine, each by its own derivations.
pub open spec fn none_is_spine(plans: Seq<PlanModel>, derived: Seq<Seq<PassDerivation>>) -> bool {
    forall|i: int| 0 <= i < plans.len() ==> !is_spine(#[trigger] plans[i], derived[i])
}

/// Whether these may be the derivations of the plans, one after another.
pub open spec fn are_derived<D: Fn(&LoweredGraphPlan) -> Vec<PassDerivation>>(
    derive: D,
    plans: Seq<PlanModel>,
    derived: Seq<Seq<PassDerivation>>,
) -> bool {
    &&& derived.len() == plans.len()
    &&& forall|i: int| 0 <= i < plans.len() ==> may_derive(derive, #[trigger] plans[i], derived[i])
}

/// Whether an observation that all plans are rejected is true to their derivations.
pub open spec fn rejected_as_derived<D: Fn(&LoweredGraphPlan) -> Vec<PassDerivation>>(
    derive: D,
    plans: Seq<PlanModel>,
    rejected: bool,
) -> bool {
    exists|derived: Seq<Seq<PassDerivation>>| #[trigger]
        are_derived(derive, plans, derived) && rejected == none_is_spine(plans, derived)
}

fn all_rejected<D: Fn(&LoweredGraphPlan) -> Vec<PassDerivation>>(
    plans: &Vec<LoweredGraphPlan>,
    derive: &D,
) -> (rejected: bool)
    requires
        derives_any(*derive),
    ensures
        rejected_as_derived(*derive, plan_models(plans@), rejected),
{
    let ghost models = plan_models(plans@);
    let ghost mut all_derived: Seq<Seq<PassDerivation>> = Seq::empty();
    let mut rejected = true;
    let length: usize = plans.len();
    let mut next: usize = 0;
    while next < length
        invariant
            next <= length,
            length == plans@.len(),
            models == plan_models(plans@),
            derives_any(*derive),
            all_derived.len() == next,
            forall|i: int|
                0 <= i < next ==> may_derive(*derive, #[trigger] models[i], all_derived[i]),
            rejected == (forall|i: int|
                0 <= i < next ==> !is_spine(#[trigger] models[i], all_derived[i])),
        decreases length - next,
    {
        let plan = &plans[next];
        assert(call_requires(*derive, (plan,)));
        let derived = derive(plan);
        let ghost before = all_derived;
        proof {
            assert(models[next as int] == plan@);
            assert(may_derive(*derive, models[next as int], derived@));
            all_derived = before.push(derived@);
            assert forall|i: int| 0 <= i < next implies all_derived[i] == #[trigger] before[i] by {}
        }
        let is_spine = plan.c08_execution_facts(&derived).is_some();
        proof {
            let ghost held = rejected;
            if held && !is_spine {
                assert forall|i: int| 0 <= i < next + 1 implies !crate::pass::c08::is_spine(
                    #[trigger] models[i],
                    all_derived[i],
                ) by {
                    if i < next {
                        assert(before[i] == all_derived[i]);
                    }
                }
            } else if !held {
                let i = choose|i: int|
                    0 <= i < next && crate::pass::c08::is_spine(#[trigger] models[i], before[i]);
                assert(all_derived[i] == before[i]);
            }
        }
        rejected = rejected && !is_spine;
        next = next + 1;
    }
    proof {
        assert(are_derived(*derive, models, all_derived));
    }
    rejected
}

/// The first pass of a class.
pub open spec fn first_of_class(plan: PlanModel, class: C08PassClass) -> Option<int> {
    first_where(plan.passes, |pass: PassModel| class_of(pass.kind) == Some(class))
}

fn position_of_class(plan: &LoweredGraphPlan, class: C08PassClass) -> (found: Option<usize>)
    ensures
        match found {
            Some(position) => first_of_class(plan@, class) == Some(position as int) && position
                < plan@.passes.len(),
            None => first_of_class(plan@, class) is None,
        },
{
    let ghost chosen = |pass: PassModel| class_of(pass.kind) == Some(class);
    proof {
        lemma_first_where(plan@.passes, chosen);
    }
    let length: usize = plan.passes.len();
    let mut next: usize = 0;
    while next < length
        invariant
            next <= length,
            length == plan.passes@.len(),
            chosen == (|pass: PassModel| class_of(pass.kind) == Some(class)),
            forall|i: int| 0 <= i < next ==> !chosen(#[trigger] plan@.passes[i]),
            match first_where(plan@.passes, chosen) {
                Some(position) => {
                    &&& 0 <= position < plan@.passes.len()
                    &&& chosen(plan@.passes[position])
                    &&& forall|i: int| 0 <= i < position ==> !chosen(#[trigger] plan@.passes[i])
                },
                None => forall|i: int|
                    0 <= i < plan@.passes.len() ==> !chosen(#[trigger] plan@.passes[i]),
            },
        decreases length - next,
    {
        if c08_pass_class(plan.passes[next].kind) == Some(class) {
            proof {
                assert(chosen(plan@.passes[next as int]));
            }
            return Some(next);
        }
        proof {
            assert(!chosen(plan@.passes[next as int]));
        }
        next = next + 1;
    }
    None
}

/// The plan with each foreign composite in place of its first composite.
pub open spec fn with_foreign_composites(plan: PlanModel, composite: int) -> Seq<PlanModel> {
    Seq::new(
        foreign_composites().len(),
        |i: int| with_kind(plan, composite, foreign_composites()[i]),
    )
}

/// Whether a plan has a composite and is no spine with any foreign composite in its place.
pub fn c08_rejects_every_other_pass_kind_and_composite_payload<
    D: Fn(&LoweredGraphPlan) -> Vec<PassDerivation>,
>(plan: &LoweredGraphPlan, derive: &D) -> (rejects: bool)
    requires
        derives_any(*derive),
    ensures
        match first_of_class(plan@, C08PassClass::SpanSourceOver) {
            Some(composite) => rejected_as_derived(
                *derive,
                with_foreign_composites(plan@, composite),
                rejects,
            ),
            None => !rejects,
        },
{
    let composite = match position_of_class(plan, C08PassClass::SpanSourceOver) {
        Some(composite) => composite,
        None => return false,
    };
    let late = RuntimeComposite {
        kind: RuntimeCompositeKind::SpanSourceOver,
        source_captured_before_outer_semantics: false,
    };
    let layer = RuntimeComposite {
        kind: RuntimeCompositeKind::Layer(
            RuntimeLayerComposite {
                transform: identity(),
                opacity: Scalar { bits: ONE_BITS },
                blend: BlendMode::Normal,
                alpha_mask: None,
                has_clip: false,
                clip_coverage: None,
            },
        ),
        source_captured_before_outer_semantics: true,
    };
    let shadow = RuntimeComposite {
        kind: RuntimeCompositeKind::DropShadow,
        source_captured_before_outer_semantics: true,
    };
    let mut plans: Vec<LoweredGraphPlan> = Vec::new();
    plans.push(plan.replacing_kind(composite, RuntimePassKind::Composite(None)));
    plans.push(plan.replacing_kind(composite, RuntimePassKind::Composite(Some(late))));
    plans.push(plan.replacing_kind(composite, RuntimePassKind::Composite(Some(layer))));
    plans.push(plan.replacing_kind(composite, RuntimePassKind::Composite(Some(shadow))));
    proof {
        assert(plan_models(plans@) =~= with_foreign_composites(plan@, composite as int));
    }
    all_rejected(&plans, derive)
}

pub(crate) proof fn lemma_first_composite(plan: PlanModel, derived: Seq<PassDerivation>)
    requires
        is_spine(plan, derived),
    ensures
        first_of_class(plan, C08PassClass::SpanSourceOver) == Some(3int),
{
    let chosen = |pass: PassModel| class_of(pass.kind) == Some(C08PassClass::SpanSourceOver);
    lemma_first_where(plan.passes, chosen);
    law_spine_classes(plan, derived, 0);
    law_spine_classes(plan, derived, 1);
    law_spine_classes(plan, derived, 2);
    law_spine_classes(plan, derived, 3);
    assert(chosen(plan.passes[3]));
    assert(!chosen(plan.passes[0]) && !chosen(plan.passes[1]) && !chosen(plan.passes[2]));
}

/// Every exact spine rejects every foreign composite.
pub proof fn law_spine_rejects_foreign_composites(
    plan: PlanModel,
    derived: Seq<PassDerivation>,
    others: Seq<Seq<PassDerivation>>,
)
    requires
        is_spine(plan, derived),
    ensures
        first_of_class(plan, C08PassClass::SpanSourceOver) matches Some(composite)
            && none_is_spine(with_foreign_composites(plan, composite), others),
{
    let chosen = |pass: PassModel| class_of(pass.kind) == Some(C08PassClass::SpanSourceOver);
    lemma_first_where(plan.passes, chosen);
    law_spine_classes(plan, derived, 3);
    assert(chosen(plan.passes[3]));
    let composite = first_of_class(plan, C08PassClass::SpanSourceOver)->0;
    let plans = with_foreign_composites(plan, composite);
    assert forall|i: int| 0 <= i < plans.len() implies !is_spine(
        #[trigger] plans[i],
        others[i],
    ) by {
        law_spine_rejects_other_kinds(
            plan,
            derived,
            composite,
            foreign_composites()[i],
            others[i],
        );
    }
}

/// The plan without its canonicalization, with the capture after it, with a second clear, without
/// its present, and with the present before the last composite.
pub open spec fn missing_or_reordered(plan: PlanModel, capture: int, present: int) -> Seq<
    PlanModel,
> {
    seq![
        PlanModel { passes: plan.passes.remove(capture + 1), ..plan },
        with_swapped_passes(plan, capture, capture + 1),
        PlanModel { passes: plan.passes.insert(capture, plan.passes[0]), ..plan },
        PlanModel { passes: plan.passes.remove(present), ..plan },
        with_swapped_passes(plan, present - 1, present),
    ]
}

/// Whether a plan has a capture and a present and is no spine with passes missing or reordered.
pub fn c08_rejects_missing_or_reordered_spine_passes<
    D: Fn(&LoweredGraphPlan) -> Vec<PassDerivation>,
>(plan: &LoweredGraphPlan, derive: &D) -> (rejects: bool)
    requires
        derives_any(*derive),
        first_of_class(plan@, C08PassClass::VelloCapture) matches Some(capture) ==> (
        first_of_class(plan@, C08PassClass::Present) matches Some(present) ==> capture + 1
            < plan@.passes.len() && present >= 1),
    ensures
        match (
            first_of_class(plan@, C08PassClass::VelloCapture),
            first_of_class(plan@, C08PassClass::Present),
        ) {
            (Some(capture), Some(present)) => rejected_as_derived(
                *derive,
                missing_or_reordered(plan@, capture, present),
                rejects,
            ),
            _ => !rejects,
        },
{
    let capture = match position_of_class(plan, C08PassClass::VelloCapture) {
        Some(capture) => capture,
        None => return false,
    };
    let present = match position_of_class(plan, C08PassClass::Present) {
        Some(present) => present,
        None => return false,
    };
    let length: usize = plan.passes.len();
    assert(capture + 1 < length);
    let mut plans: Vec<LoweredGraphPlan> = Vec::new();
    plans.push(plan.without_pass(capture + 1));
    plans.push(plan.exchanging_passes(capture, capture + 1));
    plans.push(plan.repeating_first_pass(capture));
    plans.push(plan.without_pass(present));
    plans.push(plan.exchanging_passes(present - 1, present));
    proof {
        assert(plan_models(plans@) =~= missing_or_reordered(
            plan@,
            capture as int,
            present as int,
        ));
    }
    all_rejected(&plans, derive)
}

proof fn lemma_first_of_class(plan: PlanModel, derived: Seq<PassDerivation>)
    requires
        is_spine(plan, derived),
    ensures
        first_of_class(plan, C08PassClass::VelloCapture) == Some(1int),
        first_of_class(plan, C08PassClass::Present) == Some(plan.passes.len() - 1),
{
    let captures = |pass: PassModel| class_of(pass.kind) == Some(C08PassClass::VelloCapture);
    let presents = |pass: PassModel| class_of(pass.kind) == Some(C08PassClass::Present);
    lemma_first_where(plan.passes, captures);
    lemma_first_where(plan.passes, presents);
    let last = plan.passes.len() - 1;
    law_spine_classes(plan, derived, 0);
    law_spine_classes(plan, derived, 1);
    law_spine_classes(plan, derived, last);
    assert(captures(plan.passes[1]) && !captures(plan.passes[0]));
    assert(presents(plan.passes[last]));
    let found = first_where(plan.passes, presents)->0;
    law_spine_classes(plan, derived, found);
}

/// Every exact spine rejects missing and reordered passes.
pub proof fn law_spine_rejects_missing_or_reordered(
    plan: PlanModel,
    derived: Seq<PassDerivation>,
    others: Seq<Seq<PassDerivation>>,
)
    requires
        is_spine(plan, derived),
    ensures
        first_of_class(plan, C08PassClass::VelloCapture) == Some(1int),
        first_of_class(plan, C08PassClass::Present) == Some(plan.passes.len() - 1),
        none_is_spine(missing_or_reordered(plan, 1, plan.passes.len() - 1), others),
{
    lemma_first_of_class(plan, derived);
    let last = plan.passes.len() - 1;
    law_spine_classes(plan, derived, 1);
    law_spine_classes(plan, derived, 2);
    law_spine_classes(plan, derived, last - 1);
    law_spine_classes(plan, derived, last);
    law_spine_rejects_missing_passes(plan, derived, 2, others[0]);
    law_spine_rejects_reordered_passes(plan, derived, 1, 2, others[1]);
    law_spine_rejects_added_passes(plan, derived, 1, plan.passes[0], others[2]);
    law_spine_rejects_missing_passes(plan, derived, last, others[3]);
    law_spine_rejects_reordered_passes(plan, derived, last - 1, last, others[4]);
}

/// The span of a capture with another scope or another order of capture.
pub open spec fn with_span(
    kind: RuntimePassKind,
    in_layer: bool,
    before_outer_semantics: bool,
) -> RuntimePassKind {
    match kind {
        RuntimePassKind::VelloCapture(
            Some(
                RuntimeVelloCapture::Span {
                    command_count,
                    scope,
                    captured_before_outer_semantics,
                    span_antialiasing,
                },
            ),
        ) => RuntimePassKind::VelloCapture(
            Some(
                RuntimeVelloCapture::Span {
                    command_count,
                    scope: if in_layer {
                        RuntimeVelloSpanScope::LayerSource
                    } else {
                        scope
                    },
                    captured_before_outer_semantics: if before_outer_semantics {
                        captured_before_outer_semantics
                    } else {
                        false
                    },
                    span_antialiasing,
                },
            ),
        ),
        _ => kind,
    }
}

fn edited_span(kind: RuntimePassKind, in_layer: bool, before_outer_semantics: bool) -> (edited:
    RuntimePassKind)
    ensures
        edited == with_span(kind, in_layer, before_outer_semantics),
{
    match kind {
        RuntimePassKind::VelloCapture(
            Some(
                RuntimeVelloCapture::Span {
                    command_count,
                    scope,
                    captured_before_outer_semantics,
                    span_antialiasing,
                },
            ),
        ) => RuntimePassKind::VelloCapture(
            Some(
                RuntimeVelloCapture::Span {
                    command_count,
                    scope: if in_layer {
                        RuntimeVelloSpanScope::LayerSource
                    } else {
                        scope
                    },
                    captured_before_outer_semantics: if before_outer_semantics {
                        captured_before_outer_semantics
                    } else {
                        false
                    },
                    span_antialiasing,
                },
            ),
        ),
        _ => kind,
    }
}

/// Minus one quarter, as a binary64 number.
pub const MINUS_QUARTER_BITS: u64 = 0xbfd0_0000_0000_0000;

/// One half, as a binary64 number.
pub const HALF_BITS: u64 = 0x3fe0_0000_0000_0000;

/// The plan with one binding of its first capture group, its present or the captured image
/// changed.
pub open spec fn malformed_bindings(plan: PlanModel, capture: int, image: int) -> Seq<PlanModel> {
    let canonicalize = capture + 1;
    let composite = capture + 2;
    let present = plan.passes.len() - 1;
    let canonical_pass = plan.passes[canonicalize];
    let source_read = canonical_pass.reads[0];
    let captured = plan.resources[image];
    seq![
        with_dependencies(plan, canonicalize, Seq::empty()),
        with_reads(
            plan,
            canonicalize,
            canonical_pass.reads.update(
                0,
                RuntimeReadBinding { role: RuntimeReadRole::FinalWorkingImage, ..source_read },
            ),
        ),
        with_reads(
            plan,
            canonicalize,
            canonical_pass.reads.update(
                0,
                RuntimeReadBinding { resource: plan.root_working_image, ..source_read },
            ),
        ),
        with_result(plan, canonicalize, RuntimeResultBinding::Empty),
        with_releases(plan, canonicalize, Seq::empty()),
        with_reads(plan, composite, swapped(plan.passes[composite].reads, 0, 1)),
        with_result(plan, composite, canonical_pass.result),
        with_pass(plan, composite, PassModel { cache_keys: None, ..plan.passes[composite] }),
        with_result(plan, present, RuntimeResultBinding::Output(Format::Bgra8)),
        with_releases(plan, present, Seq::empty()),
        with_resource(plan, image, RuntimeResourceRequest { expected_reads: 2, ..captured }),
        with_resource(
            plan,
            image,
            RuntimeResourceRequest {
                format: RuntimeResourceFormat::Working(plan.working_format),
                ..captured
            },
        ),
        with_resource(
            plan,
            image,
            RuntimeResourceRequest {
                spatial: crate::pass::model::RuntimeSpatialDescriptor {
                    texel_x: Scalar { bits: MINUS_QUARTER_BITS },
                    texel_y: Scalar { bits: HALF_BITS },
                    ..captured.spatial
                },
                ..captured
            },
        ),
        PlanModel { final_present: plan.passes[0].id, ..plan },
        with_payload(plan, capture, with_span(plan.passes[capture].kind, true, true)),
        with_payload(plan, capture, with_span(plan.passes[capture].kind, false, false)),
    ]
}

/// The first capture of a plan and the position of the image that it writes, if the capture and
/// the pass after it each write an image and the captured image is requested.
pub open spec fn binding_sources(plan: PlanModel) -> Option<(int, int)> {
    match first_of_class(plan, C08PassClass::VelloCapture) {
        Some(capture) => match plan.passes[capture].result {
            RuntimeResultBinding::Resource(target) => if plan.passes[capture
                + 1].result is Resource {
                match first_where(
                    plan.resources,
                    |resource: RuntimeResourceRequest| resource.id == target,
                ) {
                    Some(image) => Some((capture, image)),
                    None => None,
                }
            } else {
                None
            },
            _ => None,
        },
        None => None,
    }
}

/// Whether the group of the first capture is complete and has the reads that are edited.
pub open spec fn has_edited_bindings(plan: PlanModel, capture: int) -> bool {
    &&& capture + 2 < plan.passes.len()
    &&& plan.passes[capture + 1].reads.len() >= 1
    &&& plan.passes[capture + 2].reads.len() >= 2
}

/// Whether a plan has a bound capture and is no spine with any of its bindings changed.
#[verifier::rlimit(50)]
pub fn c08_rejects_malformed_bindings<D: Fn(&LoweredGraphPlan) -> Vec<PassDerivation>>(
    plan: &LoweredGraphPlan,
    derive: &D,
) -> (rejects: bool)
    requires
        derives_any(*derive),
        first_of_class(plan@, C08PassClass::VelloCapture) matches Some(capture) ==> (
        plan@.passes[capture].result is Resource ==> capture + 1 < plan@.passes.len()),
        binding_sources(plan@) matches Some((capture, _)) ==> has_edited_bindings(plan@, capture),
    ensures
        match binding_sources(plan@) {
            Some((capture, image)) => rejected_as_derived(
                *derive,
                malformed_bindings(plan@, capture, image),
                rejects,
            ),
            None => !rejects,
        },
{
    let capture = match position_of_class(plan, C08PassClass::VelloCapture) {
        Some(capture) => capture,
        None => return false,
    };
    let length: usize = plan.passes.len();
    assert(plan@.passes[capture as int] == plan.passes@[capture as int]@);
    let capture_target = match plan.passes[capture].result {
        RuntimeResultBinding::Resource(target) => target,
        _ => return false,
    };
    let canonicalize: usize = capture + 1;
    assert(plan@.passes[canonicalize as int] == plan.passes@[canonicalize as int]@);
    let canonical_result = plan.passes[canonicalize].result;
    match canonical_result {
        RuntimeResultBinding::Resource(_) => {},
        _ => return false,
    }
    let image = match crate::pass::search::find_resource_position(&plan.resources, capture_target) {
        Some(image) => image,
        None => return false,
    };
    assert(binding_sources(plan@) == Some((capture as int, image as int)));
    let composite: usize = capture + 2;
    let present: usize = length - 1;
    assert(plan@.passes[composite as int] == plan.passes@[composite as int]@);
    let source_read = plan.passes[canonicalize].reads[0];
    let captured = plan.resources[image];
    let mut plans: Vec<LoweredGraphPlan> = Vec::new();
    plans.push(plan.replacing_dependencies(canonicalize, Vec::new()));
    let mut final_read = source_read;
    final_read.role = RuntimeReadRole::FinalWorkingImage;
    plans.push(plan.replacing_read(canonicalize, 0, final_read));
    let mut root_read = source_read;
    root_read.resource = plan.root_working_image;
    plans.push(plan.replacing_read(canonicalize, 0, root_read));
    plans.push(plan.replacing_result(canonicalize, RuntimeResultBinding::Empty));
    plans.push(plan.replacing_releases(canonicalize, Vec::new()));
    plans.push(plan.exchanging_first_reads(composite));
    plans.push(plan.replacing_result(composite, canonical_result));
    let mut unkeyed = plan.passes[composite].duplicate();
    unkeyed.cache_keys = None;
    plans.push(plan.replacing_pass(composite, unkeyed));
    plans.push(plan.replacing_result(present, RuntimeResultBinding::Output(Format::Bgra8)));
    plans.push(plan.replacing_releases(present, Vec::new()));
    let mut read_twice = captured;
    read_twice.expected_reads = 2;
    plans.push(plan.replacing_resource(image, read_twice));
    let mut reformatted = captured;
    reformatted.format = RuntimeResourceFormat::Working(plan.working_format);
    plans.push(plan.replacing_resource(image, reformatted));
    let mut moved = captured;
    moved.spatial.texel_x = Scalar { bits: MINUS_QUARTER_BITS };
    moved.spatial.texel_y = Scalar { bits: HALF_BITS };
    plans.push(plan.replacing_resource(image, moved));
    let mut misplaced = plan.duplicate();
    misplaced.final_present = plan.passes[0].id;
    proof {
        assert(misplaced@ =~= (PlanModel { final_present: plan@.passes[0].id, ..plan@ }));
    }
    plans.push(misplaced);
    plans.push(plan.editing_payload(capture, edited_span(plan.passes[capture].kind, true, true)));
    plans.push(plan.editing_payload(capture, edited_span(plan.passes[capture].kind, false, false)));
    proof {
        assert(plans@.len() == 16);
        let expected = malformed_bindings(plan@, capture as int, image as int);
        assert(plan_models(plans@)[0] == expected[0]);
        assert(plan_models(plans@)[7] =~= expected[7]);
        assert(plan_models(plans@) =~= expected);
    }
    all_rejected(&plans, derive)
}

/// Whether the edits of the bindings change something: the plan's output is not the other format
/// already, and the captured image does not lie at the other origin already.
pub open spec fn bindings_can_be_malformed(plan: PlanModel, image: RuntimeResourceRequest) -> bool {
    &&& plan.output_format == Format::Rgba8
    &&& !(image.spatial.texel_x.spec_equals((Scalar { bits: MINUS_QUARTER_BITS }))
        && image.spatial.texel_y.spec_equals((Scalar { bits: HALF_BITS })))
}

/// Whether the pass at a position derives cache keys.
pub open spec fn derives_keys(derived: Seq<PassDerivation>, position: int) -> bool {
    position < derived.len() && derived[position].cache_keys matches Some(Some(_))
}

proof fn lemma_edited_passes_are_rejected(
    plan: PlanModel,
    derived: Seq<PassDerivation>,
    image: int,
    other: Seq<PassDerivation>,
    i: int,
)
    requires
        is_spine(plan, derived),
        target_of(plan, 1) == Some(plan.resources[image]),
        0 <= image < plan.resources.len(),
        bindings_can_be_malformed(plan, plan.resources[image]),
        0 <= i < 10 || 13 <= i < 16,
        i == 7 ==> derives_keys(other, 3),
    ensures
        !is_spine(malformed_bindings(plan, 1, image)[i], other),
{
    let edited = malformed_bindings(plan, 1, image)[i];
    let last = plan.passes.len() - 1;
    assert(group_is_exact(plan, derived, 0));
    assert(present_is_exact(plan));
    assert(root_is_exact(plan));
    if is_spine(edited, other) {
        assert(edited.passes.len() == plan.passes.len());
        assert(group_is_exact(edited, other, 0));
        assert(present_is_exact(edited));
        if i == 2 {
            law_spine_targets_are_distinct(plan, derived, 0, 1);
            lemma_first_resource(plan.resources, plan.root_working_image);
            assert(target_of(edited, 1) == target_of(plan, 1));
        } else if i == 6 {
            law_spine_targets_are_distinct(edited, other, 2, 3);
        } else if i == 7 {
            assert(edited.passes[3].cache_keys is None);
            assert(other[3].cache_keys == Some(edited.passes[3].cache_keys));
        } else if i == 13 {
            assert(plan.passes[0].id != plan.passes[last].id);
        }
        assert(false);
    }
}

proof fn lemma_edited_images_are_rejected(
    plan: PlanModel,
    derived: Seq<PassDerivation>,
    image: int,
    other: Seq<PassDerivation>,
    i: int,
)
    requires
        is_spine(plan, derived),
        target_of(plan, 1) == Some(plan.resources[image]),
        0 <= image < plan.resources.len(),
        bindings_can_be_malformed(plan, plan.resources[image]),
        10 <= i < 13,
    ensures
        !is_spine(malformed_bindings(plan, 1, image)[i], other),
{
    let edited = malformed_bindings(plan, 1, image)[i];
    assert(group_is_exact(plan, derived, 0));
    if is_spine(edited, other) {
        assert(edited.resources[image].id == plan.resources[image].id);
        lemma_resource_found(edited.resources, image);
        lemma_first_resource(plan.resources, plan.passes[1].result->Resource_0);
        assert(plan.passes[1].result == RuntimeResultBinding::Resource(plan.resources[image].id));
        assert(target_of(edited, 1) == Some(edited.resources[image]));
        assert(group_is_exact(edited, other, 0));
        if i == 12 {
            law_spine_targets_are_distinct(plan, derived, 1, 2);
            let canonical = target_of(plan, 2)->0;
            lemma_first_resource(plan.resources, canonical.id);
            lemma_first_resource(plan.resources, plan.passes[2].result->Resource_0);
            let j = choose|j: int|
                0 <= j < plan.resources.len() && #[trigger] plan.resources[j] == canonical;
            assert(j != image);
            assert(edited.resources[j] == canonical);
            lemma_resource_found(edited.resources, j);
            assert(target_of(edited, 2) == Some(canonical));
            let captured = plan.resources[image].spatial;
            let moved = edited.resources[image].spatial;
            assert(canonical.spatial.spec_same_as(captured));
            assert(canonical.spatial.spec_same_as(moved));
            assert(Scalar { bits: MINUS_QUARTER_BITS }.magnitude_bits() != 0);
            assert(Scalar { bits: HALF_BITS }.magnitude_bits() != 0);
            assert(canonical.spatial.texel_x.bits == MINUS_QUARTER_BITS);
            assert(canonical.spatial.texel_y.bits == HALF_BITS);
        }
        assert(false);
    }
}

/// Every exact spine rejects every change of its bindings that changes something. Where only the
/// keys of its composite are taken away, the composite still derives keys.
pub proof fn law_spine_rejects_malformed_bindings(
    plan: PlanModel,
    derived: Seq<PassDerivation>,
    others: Seq<Seq<PassDerivation>>,
)
    requires
        is_spine(plan, derived),
        target_of(plan, 1) matches Some(image) ==> bindings_can_be_malformed(plan, image),
        derives_keys(others[7], 3),
    ensures
        binding_sources(plan) matches Some((capture, image)) && {
            &&& has_edited_bindings(plan, capture)
            &&& none_is_spine(malformed_bindings(plan, capture, image), others)
        },
{
    lemma_first_of_class(plan, derived);
    assert(group_is_exact(plan, derived, 0));
    let target = plan.passes[1].result->Resource_0;
    lemma_first_where(plan.resources, |resource: RuntimeResourceRequest| resource.id == target);
    let image = first_where(
        plan.resources,
        |resource: RuntimeResourceRequest| resource.id == target,
    )->0;
    assert(target_of(plan, 1) == Some(plan.resources[image]));
    let plans = malformed_bindings(plan, 1, image);
    assert forall|i: int| 0 <= i < plans.len() implies !is_spine(
        #[trigger] plans[i],
        others[i],
    ) by {
        if 10 <= i < 13 {
            lemma_edited_images_are_rejected(plan, derived, image, others[i], i);
        } else {
            lemma_edited_passes_are_rejected(plan, derived, image, others[i], i);
        }
    }
}

/// What is tried on a spine breaks it: the pass after its capture is left out and is exchanged with it,
/// the first pass is repeated, and the present is left out and is exchanged with the pass before it; a
/// foreign composite stands where its composite stood and nowhere else.
pub proof fn law_spines_are_broken_where_they_are_tried(
    plan: PlanModel,
    capture: int,
    present: int,
    composite: int,
    other: int,
    i: int,
)
    requires
        0 <= capture,
        capture + 1 < plan.passes.len(),
        1 <= present < plan.passes.len(),
        0 <= composite < plan.passes.len(),
        0 <= other < plan.passes.len(),
        other != composite,
        0 <= i < with_foreign_composites(plan, composite).len(),
    ensures
        ({
            let tried = missing_or_reordered(plan, capture, present);
            &&& tried.len() == 5
            &&& tried[0].passes.len() == plan.passes.len() - 1
            &&& capture + 2 < plan.passes.len() ==> tried[0].passes[capture + 1]
                == plan.passes[capture + 2]
            &&& tried[1].passes[capture] == plan.passes[capture + 1]
            &&& tried[1].passes[capture + 1] == plan.passes[capture]
            &&& tried[2].passes.len() == plan.passes.len() + 1
            &&& tried[2].passes[capture] == plan.passes[0]
            &&& tried[3].passes.len() == plan.passes.len() - 1
            &&& tried[3].passes[present - 1] == plan.passes[present - 1]
            &&& tried[4].passes[present] == plan.passes[present - 1]
            &&& tried[4].passes[present - 1] == plan.passes[present]
        }),
        with_foreign_composites(plan, composite)[i].passes.len() == plan.passes.len(),
        with_foreign_composites(plan, composite)[i].passes[other] == plan.passes[other],
        with_foreign_composites(plan, composite)[i].resources == plan.resources,
{
}

} // verus!
