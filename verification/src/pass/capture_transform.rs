//! Captures of a bounded layer: where they lie, and what their execution keeps.

use vstd::prelude::*;

use crate::options::Antialiasing;
use crate::pass::c08::{
    are_facts_of, derives_any, is_spine, may_derive, C08ExecutionFacts, ExecutableVelloCaptureFacts,
    PassDerivation,
};
use crate::pass::model::{
    LoweredGraphPlan, PlanModel, RuntimePassId, RuntimePassKind, RuntimeResourceId,
    RuntimeSpatialDescriptor, RuntimeVelloCapture,
};
use crate::pass::search::{find_pass, find_resource, first_pass, first_resource};
use crate::scalar::Scalar;

verus! {

/// The bits of one, of five quarters and of two: the raster scales that bounded captures are
/// tried at.
pub const SCALE_ONE: u64 = 0x3ff0_0000_0000_0000;

pub const SCALE_FIVE_QUARTERS: u64 = 0x3ff4_0000_0000_0000;

pub const SCALE_TWO: u64 = 0x4000_0000_0000_0000;

/// A capture that starts left of and above its surface.
#[derive(Clone, Copy, Debug, PartialEq, Eq, Structural)]
pub struct BoundedCapture {
    pub pass: RuntimePassId,
    pub target: RuntimeResourceId,
    pub spatial: RuntimeSpatialDescriptor,
}

/// A descriptor moved to a negative origin, at a raster scale.
pub open spec fn moved_out(
    spatial: RuntimeSpatialDescriptor,
    texel_x: Scalar,
    texel_y: Scalar,
    raster_scale: Scalar,
) -> RuntimeSpatialDescriptor {
    RuntimeSpatialDescriptor {
        logical_bounds: spatial.logical_bounds,
        device_x: (-3int) as i32,
        device_y: (-2int) as i32,
        device_extent: spatial.device_extent,
        texel_x,
        texel_y,
        raster_scale,
    }
}

/// Whether a pass captures a span.
pub open spec fn captures_span(kind: RuntimePassKind) -> bool {
    kind matches RuntimePassKind::VelloCapture(Some(capture)) && capture is Span
}

/// The first capture of a spine, moved to a negative origin, if the plan knows its pass and its
/// target.
pub open spec fn bounded_capture_of(
    plan: PlanModel,
    captures: Seq<ExecutableVelloCaptureFacts>,
    texel_x: Scalar,
    texel_y: Scalar,
    raster_scale: Scalar,
) -> Option<BoundedCapture> {
    if captures.len() == 0 {
        None
    } else {
        let first = captures[0];
        match (first_pass(plan.passes, first.pass), first_resource(plan.resources, first.target)) {
            (Some(position), Some(resource)) => if captures_span(plan.passes[position].kind) {
                Some(
                    BoundedCapture {
                        pass: first.pass,
                        target: first.target,
                        spatial: moved_out(resource.spatial, texel_x, texel_y, raster_scale),
                    },
                )
            } else {
                None
            },
            _ => None,
        }
    }
}

pub fn bounded_capture(
    plan: &LoweredGraphPlan,
    captures: &Vec<ExecutableVelloCaptureFacts>,
    texel_x: Scalar,
    texel_y: Scalar,
    raster_scale: Scalar,
) -> (capture: Option<BoundedCapture>)
    ensures
        capture == bounded_capture_of(plan@, captures@, texel_x, texel_y, raster_scale),
{
    if captures.len() == 0 {
        return None;
    }
    let first = captures[0];
    let position: usize = match find_pass(&plan.passes, first.pass) {
        Some(position) => position,
        None => return None,
    };
    let resource = match find_resource(&plan.resources, first.target) {
        Some(resource) => resource,
        None => return None,
    };
    match plan.passes[position].kind {
        RuntimePassKind::VelloCapture(Some(RuntimeVelloCapture::Span { .. })) => Some(
            BoundedCapture {
                pass: first.pass,
                target: first.target,
                spatial: RuntimeSpatialDescriptor {
                    logical_bounds: resource.spatial.logical_bounds,
                    device_x: -3,
                    device_y: -2,
                    device_extent: resource.spatial.device_extent,
                    texel_x,
                    texel_y,
                    raster_scale,
                },
            },
        ),
        _ => None,
    }
}

/// What was measured of one executed capture.
#[derive(Clone, Copy, Debug, PartialEq, Eq, Structural)]
pub struct CaptureMeasures {
    /// Whether the initial transform is the capture's, then the parent's, then the move to the
    /// texel origin, then the raster scale.
    pub transform_is_close: bool,
    /// Whether the center of a texel lands on that center.
    pub center_is_close: bool,
    pub commands_are_kept: bool,
    /// Whether the encoded scene starts with the initial transform.
    pub scene_is_close: bool,
}

/// One capture at one raster scale: where it lies, how it is executed and what was measured.
#[derive(Clone, Copy, Debug, PartialEq, Eq, Structural)]
pub struct CaptureRound {
    pub capture: BoundedCapture,
    pub facts: ExecutableVelloCaptureFacts,
    pub measures: CaptureMeasures,
}

impl CaptureRound {
    /// Whether texel centers map onto themselves from the capture's own origin.
    pub open spec fn keeps_centers(self) -> bool {
        &&& self.measures.center_is_close
        &&& self.facts.texel_x.spec_equals(self.capture.spatial.texel_x)
        &&& self.facts.texel_y.spec_equals(self.capture.spatial.texel_y)
    }

    /// Whether the execution is of the capture, at its extent and scale.
    pub open spec fn keeps_facts(self, antialiasing: Antialiasing) -> bool {
        &&& self.facts.pass == self.capture.pass
        &&& self.facts.target == self.capture.target
        &&& self.measures.commands_are_kept
        &&& self.facts.antialiasing == antialiasing
        &&& self.facts.target_extent == self.capture.spatial.device_extent
        &&& self.facts.raster_scale.spec_equals(self.capture.spatial.raster_scale)
    }

    fn centers_are_kept(self) -> (kept: bool)
        ensures
            kept == self.keeps_centers(),
    {
        self.measures.center_is_close && self.facts.texel_x.equals(self.capture.spatial.texel_x)
            && self.facts.texel_y.equals(self.capture.spatial.texel_y)
    }

    fn facts_are_kept(self, antialiasing: Antialiasing) -> (kept: bool)
        ensures
            kept == self.keeps_facts(antialiasing),
    {
        self.facts.pass == self.capture.pass && self.facts.target == self.capture.target
            && self.measures.commands_are_kept && self.facts.antialiasing == antialiasing
            && self.facts.target_extent == self.capture.spatial.device_extent
            && self.facts.raster_scale.equals(self.capture.spatial.raster_scale)
    }
}

/// What is observed of a bounded capture at the required raster scales.
#[derive(Clone, Copy, Debug, PartialEq, Eq, Structural)]
pub struct BoundedCaptureTransformObservation {
    pub preserves_application_order_formula: bool,
    pub preserves_signed_texel_center_mapping: bool,
    pub covers_required_raster_scales: bool,
    pub preserves_capture_execution_facts: bool,
    pub lowers_scene_with_explicit_initial_transform: bool,
}

/// Whether the rounds are at the required raster scales, in order.
pub open spec fn covers_scales(rounds: Seq<CaptureRound>) -> bool {
    &&& rounds.len() == 3
    &&& rounds[0].capture.spatial.raster_scale == (Scalar { bits: SCALE_ONE })
    &&& rounds[1].capture.spatial.raster_scale == (Scalar { bits: SCALE_FIVE_QUARTERS })
    &&& rounds[2].capture.spatial.raster_scale == (Scalar { bits: SCALE_TWO })
}

/// What the rounds show together.
pub open spec fn observed_rounds(
    rounds: Seq<CaptureRound>,
    antialiasing: Antialiasing,
) -> BoundedCaptureTransformObservation {
    BoundedCaptureTransformObservation {
        preserves_application_order_formula: forall|i: int|
            0 <= i < rounds.len() ==> (#[trigger] rounds[i]).measures.transform_is_close,
        preserves_signed_texel_center_mapping: forall|i: int|
            0 <= i < rounds.len() ==> (#[trigger] rounds[i]).keeps_centers(),
        covers_required_raster_scales: covers_scales(rounds),
        preserves_capture_execution_facts: forall|i: int|
            0 <= i < rounds.len() ==> (#[trigger] rounds[i]).keeps_facts(antialiasing),
        lowers_scene_with_explicit_initial_transform: forall|i: int|
            0 <= i < rounds.len() ==> (#[trigger] rounds[i]).measures.scene_is_close,
    }
}

/// Whether this is the round that executing and measuring a capture gives, if it gives one.
pub open spec fn is_executed<
    X: Fn(BoundedCapture) -> Option<(ExecutableVelloCaptureFacts, CaptureMeasures)>,
>(execute: X, capture: BoundedCapture, round: Option<CaptureRound>) -> bool {
    exists|executed: Option<(ExecutableVelloCaptureFacts, CaptureMeasures)>| #[trigger]
        call_ensures(execute, (capture,), executed) && round == match executed {
            Some((facts, measures)) => Some(CaptureRound { capture, facts, measures }),
            None => None,
        }
}

/// Whether this is the round of the first capture of a spine, placed at a raster scale.
pub open spec fn is_placed<
    O: Fn(Scalar) -> (Scalar, Scalar),
    X: Fn(BoundedCapture) -> Option<(ExecutableVelloCaptureFacts, CaptureMeasures)>,
>(
    origin_at: O,
    execute: X,
    plan: PlanModel,
    captures: Seq<ExecutableVelloCaptureFacts>,
    raster_scale: Scalar,
    round: Option<CaptureRound>,
) -> bool {
    exists|origin: (Scalar, Scalar)|
        {
            &&& #[trigger] call_ensures(origin_at, (raster_scale,), origin)
            &&& match bounded_capture_of(plan, captures, origin.0, origin.1, raster_scale) {
                Some(capture) => is_executed(execute, capture, round),
                None => round is None,
            }
        }
}

/// Whether this is the round at a raster scale: of the spine that is lowered for it, if it is one.
pub open spec fn is_round<
    L: Fn(Scalar) -> Option<LoweredGraphPlan>,
    D: Fn(&LoweredGraphPlan) -> Vec<PassDerivation>,
    O: Fn(Scalar) -> (Scalar, Scalar),
    X: Fn(BoundedCapture) -> Option<(ExecutableVelloCaptureFacts, CaptureMeasures)>,
>(
    lower: L,
    derive: D,
    origin_at: O,
    execute: X,
    raster_scale: Scalar,
    round: Option<CaptureRound>,
) -> bool {
    exists|lowered: Option<LoweredGraphPlan>|
        {
            &&& #[trigger] call_ensures(lower, (raster_scale,), lowered)
            &&& match lowered {
                None => round is None,
                Some(plan) => exists|derived: Seq<PassDerivation>|
                    {
                        &&& #[trigger] may_derive(derive, plan@, derived)
                        &&& if is_spine(plan@, derived) {
                            exists|facts: C08ExecutionFacts| #[trigger]
                                are_facts_of(facts, plan@, derived) && is_placed(
                                    origin_at,
                                    execute,
                                    plan@,
                                    facts.captures@,
                                    raster_scale,
                                    round,
                                )
                        } else {
                            round is None
                        }
                    },
            }
        }
}

fn capture_round<
    L: Fn(Scalar) -> Option<LoweredGraphPlan>,
    D: Fn(&LoweredGraphPlan) -> Vec<PassDerivation>,
    O: Fn(Scalar) -> (Scalar, Scalar),
    X: Fn(BoundedCapture) -> Option<(ExecutableVelloCaptureFacts, CaptureMeasures)>,
>(lower: &L, derive: &D, origin_at: &O, execute: &X, raster_scale: Scalar) -> (round: Option<
    CaptureRound,
>)
    requires
        forall|raster_scale: Scalar| #[trigger] call_requires(*lower, (raster_scale,)),
        derives_any(*derive),
        forall|raster_scale: Scalar| #[trigger] call_requires(*origin_at, (raster_scale,)),
        forall|capture: BoundedCapture| #[trigger] call_requires(*execute, (capture,)),
    ensures
        is_round(*lower, *derive, *origin_at, *execute, raster_scale, round),
{
    let lowered = lower(raster_scale);
    assert(call_ensures(*lower, (raster_scale,), lowered));
    let plan = match &lowered {
        Some(plan) => plan,
        None => return None,
    };
    assert(call_requires(*derive, (plan,)));
    let derived = derive(plan);
    assert(may_derive(*derive, plan@, derived@));
    let facts = match plan.c08_execution_facts(&derived) {
        Some(facts) => facts,
        None => return None,
    };
    assert(are_facts_of(facts, plan@, derived@));
    let (texel_x, texel_y) = origin_at(raster_scale);
    assert(call_ensures(*origin_at, (raster_scale,), (texel_x, texel_y)));
    let capture = match bounded_capture(plan, &facts.captures, texel_x, texel_y, raster_scale) {
        Some(capture) => capture,
        None => {
            assert(is_placed(
                *origin_at,
                *execute,
                plan@,
                facts.captures@,
                raster_scale,
                None,
            ));
            return None;
        },
    };
    let executed = execute(capture);
    let round = match executed {
        Some((facts, measures)) => Some(CaptureRound { capture, facts, measures }),
        None => None,
    };
    assert(is_executed(*execute, capture, round));
    assert(is_placed(*origin_at, *execute, plan@, facts.captures@, raster_scale, round));
    round
}

/// What is observed of a bounded capture at every required raster scale: nothing at all if some
/// round could not be executed. `lower` lowers the spine at a raster scale, `derive` derives what its
/// passes are held against, `origin_at` gives the texel origin, and `execute` executes a capture and
/// measures it.
pub fn bounded_capture_transform_observation<
    L: Fn(Scalar) -> Option<LoweredGraphPlan>,
    D: Fn(&LoweredGraphPlan) -> Vec<PassDerivation>,
    O: Fn(Scalar) -> (Scalar, Scalar),
    X: Fn(BoundedCapture) -> Option<(ExecutableVelloCaptureFacts, CaptureMeasures)>,
>(lower: &L, derive: &D, origin_at: &O, execute: &X, antialiasing: Antialiasing) -> (observation:
    Option<BoundedCaptureTransformObservation>)
    requires
        forall|raster_scale: Scalar| #[trigger] call_requires(*lower, (raster_scale,)),
        derives_any(*derive),
        forall|raster_scale: Scalar| #[trigger] call_requires(*origin_at, (raster_scale,)),
        forall|capture: BoundedCapture| #[trigger] call_requires(*execute, (capture,)),
    ensures
        exists|
            first: Option<CaptureRound>,
            second: Option<CaptureRound>,
            third: Option<CaptureRound>,
        |
            {
                &&& #[trigger] is_round(
                    *lower,
                    *derive,
                    *origin_at,
                    *execute,
                    (Scalar { bits: SCALE_ONE }),
                    first,
                )
                &&& #[trigger] is_round(
                    *lower,
                    *derive,
                    *origin_at,
                    *execute,
                    (Scalar { bits: SCALE_FIVE_QUARTERS }),
                    second,
                )
                &&& #[trigger] is_round(
                    *lower,
                    *derive,
                    *origin_at,
                    *execute,
                    (Scalar { bits: SCALE_TWO }),
                    third,
                )
                &&& observation == match (first, second, third) {
                    (Some(first), Some(second), Some(third)) => Some(
                        observed_rounds(seq![first, second, third], antialiasing),
                    ),
                    _ => None,
                }
            },
        observation matches Some(observed) ==> observed.covers_required_raster_scales,
{
    let one = Scalar { bits: SCALE_ONE };
    let five_quarters = Scalar { bits: SCALE_FIVE_QUARTERS };
    let two = Scalar { bits: SCALE_TWO };
    let first = capture_round(lower, derive, origin_at, execute, one);
    let second = capture_round(lower, derive, origin_at, execute, five_quarters);
    let third = capture_round(lower, derive, origin_at, execute, two);
    let rounds = vec![first, second, third];
    let observation = observe_rounds(&rounds, antialiasing);
    proof {
        let known = rounds@.map_values(|round: Option<CaptureRound>| round->0);
        match (first, second, third) {
            (Some(a), Some(b), Some(c)) => {
                assert(rounds@[0] is Some && rounds@[1] is Some && rounds@[2] is Some);
                assert(known =~= seq![a, b, c]);
            },
            _ => {
                assert(rounds@[0] is None || rounds@[1] is None || rounds@[2] is None);
            },
        }
    }
    observation
}

/// What some rounds show together: nothing at all if one could not be executed.
pub fn observe_rounds(rounds: &Vec<Option<CaptureRound>>, antialiasing: Antialiasing) -> (
observation: Option<BoundedCaptureTransformObservation>)
    ensures
        observation == (if exists|i: int| 0 <= i < rounds@.len() && #[trigger] rounds@[i] is None {
            None
        } else {
            Some(
                observed_rounds(
                    rounds@.map_values(|round: Option<CaptureRound>| round->0),
                    antialiasing,
                ),
            )
        }),
{
    let ghost known = rounds@.map_values(|round: Option<CaptureRound>| round->0);
    let mut formula = true;
    let mut centers = true;
    let mut facts = true;
    let mut scenes = true;
    let mut scales: Vec<Scalar> = Vec::new();
    let count: usize = rounds.len();
    let mut next: usize = 0;
    while next < count
        invariant
            next <= count,
            count == rounds@.len(),
            known == rounds@.map_values(|round: Option<CaptureRound>| round->0),
            forall|i: int| 0 <= i < next ==> #[trigger] rounds@[i] is Some,
            formula == (forall|i: int|
                0 <= i < next ==> (#[trigger] known[i]).measures.transform_is_close),
            centers == (forall|i: int| 0 <= i < next ==> (#[trigger] known[i]).keeps_centers()),
            facts == (forall|i: int|
                0 <= i < next ==> (#[trigger] known[i]).keeps_facts(antialiasing)),
            scenes == (forall|i: int|
                0 <= i < next ==> (#[trigger] known[i]).measures.scene_is_close),
            scales@.len() == next,
            forall|i: int|
                0 <= i < next ==> #[trigger] scales@[i] == known[i].capture.spatial.raster_scale,
        decreases count - next,
    {
        let round = match rounds[next] {
            Some(round) => round,
            None => return None,
        };
        assert(known[next as int] == round);
        formula = formula && round.measures.transform_is_close;
        centers = round.centers_are_kept() && centers;
        facts = round.facts_are_kept(antialiasing) && facts;
        scenes = scenes && round.measures.scene_is_close;
        scales.push(round.capture.spatial.raster_scale);
        next = next + 1;
    }
    let covered = scales.len() == 3 && scales[0].bits == SCALE_ONE && scales[1].bits
        == SCALE_FIVE_QUARTERS && scales[2].bits == SCALE_TWO;
    Some(
        BoundedCaptureTransformObservation {
            preserves_application_order_formula: formula,
            preserves_signed_texel_center_mapping: centers,
            covers_required_raster_scales: covered,
            preserves_capture_execution_facts: facts,
            lowers_scene_with_explicit_initial_transform: scenes,
        },
    )
}

/// A bounded capture is the first one: of its pass and its target, with the bounds and the extent of the
/// target, three device pixels left of the surface and two above, at the given texel origin and scale.
pub proof fn law_bounded_captures_start_outside(
    plan: &LoweredGraphPlan,
    captures: &Vec<ExecutableVelloCaptureFacts>,
    texel_x: Scalar,
    texel_y: Scalar,
    raster_scale: Scalar,
    capture: Option<BoundedCapture>,
)
    requires
        call_ensures(bounded_capture, (plan, captures, texel_x, texel_y, raster_scale), capture),
    ensures
        captures@.len() == 0 ==> capture is None,
        capture matches Some(placed) ==> {
            &&& placed.pass == captures@[0].pass
            &&& placed.target == captures@[0].target
            &&& placed.spatial.device_x == -3
            &&& placed.spatial.device_y == -2
            &&& placed.spatial.texel_x == texel_x
            &&& placed.spatial.texel_y == texel_y
            &&& placed.spatial.raster_scale == raster_scale
            &&& first_resource(plan@.resources, captures@[0].target) matches Some(target)
                && placed.spatial.logical_bounds == target.spatial.logical_bounds
                && placed.spatial.device_extent == target.spatial.device_extent
            &&& first_pass(plan@.passes, captures@[0].pass) matches Some(position)
                && plan@.passes[position].kind matches RuntimePassKind::VelloCapture(Some(span))
                && span is Span
        },
        captures@.len() > 0 && first_resource(plan@.resources, captures@[0].target) is Some && (
        first_pass(plan@.passes, captures@[0].pass) matches Some(position)
            && plan@.passes[position].kind matches RuntimePassKind::VelloCapture(Some(span))
            && span is Span) ==> capture is Some,
{
}

/// Rounds show together what each of them shows, and nothing if one is missing; they cover the scales
/// exactly if they are at one, five quarters and two.
pub proof fn law_rounds_show_what_each_shows(
    rounds: &Vec<Option<CaptureRound>>,
    antialiasing: Antialiasing,
    observation: Option<BoundedCaptureTransformObservation>,
    i: int,
)
    requires
        call_ensures(observe_rounds, (rounds, antialiasing), observation),
        0 <= i < rounds@.len(),
    ensures
        observation is Some ==> rounds@[i] is Some,
        rounds@.len() == 1 && rounds@[0] is Some ==> observation is Some,
        observation matches Some(observed) ==> {
            let round = rounds@[i]->0;
            let keeps_centers = {
                &&& round.measures.center_is_close
                &&& round.facts.texel_x.spec_equals(round.capture.spatial.texel_x)
                &&& round.facts.texel_y.spec_equals(round.capture.spatial.texel_y)
            };
            let keeps_facts = {
                &&& round.facts.pass == round.capture.pass
                &&& round.facts.target == round.capture.target
                &&& round.measures.commands_are_kept
                &&& round.facts.antialiasing == antialiasing
                &&& round.facts.target_extent.width == round.capture.spatial.device_extent.width
                &&& round.facts.target_extent.height == round.capture.spatial.device_extent.height
                &&& round.facts.raster_scale.spec_equals(round.capture.spatial.raster_scale)
            };
            &&& observed.preserves_application_order_formula ==> round.measures.transform_is_close
            &&& observed.preserves_signed_texel_center_mapping ==> keeps_centers
            &&& observed.preserves_capture_execution_facts ==> keeps_facts
            &&& observed.lowers_scene_with_explicit_initial_transform
                ==> round.measures.scene_is_close
            &&& rounds@.len() == 1 ==> {
                &&& observed.preserves_application_order_formula
                    == round.measures.transform_is_close
                &&& observed.preserves_signed_texel_center_mapping == keeps_centers
                &&& observed.preserves_capture_execution_facts == keeps_facts
                &&& observed.lowers_scene_with_explicit_initial_transform
                    == round.measures.scene_is_close
            }
        },
        observation matches Some(observed) ==> (observed.covers_required_raster_scales <==> {
            &&& rounds@.len() == 3
            &&& rounds@[0]->0.capture.spatial.raster_scale.bits == 0x3ff0_0000_0000_0000
            &&& rounds@[1]->0.capture.spatial.raster_scale.bits == 0x3ff4_0000_0000_0000
            &&& rounds@[2]->0.capture.spatial.raster_scale.bits == 0x4000_0000_0000_0000
        }),
{
    let known = rounds@.map_values(|round: Option<CaptureRound>| round->0);
    assert(known[i] == rounds@[i]->0);
    if observation is Some {
        let observed = observation->0;
        assert(observed == observed_rounds(known, antialiasing));
        assert(rounds@.len() == 1 ==> i == 0);
        assert(rounds@[i] is Some);
    }
}

/// A bounded capture is observed only if it was lowered, placed and executed at a scale of one, of five
/// quarters and of two.
pub proof fn law_captures_are_observed_at_every_scale<
    L: Fn(Scalar) -> Option<LoweredGraphPlan>,
    D: Fn(&LoweredGraphPlan) -> Vec<PassDerivation>,
    O: Fn(Scalar) -> (Scalar, Scalar),
    X: Fn(BoundedCapture) -> Option<(ExecutableVelloCaptureFacts, CaptureMeasures)>,
>(
    lower: &L,
    derive: &D,
    origin_at: &O,
    execute: &X,
    antialiasing: Antialiasing,
    observed: BoundedCaptureTransformObservation,
)
    requires
        call_ensures(
            bounded_capture_transform_observation::<L, D, O, X>,
            (lower, derive, origin_at, execute, antialiasing),
            Some(observed),
        ),
    ensures
        observed.covers_required_raster_scales,
        exists|plan: LoweredGraphPlan| #[trigger]
            call_ensures(*lower, (Scalar { bits: 0x3ff0_0000_0000_0000 },), Some(plan)),
        exists|plan: LoweredGraphPlan| #[trigger]
            call_ensures(*lower, (Scalar { bits: 0x3ff4_0000_0000_0000 },), Some(plan)),
        exists|plan: LoweredGraphPlan| #[trigger]
            call_ensures(*lower, (Scalar { bits: 0x4000_0000_0000_0000 },), Some(plan)),
{
}

} // verus!
