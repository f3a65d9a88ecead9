//! Compilation of color-filter chains into ordered executable steps.

use vstd::prelude::*;

use crate::error::{Error, InvalidValue};
use crate::scalar::{Scalar, ONE_BITS};

verus! {

/// One authored color filter.
#[derive(Clone, Copy, Debug, PartialEq, Eq, Structural)]
pub enum ColorFilterOp {
    Brightness(Scalar),
    Contrast(Scalar),
    Grayscale(Scalar),
    HueRotate(Scalar),
    Invert(Scalar),
    Opacity(Scalar),
    Saturate(Scalar),
    Sepia(Scalar),
}

impl ColorFilterOp {
    /// Whether the filter is opacity zero, which clears every pixel.
    pub open spec fn clears(self) -> bool {
        self matches ColorFilterOp::Opacity(amount) && amount.spec_is_zero()
    }

    /// Whether the filter changes no pixel.
    pub open spec fn is_neutral(self) -> bool {
        match self {
            ColorFilterOp::Brightness(amount)
            | ColorFilterOp::Contrast(amount)
            | ColorFilterOp::Saturate(amount)
            | ColorFilterOp::Opacity(amount) => amount.bits == ONE_BITS,
            ColorFilterOp::Grayscale(amount)
            | ColorFilterOp::Invert(amount)
            | ColorFilterOp::Sepia(amount) => amount.spec_is_zero(),
            ColorFilterOp::HueRotate(angle) => angle.spec_is_zero(),
        }
    }
}

pub fn is_zero_opacity(op: &ColorFilterOp) -> (zero: bool)
    ensures
        zero == op.clears(),
{
    match op {
        ColorFilterOp::Opacity(amount) => amount.is_zero(),
        _ => false,
    }
}

pub fn is_identity_op(op: ColorFilterOp) -> (identity: bool)
    ensures
        identity == op.is_neutral(),
{
    match op {
        ColorFilterOp::Brightness(amount)
        | ColorFilterOp::Contrast(amount)
        | ColorFilterOp::Saturate(amount)
        | ColorFilterOp::Opacity(amount) => amount.is_one(),
        ColorFilterOp::Grayscale(amount)
        | ColorFilterOp::Invert(amount)
        | ColorFilterOp::Sepia(amount) => amount.is_zero(),
        ColorFilterOp::HueRotate(angle) => angle.is_zero(),
    }
}

/// The affine transform of straight color channels that one filter stands for. Opacity has none:
/// it changes alpha.
#[derive(Clone, Copy, Debug, PartialEq, Eq, Structural)]
pub struct StraightColorTransform {
    pub op: ColorFilterOp,
}

impl StraightColorTransform {
    pub fn from_op(op: ColorFilterOp) -> (transform: Option<Self>)
        ensures
            transform == (if op is Opacity {
                None
            } else {
                Some(StraightColorTransform { op })
            }),
    {
        match op {
            ColorFilterOp::Opacity(_) => None,
            _ => Some(Self { op }),
        }
    }
}

/// One ordered step of a compiled pipeline. A run keeps its transforms apart because each one
/// rounds on its own.
#[derive(Debug)]
pub enum CompiledColorFilterStep {
    Identity,
    TransparentBlack,
    StraightColorRun(Vec<StraightColorTransform>),
    Opacity(Scalar),
}

/// A compiled step by the filters that it stands for.
pub enum ColorStep {
    Identity,
    TransparentBlack,
    Run(Seq<ColorFilterOp>),
    Opacity(Scalar),
}

/// The filters of a run of transforms.
pub open spec fn run_ops(run: Seq<StraightColorTransform>) -> Seq<ColorFilterOp> {
    run.map_values(|transform: StraightColorTransform| transform.op)
}

impl View for CompiledColorFilterStep {
    type V = ColorStep;

    open spec fn view(&self) -> ColorStep {
        match self {
            CompiledColorFilterStep::Identity => ColorStep::Identity,
            CompiledColorFilterStep::TransparentBlack => ColorStep::TransparentBlack,
            CompiledColorFilterStep::StraightColorRun(run) => ColorStep::Run(run_ops(run@)),
            CompiledColorFilterStep::Opacity(amount) => ColorStep::Opacity(*amount),
        }
    }
}

pub open spec fn step_views(steps: Seq<CompiledColorFilterStep>) -> Seq<ColorStep> {
    steps.map_values(|step: CompiledColorFilterStep| step@)
}

/// The filters that do something, in order.
pub open spec fn effective(ops: Seq<ColorFilterOp>) -> Seq<ColorFilterOp>
    decreases ops.len(),
{
    if ops.len() == 0 {
        Seq::empty()
    } else if ops.last().is_neutral() {
        effective(ops.drop_last())
    } else {
        effective(ops.drop_last()).push(ops.last())
    }
}

/// Filters as steps: opacity stands alone, and filters without opacity between them share a run.
pub open spec fn grouped(ops: Seq<ColorFilterOp>) -> Seq<ColorStep>
    decreases ops.len(),
{
    if ops.len() == 0 {
        Seq::empty()
    } else {
        with_op(grouped(ops.drop_last()), ops.last())
    }
}

/// Steps with one more filter at the end.
pub open spec fn with_op(steps: Seq<ColorStep>, op: ColorFilterOp) -> Seq<ColorStep> {
    match op {
        ColorFilterOp::Opacity(amount) => steps.push(ColorStep::Opacity(amount)),
        _ => if steps.len() > 0 && steps.last() is Run {
            steps.drop_last().push(ColorStep::Run(steps.last()->Run_0.push(op)))
        } else {
            steps.push(ColorStep::Run(seq![op]))
        },
    }
}

/// The steps that a chain of color filters compiles to.
pub open spec fn compiled(ops: Seq<ColorFilterOp>) -> Seq<ColorStep> {
    if exists|i: int| 0 <= i < ops.len() && (#[trigger] ops[i]).clears() {
        seq![ColorStep::TransparentBlack]
    } else if effective(ops).len() == 0 {
        seq![ColorStep::Identity]
    } else {
        grouped(effective(ops))
    }
}

/// The steps that flushing a run appends.
pub open spec fn flushed(run: Seq<ColorFilterOp>) -> Seq<ColorStep> {
    if run.len() == 0 {
        Seq::empty()
    } else {
        seq![ColorStep::Run(run)]
    }
}

fn flush_color_run(
    steps: &mut Vec<CompiledColorFilterStep>,
    color_run: &mut Vec<StraightColorTransform>,
)
    ensures
        final(color_run)@.len() == 0,
        step_views(final(steps)@) == step_views(old(steps)@) + flushed(run_ops(old(color_run)@)),
{
    if color_run.len() != 0 {
        let mut run: Vec<StraightColorTransform> = Vec::new();
        std::mem::swap(&mut run, color_run);
        steps.push(CompiledColorFilterStep::StraightColorRun(run));
    }
    assert(step_views(steps@) =~= step_views(old(steps)@) + flushed(run_ops(old(color_run)@)));
}

/// Compiles a chain of color filters.
pub fn compile_steps(source_ops: &[ColorFilterOp]) -> (steps: Vec<CompiledColorFilterStep>)
    ensures
        step_views(steps@) == compiled(source_ops@),
{
    if contains_zero_opacity(source_ops) {
        let mut steps: Vec<CompiledColorFilterStep> = Vec::new();
        steps.push(CompiledColorFilterStep::TransparentBlack);
        assert(step_views(steps@) =~= seq![ColorStep::TransparentBlack]);
        return steps;
    }
    let mut steps: Vec<CompiledColorFilterStep> = Vec::new();
    let mut color_run: Vec<StraightColorTransform> = Vec::new();
    let mut i: usize = 0;
    assert(source_ops@.take(0) =~= Seq::empty());
    assert(step_views(steps@) + flushed(run_ops(color_run@)) =~= Seq::empty());
    while i < source_ops.len()
        invariant
            i <= source_ops@.len(),
            grouped(effective(source_ops@.take(i as int))) == step_views(steps@) + flushed(
                run_ops(color_run@),
            ),
            steps@.len() > 0 ==> step_views(steps@).last() is Opacity,
        decreases source_ops@.len() - i,
    {
        let op = source_ops[i];
        let ghost before = source_ops@.take(i as int);
        let ghost run_before = run_ops(color_run@);
        let ghost steps_before = step_views(steps@);
        proof {
            let after = source_ops@.take(i as int + 1);
            assert(after.drop_last() =~= before);
            assert(effective(before).push(op).drop_last() =~= effective(before));
        }
        if !is_identity_op(op) {
            match StraightColorTransform::from_op(op) {
                Some(transform) => {
                    color_run.push(transform);
                    proof {
                        assert(run_ops(color_run@) =~= run_before.push(op));
                        if run_before.len() == 0 {
                            assert(run_before.push(op) =~= seq![op]);
                            assert(steps_before + flushed(run_before) =~= steps_before);
                        } else {
                            assert((steps_before + flushed(run_before)).drop_last()
                                =~= steps_before);
                        }
                        assert(with_op(steps_before + flushed(run_before), op) =~= steps_before
                            + flushed(run_before.push(op)));
                    }
                },
                None => {
                    flush_color_run(&mut steps, &mut color_run);
                    if let ColorFilterOp::Opacity(amount) = op {
                        steps.push(CompiledColorFilterStep::Opacity(amount));
                    }
                    proof {
                        assert(step_views(steps@) =~= with_op(
                            steps_before + flushed(run_before),
                            op,
                        ));
                        assert(step_views(steps@) + flushed(run_ops(color_run@)) =~= step_views(
                            steps@,
                        ));
                    }
                },
            }
        }
        i = i + 1;
    }
    assert(source_ops@.take(i as int) =~= source_ops@);
    flush_color_run(&mut steps, &mut color_run);
    proof {
        lemma_grouped_len(effective(source_ops@));
    }
    if steps.len() == 0 {
        steps.push(CompiledColorFilterStep::Identity);
        assert(step_views(steps@) =~= seq![ColorStep::Identity]);
    }
    steps
}

fn contains_zero_opacity(ops: &[ColorFilterOp]) -> (found: bool)
    ensures
        found == exists|i: int| 0 <= i < ops@.len() && (#[trigger] ops@[i]).clears(),
{
    let mut i: usize = 0;
    while i < ops.len()
        invariant
            i <= ops@.len(),
            forall|j: int| 0 <= j < i ==> !(#[trigger] ops@[j]).clears(),
        decreases ops@.len() - i,
    {
        if is_zero_opacity(&ops[i]) {
            return true;
        }
        i = i + 1;
    }
    false
}

proof fn lemma_grouped_len(ops: Seq<ColorFilterOp>)
    ensures
        (grouped(ops).len() == 0) == (ops.len() == 0),
    decreases ops.len(),
{
    if ops.len() > 0 {
        lemma_grouped_len(ops.drop_last());
    }
}

/// A chain of color filters compiled for execution, with the chain that it came from.
#[derive(Debug)]
pub struct CompiledColorFilterPipeline {
    source_ops: Vec<ColorFilterOp>,
    steps: Vec<CompiledColorFilterStep>,
}

/// An authored chain of color filters.
#[derive(Debug)]
pub struct ColorFilterPipeline {
    pub ops: Vec<ColorFilterOp>,
}

impl CompiledColorFilterPipeline {
    /// The chain that was compiled.
    pub closed spec fn spec_source_ops(&self) -> Seq<ColorFilterOp> {
        self.source_ops@
    }

    #[verifier::type_invariant]
    spec fn type_inv(&self) -> bool {
        &&& self.source_ops@.len() > 0
        &&& step_views(self.steps@) == compiled(self.source_ops@)
    }

    /// Compiles an authored chain, which must not be empty.
    pub fn try_from_pipeline(pipeline: &ColorFilterPipeline) -> (result: Result<Self, Error>)
        ensures
            match result {
                Ok(pipeline_compiled) => pipeline.ops@.len() > 0
                    && pipeline_compiled.spec_source_ops() == pipeline.ops@,
                Err(error) => pipeline.ops@.len() == 0 && error == Error::Invalid(
                    InvalidValue::EmptyColorFilterPipeline,
                ),
            },
    {
        let mut ops: Vec<ColorFilterOp> = Vec::with_capacity(pipeline.ops.len());
        let mut i: usize = 0;
        while i < pipeline.ops.len()
            invariant
                i <= pipeline.ops@.len(),
                ops@ == pipeline.ops@.take(i as int),
            decreases pipeline.ops@.len() - i,
        {
            ops.push(pipeline.ops[i]);
            i = i + 1;
            assert(pipeline.ops@.take(i as int) =~= pipeline.ops@.take(i as int - 1).push(
                pipeline.ops@[i as int - 1],
            ));
        }
        assert(pipeline.ops@.take(i as int) =~= pipeline.ops@);
        Self::try_from_ops(ops)
    }

    /// Compiles a chain, which must not be empty.
    pub fn try_from_ops(source_ops: Vec<ColorFilterOp>) -> (result: Result<Self, Error>)
        ensures
            match result {
                Ok(pipeline) => source_ops@.len() > 0 && pipeline.spec_source_ops() == source_ops@,
                Err(error) => source_ops@.len() == 0 && error == Error::Invalid(
                    InvalidValue::EmptyColorFilterPipeline,
                ),
            },
    {
        if source_ops.len() == 0 {
            return Err(Error::Invalid(InvalidValue::EmptyColorFilterPipeline));
        }
        let steps = compile_steps(source_ops.as_slice());
        Ok(Self { source_ops, steps })
    }

    /// The chain that was compiled, in its authored order.
    pub fn source_ops(&self) -> (ops: &[ColorFilterOp])
        ensures
            ops@ == self.spec_source_ops(),
            ops@.len() > 0,
    {
        proof {
            use_type_invariant(self);
        }
        self.source_ops.as_slice()
    }

    pub fn executable_steps(&self) -> (steps: &[CompiledColorFilterStep])
        ensures
            step_views(steps@) == compiled(self.spec_source_ops()),
    {
        proof {
            use_type_invariant(self);
        }
        self.steps.as_slice()
    }

    pub fn executable_step_count(&self) -> (count: usize)
        ensures
            count == compiled(self.spec_source_ops()).len(),
    {
        proof {
            use_type_invariant(self);
            assert(step_views(self.steps@).len() == self.steps@.len());
        }
        self.steps.len()
    }
}

/// The filters of a step.
pub open spec fn step_ops(step: ColorStep) -> Seq<ColorFilterOp> {
    match step {
        ColorStep::Run(run) => run,
        ColorStep::Opacity(amount) => seq![ColorFilterOp::Opacity(amount)],
        _ => Seq::empty(),
    }
}

/// The filters of steps, in order.
pub open spec fn flattened(steps: Seq<ColorStep>) -> Seq<ColorFilterOp>
    decreases steps.len(),
{
    if steps.len() == 0 {
        Seq::empty()
    } else {
        flattened(steps.drop_last()) + step_ops(steps.last())
    }
}

/// Grouping keeps every filter, in order; no run is empty, no two runs are adjacent, and no run
/// holds an opacity.
pub proof fn law_grouping_keeps_order(ops: Seq<ColorFilterOp>)
    ensures
        flattened(grouped(ops)) == ops,
        forall|i: int|
            0 <= i < grouped(ops).len() ==> match #[trigger] grouped(ops)[i] {
                ColorStep::Run(run) => run.len() > 0 && forall|j: int|
                    0 <= j < run.len() ==> !(#[trigger] run[j] is Opacity),
                ColorStep::Opacity(_) => true,
                _ => false,
            },
        forall|i: int|
            0 <= i < grouped(ops).len() - 1 && (#[trigger] grouped(ops)[i]) is Run ==> grouped(
                ops,
            )[i + 1] is Opacity,
    decreases ops.len(),
{
    if ops.len() > 0 {
        let before = grouped(ops.drop_last());
        let op = ops.last();
        let after = grouped(ops);
        law_grouping_keeps_order(ops.drop_last());
        assert(ops =~= ops.drop_last().push(op));
        if !(op is Opacity) && before.len() > 0 && before.last() is Run {
            assert(after.drop_last() =~= before.drop_last());
            assert(flattened(after) =~= flattened(before).push(op));
        } else {
            assert(after.drop_last() =~= before);
            assert(flattened(after) =~= flattened(before).push(op));
        }
    }
}

/// The result of applying filters one after the other.
pub open spec fn applied<P>(
    apply: spec_fn(ColorFilterOp, P) -> P,
    ops: Seq<ColorFilterOp>,
    pixel: P,
) -> P
    decreases ops.len(),
{
    if ops.len() == 0 {
        pixel
    } else {
        apply(ops.last(), applied(apply, ops.drop_last(), pixel))
    }
}

/// The result of one compiled step.
pub open spec fn step_applied<P>(
    apply: spec_fn(ColorFilterOp, P) -> P,
    black: P,
    step: ColorStep,
    pixel: P,
) -> P {
    match step {
        ColorStep::Identity => pixel,
        ColorStep::TransparentBlack => black,
        _ => applied(apply, step_ops(step), pixel),
    }
}

/// The result of compiled steps.
pub open spec fn steps_applied<P>(
    apply: spec_fn(ColorFilterOp, P) -> P,
    black: P,
    steps: Seq<ColorStep>,
    pixel: P,
) -> P
    decreases steps.len(),
{
    if steps.len() == 0 {
        pixel
    } else {
        step_applied(
            apply,
            black,
            steps.last(),
            steps_applied(apply, black, steps.drop_last(), pixel),
        )
    }
}

/// An interpretation of filters under which neutral filters keep every pixel, opacity zero gives
/// transparent black, and every filter keeps transparent black.
pub open spec fn respects_compilation<P>(apply: spec_fn(ColorFilterOp, P) -> P, black: P) -> bool {
    &&& forall|op: ColorFilterOp, pixel: P|
        op.is_neutral() ==> #[trigger] apply(op, pixel) == pixel
    &&& forall|op: ColorFilterOp, pixel: P| op.clears() ==> #[trigger] apply(op, pixel) == black
    &&& forall|op: ColorFilterOp| #[trigger] apply(op, black) == black
}

/// Compilation keeps the meaning of a chain: the compiled steps give what the chain gives, for
/// every interpretation that treats neutral filters and opacity zero as what they are.
pub proof fn law_compilation_keeps_meaning<P>(
    apply: spec_fn(ColorFilterOp, P) -> P,
    black: P,
    ops: Seq<ColorFilterOp>,
    pixel: P,
)
    requires
        respects_compilation(apply, black),
    ensures
        steps_applied(apply, black, compiled(ops), pixel) == applied(apply, ops, pixel),
{
    if exists|i: int| 0 <= i < ops.len() && (#[trigger] ops[i]).clears() {
        let i = choose|i: int| 0 <= i < ops.len() && (#[trigger] ops[i]).clears();
        lemma_cleared(apply, black, ops, pixel, i);
        let steps = seq![ColorStep::TransparentBlack];
        assert(compiled(ops) == steps);
        assert(steps.last() == ColorStep::TransparentBlack);
    } else {
        lemma_effective_applied(apply, black, ops, pixel);
        if effective(ops).len() == 0 {
            let steps = seq![ColorStep::Identity];
            assert(compiled(ops) == steps);
            assert(steps.last() == ColorStep::Identity);
            assert(steps.drop_last() =~= Seq::empty());
            assert(steps_applied(apply, black, steps.drop_last(), pixel) == pixel);
        } else {
            lemma_grouped_applied(apply, black, effective(ops), pixel);
        }
    }
}

proof fn lemma_cleared<P>(
    apply: spec_fn(ColorFilterOp, P) -> P,
    black: P,
    ops: Seq<ColorFilterOp>,
    pixel: P,
    at: int,
)
    requires
        respects_compilation(apply, black),
        0 <= at < ops.len(),
        ops[at].clears(),
    ensures
        applied(apply, ops, pixel) == black,
    decreases ops.len(),
{
    if at < ops.len() - 1 {
        lemma_cleared(apply, black, ops.drop_last(), pixel, at);
    }
}

proof fn lemma_effective_applied<P>(
    apply: spec_fn(ColorFilterOp, P) -> P,
    black: P,
    ops: Seq<ColorFilterOp>,
    pixel: P,
)
    requires
        respects_compilation(apply, black),
    ensures
        applied(apply, effective(ops), pixel) == applied(apply, ops, pixel),
    decreases ops.len(),
{
    if ops.len() > 0 {
        lemma_effective_applied(apply, black, ops.drop_last(), pixel);
        let kept = effective(ops.drop_last());
        assert(kept.push(ops.last()).drop_last() =~= kept);
    }
}

proof fn lemma_grouped_applied<P>(
    apply: spec_fn(ColorFilterOp, P) -> P,
    black: P,
    ops: Seq<ColorFilterOp>,
    pixel: P,
)
    ensures
        steps_applied(apply, black, grouped(ops), pixel) == applied(apply, ops, pixel),
    decreases ops.len(),
{
    if ops.len() > 0 {
        let before = grouped(ops.drop_last());
        let after = grouped(ops);
        let op = ops.last();
        lemma_grouped_applied(apply, black, ops.drop_last(), pixel);
        law_grouping_keeps_order(ops.drop_last());
        if !(op is Opacity) && before.len() > 0 && before.last() is Run {
            let run = before.last()->Run_0;
            assert(after.drop_last() =~= before.drop_last());
            assert(run.push(op).drop_last() =~= run);
        } else {
            let single = step_ops(after.last());
            assert(after.drop_last() =~= before);
            assert(single =~= seq![op]);
            assert(single.drop_last() =~= Seq::empty());
            let middle = steps_applied(apply, black, before, pixel);
            assert(applied(apply, single.drop_last(), middle) == middle);
        }
    }
}

/// Which amounts leave pixels alone, kind by kind: brightness, contrast, saturation and opacity are
/// skipped at one and at no other amount; grayscale, inversion, sepia and hue rotation at zero and at
/// no other.
pub proof fn law_neutral_amounts(op: ColorFilterOp, identity: bool)
    requires
        call_ensures(is_identity_op, (op,), identity),
    ensures
        op matches ColorFilterOp::Brightness(amount) ==> identity == (amount.bits
            == 0x3ff0_0000_0000_0000),
        op matches ColorFilterOp::Contrast(amount) ==> identity == (amount.bits
            == 0x3ff0_0000_0000_0000),
        op matches ColorFilterOp::Saturate(amount) ==> identity == (amount.bits
            == 0x3ff0_0000_0000_0000),
        op matches ColorFilterOp::Opacity(amount) ==> identity == (amount.bits
            == 0x3ff0_0000_0000_0000),
        op matches ColorFilterOp::Grayscale(amount) ==> identity == (amount.bits == 0
            || amount.bits == 0x8000_0000_0000_0000),
        op matches ColorFilterOp::Invert(amount) ==> identity == (amount.bits == 0 || amount.bits
            == 0x8000_0000_0000_0000),
        op matches ColorFilterOp::Sepia(amount) ==> identity == (amount.bits == 0 || amount.bits
            == 0x8000_0000_0000_0000),
        op matches ColorFilterOp::HueRotate(angle) ==> identity == (angle.bits == 0 || angle.bits
            == 0x8000_0000_0000_0000),
{
}

/// Exactly opacity at zero clears: no other kind does, whatever its amount.
pub proof fn law_clearing_amounts(op: ColorFilterOp, zero: bool)
    requires
        call_ensures(is_zero_opacity, (&op,), zero),
    ensures
        zero ==> op is Opacity,
        op matches ColorFilterOp::Opacity(amount) ==> zero == (amount.bits == 0 || amount.bits
            == 0x8000_0000_0000_0000),
{
}

/// Whether a filter acts on pixels: its amount is not the one at which its kind does nothing.
pub open spec fn acts(op: ColorFilterOp) -> bool {
    match op {
        ColorFilterOp::Brightness(amount) => amount.bits != 0x3ff0_0000_0000_0000,
        ColorFilterOp::Contrast(amount) => amount.bits != 0x3ff0_0000_0000_0000,
        ColorFilterOp::Saturate(amount) => amount.bits != 0x3ff0_0000_0000_0000,
        ColorFilterOp::Opacity(amount) => amount.bits != 0x3ff0_0000_0000_0000,
        ColorFilterOp::Grayscale(amount) => amount.bits != 0 && amount.bits
            != 0x8000_0000_0000_0000,
        ColorFilterOp::Invert(amount) => amount.bits != 0 && amount.bits != 0x8000_0000_0000_0000,
        ColorFilterOp::Sepia(amount) => amount.bits != 0 && amount.bits != 0x8000_0000_0000_0000,
        ColorFilterOp::HueRotate(angle) => angle.bits != 0 && angle.bits != 0x8000_0000_0000_0000,
    }
}

/// The filters that do something are those of the chain that act, each as often and in the order as
/// in the chain.
pub proof fn law_acting_filters_are_kept(ops: Seq<ColorFilterOp>)
    ensures
        effective(ops) == ops.filter(|op: ColorFilterOp| acts(op)),
    decreases ops.len(),
{
    reveal(Seq::filter);
    if ops.len() > 0 {
        law_acting_filters_are_kept(ops.drop_last());
    }
}

/// A compiled chain without opacity zero applies exactly the filters that act: every brightness,
/// contrast, saturation or opacity whose amount is not one and every grayscale, inversion, sepia or
/// hue rotation whose amount is not zero is among its filters, in order, and no other is.
pub proof fn law_compiled_chains_apply_what_acts(
    source_ops: &[ColorFilterOp],
    steps: Vec<CompiledColorFilterStep>,
)
    requires
        call_ensures(compile_steps, (source_ops,), steps),
        forall|i: int|
            0 <= i < source_ops@.len() ==> !((#[trigger] source_ops@[i]) matches ColorFilterOp::Opacity(
                amount,
            ) && (amount.bits == 0 || amount.bits == 0x8000_0000_0000_0000)),
    ensures
        flattened(step_views(steps@)) == source_ops@.filter(|op: ColorFilterOp| acts(op)),
        forall|amount: Scalar|
            #![trigger source_ops@.contains(ColorFilterOp::Saturate(amount))]
            amount.bits != 0x3ff0_0000_0000_0000 && source_ops@.contains(
                ColorFilterOp::Saturate(amount),
            ) ==> flattened(step_views(steps@)).contains(ColorFilterOp::Saturate(amount)),
        forall|op: ColorFilterOp|
            acts(op) && source_ops@.contains(op) ==> #[trigger] flattened(
                step_views(steps@),
            ).contains(op),
        forall|i: int|
            0 <= i < steps@.len() ==> !((#[trigger] steps@[i])@ is TransparentBlack),
{
    let ops = source_ops@;
    let views = step_views(steps@);
    let filters = |op: ColorFilterOp| acts(op);
    assert forall|i: int| 0 <= i < ops.len() implies !(#[trigger] ops[i]).clears() by {}
    law_acting_filters_are_kept(ops);
    law_grouping_keeps_order(effective(ops));
    if effective(ops).len() == 0 {
        assert(views =~= seq![ColorStep::Identity]);
        assert(views.drop_last() =~= Seq::empty());
        assert(flattened(views.drop_last()) =~= Seq::empty());
        assert(flattened(views) =~= effective(ops));
    }
    assert forall|op: ColorFilterOp| acts(op) && ops.contains(op) implies #[trigger] flattened(
        views,
    ).contains(op) by {
        lemma_acting_is_contained(ops, op);
    }
    assert forall|amount: Scalar|
        #![trigger ops.contains(ColorFilterOp::Saturate(amount))]
        amount.bits != 0x3ff0_0000_0000_0000 && ops.contains(
            ColorFilterOp::Saturate(amount),
        ) implies flattened(views).contains(ColorFilterOp::Saturate(amount)) by {
        lemma_acting_is_contained(ops, ColorFilterOp::Saturate(amount));
    }
    assert forall|i: int| 0 <= i < steps@.len() implies !((#[trigger] steps@[i])@
        is TransparentBlack) by {
        assert(views[i] == steps@[i]@);
    }
}

proof fn lemma_acting_is_contained(ops: Seq<ColorFilterOp>, op: ColorFilterOp)
    requires
        acts(op),
        ops.contains(op),
    ensures
        effective(ops).contains(op),
    decreases ops.len(),
{
    let i = choose|i: int| 0 <= i < ops.len() && ops[i] == op;
    let kept = effective(ops.drop_last());
    if i == ops.len() - 1 {
        assert(effective(ops).last() == op);
    } else {
        assert(ops.drop_last()[i] == op);
        lemma_acting_is_contained(ops.drop_last(), op);
        let j = choose|j: int| 0 <= j < kept.len() && kept[j] == op;
        assert(effective(ops)[j] == op);
    }
}

/// A chain with opacity zero anywhere compiles to clearing, and to nothing else.
pub proof fn law_zero_opacity_compiles_to_clearing(
    source_ops: &[ColorFilterOp],
    steps: Vec<CompiledColorFilterStep>,
    at: int,
    amount: Scalar,
)
    requires
        call_ensures(compile_steps, (source_ops,), steps),
        0 <= at < source_ops@.len(),
        source_ops@[at] == ColorFilterOp::Opacity(amount),
        amount.bits == 0 || amount.bits == 0x8000_0000_0000_0000,
    ensures
        steps@.len() == 1,
        steps@[0] is TransparentBlack,
{
    assert(source_ops@[at].clears());
    assert(step_views(steps@)[0] == ColorStep::TransparentBlack);
    assert(step_views(steps@).len() == 1);
    assert(step_views(steps@)[0] == steps@[0]@);
}

/// A compiled pipeline keeps the chain that it came from and serves the steps of it, one for each
/// that it counts.
pub proof fn law_pipelines_serve_the_steps_of_their_chain(
    pipeline: &CompiledColorFilterPipeline,
    ops: Vec<ColorFilterOp>,
    steps: &[CompiledColorFilterStep],
    count: usize,
    again: Vec<CompiledColorFilterStep>,
    source: &[ColorFilterOp],
)
    requires
        call_ensures(
            CompiledColorFilterPipeline::try_from_ops,
            (ops,),
            Ok::<CompiledColorFilterPipeline, Error>(*pipeline),
        ),
        call_ensures(CompiledColorFilterPipeline::executable_steps, (pipeline,), steps),
        call_ensures(CompiledColorFilterPipeline::executable_step_count, (pipeline,), count),
        call_ensures(CompiledColorFilterPipeline::source_ops, (pipeline,), source),
        exists|slice: &[ColorFilterOp]|
            slice@ == ops@ && #[trigger] call_ensures(compile_steps, (slice,), again),
    ensures
        source@ == ops@,
        step_views(steps@) == step_views(again@),
        steps@.len() == count,
{
    assert(step_views(steps@).len() == steps@.len());
}

/// A run of transforms stands for the filters that its transforms were made of, and an opacity step
/// for its opacity; a filter becomes a transform unless it is an opacity.
pub proof fn law_steps_stand_for_their_filters(
    op: ColorFilterOp,
    transform: Option<StraightColorTransform>,
    run: Vec<StraightColorTransform>,
    amount: Scalar,
    i: int,
)
    requires
        call_ensures(StraightColorTransform::from_op, (op,), transform),
        0 <= i < run@.len(),
    ensures
        op is Opacity <==> transform is None,
        transform matches Some(transform) ==> transform.op == op,
        step_ops(CompiledColorFilterStep::StraightColorRun(run)@).len() == run@.len(),
        step_ops(CompiledColorFilterStep::StraightColorRun(run)@)[i] == run@[i].op,
        step_ops(CompiledColorFilterStep::Opacity(amount)@) == seq![ColorFilterOp::Opacity(amount)],
        step_ops(CompiledColorFilterStep::Identity@).len() == 0,
{
}

/// An authored chain is compiled exactly when it is not empty, and keeps its filters in order.
pub proof fn law_authored_chains_keep_their_filters(
    pipeline: &ColorFilterPipeline,
    result: Result<CompiledColorFilterPipeline, Error>,
    i: int,
)
    requires
        call_ensures(CompiledColorFilterPipeline::try_from_pipeline, (pipeline,), result),
    ensures
        result is Ok <==> pipeline.ops@.len() > 0,
        result matches Ok(compiled) ==> compiled.spec_source_ops().len() == pipeline.ops@.len() && (0
            <= i < pipeline.ops@.len() ==> compiled.spec_source_ops()[i] == pipeline.ops@[i]),
        result matches Err(error) ==> error == Error::Invalid(
            InvalidValue::EmptyColorFilterPipeline,
        ),
{
}

} // verus!
