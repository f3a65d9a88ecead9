//! Execution of compiled filters over reference buffers. The color, blur and shadow arithmetic is
//! the caller's; order, sizes and errors are decided here.

use vstd::prelude::*;

use crate::error::{Error, InvalidValue};
use crate::filter::color::{
    acts, compiled, effective, flattened, law_acting_filters_are_kept, law_grouping_keeps_order,
    run_ops, step_views, ColorFilterOp, ColorFilterPipeline, ColorStep,
    CompiledColorFilterPipeline, CompiledColorFilterStep,
};
use crate::filter::materialized::{
    compile_materialized_image_filter_pipeline, image_step_views, image_steps_ops,
    law_materialized_steps_keep_order, materialized, FilterList, FilterOpKind,
    MaterializedImageFilterPipeline, MaterializedImageFilterStep,
};
use crate::geometry::PhysicalSize;
use crate::image::{rgba_len, ImageBuffer};
use crate::pass::model::ImageQuality;
use crate::reference::buffer::ReferencePremultipliedRgba8Buffer;
use crate::reference::convert::{
    conversion_failure, premultiplied_pixels,
    premultiplied_rgba8_reference_to_straight_rgba8_image_buffer, straight_byte, straight_bytes,
    straight_rgba8_bytes_to_premultiplied_rgba8_reference,
};
use crate::reference::index::Extend;
use crate::reference::pixel::{transparent, PremultipliedRgba8};
use crate::scalar::Scalar;

verus! {

/// Whether each pixel of `trace` follows from the one before it by the next filter.
pub open spec fn traced<F: Fn(ColorFilterOp, PremultipliedRgba8) -> PremultipliedRgba8>(
    apply: F,
    ops: Seq<ColorFilterOp>,
    trace: Seq<PremultipliedRgba8>,
) -> bool {
    &&& trace.len() == ops.len() + 1
    &&& forall|i: int|
        0 <= i < ops.len() ==> call_ensures(apply, (#[trigger] ops[i], trace[i]), trace[i + 1])
}

/// Whether a chain clears every pixel.
pub open spec fn chain_clears(ops: Seq<ColorFilterOp>) -> bool {
    exists|i: int| 0 <= i < ops.len() && (#[trigger] ops[i]).clears()
}

/// Runs an authored color pipeline on one pixel: each operation is applied once, in order.
pub fn apply_color_filter_pipeline_to_pixel<
    F: Fn(ColorFilterOp, PremultipliedRgba8) -> PremultipliedRgba8,
>(pixel: PremultipliedRgba8, pipeline: &ColorFilterPipeline, apply: F) -> (result:
    PremultipliedRgba8)
    requires
        forall|op: ColorFilterOp, pixel: PremultipliedRgba8| #[trigger]
            call_requires(apply, (op, pixel)),
    ensures
        exists|trace: Seq<PremultipliedRgba8>| #[trigger]
            traced(apply, pipeline.ops@, trace) && trace[0] == pixel && trace.last() == result,
{
    let ghost ops = pipeline.ops@;
    let ghost mut trace: Seq<PremultipliedRgba8> = seq![pixel];
    let mut current = pixel;
    let count: usize = pipeline.ops.len();
    let mut next: usize = 0;
    while next < count
        invariant
            forall|op: ColorFilterOp, pixel: PremultipliedRgba8| #[trigger]
                call_requires(apply, (op, pixel)),
            next <= count,
            count == ops.len(),
            ops == pipeline.ops@,
            traced(apply, ops.take(next as int), trace),
            trace[0] == pixel,
            trace.last() == current,
        decreases count - next,
    {
        let op = pipeline.ops[next];
        let after = apply(op, current);
        proof {
            assert(ops.take(next + 1) =~= ops.take(next as int).push(op));
            lemma_traced_push(apply, ops.take(next as int), trace, op, after);
            trace = trace.push(after);
        }
        current = after;
        next = next + 1;
    }
    assert(ops.take(count as int) =~= ops);
    current
}

/// Runs a compiled color pipeline on one pixel: each filter that does something is applied once,
/// in authored order, and a chain with opacity zero gives transparent black outright.
pub fn apply_compiled_color_filter_pipeline_to_pixel<
    F: Fn(ColorFilterOp, PremultipliedRgba8) -> PremultipliedRgba8,
>(pixel: PremultipliedRgba8, pipeline: &CompiledColorFilterPipeline, apply: F) -> (result:
    PremultipliedRgba8)
    requires
        forall|op: ColorFilterOp, pixel: PremultipliedRgba8| #[trigger]
            call_requires(apply, (op, pixel)),
    ensures
        if chain_clears(pipeline.spec_source_ops()) {
            result@ == transparent()
        } else {
            exists|trace: Seq<PremultipliedRgba8>| #[trigger]
                traced(apply, effective(pipeline.spec_source_ops()), trace) && trace[0] == pixel
                    && trace.last() == result
        },
{
    let steps = pipeline.executable_steps();
    let ghost views = step_views(steps@);
    let ghost ops = pipeline.spec_source_ops();
    let ghost mut trace: Seq<PremultipliedRgba8> = seq![pixel];
    let mut current = pixel;
    let mut i: usize = 0;
    proof {
        law_grouping_keeps_order(effective(ops));
        assert(views.take(0) =~= Seq::empty());
        assert(flattened(views.take(0)).len() == 0);
        if !chain_clears(ops) && effective(ops).len() == 0 {
            assert(views.drop_last() =~= Seq::empty());
            assert(flattened(views.drop_last()) =~= Seq::empty());
            assert(flattened(views) =~= effective(ops));
        }
    }
    while i < steps.len()
        invariant
            forall|op: ColorFilterOp, pixel: PremultipliedRgba8| #[trigger]
                call_requires(apply, (op, pixel)),
            views == step_views(steps@),
            views == compiled(ops),
            i <= steps@.len(),
            chain_clears(ops) && i > 0 ==> current@ == transparent(),
            !chain_clears(ops) ==> {
                &&& flattened(views) == effective(ops)
                &&& traced(apply, flattened(views.take(i as int)), trace)
                &&& trace[0] == pixel
                &&& trace.last() == current
                &&& forall|j: int| 0 <= j < views.len() ==> !(#[trigger] views[j] is TransparentBlack)
            },
        decreases steps@.len() - i,
    {
        let ghost done = flattened(views.take(i as int));
        proof {
            assert(views.take(i as int + 1).drop_last() =~= views.take(i as int));
            assert(views[i as int] == steps@[i as int]@);
        }
        match &steps[i] {
            CompiledColorFilterStep::Identity => {
                proof {
                    assert(flattened(views.take(i as int + 1)) =~= done);
                }
            },
            CompiledColorFilterStep::TransparentBlack => {
                current = PremultipliedRgba8::transparent();
            },
            CompiledColorFilterStep::StraightColorRun(run) => {
                let mut j: usize = 0;
                assert(run_ops(run@).take(0) =~= Seq::empty());
                assert(done + run_ops(run@).take(0) =~= done);
                while j < run.len()
                    invariant
                        forall|op: ColorFilterOp, pixel: PremultipliedRgba8| #[trigger]
                            call_requires(apply, (op, pixel)),
                        j <= run@.len(),
                        !chain_clears(ops) ==> {
                            &&& traced(apply, done + run_ops(run@).take(j as int), trace)
                            &&& trace[0] == pixel
                            &&& trace.last() == current
                        },
                    decreases run@.len() - j,
                {
                    let ghost so_far = done + run_ops(run@).take(j as int);
                    let next = apply(run[j].op, current);
                    proof {
                        if !chain_clears(ops) {
                            let op = run@[j as int].op;
                            assert(done + run_ops(run@).take(j as int + 1) =~= so_far.push(op));
                            lemma_traced_push(apply, so_far, trace, op, next);
                            trace = trace.push(next);
                        }
                    }
                    current = next;
                    j = j + 1;
                }
                assert(run_ops(run@).take(j as int) =~= run_ops(run@));
            },
            CompiledColorFilterStep::Opacity(amount) => {
                let next = apply(ColorFilterOp::Opacity(*amount), current);
                proof {
                    if !chain_clears(ops) {
                        let op = ColorFilterOp::Opacity(*amount);
                        assert(done + seq![op] =~= done.push(op));
                        lemma_traced_push(apply, done, trace, op, next);
                        trace = trace.push(next);
                    }
                }
                current = next;
            },
        }
        proof {
            if chain_clears(ops) {
                assert(views =~= seq![ColorStep::TransparentBlack]);
            }
        }
        i = i + 1;
    }
    proof {
        assert(views.take(i as int) =~= views);
        if chain_clears(ops) {
            assert(views =~= seq![ColorStep::TransparentBlack]);
        }
    }
    current
}

proof fn lemma_traced_push<F: Fn(ColorFilterOp, PremultipliedRgba8) -> PremultipliedRgba8>(
    apply: F,
    ops: Seq<ColorFilterOp>,
    trace: Seq<PremultipliedRgba8>,
    op: ColorFilterOp,
    next: PremultipliedRgba8,
)
    requires
        traced(apply, ops, trace),
        call_ensures(apply, (op, trace.last()), next),
    ensures
        traced(apply, ops.push(op), trace.push(next)),
        trace.push(next)[0] == trace[0],
{
    let longer = ops.push(op);
    let longer_trace = trace.push(next);
    assert forall|i: int| 0 <= i < longer.len() implies call_ensures(
        apply,
        (#[trigger] longer[i], longer_trace[i]),
        longer_trace[i + 1],
    ) by {
        if i < ops.len() {
            assert(call_ensures(apply, (ops[i], trace[i]), trace[i + 1]));
        }
    }
}

/// The rejection of a step whose output has another size than planned.
pub open spec fn output_size_error(step: MaterializedImageFilterStep, size: PhysicalSize) -> Error {
    if step is Blur {
        Error::Invalid(InvalidValue::BlurOutputSize(size))
    } else {
        Error::Invalid(InvalidValue::ShadowOutputSize(size))
    }
}

/// Whether `outcome` is what one step makes of `before`: color filters keep their output, blurs and
/// shadows are planned first and must have the planned size.
pub open spec fn stage<
    P: Fn(&MaterializedImageFilterStep, PhysicalSize) -> Result<PhysicalSize, Error>,
    F: Fn(&MaterializedImageFilterStep, &ReferencePremultipliedRgba8Buffer) -> Result<
        ReferencePremultipliedRgba8Buffer,
        Error,
    >,
>(
    plan: P,
    filter: F,
    step: MaterializedImageFilterStep,
    before: ReferencePremultipliedRgba8Buffer,
    outcome: Result<ReferencePremultipliedRgba8Buffer, Error>,
) -> bool {
    if step is ColorFilters {
        call_ensures(filter, (&step, &before), outcome)
    } else {
        ||| outcome matches Err(error) && call_ensures(
            plan,
            (&step, before.size()),
            Err::<PhysicalSize, Error>(error),
        )
        ||| exists|size: PhysicalSize|
            {
                &&& #[trigger] call_ensures(
                    plan,
                    (&step, before.size()),
                    Ok::<PhysicalSize, Error>(size),
                )
                &&& planned_stage(filter, step, before, size, outcome)
            }
    }
}

/// Whether `outcome` is what a blur or shadow step makes of `before` when `size` was planned.
pub open spec fn planned_stage<
    F: Fn(&MaterializedImageFilterStep, &ReferencePremultipliedRgba8Buffer) -> Result<
        ReferencePremultipliedRgba8Buffer,
        Error,
    >,
>(
    filter: F,
    step: MaterializedImageFilterStep,
    before: ReferencePremultipliedRgba8Buffer,
    size: PhysicalSize,
    outcome: Result<ReferencePremultipliedRgba8Buffer, Error>,
) -> bool {
    ||| call_ensures(filter, (&step, &before), outcome) && (outcome matches Ok(after) ==> after.size()
        == size)
    ||| exists|after: ReferencePremultipliedRgba8Buffer|
        {
            &&& #[trigger] call_ensures(
                filter,
                (&step, &before),
                Ok::<ReferencePremultipliedRgba8Buffer, Error>(after),
            )
            &&& after.size() != size
            &&& outcome == Err::<ReferencePremultipliedRgba8Buffer, Error>(
                output_size_error(step, after.size()),
            )
        }
}

/// Whether each buffer of `stages` is what its step makes of the one before it.
pub open spec fn staged<
    P: Fn(&MaterializedImageFilterStep, PhysicalSize) -> Result<PhysicalSize, Error>,
    F: Fn(&MaterializedImageFilterStep, &ReferencePremultipliedRgba8Buffer) -> Result<
        ReferencePremultipliedRgba8Buffer,
        Error,
    >,
>(
    plan: P,
    filter: F,
    steps: Seq<MaterializedImageFilterStep>,
    stages: Seq<ReferencePremultipliedRgba8Buffer>,
) -> bool {
    &&& stages.len() == steps.len() + 1
    &&& forall|i: int|
        0 <= i < steps.len() ==> stage(
            plan,
            filter,
            #[trigger] steps[i],
            stages[i],
            Ok(stages[i + 1]),
        )
}

fn run_stage<
    P: Fn(&MaterializedImageFilterStep, PhysicalSize) -> Result<PhysicalSize, Error>,
    F: Fn(&MaterializedImageFilterStep, &ReferencePremultipliedRgba8Buffer) -> Result<
        ReferencePremultipliedRgba8Buffer,
        Error,
    >,
>(
    step: &MaterializedImageFilterStep,
    before: &ReferencePremultipliedRgba8Buffer,
    plan: &P,
    filter: &F,
) -> (outcome: Result<ReferencePremultipliedRgba8Buffer, Error>)
    requires
        forall|step: &MaterializedImageFilterStep, size: PhysicalSize| #[trigger]
            call_requires(*plan, (step, size)),
        forall|step: &MaterializedImageFilterStep, buffer: &ReferencePremultipliedRgba8Buffer|
         #[trigger]
            call_requires(*filter, (step, buffer)),
    ensures
        stage(*plan, *filter, *step, *before, outcome),
{
    if let MaterializedImageFilterStep::ColorFilters(_) = step {
        return filter(step, before);
    }
    let planned = match plan(step, before.physical_size()) {
        Ok(planned) => planned,
        Err(error) => {
            return Err(error);
        },
    };
    assert(call_ensures(*plan, (step, before.size()), Ok::<PhysicalSize, Error>(planned)));
    match filter(step, before) {
        Ok(after) => {
            let size = after.physical_size();
            if size == planned {
                Ok(after)
            } else {
                assert(call_ensures(
                    *filter,
                    (step, before),
                    Ok::<ReferencePremultipliedRgba8Buffer, Error>(after),
                ));
                match step {
                    MaterializedImageFilterStep::Blur(_) => Err(
                        Error::Invalid(InvalidValue::BlurOutputSize(size)),
                    ),
                    _ => Err(Error::Invalid(InvalidValue::ShadowOutputSize(size))),
                }
            }
        },
        Err(error) => Err(error),
    }
}

/// Runs a materialized pipeline: every step in order on the output of the one before it, up to the
/// first that fails.
pub fn execute_materialized_filter_pipeline<
    P: Fn(&MaterializedImageFilterStep, PhysicalSize) -> Result<PhysicalSize, Error>,
    F: Fn(&MaterializedImageFilterStep, &ReferencePremultipliedRgba8Buffer) -> Result<
        ReferencePremultipliedRgba8Buffer,
        Error,
    >,
>(
    source: ReferencePremultipliedRgba8Buffer,
    pipeline: &MaterializedImageFilterPipeline,
    plan: P,
    filter: F,
) -> (result: Result<ReferencePremultipliedRgba8Buffer, Error>)
    requires
        forall|step: &MaterializedImageFilterStep, size: PhysicalSize| #[trigger]
            call_requires(plan, (step, size)),
        forall|step: &MaterializedImageFilterStep, buffer: &ReferencePremultipliedRgba8Buffer|
         #[trigger]
            call_requires(filter, (step, buffer)),
    ensures
        execution_outcome(plan, filter, pipeline.spec_steps(), source, result),
{
    let steps = pipeline.steps();
    let ghost mut stages: Seq<ReferencePremultipliedRgba8Buffer> = seq![source];
    let mut current = source;
    let mut i: usize = 0;
    assert(steps@.take(0) =~= Seq::empty());
    while i < steps.len()
        invariant
            forall|step: &MaterializedImageFilterStep, size: PhysicalSize| #[trigger]
                call_requires(plan, (step, size)),
            forall|step: &MaterializedImageFilterStep, buffer: &ReferencePremultipliedRgba8Buffer|
             #[trigger]
                call_requires(filter, (step, buffer)),
            steps@ == pipeline.spec_steps(),
            i <= steps@.len(),
            staged(plan, filter, steps@.take(i as int), stages),
            stages[0] == source,
            stages.last() == current,
        decreases steps@.len() - i,
    {
        match run_stage(&steps[i], &current, &plan, &filter) {
            Ok(next) => {
                proof {
                    let shorter = steps@.take(i as int);
                    let longer = steps@.take(i as int + 1);
                    let longer_stages = stages.push(next);
                    assert forall|j: int| 0 <= j < longer.len() implies stage(
                        plan,
                        filter,
                        #[trigger] longer[j],
                        longer_stages[j],
                        Ok(longer_stages[j + 1]),
                    ) by {
                        if j < i {
                            assert(longer[j] == shorter[j]);
                        }
                    }
                    stages = longer_stages;
                }
                current = next;
            },
            Err(error) => {
                proof {
                    assert(failed_at(
                        plan,
                        filter,
                        pipeline.spec_steps(),
                        source,
                        error,
                        i as int,
                        stages,
                    ));
                }
                return Err(error);
            },
        }
        i = i + 1;
    }
    assert(steps@.take(i as int) =~= steps@);
    Ok(current)
}

/// Whether step `at` fails with `error` after the steps before it went through `stages`.
pub open spec fn failed_at<
    P: Fn(&MaterializedImageFilterStep, PhysicalSize) -> Result<PhysicalSize, Error>,
    F: Fn(&MaterializedImageFilterStep, &ReferencePremultipliedRgba8Buffer) -> Result<
        ReferencePremultipliedRgba8Buffer,
        Error,
    >,
>(
    plan: P,
    filter: F,
    steps: Seq<MaterializedImageFilterStep>,
    source: ReferencePremultipliedRgba8Buffer,
    error: Error,
    at: int,
    stages: Seq<ReferencePremultipliedRgba8Buffer>,
) -> bool {
    &&& 0 <= at < steps.len()
    &&& staged(plan, filter, steps.take(at), stages)
    &&& stages[0] == source
    &&& stage(plan, filter, steps[at], stages.last(), Err(error))
}

/// Whether `outcome` is what running `steps` from `source` gives: the last stage where every step
/// succeeds, or the error of the first step that fails.
pub open spec fn execution_outcome<
    P: Fn(&MaterializedImageFilterStep, PhysicalSize) -> Result<PhysicalSize, Error>,
    F: Fn(&MaterializedImageFilterStep, &ReferencePremultipliedRgba8Buffer) -> Result<
        ReferencePremultipliedRgba8Buffer,
        Error,
    >,
>(
    plan: P,
    filter: F,
    steps: Seq<MaterializedImageFilterStep>,
    source: ReferencePremultipliedRgba8Buffer,
    outcome: Result<ReferencePremultipliedRgba8Buffer, Error>,
) -> bool {
    match outcome {
        Ok(output) => exists|stages: Seq<ReferencePremultipliedRgba8Buffer>| #[trigger]
            staged(plan, filter, steps, stages) && stages[0] == source && stages.last() == output,
        Err(error) => exists|at: int, stages: Seq<ReferencePremultipliedRgba8Buffer>| #[trigger]
            failed_at(plan, filter, steps, source, error, at, stages),
    }
}

/// Which pixel-moving filter a region was planned for.
#[derive(Clone, Copy, Debug, PartialEq, Eq, Structural)]
pub enum PlannedFilter {
    Blur,
    DropShadow,
}

/// The output size of a pixel-moving filter whose region was clipped to its source image: the
/// size of the device bounds, which must start at the image's origin.
pub fn plan_clipped_materialized_output_size(
    filter: PlannedFilter,
    x: i32,
    y: i32,
    width: u32,
    height: u32,
) -> (result: Result<PhysicalSize, Error>)
    ensures
        result == (if x == 0 && y == 0 {
            Ok(PhysicalSize { width, height })
        } else {
            Err(
                Error::Invalid(
                    match filter {
                        PlannedFilter::Blur => (InvalidValue::BlurOutputOrigin { x, y }),
                        PlannedFilter::DropShadow => (InvalidValue::ShadowOutputOrigin { x, y }),
                    },
                ),
            )
        }),
{
    if x != 0 || y != 0 {
        return match filter {
            PlannedFilter::Blur => Err(Error::Invalid(InvalidValue::BlurOutputOrigin { x, y })),
            PlannedFilter::DropShadow => Err(
                Error::Invalid(InvalidValue::ShadowOutputOrigin { x, y }),
            ),
        };
    }
    Ok(PhysicalSize::new(width, height))
}

/// An image that a filter paint names, by its identity and its authored size.
#[derive(Clone, Copy, Debug, PartialEq, Eq, Structural)]
pub struct ImageResource {
    pub id: u64,
    pub width: Scalar,
    pub height: Scalar,
}

/// An image with its straight RGBA8 bytes.
#[derive(Debug)]
pub struct MaterializedImage {
    pub resource: ImageResource,
    pub dimensions: PhysicalSize,
    pub rgba: Vec<u8>,
    pub quality: ImageQuality,
    pub extend: Extend,
}

/// A filtered image, which keeps the drawn size and the sampling of its source.
#[derive(Debug)]
pub struct FilteredImage {
    pub width: Scalar,
    pub height: Scalar,
    pub quality: ImageQuality,
    pub extend: Extend,
    pub pixels: ImageBuffer,
}

/// The bytes that a materialized filter runs on.
pub enum ResolvedMaterializedImageFilterSource<'a> {
    Image(&'a MaterializedImage),
    ImageBuffer(&'a ImageBuffer),
}

/// A filter pipeline together with the bytes that it runs on.
pub struct ResolvedMaterializedImageFilterExecution<'a> {
    pub source: ResolvedMaterializedImageFilterSource<'a>,
    pub pipeline: MaterializedImageFilterPipeline,
}

/// Why an image cannot stand for a filtered resource, if it cannot.
pub open spec fn pairing_failure(
    filters: Seq<FilterOpKind>,
    resource: ImageResource,
    image: ImageResource,
) -> Option<InvalidValue> {
    if filters.len() == 0 {
        Some(InvalidValue::EmptyMaterializedFilters)
    } else if resource.id != image.id {
        Some(InvalidValue::FilteredImageId(image.id))
    } else if !(resource.width.spec_equals(image.width) && resource.height.spec_equals(
        image.height,
    )) {
        Some(InvalidValue::FilteredImageSize { width: image.width, height: image.height })
    } else {
        None
    }
}

/// Whether a result is that of filtered bytes, rebuilt as an image of the dimensions, the drawn size
/// and the sampling of `image`. Bytes that do not fill those dimensions are refused.
pub open spec fn is_drawn_as(
    result: Result<FilteredImage, Error>,
    image: MaterializedImage,
    bytes: Result<ImageBuffer, Error>,
) -> bool {
    match bytes {
        Ok(pixels) => if pixels.spec_rgba().len() == rgba_len(image.dimensions) {
            result matches Ok(filtered) && {
                &&& filtered.width == image.resource.width
                &&& filtered.height == image.resource.height
                &&& filtered.quality == image.quality
                &&& filtered.extend == image.extend
                &&& filtered.pixels.spec_size() == image.dimensions
                &&& filtered.pixels.spec_rgba() == pixels.spec_rgba()
            }
        } else {
            result == Err::<FilteredImage, Error>(
                Error::Invalid(
                    InvalidValue::ImageByteLength {
                        size: image.dimensions,
                        length: pixels.spec_rgba().len() as usize,
                    },
                ),
            )
        },
        Err(error) => result == Err::<FilteredImage, Error>(error),
    }
}

impl<'a> ResolvedMaterializedImageFilterExecution<'a> {
    /// Pairs a filtered resource with the image that holds its bytes.
    pub fn try_new(filters: &FilterList, resource: ImageResource, image: &'a MaterializedImage) -> (result:
        Result<Self, Error>)
        ensures
            match result {
                Ok(execution) => {
                    &&& pairing_failure(filters.ops@, resource, image.resource) is None
                    &&& execution.source == ResolvedMaterializedImageFilterSource::Image(image)
                    &&& image_step_views(execution.pipeline.spec_steps()) == materialized(
                        filters.ops@,
                    )
                },
                Err(error) => pairing_failure(filters.ops@, resource, image.resource) matches Some(
                    failure,
                ) && error == Error::Invalid(failure),
            },
    {
        let pipeline = match compile_materialized_image_filter_pipeline(filters) {
            Ok(pipeline) => pipeline,
            Err(error) => {
                return Err(error);
            },
        };
        if resource.id != image.resource.id {
            return Err(Error::Invalid(InvalidValue::FilteredImageId(image.resource.id)));
        }
        if !(resource.width.equals(image.resource.width) && resource.height.equals(
            image.resource.height,
        )) {
            return Err(
                Error::Invalid(
                    InvalidValue::FilteredImageSize {
                        width: image.resource.width,
                        height: image.resource.height,
                    },
                ),
            );
        }
        Ok(Self { source: ResolvedMaterializedImageFilterSource::Image(image), pipeline })
    }

    /// Pairs a filter list with an image buffer.
    pub fn try_new_for_image_buffer(filters: &FilterList, image: &'a ImageBuffer) -> (result: Result<
        Self,
        Error,
    >)
        ensures
            match result {
                Ok(execution) => {
                    &&& filters.ops@.len() > 0
                    &&& execution.source == ResolvedMaterializedImageFilterSource::ImageBuffer(
                        image,
                    )
                    &&& image_step_views(execution.pipeline.spec_steps()) == materialized(
                        filters.ops@,
                    )
                },
                Err(error) => filters.ops@.len() == 0 && error == Error::Invalid(
                    InvalidValue::EmptyMaterializedFilters,
                ),
            },
    {
        match compile_materialized_image_filter_pipeline(filters) {
            Ok(pipeline) => Ok(
                Self { source: ResolvedMaterializedImageFilterSource::ImageBuffer(image), pipeline },
            ),
            Err(error) => Err(error),
        }
    }

    /// Filters a materialized image. The result has the dimensions of the image, and is drawn as it
    /// was.
    pub fn execute_to_image<
        P: Fn(&MaterializedImageFilterStep, PhysicalSize) -> Result<PhysicalSize, Error>,
        F: Fn(&MaterializedImageFilterStep, &ReferencePremultipliedRgba8Buffer) -> Result<
            ReferencePremultipliedRgba8Buffer,
            Error,
        >,
    >(&self, plan: P, filter: F) -> (result: Result<FilteredImage, Error>)
        requires
            forall|step: &MaterializedImageFilterStep, size: PhysicalSize| #[trigger]
                call_requires(plan, (step, size)),
            forall|step: &MaterializedImageFilterStep, buffer: &ReferencePremultipliedRgba8Buffer|
             #[trigger]
                call_requires(filter, (step, buffer)),
        ensures
            match self.source {
                ResolvedMaterializedImageFilterSource::ImageBuffer(_) => result == Err::<
                    FilteredImage,
                    Error,
                >(Error::Invalid(InvalidValue::ExecutionSourceNotImage)),
                ResolvedMaterializedImageFilterSource::Image(image) => exists|
                    bytes: Result<ImageBuffer, Error>,
                |
                    {
                        &&& #[trigger] filtered_bytes(
                            plan,
                            filter,
                            self.pipeline.spec_steps(),
                            image.dimensions,
                            image.rgba@,
                            bytes,
                        )
                        &&& is_drawn_as(result, *image, bytes)
                    },
            },
            self.source matches ResolvedMaterializedImageFilterSource::Image(image) ==> (
            result matches Ok(filtered) ==> filtered.pixels.spec_size() == image.dimensions),
    {
        match self.source {
            ResolvedMaterializedImageFilterSource::ImageBuffer(_) => Err(
                Error::Invalid(InvalidValue::ExecutionSourceNotImage),
            ),
            ResolvedMaterializedImageFilterSource::Image(image) => {
                let bytes = filter_straight_bytes(
                    &self.pipeline,
                    image.dimensions,
                    image.rgba.as_slice(),
                    plan,
                    filter,
                );
                let ghost said = bytes;
                let rgba = match bytes {
                    Ok(pixels) => pixels.into_rgba(),
                    Err(error) => return Err(error),
                };
                let result = match ImageBuffer::try_new(image.dimensions, rgba) {
                    Ok(pixels) => Ok(
                        FilteredImage {
                            width: image.resource.width,
                            height: image.resource.height,
                            quality: image.quality,
                            extend: image.extend,
                            pixels,
                        },
                    ),
                    Err(error) => Err(error),
                };
                assert(is_drawn_as(result, *image, said));
                result
            },
        }
    }

    /// Filters an image buffer.
    pub fn execute_to_image_buffer<
        P: Fn(&MaterializedImageFilterStep, PhysicalSize) -> Result<PhysicalSize, Error>,
        F: Fn(&MaterializedImageFilterStep, &ReferencePremultipliedRgba8Buffer) -> Result<
            ReferencePremultipliedRgba8Buffer,
            Error,
        >,
    >(&self, plan: P, filter: F) -> (result: Result<ImageBuffer, Error>)
        requires
            forall|step: &MaterializedImageFilterStep, size: PhysicalSize| #[trigger]
                call_requires(plan, (step, size)),
            forall|step: &MaterializedImageFilterStep, buffer: &ReferencePremultipliedRgba8Buffer|
             #[trigger]
                call_requires(filter, (step, buffer)),
        ensures
            match self.source {
                ResolvedMaterializedImageFilterSource::Image(_) => result == Err::<
                    ImageBuffer,
                    Error,
                >(Error::Invalid(InvalidValue::ExecutionSourceNotImageBuffer)),
                ResolvedMaterializedImageFilterSource::ImageBuffer(image) => filtered_bytes(
                    plan,
                    filter,
                    self.pipeline.spec_steps(),
                    image.spec_size(),
                    image.spec_rgba(),
                    result,
                ),
            },
    {
        match self.source {
            ResolvedMaterializedImageFilterSource::Image(_) => Err(
                Error::Invalid(InvalidValue::ExecutionSourceNotImageBuffer),
            ),
            ResolvedMaterializedImageFilterSource::ImageBuffer(image) => filter_straight_bytes(
                &self.pipeline,
                image.size(),
                image.rgba(),
                plan,
                filter,
            ),
        }
    }
}

/// Whether `result` is what filtering straight bytes gives: they become premultiplied pixels, run
/// through every step, and the output becomes straight bytes again.
pub open spec fn filtered_bytes<
    P: Fn(&MaterializedImageFilterStep, PhysicalSize) -> Result<PhysicalSize, Error>,
    F: Fn(&MaterializedImageFilterStep, &ReferencePremultipliedRgba8Buffer) -> Result<
        ReferencePremultipliedRgba8Buffer,
        Error,
    >,
>(
    plan: P,
    filter: F,
    steps: Seq<MaterializedImageFilterStep>,
    size: PhysicalSize,
    rgba: Seq<u8>,
    result: Result<ImageBuffer, Error>,
) -> bool {
    match conversion_failure(size, rgba.len() as usize) {
        Some(failure) => result == Err::<ImageBuffer, Error>(Error::Invalid(failure)),
        None => exists|
            source: ReferencePremultipliedRgba8Buffer,
            outcome: Result<ReferencePremultipliedRgba8Buffer, Error>,
        |
            {
                &&& source.size() == size
                &&& source.channels() == premultiplied_pixels(rgba)
                &&& #[trigger] execution_outcome(plan, filter, steps, source, outcome)
                &&& match outcome {
                    Err(error) => result == Err::<ImageBuffer, Error>(error),
                    Ok(output) => if output.size().area() * 4 > usize::MAX {
                        result == Err::<ImageBuffer, Error>(
                            Error::Invalid(
                                InvalidValue::ReferenceByteLength(
                                    (output.size().area() * 4) as u64,
                                ),
                            ),
                        )
                    } else {
                        result matches Ok(image) && image.spec_size() == output.size()
                            && image.spec_rgba() == straight_bytes(output.channels())
                    },
                }
            },
    }
}

fn filter_straight_bytes<
    P: Fn(&MaterializedImageFilterStep, PhysicalSize) -> Result<PhysicalSize, Error>,
    F: Fn(&MaterializedImageFilterStep, &ReferencePremultipliedRgba8Buffer) -> Result<
        ReferencePremultipliedRgba8Buffer,
        Error,
    >,
>(
    pipeline: &MaterializedImageFilterPipeline,
    size: PhysicalSize,
    rgba: &[u8],
    plan: P,
    filter: F,
) -> (result: Result<ImageBuffer, Error>)
    requires
        forall|step: &MaterializedImageFilterStep, size: PhysicalSize| #[trigger]
            call_requires(plan, (step, size)),
        forall|step: &MaterializedImageFilterStep, buffer: &ReferencePremultipliedRgba8Buffer|
         #[trigger]
            call_requires(filter, (step, buffer)),
    ensures
        filtered_bytes(plan, filter, pipeline.spec_steps(), size, rgba@, result),
{
    let source = match straight_rgba8_bytes_to_premultiplied_rgba8_reference(size, rgba) {
        Ok(source) => source,
        Err(error) => {
            return Err(error);
        },
    };
    let ghost steps = pipeline.spec_steps();
    let ghost input = source;
    match execute_materialized_filter_pipeline(source, pipeline, plan, filter) {
        Ok(output) => {
            assert(execution_outcome(
                plan,
                filter,
                steps,
                input,
                Ok::<ReferencePremultipliedRgba8Buffer, Error>(output),
            ));
            premultiplied_rgba8_reference_to_straight_rgba8_image_buffer(&output)
        },
        Err(error) => {
            assert(execution_outcome(
                plan,
                filter,
                steps,
                input,
                Err::<ReferencePremultipliedRgba8Buffer, Error>(error),
            ));
            Err(error)
        },
    }
}

/// A compiled chain runs on a pixel as its filters say: opacity zero anywhere clears it; otherwise it
/// goes through the filters that act, one after the other and each once, and a chain in which none
/// acts leaves it alone.
pub proof fn law_compiled_chains_run_what_acts<
    F: Fn(ColorFilterOp, PremultipliedRgba8) -> PremultipliedRgba8,
>(
    pixel: PremultipliedRgba8,
    pipeline: &CompiledColorFilterPipeline,
    apply: F,
    result: PremultipliedRgba8,
)
    requires
        call_ensures(
            apply_compiled_color_filter_pipeline_to_pixel::<F>,
            (pixel, pipeline, apply),
            result,
        ),
    ensures
        (exists|amount: Scalar|
            (amount.bits == 0 || amount.bits == 0x8000_0000_0000_0000)
                && #[trigger] pipeline.spec_source_ops().contains(ColorFilterOp::Opacity(amount)))
            ==> result@.alpha == 0 && result@.red == 0 && result@.green == 0 && result@.blue == 0,
        !(exists|amount: Scalar|
            (amount.bits == 0 || amount.bits == 0x8000_0000_0000_0000)
                && #[trigger] pipeline.spec_source_ops().contains(ColorFilterOp::Opacity(amount)))
            ==> exists|kept: Seq<ColorFilterOp>, trace: Seq<PremultipliedRgba8>|
            {
                &&& #[trigger] traced(apply, kept, trace)
                &&& kept == pipeline.spec_source_ops().filter(|op: ColorFilterOp| acts(op))
                &&& trace[0] == pixel
                &&& trace.last() == result
            },
{
    let ops = pipeline.spec_source_ops();
    law_acting_filters_are_kept(ops);
    assert forall|amount: Scalar|
        (amount.bits == 0 || amount.bits == 0x8000_0000_0000_0000) && #[trigger] ops.contains(
            ColorFilterOp::Opacity(amount),
        ) implies chain_clears(ops) by {
        let i = choose|i: int| 0 <= i < ops.len() && ops[i] == ColorFilterOp::Opacity(amount);
        assert(ops[i].clears());
    }
    if chain_clears(ops) {
        let i = choose|i: int| 0 <= i < ops.len() && (#[trigger] ops[i]).clears();
        let amount = ops[i]->Opacity_0;
        assert(ops.contains(ColorFilterOp::Opacity(amount)));
    }
}

/// A chain of one filter applies it once where it acts, and a chain of two applies the second to what
/// the first gave.
pub proof fn law_chains_apply_in_order<
    F: Fn(ColorFilterOp, PremultipliedRgba8) -> PremultipliedRgba8,
>(
    pixel: PremultipliedRgba8,
    first: ColorFilterOp,
    second: ColorFilterOp,
    one: &ColorFilterPipeline,
    two: &ColorFilterPipeline,
    apply: F,
    after_one: PremultipliedRgba8,
    after_two: PremultipliedRgba8,
)
    requires
        one.ops@ == seq![first],
        two.ops@ == seq![first, second],
        call_ensures(apply_color_filter_pipeline_to_pixel::<F>, (pixel, one, apply), after_one),
        call_ensures(apply_color_filter_pipeline_to_pixel::<F>, (pixel, two, apply), after_two),
    ensures
        call_ensures(apply, (first, pixel), after_one),
        exists|between: PremultipliedRgba8|
            {
                &&& #[trigger] call_ensures(apply, (first, pixel), between)
                &&& call_ensures(apply, (second, between), after_two)
            },
{
    let short = choose|trace: Seq<PremultipliedRgba8>| #[trigger]
        traced(apply, one.ops@, trace) && trace[0] == pixel && trace.last() == after_one;
    assert(one.ops@[0] == first);
    assert(call_ensures(apply, (one.ops@[0], short[0]), short[1]));
    let long = choose|trace: Seq<PremultipliedRgba8>| #[trigger]
        traced(apply, two.ops@, trace) && trace[0] == pixel && trace.last() == after_two;
    assert(two.ops@[0] == first);
    assert(two.ops@[1] == second);
    assert(call_ensures(apply, (two.ops@[0], long[0]), long[1]));
    assert(call_ensures(apply, (two.ops@[1], long[1]), long[2]));
}

/// A step over a materialized image hands on what its filter gave: a color step that output, a blur or
/// a shadow step that output if it has the size that was planned for the size of its input.
pub proof fn law_stages_hand_on_what_their_filter_gave<
    P: Fn(&MaterializedImageFilterStep, PhysicalSize) -> Result<PhysicalSize, Error>,
    F: Fn(&MaterializedImageFilterStep, &ReferencePremultipliedRgba8Buffer) -> Result<
        ReferencePremultipliedRgba8Buffer,
        Error,
    >,
>(
    plan: P,
    filter: F,
    step: MaterializedImageFilterStep,
    before: ReferencePremultipliedRgba8Buffer,
    after: ReferencePremultipliedRgba8Buffer,
)
    requires
        stage(plan, filter, step, before, Ok(after)),
    ensures
        call_ensures(
            filter,
            (&step, &before),
            Ok::<ReferencePremultipliedRgba8Buffer, Error>(after),
        ),
        !(step is ColorFilters) ==> call_ensures(
            plan,
            (&step, before.size()),
            Ok::<PhysicalSize, Error>(after.size()),
        ),
{
}

/// A pipeline of one step gives what that step gives, of two what the second gives of the output of
/// the first; a failed first step is the failure of the whole.
pub proof fn law_pipelines_run_their_steps_in_order<
    P: Fn(&MaterializedImageFilterStep, PhysicalSize) -> Result<PhysicalSize, Error>,
    F: Fn(&MaterializedImageFilterStep, &ReferencePremultipliedRgba8Buffer) -> Result<
        ReferencePremultipliedRgba8Buffer,
        Error,
    >,
>(
    plan: P,
    filter: F,
    pipeline: &MaterializedImageFilterPipeline,
    source: ReferencePremultipliedRgba8Buffer,
    output: ReferencePremultipliedRgba8Buffer,
)
    requires
        pipeline.spec_steps().len() == 2,
        call_ensures(
            execute_materialized_filter_pipeline::<P, F>,
            (source, pipeline, plan, filter),
            Ok::<ReferencePremultipliedRgba8Buffer, Error>(output),
        ),
    ensures
        exists|between: ReferencePremultipliedRgba8Buffer|
            {
                &&& #[trigger] call_ensures(
                    filter,
                    (&pipeline.spec_steps()[0], &source),
                    Ok::<ReferencePremultipliedRgba8Buffer, Error>(between),
                )
                &&& call_ensures(
                    filter,
                    (&pipeline.spec_steps()[1], &between),
                    Ok::<ReferencePremultipliedRgba8Buffer, Error>(output),
                )
            },
{
    let steps = pipeline.spec_steps();
    let stages = choose|stages: Seq<ReferencePremultipliedRgba8Buffer>| #[trigger]
        staged(plan, filter, steps, stages) && stages[0] == source && stages.last() == output;
    assert(stage(plan, filter, steps[0], stages[0], Ok(stages[1])));
    assert(stage(plan, filter, steps[1], stages[1], Ok(stages[2])));
    law_stages_hand_on_what_their_filter_gave(plan, filter, steps[0], source, stages[1]);
    law_stages_hand_on_what_their_filter_gave(plan, filter, steps[1], stages[1], output);
}

/// An image is filtered only for the resource that names it: their identities are equal, and their
/// widths and heights are equal each to each.
pub proof fn law_images_stand_for_their_own_resource<'a>(
    filters: &FilterList,
    resource: ImageResource,
    image: &'a MaterializedImage,
    result: Result<ResolvedMaterializedImageFilterExecution<'a>, Error>,
)
    requires
        call_ensures(
            ResolvedMaterializedImageFilterExecution::<'a>::try_new,
            (filters, resource, image),
            result,
        ),
    ensures
        result is Ok ==> resource.id == image.resource.id && resource.width.spec_equals(
            image.resource.width,
        ) && resource.height.spec_equals(image.resource.height) && filters.ops@.len() > 0,
        filters.ops@.len() > 0 && resource.id == image.resource.id && resource.width.spec_equals(
            image.resource.width,
        ) && resource.height.spec_equals(image.resource.height) ==> result is Ok,
{
}

/// A clipped region is drawn at the size that it has, width and height each as given, where it starts
/// in the corner of its image; one that starts elsewhere is refused by the filter that was planned,
/// naming where it starts.
pub proof fn law_clipped_regions_start_in_the_corner(
    filter: PlannedFilter,
    x: i32,
    y: i32,
    width: u32,
    height: u32,
    result: Result<PhysicalSize, Error>,
)
    requires
        call_ensures(
            plan_clipped_materialized_output_size,
            (filter, x, y, width, height),
            result,
        ),
    ensures
        result is Ok <==> x == 0 && y == 0,
        result matches Ok(size) ==> size.width == width && size.height == height,
        result matches Err(error) ==> (error matches Error::Invalid(failure) && match filter {
            PlannedFilter::Blur => failure == (InvalidValue::BlurOutputOrigin { x, y }),
            PlannedFilter::DropShadow => failure == (InvalidValue::ShadowOutputOrigin { x, y }),
        }),
{
}

/// An image buffer is filtered by every filter of a list that is not empty, in order.
pub proof fn law_image_buffers_are_paired_with_their_filters<'a>(
    filters: &FilterList,
    image: &'a ImageBuffer,
    result: Result<ResolvedMaterializedImageFilterExecution<'a>, Error>,
)
    requires
        call_ensures(
            ResolvedMaterializedImageFilterExecution::<'a>::try_new_for_image_buffer,
            (filters, image),
            result,
        ),
    ensures
        result is Ok <==> filters.ops@.len() > 0,
        result matches Ok(execution) ==> {
            &&& execution.source matches ResolvedMaterializedImageFilterSource::ImageBuffer(source)
                && *source == *image
            &&& image_steps_ops(image_step_views(execution.pipeline.spec_steps())) == filters.ops@
        },
{
    law_materialized_steps_keep_order(filters.ops@);
}

/// An execution gives what its source is: an image only from an image, drawn at the width and height
/// of its resource, with its quality and extend modes and as many pixels as it had; a buffer only from
/// a buffer.
pub proof fn law_filtered_images_are_drawn_like_their_source<
    'a,
    P: Fn(&MaterializedImageFilterStep, PhysicalSize) -> Result<PhysicalSize, Error>,
    F: Fn(&MaterializedImageFilterStep, &ReferencePremultipliedRgba8Buffer) -> Result<
        ReferencePremultipliedRgba8Buffer,
        Error,
    >,
>(
    execution: &ResolvedMaterializedImageFilterExecution<'a>,
    plan: P,
    filter: F,
    drawn: Result<FilteredImage, Error>,
    buffered: Result<ImageBuffer, Error>,
)
    requires
        call_ensures(
            ResolvedMaterializedImageFilterExecution::<'a>::execute_to_image::<P, F>,
            (execution, plan, filter),
            drawn,
        ),
        call_ensures(
            ResolvedMaterializedImageFilterExecution::<'a>::execute_to_image_buffer::<P, F>,
            (execution, plan, filter),
            buffered,
        ),
    ensures
        match execution.source {
            ResolvedMaterializedImageFilterSource::Image(image) => {
                &&& buffered == Err::<ImageBuffer, Error>(
                    Error::Invalid(InvalidValue::ExecutionSourceNotImageBuffer),
                )
                &&& drawn matches Ok(filtered) ==> {
                    &&& filtered.width == image.resource.width
                    &&& filtered.height == image.resource.height
                    &&& filtered.quality == image.quality
                    &&& filtered.extend == image.extend
                    &&& filtered.pixels.spec_size().width == image.dimensions.width
                    &&& filtered.pixels.spec_size().height == image.dimensions.height
                }
            },
            ResolvedMaterializedImageFilterSource::ImageBuffer(_) => drawn == Err::<
                FilteredImage,
                Error,
            >(Error::Invalid(InvalidValue::ExecutionSourceNotImage)),
        },
{
}

/// Filtering an image buffer takes the bytes to pixels, runs the pipeline on them and takes its output
/// back to bytes: the input has the size of the image and the alpha of each of its pixels, and the image
/// that comes out has the size of the output and its alpha.
pub proof fn law_filtered_buffers_show_the_output<
    'a,
    P: Fn(&MaterializedImageFilterStep, PhysicalSize) -> Result<PhysicalSize, Error>,
    F: Fn(&MaterializedImageFilterStep, &ReferencePremultipliedRgba8Buffer) -> Result<
        ReferencePremultipliedRgba8Buffer,
        Error,
    >,
>(
    execution: &ResolvedMaterializedImageFilterExecution<'a>,
    image: &'a ImageBuffer,
    plan: P,
    filter: F,
    filtered: ImageBuffer,
)
    requires
        execution.source == ResolvedMaterializedImageFilterSource::ImageBuffer(image),
        call_ensures(
            ResolvedMaterializedImageFilterExecution::<'a>::execute_to_image_buffer::<P, F>,
            (execution, plan, filter),
            Ok::<ImageBuffer, Error>(filtered),
        ),
    ensures
        exists|
            input: ReferencePremultipliedRgba8Buffer,
            outcome: Result<ReferencePremultipliedRgba8Buffer, Error>,
        |
            {
                &&& #[trigger] execution_outcome(
                    plan,
                    filter,
                    execution.pipeline.spec_steps(),
                    input,
                    outcome,
                )
                &&& outcome is Ok
                &&& input.size().width == image.spec_size().width
                &&& input.size().height == image.spec_size().height
                &&& forall|i: int|
                    0 <= i < input.spec_pixels().len() && 4 * i + 3 < image.spec_rgba().len()
                        ==> (#[trigger] input.spec_pixels()[i])@.alpha == image.spec_rgba()[4 * i
                        + 3]
                &&& filtered.spec_size().width == outcome->Ok_0.size().width
                &&& filtered.spec_size().height == outcome->Ok_0.size().height
                &&& filtered.spec_rgba().len() == 4 * outcome->Ok_0.spec_pixels().len()
                &&& forall|i: int|
                    0 <= i < outcome->Ok_0.spec_pixels().len() && (
                    #[trigger] outcome->Ok_0.spec_pixels()[i])@.premultiplied()
                        ==> filtered.spec_rgba()[4 * i + 3]
                        == outcome->Ok_0.spec_pixels()[i]@.alpha
            },
{
    let steps = execution.pipeline.spec_steps();
    let (input, outcome) = choose|
        input: ReferencePremultipliedRgba8Buffer,
        outcome: Result<ReferencePremultipliedRgba8Buffer, Error>,
    |
        {
            &&& input.size() == image.spec_size()
            &&& input.channels() == premultiplied_pixels(image.spec_rgba())
            &&& #[trigger] execution_outcome(plan, filter, steps, input, outcome)
            &&& outcome matches Ok(output) && filtered.spec_size() == output.size()
                && filtered.spec_rgba() == straight_bytes(output.channels())
        };
    let output = outcome->Ok_0;
    assert forall|i: int|
        0 <= i < input.spec_pixels().len() && 4 * i + 3 < image.spec_rgba().len() implies (
    #[trigger] input.spec_pixels()[i])@.alpha == image.spec_rgba()[4 * i + 3] by {
        assert(input.channels()[i] == input.spec_pixels()[i]@);
        assert(input.channels()[i] == premultiplied_pixels(image.spec_rgba())[i]);
    }
    assert forall|i: int|
        0 <= i < output.spec_pixels().len() && (#[trigger] output.spec_pixels()[i])@.premultiplied()
        implies filtered.spec_rgba()[4 * i + 3] == output.spec_pixels()[i]@.alpha by {
        assert(output.channels()[i] == output.spec_pixels()[i]@);
        assert(straight_bytes(output.channels())[4 * i + 3] == straight_byte(
            output.channels()[i],
            3,
        ));
    }
    assert(execution_outcome(plan, filter, steps, input, outcome));
}

} // verus!
