//! Ordered filter steps over materialized images.

use vstd::prelude::*;

use crate::error::{Error, InvalidValue};
use crate::filter::color::{ColorFilterOp, CompiledColorFilterPipeline};
use crate::scalar::Scalar;

verus! {

/// A Gaussian blur.
#[derive(Clone, Copy, Debug, PartialEq, Eq, Structural)]
pub struct FilterBlur {
    pub standard_deviation: Scalar,
}

/// A straight-alpha color.
#[derive(Clone, Copy, Debug, PartialEq, Eq, Structural)]
pub struct FilterColor {
    pub red: Scalar,
    pub green: Scalar,
    pub blue: Scalar,
    pub alpha: Scalar,
}

/// A drop shadow of one solid color.
#[derive(Clone, Copy, Debug, PartialEq, Eq, Structural)]
pub struct FilterDropShadow {
    pub offset_x: Scalar,
    pub offset_y: Scalar,
    pub blur: FilterBlur,
    pub color: FilterColor,
}

/// One authored filter.
#[derive(Clone, Copy, Debug, PartialEq, Eq, Structural)]
pub enum FilterOpKind {
    Blur(FilterBlur),
    DropShadow(FilterDropShadow),
    Color(ColorFilterOp),
}

/// An authored filter list, in order of application.
#[derive(Debug)]
pub struct FilterList {
    pub ops: Vec<FilterOpKind>,
}

/// One step over a materialized image.
#[derive(Debug)]
pub enum MaterializedImageFilterStep {
    ColorFilters(CompiledColorFilterPipeline),
    Blur(FilterBlur),
    DropShadow(FilterDropShadow),
}

/// A step by the filters that it stands for.
pub enum ImageStep {
    Colors(Seq<ColorFilterOp>),
    Blur(FilterBlur),
    DropShadow(FilterDropShadow),
}

impl View for MaterializedImageFilterStep {
    type V = ImageStep;

    open spec fn view(&self) -> ImageStep {
        match self {
            MaterializedImageFilterStep::ColorFilters(pipeline) => ImageStep::Colors(
                pipeline.spec_source_ops(),
            ),
            MaterializedImageFilterStep::Blur(blur) => ImageStep::Blur(*blur),
            MaterializedImageFilterStep::DropShadow(shadow) => ImageStep::DropShadow(*shadow),
        }
    }
}

pub open spec fn image_step_views(steps: Seq<MaterializedImageFilterStep>) -> Seq<ImageStep> {
    steps.map_values(|step: MaterializedImageFilterStep| step@)
}

/// The steps of a filter list: adjacent color filters share a step, every other filter is one.
pub open spec fn materialized(ops: Seq<FilterOpKind>) -> Seq<ImageStep>
    decreases ops.len(),
{
    if ops.len() == 0 {
        Seq::empty()
    } else {
        with_filter(materialized(ops.drop_last()), ops.last())
    }
}

/// Steps with one more filter at the end.
pub open spec fn with_filter(steps: Seq<ImageStep>, op: FilterOpKind) -> Seq<ImageStep> {
    match op {
        FilterOpKind::Blur(blur) => steps.push(ImageStep::Blur(blur)),
        FilterOpKind::DropShadow(shadow) => steps.push(ImageStep::DropShadow(shadow)),
        FilterOpKind::Color(color) => if steps.len() > 0 && steps.last() is Colors {
            steps.drop_last().push(ImageStep::Colors(steps.last()->Colors_0.push(color)))
        } else {
            steps.push(ImageStep::Colors(seq![color]))
        },
    }
}

/// The authored filters of a step.
pub open spec fn image_step_ops(step: ImageStep) -> Seq<FilterOpKind> {
    match step {
        ImageStep::Colors(ops) => ops.map_values(|op: ColorFilterOp| FilterOpKind::Color(op)),
        ImageStep::Blur(blur) => seq![FilterOpKind::Blur(blur)],
        ImageStep::DropShadow(shadow) => seq![FilterOpKind::DropShadow(shadow)],
    }
}

/// The authored filters of steps, in order.
pub open spec fn image_steps_ops(steps: Seq<ImageStep>) -> Seq<FilterOpKind>
    decreases steps.len(),
{
    if steps.len() == 0 {
        Seq::empty()
    } else {
        image_steps_ops(steps.drop_last()) + image_step_ops(steps.last())
    }
}

/// The steps of a filter list hold exactly its filters, in order; no color step is empty and no
/// two are adjacent.
pub proof fn law_materialized_steps_keep_order(ops: Seq<FilterOpKind>)
    ensures
        image_steps_ops(materialized(ops)) == ops,
        forall|i: int|
            0 <= i < materialized(ops).len() ==> ((#[trigger] materialized(ops)[i]) matches ImageStep::Colors(
                run,
            ) ==> run.len() > 0),
        forall|i: int|
            0 <= i < materialized(ops).len() - 1 && (#[trigger] materialized(ops)[i]) is Colors
                ==> !(materialized(ops)[i + 1] is Colors),
    decreases ops.len(),
{
    if ops.len() > 0 {
        let before = materialized(ops.drop_last());
        let after = materialized(ops);
        let op = ops.last();
        law_materialized_steps_keep_order(ops.drop_last());
        assert(ops =~= ops.drop_last().push(op));
        if op is Color && before.len() > 0 && before.last() is Colors {
            let run = before.last()->Colors_0;
            assert(after.drop_last() =~= before.drop_last());
            assert(image_step_ops(after.last()) =~= image_step_ops(before.last()).push(op));
            assert(image_steps_ops(after) =~= image_steps_ops(before).push(op));
        } else {
            assert(after.drop_last() =~= before);
            assert(image_step_ops(after.last()) =~= seq![op]);
            assert(image_steps_ops(after) =~= image_steps_ops(before).push(op));
        }
    }
}

/// The steps that flushing a run of color filters appends.
pub open spec fn flushed_colors(run: Seq<ColorFilterOp>) -> Seq<ImageStep> {
    if run.len() == 0 {
        Seq::empty()
    } else {
        seq![ImageStep::Colors(run)]
    }
}

fn flush_materialized_color_run(
    steps: &mut Vec<MaterializedImageFilterStep>,
    color_run: &mut Vec<ColorFilterOp>,
) -> (result: Result<(), Error>)
    ensures
        result is Ok,
        final(color_run)@.len() == 0,
        image_step_views(final(steps)@) == image_step_views(old(steps)@) + flushed_colors(
            old(color_run)@,
        ),
{
    if color_run.len() != 0 {
        let mut run: Vec<ColorFilterOp> = Vec::new();
        std::mem::swap(&mut run, color_run);
        match CompiledColorFilterPipeline::try_from_ops(run) {
            Ok(compiled) => {
                steps.push(MaterializedImageFilterStep::ColorFilters(compiled));
            },
            Err(error) => {
                return Err(error);
            },
        }
    }
    assert(image_step_views(steps@) =~= image_step_views(old(steps)@) + flushed_colors(
        old(color_run)@,
    ));
    Ok(())
}

/// The ordered steps of a filter list over a materialized image.
#[derive(Debug)]
pub struct MaterializedImageFilterPipeline {
    steps: Vec<MaterializedImageFilterStep>,
}

impl MaterializedImageFilterPipeline {
    pub closed spec fn spec_steps(&self) -> Seq<MaterializedImageFilterStep> {
        self.steps@
    }

    /// The steps of a filter list, or nothing for an empty list.
    pub fn try_from_filter_list(filters: &FilterList) -> (result: Result<Option<Self>, Error>)
        ensures
            if filters.ops@.len() == 0 {
                result matches Ok(None)
            } else {
                result matches Ok(Some(pipeline)) && image_step_views(pipeline.spec_steps())
                    == materialized(filters.ops@)
            },
    {
        if filters.ops.len() == 0 {
            return Ok(None);
        }
        let mut steps: Vec<MaterializedImageFilterStep> = Vec::new();
        let mut color_run: Vec<ColorFilterOp> = Vec::new();
        let mut i: usize = 0;
        assert(filters.ops@.take(0) =~= Seq::empty());
        assert(image_step_views(steps@) + flushed_colors(color_run@) =~= Seq::empty());
        while i < filters.ops.len()
            invariant
                i <= filters.ops@.len(),
                filters.ops@.len() > 0,
                materialized(filters.ops@.take(i as int)) == image_step_views(steps@)
                    + flushed_colors(color_run@),
                steps@.len() > 0 ==> !(image_step_views(steps@).last() is Colors),
            decreases filters.ops@.len() - i,
        {
            let ghost run_before = color_run@;
            let ghost steps_before = image_step_views(steps@);
            let ghost whole = steps_before + flushed_colors(run_before);
            let op = filters.ops[i];
            proof {
                assert(filters.ops@.take(i as int + 1).drop_last() =~= filters.ops@.take(i as int));
            }
            match op {
                FilterOpKind::Blur(blur) => {
                    match flush_materialized_color_run(&mut steps, &mut color_run) {
                        Ok(()) => {},
                        Err(error) => {
                            return Err(error);
                        },
                    }
                    steps.push(MaterializedImageFilterStep::Blur(blur));
                    assert(image_step_views(steps@) =~= with_filter(whole, op));
                    assert(image_step_views(steps@) + flushed_colors(color_run@)
                        =~= image_step_views(steps@));
                },
                FilterOpKind::DropShadow(shadow) => {
                    match flush_materialized_color_run(&mut steps, &mut color_run) {
                        Ok(()) => {},
                        Err(error) => {
                            return Err(error);
                        },
                    }
                    steps.push(MaterializedImageFilterStep::DropShadow(shadow));
                    assert(image_step_views(steps@) =~= with_filter(whole, op));
                    assert(image_step_views(steps@) + flushed_colors(color_run@)
                        =~= image_step_views(steps@));
                },
                FilterOpKind::Color(color) => {
                    color_run.push(color);
                    proof {
                        if run_before.len() == 0 {
                            assert(run_before.push(color) =~= seq![color]);
                            assert(whole =~= steps_before);
                        } else {
                            assert(whole.drop_last() =~= steps_before);
                        }
                        assert(with_filter(whole, op) =~= steps_before + flushed_colors(
                            run_before.push(color),
                        ));
                    }
                },
            }
            i = i + 1;
        }
        assert(filters.ops@.take(i as int) =~= filters.ops@);
        match flush_materialized_color_run(&mut steps, &mut color_run) {
            Ok(()) => Ok(Some(Self { steps })),
            Err(error) => Err(error),
        }
    }

    pub fn steps(&self) -> (steps: &[MaterializedImageFilterStep])
        ensures
            steps@ == self.spec_steps(),
    {
        self.steps.as_slice()
    }
}

impl FilterList {
    /// The ordered steps of this list over a materialized image, or nothing for an empty list.
    pub fn materialized_image_filter_pipeline(&self) -> (result: Result<
        Option<MaterializedImageFilterPipeline>,
        Error,
    >)
        ensures
            if self.ops@.len() == 0 {
                result matches Ok(None)
            } else {
                result matches Ok(Some(pipeline)) && image_step_views(pipeline.spec_steps())
                    == materialized(self.ops@)
            },
    {
        MaterializedImageFilterPipeline::try_from_filter_list(self)
    }
}

/// The ordered steps of a filter list that has to filter something.
pub fn compile_materialized_image_filter_pipeline(filters: &FilterList) -> (result: Result<
    MaterializedImageFilterPipeline,
    Error,
>)
    ensures
        match result {
            Ok(pipeline) => filters.ops@.len() > 0 && image_step_views(pipeline.spec_steps())
                == materialized(filters.ops@),
            Err(error) => filters.ops@.len() == 0 && error == Error::Invalid(
                InvalidValue::EmptyMaterializedFilters,
            ),
        },
{
    match filters.materialized_image_filter_pipeline() {
        Ok(Some(pipeline)) => Ok(pipeline),
        Ok(None) => Err(Error::Invalid(InvalidValue::EmptyMaterializedFilters)),
        Err(error) => Err(error),
    }
}

/// The steps that a filter list is compiled to are those of its filters, in order: alone a blur or a
/// shadow is a step of its own with its own amounts, and a color filter a step of that filter.
pub proof fn law_lists_compile_to_their_filters(
    filters: &FilterList,
    pipeline: MaterializedImageFilterPipeline,
    op: FilterOpKind,
)
    requires
        call_ensures(
            compile_materialized_image_filter_pipeline,
            (filters,),
            Ok::<MaterializedImageFilterPipeline, Error>(pipeline),
        ),
    ensures
        image_steps_ops(image_step_views(pipeline.spec_steps())) == filters.ops@,
        pipeline.spec_steps().len() > 0,
        pipeline.spec_steps().len() <= filters.ops@.len(),
        filters.ops@ == seq![op] ==> pipeline.spec_steps().len() == 1 && match op {
            FilterOpKind::Blur(blur) => pipeline.spec_steps()[0]
                == MaterializedImageFilterStep::Blur(blur),
            FilterOpKind::DropShadow(shadow) => pipeline.spec_steps()[0]
                == MaterializedImageFilterStep::DropShadow(shadow),
            FilterOpKind::Color(color) => pipeline.spec_steps()[0] matches MaterializedImageFilterStep::ColorFilters(
                compiled,
            ) && compiled.spec_source_ops() == seq![color],
        },
{
    let steps = pipeline.spec_steps();
    law_materialized_steps_keep_order(filters.ops@);
    lemma_materialized_len(filters.ops@);
    assert(image_step_views(steps).len() == steps.len());
    if filters.ops@ == seq![op] {
        let none = filters.ops@.drop_last();
        assert(none =~= Seq::empty());
        assert(materialized(none) =~= Seq::empty());
        assert(filters.ops@.last() == op);
        assert(materialized(filters.ops@) == with_filter(materialized(none), op));
        assert(image_step_views(steps).len() == 1);
        assert(image_step_views(steps)[0] == steps[0]@);
    }
}

proof fn lemma_materialized_len(ops: Seq<FilterOpKind>)
    ensures
        materialized(ops).len() <= ops.len(),
        ops.len() > 0 ==> materialized(ops).len() > 0,
    decreases ops.len(),
{
    if ops.len() > 0 {
        lemma_materialized_len(ops.drop_last());
    }
}

/// Only an empty list has nothing to filter.
pub proof fn law_only_empty_lists_have_no_steps(
    filters: &FilterList,
    result: Result<MaterializedImageFilterPipeline, Error>,
    optional: Result<Option<MaterializedImageFilterPipeline>, Error>,
)
    requires
        call_ensures(compile_materialized_image_filter_pipeline, (filters,), result),
        call_ensures(FilterList::materialized_image_filter_pipeline, (filters,), optional),
    ensures
        result is Ok <==> filters.ops@.len() > 0,
        optional is Ok,
        optional->Ok_0 is None <==> filters.ops@.len() == 0,
{
}

/// A filter list has steps exactly when it has filters, and the steps taken together are those
/// filters, in order.
pub proof fn law_steps_are_the_filters_of_their_list(
    filters: &FilterList,
    result: Result<Option<MaterializedImageFilterPipeline>, Error>,
)
    requires
        call_ensures(MaterializedImageFilterPipeline::try_from_filter_list, (filters,), result),
    ensures
        result is Ok,
        result->Ok_0 is Some <==> filters.ops@.len() > 0,
        result->Ok_0 matches Some(pipeline) ==> image_steps_ops(
            image_step_views(pipeline.spec_steps()),
        ) == filters.ops@,
{
    law_materialized_steps_keep_order(filters.ops@);
}

} // verus!
