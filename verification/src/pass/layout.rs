//! What the pass keys of each subset bind.

use vstd::prelude::*;

use crate::error::Error;
use crate::pass::bound::{
    bind_both, bound_by, facts_found, lemma_bound_lengths, looks_up_any, may_bind_both, may_find,
    requests_any, Bound,
};
use crate::pass::mirrored::{C12BackdropBlurCacheRequest, EdgeParameters};
use crate::pass::model::{Rect, RuntimePassCacheKeys, RuntimeReadRole, RuntimeSamplingEdge};
use crate::pass::requests::{C11DropShadowCacheRequests, C12CopyBackdropCacheRequest};
use crate::pass::search::{count_where, lemma_count_step};
use crate::runtime::{Format, WorkingFormat};

verus! {

/// A texture format as far as a pipeline is specialized by it.
#[derive(Clone, Copy, Debug, PartialEq, Eq, Structural)]
pub enum TextureFormatKey {
    VelloCaptureRgba8Unorm,
    Working(WorkingFormat),
    Output(Format),
}

/// What the keys of a pass with one source bind.
#[derive(Clone, Copy, Debug, PartialEq, Eq, Structural)]
pub struct SourcePassFacts {
    pub working_format: TextureFormatKey,
    pub source_role: RuntimeReadRole,
    pub source_format: TextureFormatKey,
    pub target_format: TextureFormatKey,
    pub has_only_expected_sampler: bool,
    pub has_exact_data_bindings: bool,
}

/// What the passes of one kind bind, over both working formats.
#[derive(Clone, Copy, Debug, PartialEq, Eq, Structural)]
pub struct SourceLayout {
    pub realizes_both_working_formats: bool,
    pub binds_exact_source: bool,
    pub binds_only_expected_sampler: bool,
    pub binds_exact_data: bool,
    pub targets_only_the_working_format: bool,
}

/// How many passes work in a format.
pub open spec fn count_of_format(facts: Seq<SourcePassFacts>, format: WorkingFormat) -> nat {
    count_where(
        facts,
        |facts: SourcePassFacts| facts.working_format == TextureFormatKey::Working(format),
    )
}

/// Whether every pass samples `role`, in its working format.
pub open spec fn binds_source(facts: Seq<SourcePassFacts>, role: RuntimeReadRole) -> bool {
    forall|i: int|
        0 <= i < facts.len() ==> (#[trigger] facts[i]).source_role == role
            && facts[i].source_format == facts[i].working_format
}

/// The layout of passes that each sample `role`: one pass per working format.
pub open spec fn source_layout_of(facts: Seq<SourcePassFacts>, role: RuntimeReadRole) -> SourceLayout {
    SourceLayout {
        realizes_both_working_formats: facts.len() == 2 && count_of_format(
            facts,
            WorkingFormat::HighPrecision,
        ) == 1 && count_of_format(facts, WorkingFormat::ReducedPrecision) == 1,
        binds_exact_source: binds_source(facts, role),
        binds_only_expected_sampler: forall|i: int|
            0 <= i < facts.len() ==> (#[trigger] facts[i]).has_only_expected_sampler,
        binds_exact_data: forall|i: int|
            0 <= i < facts.len() ==> (#[trigger] facts[i]).has_exact_data_bindings,
        targets_only_the_working_format: forall|i: int|
            0 <= i < facts.len() ==> (#[trigger] facts[i]).target_format == facts[i].working_format,
    }
}

fn formats_counted(facts: &Vec<SourcePassFacts>, format: WorkingFormat) -> (count: usize)
    ensures
        count == count_of_format(facts@, format),
{
    let ghost chosen = |facts: SourcePassFacts|
        facts.working_format == TextureFormatKey::Working(format);
    let length: usize = facts.len();
    let mut count: usize = 0;
    let mut next: usize = 0;
    while next < length
        invariant
            next <= length,
            length == facts@.len(),
            chosen == (|facts: SourcePassFacts|
                facts.working_format == TextureFormatKey::Working(format)),
            count <= next,
            count == count_where(facts@.take(next as int), chosen),
        decreases length - next,
    {
        proof {
            lemma_count_step(facts@, chosen, next as int);
        }
        if facts[next].working_format == TextureFormatKey::Working(format) {
            count = count + 1;
        }
        next = next + 1;
    }
    proof {
        assert(facts@.take(length as int) =~= facts@);
    }
    count
}

/// What passes that each sample `role` bind.
pub fn source_layout(facts: &Vec<SourcePassFacts>, role: RuntimeReadRole) -> (layout: SourceLayout)
    ensures
        layout == source_layout_of(facts@, role),
{
    let length: usize = facts.len();
    let mut exact_source = true;
    let mut expected_sampler = true;
    let mut exact_data = true;
    let mut exact_target = true;
    let mut next: usize = 0;
    while next < length
        invariant
            next <= length,
            length == facts@.len(),
            exact_source == binds_source(facts@.take(next as int), role),
            expected_sampler == (forall|i: int|
                0 <= i < next ==> (#[trigger] facts@[i]).has_only_expected_sampler),
            exact_data == (forall|i: int|
                0 <= i < next ==> (#[trigger] facts@[i]).has_exact_data_bindings),
            exact_target == (forall|i: int|
                0 <= i < next ==> (#[trigger] facts@[i]).target_format == facts@[i].working_format),
        decreases length - next,
    {
        let item = facts[next];
        proof {
            let taken = facts@.take(next + 1);
            assert forall|i: int| 0 <= i < next implies taken[i] == #[trigger] facts@.take(
                next as int,
            )[i] by {}
            assert(taken[next as int] == item);
            if binds_source(taken, role) {
                assert forall|i: int| 0 <= i < next implies (#[trigger] facts@.take(
                    next as int,
                )[i]).source_role == role && facts@.take(next as int)[i].source_format
                    == facts@.take(next as int)[i].working_format by {
                    assert(taken[i] == facts@[i]);
                }
            }
        }
        exact_source = exact_source && item.source_role == role && item.source_format
            == item.working_format;
        expected_sampler = expected_sampler && item.has_only_expected_sampler;
        exact_data = exact_data && item.has_exact_data_bindings;
        exact_target = exact_target && item.target_format == item.working_format;
        next = next + 1;
    }
    proof {
        assert(facts@.take(length as int) =~= facts@);
    }
    SourceLayout {
        realizes_both_working_formats: length == 2 && formats_counted(
            facts,
            WorkingFormat::HighPrecision,
        ) == 1 && formats_counted(facts, WorkingFormat::ReducedPrecision) == 1,
        binds_exact_source: exact_source,
        binds_only_expected_sampler: expected_sampler,
        binds_exact_data: exact_data,
        targets_only_the_working_format: exact_target,
    }
}

/// A layout with the verdict on bindings that nothing samples.
#[derive(Clone, Copy, Debug, PartialEq, Eq, Structural)]
pub struct FilterLayoutObservation {
    pub layout: SourceLayout,
    pub contains_no_dummy_binding: bool,
}

/// What is observed where some pass has no facts.
pub open spec fn nothing_observed() -> FilterLayoutObservation {
    FilterLayoutObservation {
        layout: SourceLayout {
            realizes_both_working_formats: false,
            binds_exact_source: false,
            binds_only_expected_sampler: false,
            binds_exact_data: false,
            targets_only_the_working_format: false,
        },
        contains_no_dummy_binding: false,
    }
}

fn no_observation() -> (observation: FilterLayoutObservation)
    ensures
        observation == nothing_observed(),
{
    FilterLayoutObservation {
        layout: SourceLayout {
            realizes_both_working_formats: false,
            binds_exact_source: false,
            binds_only_expected_sampler: false,
            binds_exact_data: false,
            targets_only_the_working_format: false,
        },
        contains_no_dummy_binding: false,
    }
}

/// The observation of what color filter passes bind.
pub open spec fn color_layout_of(facts: Seq<SourcePassFacts>) -> FilterLayoutObservation {
    let layout = source_layout_of(facts, RuntimeReadRole::FilterSource);
    FilterLayoutObservation {
        layout,
        contains_no_dummy_binding: facts.len() == 2 && layout.binds_exact_source
            && layout.binds_only_expected_sampler && layout.binds_exact_data,
    }
}

/// What is observed where these facts are bound; nothing, where some pass has none.
pub open spec fn color_layout_observed<Q>(
    bound: Result<Option<Bound<Q, SourcePassFacts>>, Error>,
) -> Result<FilterLayoutObservation, Error> {
    match bound {
        Err(error) => Err(error),
        Ok(None) => Ok(nothing_observed()),
        Ok(Some(bound)) => Ok(color_layout_of(bound.facts)),
    }
}

/// What the color filter passes of both working formats bind. `facts_of` looks up what keys bind.
pub fn c10_color_filter_layout_observation<
    R: Fn(WorkingFormat) -> Result<Vec<RuntimePassCacheKeys>, Error>,
    F: Fn(RuntimePassCacheKeys) -> Option<SourcePassFacts>,
>(request: &R, facts_of: &F) -> (observation: Result<FilterLayoutObservation, Error>)
    requires
        requests_any(*request),
        looks_up_any(*facts_of),
    ensures
        exists|bound: Result<Option<Bound<RuntimePassCacheKeys, SourcePassFacts>>, Error>| #[trigger]
            may_bind_both(*request, *facts_of, bound) && observation == color_layout_observed(bound),
{
    let bindings = bind_both(request, facts_of);
    assert(may_bind_both(*request, *facts_of, bound_by(bindings)));
    match &bindings {
        Err(error) => Err(*error),
        Ok(None) => Ok(no_observation()),
        Ok(Some((_, facts))) => {
            let layout = source_layout(facts, RuntimeReadRole::FilterSource);
            Ok(
                FilterLayoutObservation {
                    layout,
                    contains_no_dummy_binding: facts.len() == 2 && layout.binds_exact_source
                        && layout.binds_only_expected_sampler && layout.binds_exact_data,
                },
            )
        },
    }
}

/// The observation of what shadow colorization passes bind.
pub open spec fn shadow_layout_of(facts: Seq<SourcePassFacts>) -> FilterLayoutObservation {
    let layout = source_layout_of(facts, RuntimeReadRole::BlurredSourceAlpha);
    FilterLayoutObservation {
        layout,
        contains_no_dummy_binding: layout.realizes_both_working_formats && layout.binds_exact_source
            && layout.binds_only_expected_sampler && layout.binds_exact_data,
    }
}

/// Whether this is what the colorization of a drop shadow of one working format may bind.
pub open spec fn may_colorize<
    R: Fn(WorkingFormat) -> Result<C11DropShadowCacheRequests, Error>,
    F: Fn(RuntimePassCacheKeys) -> Option<SourcePassFacts>,
>(
    request: R,
    facts_of: F,
    format: WorkingFormat,
    bound: Result<Option<SourcePassFacts>, Error>,
) -> bool {
    exists|answer: Result<C11DropShadowCacheRequests, Error>|
        {
            &&& #[trigger] call_ensures(request, (format,), answer)
            &&& match answer {
                Err(error) => bound == Err::<Option<SourcePassFacts>, Error>(error),
                Ok(requests) => bound matches Ok(facts) && call_ensures(
                    facts_of,
                    (requests.colorize,),
                    facts,
                ),
            }
        }
}

fn colorize<
    R: Fn(WorkingFormat) -> Result<C11DropShadowCacheRequests, Error>,
    F: Fn(RuntimePassCacheKeys) -> Option<SourcePassFacts>,
>(request: &R, facts_of: &F, format: WorkingFormat) -> (bound: Result<
    Option<SourcePassFacts>,
    Error,
>)
    requires
        call_requires(*request, (format,)),
        looks_up_any(*facts_of),
    ensures
        may_colorize(*request, *facts_of, format, bound),
{
    match request(format) {
        Err(error) => Err(error),
        Ok(requests) => Ok(facts_of(requests.colorize)),
    }
}

/// What the shadow colorization passes of both working formats bind; nothing, where one has no
/// facts. What is lacking in high precision is lacking in all.
pub fn c11_drop_shadow_layout_observation<
    R: Fn(WorkingFormat) -> Result<C11DropShadowCacheRequests, Error>,
    F: Fn(RuntimePassCacheKeys) -> Option<SourcePassFacts>,
>(request: &R, facts_of: &F) -> (observation: Result<FilterLayoutObservation, Error>)
    requires
        forall|working_format: WorkingFormat| #[trigger] call_requires(*request, (working_format,)),
        looks_up_any(*facts_of),
    ensures
        exists|high: Result<Option<SourcePassFacts>, Error>|
            {
                &&& #[trigger] may_colorize(*request, *facts_of, WorkingFormat::HighPrecision, high)
                &&& match high {
                    Err(error) => observation == Err::<FilterLayoutObservation, Error>(error),
                    Ok(None) => observation == Ok::<FilterLayoutObservation, Error>(
                        nothing_observed(),
                    ),
                    Ok(Some(first)) => exists|reduced: Result<Option<SourcePassFacts>, Error>|
                        {
                            &&& #[trigger] may_colorize(
                                *request,
                                *facts_of,
                                WorkingFormat::ReducedPrecision,
                                reduced,
                            )
                            &&& observation == match reduced {
                                Err(error) => Err::<FilterLayoutObservation, Error>(error),
                                Ok(None) => Ok(nothing_observed()),
                                Ok(Some(second)) => Ok(shadow_layout_of(seq![first, second])),
                            }
                        },
                }
            },
{
    let high = colorize(request, facts_of, WorkingFormat::HighPrecision);
    let first = match high {
        Err(error) => return Err(error),
        Ok(None) => return Ok(no_observation()),
        Ok(Some(first)) => first,
    };
    let reduced = colorize(request, facts_of, WorkingFormat::ReducedPrecision);
    let second = match reduced {
        Err(error) => return Err(error),
        Ok(None) => return Ok(no_observation()),
        Ok(Some(second)) => second,
    };
    let facts = vec![first, second];
    assert(facts@ =~= seq![first, second]);
    let layout = source_layout(&facts, RuntimeReadRole::BlurredSourceAlpha);
    Ok(
        FilterLayoutObservation {
            layout,
            contains_no_dummy_binding: layout.realizes_both_working_formats
                && layout.binds_exact_source && layout.binds_only_expected_sampler
                && layout.binds_exact_data,
        },
    )
}

/// What the backdrop copies of both working formats bind.
#[derive(Clone, Copy, Debug, PartialEq, Eq, Structural)]
pub struct C12CopyBackdropLayoutObservation {
    pub layout: SourceLayout,
    pub source_and_result_are_distinct: bool,
}

/// The observation of what backdrop copies bind.
pub open spec fn copy_layout_of(
    requests: Seq<C12CopyBackdropCacheRequest>,
    facts: Seq<SourcePassFacts>,
) -> C12CopyBackdropLayoutObservation {
    C12CopyBackdropLayoutObservation {
        layout: source_layout_of(facts, RuntimeReadRole::CompletedParent),
        source_and_result_are_distinct: forall|i: int|
            0 <= i < requests.len() ==> (#[trigger] requests[i]).source_and_result_are_distinct,
    }
}

pub fn c12_copy_backdrop_layout_facts(
    requests: &Vec<C12CopyBackdropCacheRequest>,
    facts: &Vec<SourcePassFacts>,
) -> (observation: C12CopyBackdropLayoutObservation)
    ensures
        observation == copy_layout_of(requests@, facts@),
{
    let length: usize = requests.len();
    let mut distinct = true;
    let mut next: usize = 0;
    while next < length
        invariant
            next <= length,
            length == requests@.len(),
            distinct == (forall|i: int|
                0 <= i < next ==> (#[trigger] requests@[i]).source_and_result_are_distinct),
        decreases length - next,
    {
        distinct = distinct && requests[next].source_and_result_are_distinct;
        next = next + 1;
    }
    C12CopyBackdropLayoutObservation {
        layout: source_layout(facts, RuntimeReadRole::CompletedParent),
        source_and_result_are_distinct: distinct,
    }
}

/// A request of high precision and one of reduced precision, in order.
pub open spec fn pair_of<T>(high: T, reduced: T) -> Seq<T> {
    seq![high, reduced]
}

/// What the backdrop copies of both working formats bind. A failed request is reported; copies
/// whose keys bind nothing known are passed over.
pub fn c12_copy_backdrop_layout_observation<
    R: Fn(WorkingFormat) -> Result<C12CopyBackdropCacheRequest, Error>,
    F: Fn(RuntimePassCacheKeys) -> Option<SourcePassFacts>,
>(request: &R, facts_of: &F) -> (observation: Result<C12CopyBackdropLayoutObservation, Error>)
    requires
        forall|working_format: WorkingFormat| #[trigger] call_requires(*request, (working_format,)),
        looks_up_any(*facts_of),
    ensures
        exists|high: Result<C12CopyBackdropCacheRequest, Error>|
            {
                &&& #[trigger] call_ensures(*request, (WorkingFormat::HighPrecision,), high)
                &&& match high {
                    Err(error) => observation == Err::<C12CopyBackdropLayoutObservation, Error>(
                        error,
                    ),
                    Ok(first) => exists|reduced: Result<C12CopyBackdropCacheRequest, Error>|
                        {
                            &&& #[trigger] call_ensures(
                                *request,
                                (WorkingFormat::ReducedPrecision,),
                                reduced,
                            )
                            &&& match reduced {
                                Err(error) => observation == Err::<
                                    C12CopyBackdropLayoutObservation,
                                    Error,
                                >(error),
                                Ok(second) => exists|found: Seq<SourcePassFacts>|
                                    {
                                        &&& #[trigger] may_find(
                                            *facts_of,
                                            pair_of(first, second),
                                            found,
                                        )
                                        &&& observation == Ok::<
                                            C12CopyBackdropLayoutObservation,
                                            Error,
                                        >(copy_layout_of(pair_of(first, second), found))
                                    },
                            }
                        },
                }
            },
{
    let high = request(WorkingFormat::HighPrecision);
    assert(call_ensures(*request, (WorkingFormat::HighPrecision,), high));
    let first = match high {
        Ok(first) => first,
        Err(error) => return Err(error),
    };
    let reduced = request(WorkingFormat::ReducedPrecision);
    assert(call_ensures(*request, (WorkingFormat::ReducedPrecision,), reduced));
    let second = match reduced {
        Ok(second) => second,
        Err(error) => return Err(error),
    };
    let requests = vec![first, second];
    assert(requests@ =~= pair_of(first, second));
    let found = facts_found(&requests, facts_of);
    assert(may_find(*facts_of, pair_of(first, second), found@));
    Ok(c12_copy_backdrop_layout_facts(&requests, &found))
}

/// What the keys of one blur pass bind.
#[derive(Clone, Copy, Debug, PartialEq, Eq, Structural)]
pub struct BlurPassFacts {
    pub bindings: SourcePassFacts,
    pub horizontal: bool,
    pub source_alpha: bool,
}

pub open spec fn blur_bindings(facts: Seq<BlurPassFacts>) -> Seq<SourcePassFacts> {
    facts.map_values(|facts: BlurPassFacts| facts.bindings)
}

/// How many blur passes have a working format, an axis and an input.
pub open spec fn blur_count(
    facts: Seq<BlurPassFacts>,
    format: WorkingFormat,
    horizontal: bool,
    source_alpha: bool,
) -> nat {
    count_where(
        facts,
        |facts: BlurPassFacts|
            facts.bindings.working_format == TextureFormatKey::Working(format) && facts.horizontal
                == horizontal && facts.source_alpha == source_alpha,
    )
}

/// Whether every axis and input has exactly one pass in a working format.
pub open spec fn realizes_format(facts: Seq<BlurPassFacts>, format: WorkingFormat) -> bool {
    &&& blur_count(facts, format, true, true) == 1
    &&& blur_count(facts, format, true, false) == 1
    &&& blur_count(facts, format, false, true) == 1
    &&& blur_count(facts, format, false, false) == 1
}

/// Whether there are eight passes, one for every axis, input and working format.
pub open spec fn realizes_every_blur(facts: Seq<BlurPassFacts>) -> bool {
    &&& facts.len() == 8
    &&& realizes_format(facts, WorkingFormat::HighPrecision)
    &&& realizes_format(facts, WorkingFormat::ReducedPrecision)
}

fn blurs_counted(
    facts: &Vec<BlurPassFacts>,
    format: WorkingFormat,
    horizontal: bool,
    source_alpha: bool,
) -> (count: usize)
    ensures
        count == blur_count(facts@, format, horizontal, source_alpha),
{
    let ghost chosen = |facts: BlurPassFacts|
        facts.bindings.working_format == TextureFormatKey::Working(format) && facts.horizontal
            == horizontal && facts.source_alpha == source_alpha;
    let length: usize = facts.len();
    let mut count: usize = 0;
    let mut next: usize = 0;
    while next < length
        invariant
            next <= length,
            length == facts@.len(),
            chosen == (|facts: BlurPassFacts|
                facts.bindings.working_format == TextureFormatKey::Working(format)
                    && facts.horizontal == horizontal && facts.source_alpha == source_alpha),
            count <= next,
            count == count_where(facts@.take(next as int), chosen),
        decreases length - next,
    {
        proof {
            lemma_count_step(facts@, chosen, next as int);
        }
        let item = facts[next];
        if item.bindings.working_format == TextureFormatKey::Working(format) && item.horizontal
            == horizontal && item.source_alpha == source_alpha {
            count = count + 1;
        }
        next = next + 1;
    }
    proof {
        assert(facts@.take(length as int) =~= facts@);
    }
    count
}

fn format_is_realized(facts: &Vec<BlurPassFacts>, format: WorkingFormat) -> (realized: bool)
    ensures
        realized == realizes_format(facts@, format),
{
    blurs_counted(facts, format, true, true) == 1 && blurs_counted(facts, format, true, false) == 1
        && blurs_counted(facts, format, false, true) == 1 && blurs_counted(
        facts,
        format,
        false,
        false,
    ) == 1
}

fn every_blur_is_realized(facts: &Vec<BlurPassFacts>) -> (realized: bool)
    ensures
        realized == realizes_every_blur(facts@),
{
    facts.len() == 8 && format_is_realized(facts, WorkingFormat::HighPrecision)
        && format_is_realized(facts, WorkingFormat::ReducedPrecision)
}

fn bindings_of(facts: &Vec<BlurPassFacts>) -> (bindings: Vec<SourcePassFacts>)
    ensures
        bindings@ == blur_bindings(facts@),
{
    let length: usize = facts.len();
    let mut bindings: Vec<SourcePassFacts> = Vec::with_capacity(length);
    let mut next: usize = 0;
    while next < length
        invariant
            next <= length,
            length == facts@.len(),
            bindings@.len() == next,
            forall|i: int| 0 <= i < next ==> #[trigger] bindings@[i] == facts@[i].bindings,
        decreases length - next,
    {
        bindings.push(facts[next].bindings);
        next = next + 1;
    }
    proof {
        assert(bindings@ =~= blur_bindings(facts@));
    }
    bindings
}

/// What the blur passes bind.
#[derive(Clone, Copy, Debug, PartialEq, Eq, Structural)]
pub struct C11BlurLayoutObservation {
    pub realizes_all_axis_input_and_precision_keys: bool,
    pub binds_exact_working_source: bool,
    pub binds_only_one_linear_sampler: bool,
    pub binds_spatial_and_read_only_kernel: bool,
    pub targets_only_the_working_format: bool,
    pub contains_no_dummy_binding: bool,
}

pub open spec fn blur_layout_of(facts: Seq<BlurPassFacts>) -> C11BlurLayoutObservation {
    let layout = source_layout_of(blur_bindings(facts), RuntimeReadRole::FilterSource);
    C11BlurLayoutObservation {
        realizes_all_axis_input_and_precision_keys: realizes_every_blur(facts),
        binds_exact_working_source: layout.binds_exact_source,
        binds_only_one_linear_sampler: layout.binds_only_expected_sampler,
        binds_spatial_and_read_only_kernel: layout.binds_exact_data,
        targets_only_the_working_format: layout.targets_only_the_working_format,
        contains_no_dummy_binding: realizes_every_blur(facts) && layout.binds_exact_source
            && layout.binds_only_expected_sampler && layout.binds_exact_data,
    }
}

/// What is observed where some blur pass has no facts.
pub open spec fn no_blur_observed() -> C11BlurLayoutObservation {
    C11BlurLayoutObservation {
        realizes_all_axis_input_and_precision_keys: false,
        binds_exact_working_source: false,
        binds_only_one_linear_sampler: false,
        binds_spatial_and_read_only_kernel: false,
        targets_only_the_working_format: false,
        contains_no_dummy_binding: false,
    }
}

pub open spec fn blur_layout_observed<Q>(bound: Result<Option<Bound<Q, BlurPassFacts>>, Error>) ->
    Result<C11BlurLayoutObservation, Error> {
    match bound {
        Err(error) => Err(error),
        Ok(None) => Ok(no_blur_observed()),
        Ok(Some(bound)) => Ok(blur_layout_of(bound.facts)),
    }
}

/// What the blur passes of both working formats bind; nothing, where some pass has no facts.
pub fn c11_blur_layout_observation<
    R: Fn(WorkingFormat) -> Result<Vec<RuntimePassCacheKeys>, Error>,
    F: Fn(RuntimePassCacheKeys) -> Option<BlurPassFacts>,
>(request: &R, facts_of: &F) -> (observation: Result<C11BlurLayoutObservation, Error>)
    requires
        requests_any(*request),
        looks_up_any(*facts_of),
    ensures
        exists|bound: Result<Option<Bound<RuntimePassCacheKeys, BlurPassFacts>>, Error>| #[trigger]
            may_bind_both(*request, *facts_of, bound) && observation == blur_layout_observed(bound),
{
    let bindings = bind_both(request, facts_of);
    assert(may_bind_both(*request, *facts_of, bound_by(bindings)));
    match &bindings {
        Err(error) => Err(*error),
        Ok(None) => Ok(
            C11BlurLayoutObservation {
                realizes_all_axis_input_and_precision_keys: false,
                binds_exact_working_source: false,
                binds_only_one_linear_sampler: false,
                binds_spatial_and_read_only_kernel: false,
                targets_only_the_working_format: false,
                contains_no_dummy_binding: false,
            },
        ),
        Ok(Some((_, every))) => {
            let bindings = bindings_of(every);
            let layout = source_layout(&bindings, RuntimeReadRole::FilterSource);
            let realizes = every_blur_is_realized(every);
            Ok(
                C11BlurLayoutObservation {
                    realizes_all_axis_input_and_precision_keys: realizes,
                    binds_exact_working_source: layout.binds_exact_source,
                    binds_only_one_linear_sampler: layout.binds_only_expected_sampler,
                    binds_spatial_and_read_only_kernel: layout.binds_exact_data,
                    targets_only_the_working_format: layout.targets_only_the_working_format,
                    contains_no_dummy_binding: realizes && layout.binds_exact_source
                        && layout.binds_only_expected_sampler && layout.binds_exact_data,
                },
            )
        },
    }
}

/// What the mirrored blur passes bind.
#[derive(Clone, Copy, Debug, PartialEq, Eq, Structural)]
pub struct C12BackdropBlurLayoutObservation {
    pub realizes_all_axis_input_precision_and_edge_keys: bool,
    pub binds_exact_working_source: bool,
    pub binds_only_one_linear_mirror_sampler: bool,
    pub binds_spatial_kernel_and_semantic_bounds: bool,
    pub targets_only_the_working_format: bool,
    pub semantic_bounds_match_every_mirrored_read: bool,
    pub shader_mirrors_logical_bounds_before_texture_mapping: bool,
}

/// Whether each request asks for the axis and the input that its keys stand for.
pub open spec fn requests_match(
    requests: Seq<C12BackdropBlurCacheRequest>,
    facts: Seq<BlurPassFacts>,
) -> bool {
    forall|i: int|
        0 <= i < requests.len() ==> (#[trigger] requests[i]).horizontal == facts[i].horizontal
            && requests[i].source_alpha == facts[i].source_alpha
}

/// Whether a request's read mirrors at its bounds, and its parameters are those of the bounds.
pub open spec fn mirrors_its_bounds(
    request: C12BackdropBlurCacheRequest,
    expected: EdgeParameters,
) -> bool {
    &&& request.read_edge.spec_same_as(
        RuntimeSamplingEdge::SemanticBorderMirror(request.semantic_bounds),
    )
    &&& expected matches Ok(parameters) && request.edge_parameters == parameters
}

/// Whether it may be said of a request that it mirrors at its bounds. `parameters_of` gives bounds
/// as a shader reads them.
pub open spec fn may_mirror<E: Fn(Rect) -> EdgeParameters>(
    parameters_of: E,
    request: C12BackdropBlurCacheRequest,
    mirrors: bool,
) -> bool {
    exists|expected: EdgeParameters| #[trigger]
        call_ensures(parameters_of, (request.semantic_bounds,), expected) && mirrors
            == mirrors_its_bounds(request, expected)
}

/// Whether an observation that all requests mirror at their bounds is true to what is said of each.
pub open spec fn mirrored_as_observed<E: Fn(Rect) -> EdgeParameters>(
    parameters_of: E,
    requests: Seq<C12BackdropBlurCacheRequest>,
    mirrored: bool,
) -> bool {
    if mirrored {
        forall|i: int|
            0 <= i < requests.len() ==> may_mirror(parameters_of, #[trigger] requests[i], true)
    } else {
        exists|i: int|
            0 <= i < requests.len() && may_mirror(parameters_of, #[trigger] requests[i], false)
    }
}

fn all_mirror<E: Fn(Rect) -> EdgeParameters>(
    requests: &Vec<C12BackdropBlurCacheRequest>,
    parameters_of: &E,
) -> (mirrored: bool)
    requires
        forall|bounds: Rect| #[trigger] call_requires(*parameters_of, (bounds,)),
    ensures
        mirrored_as_observed(*parameters_of, requests@, mirrored),
{
    let length: usize = requests.len();
    let mut next: usize = 0;
    while next < length
        invariant
            next <= length,
            length == requests@.len(),
            forall|bounds: Rect| #[trigger] call_requires(*parameters_of, (bounds,)),
            forall|i: int|
                0 <= i < next ==> may_mirror(*parameters_of, #[trigger] requests@[i], true),
        decreases length - next,
    {
        let request = requests[next];
        let expected = parameters_of(request.semantic_bounds);
        let parameters_match = match expected {
            Ok(parameters) => request.edge_parameters == parameters,
            Err(_) => false,
        };
        let mirrors = request.read_edge.same_as(
            RuntimeSamplingEdge::SemanticBorderMirror(request.semantic_bounds),
        ) && parameters_match;
        assert(mirrors == mirrors_its_bounds(request, expected));
        assert(may_mirror(*parameters_of, requests@[next as int], mirrors));
        if !mirrors {
            return false;
        }
        next = next + 1;
    }
    true
}

fn requests_fit(requests: &Vec<C12BackdropBlurCacheRequest>, facts: &Vec<BlurPassFacts>) -> (fit:
    bool)
    requires
        requests@.len() == facts@.len(),
    ensures
        fit == requests_match(requests@, facts@),
{
    let length: usize = requests.len();
    let mut next: usize = 0;
    while next < length
        invariant
            next <= length,
            length == requests@.len(),
            facts@.len() == length,
            forall|i: int|
                0 <= i < next ==> (#[trigger] requests@[i]).horizontal == facts@[i].horizontal
                    && requests@[i].source_alpha == facts@[i].source_alpha,
        decreases length - next,
    {
        let request = requests[next];
        if request.horizontal != facts[next].horizontal || request.source_alpha
            != facts[next].source_alpha {
            assert(requests@[next as int].horizontal != facts@[next as int].horizontal
                || requests@[next as int].source_alpha != facts@[next as int].source_alpha);
            return false;
        }
        next = next + 1;
    }
    true
}

/// The observation of what mirrored blur passes bind.
pub open spec fn mirrored_layout_of(
    bound: Bound<C12BackdropBlurCacheRequest, BlurPassFacts>,
    mirrored: bool,
    shader_mirrors_first: bool,
) -> C12BackdropBlurLayoutObservation {
    let layout = blur_layout_of(bound.facts);
    C12BackdropBlurLayoutObservation {
        realizes_all_axis_input_precision_and_edge_keys: realizes_every_blur(bound.facts)
            && requests_match(bound.requests, bound.facts),
        binds_exact_working_source: layout.binds_exact_working_source,
        binds_only_one_linear_mirror_sampler: layout.binds_only_one_linear_sampler,
        binds_spatial_kernel_and_semantic_bounds: layout.binds_spatial_and_read_only_kernel,
        targets_only_the_working_format: layout.targets_only_the_working_format,
        semantic_bounds_match_every_mirrored_read: mirrored,
        shader_mirrors_logical_bounds_before_texture_mapping: shader_mirrors_first,
    }
}

/// What is observed where some mirrored blur pass has no facts.
pub open spec fn no_mirrored_observed() -> C12BackdropBlurLayoutObservation {
    C12BackdropBlurLayoutObservation {
        realizes_all_axis_input_precision_and_edge_keys: false,
        binds_exact_working_source: false,
        binds_only_one_linear_mirror_sampler: false,
        binds_spatial_kernel_and_semantic_bounds: false,
        targets_only_the_working_format: false,
        semantic_bounds_match_every_mirrored_read: false,
        shader_mirrors_logical_bounds_before_texture_mapping: false,
    }
}

/// Whether an observation is true of what mirrored blur passes bind.
pub open spec fn is_mirrored_layout<E: Fn(Rect) -> EdgeParameters>(
    observation: Result<C12BackdropBlurLayoutObservation, Error>,
    bound: Result<Option<Bound<C12BackdropBlurCacheRequest, BlurPassFacts>>, Error>,
    parameters_of: E,
    shader_mirrors_first: bool,
) -> bool {
    match bound {
        Err(error) => observation == Err::<C12BackdropBlurLayoutObservation, Error>(error),
        Ok(None) => observation == Ok::<C12BackdropBlurLayoutObservation, Error>(
            no_mirrored_observed(),
        ),
        Ok(Some(bound)) => exists|mirrored: bool| #[trigger]
            mirrored_as_observed(parameters_of, bound.requests, mirrored) && observation == Ok::<
                C12BackdropBlurLayoutObservation,
                Error,
            >(mirrored_layout_of(bound, mirrored, shader_mirrors_first)),
    }
}

/// What the mirrored blur passes of both working formats bind; nothing, where some pass has no
/// facts. `shader_mirrors_first` says whether the shader mirrors before it maps to texels.
pub fn c12_backdrop_blur_layout_observation<
    R: Fn(WorkingFormat) -> Result<Vec<C12BackdropBlurCacheRequest>, Error>,
    F: Fn(RuntimePassCacheKeys) -> Option<BlurPassFacts>,
    E: Fn(Rect) -> EdgeParameters,
>(request: &R, facts_of: &F, parameters_of: &E, shader_mirrors_first: bool) -> (observation: Result<
    C12BackdropBlurLayoutObservation,
    Error,
>)
    requires
        requests_any(*request),
        looks_up_any(*facts_of),
        forall|bounds: Rect| #[trigger] call_requires(*parameters_of, (bounds,)),
    ensures
        exists|bound: Result<Option<Bound<C12BackdropBlurCacheRequest, BlurPassFacts>>, Error>|
            #[trigger]
            may_bind_both(*request, *facts_of, bound) && is_mirrored_layout(
                observation,
                bound,
                *parameters_of,
                shader_mirrors_first,
            ),
{
    let bindings = bind_both(request, facts_of);
    assert(may_bind_both(*request, *facts_of, bound_by(bindings)));
    match &bindings {
        Err(error) => Err(*error),
        Ok(None) => Ok(
            C12BackdropBlurLayoutObservation {
                realizes_all_axis_input_precision_and_edge_keys: false,
                binds_exact_working_source: false,
                binds_only_one_linear_mirror_sampler: false,
                binds_spatial_kernel_and_semantic_bounds: false,
                targets_only_the_working_format: false,
                semantic_bounds_match_every_mirrored_read: false,
                shader_mirrors_logical_bounds_before_texture_mapping: false,
            },
        ),
        Ok(Some((requests, every))) => {
            proof {
                lemma_bound_lengths(*request, *facts_of, bound_by(bindings));
            }
            let mirrored = all_mirror(requests, parameters_of);
            let layout_facts = bindings_of(every);
            let layout = source_layout(&layout_facts, RuntimeReadRole::FilterSource);
            let observation = C12BackdropBlurLayoutObservation {
                realizes_all_axis_input_precision_and_edge_keys: every_blur_is_realized(every)
                    && requests_fit(requests, every),
                binds_exact_working_source: layout.binds_exact_source,
                binds_only_one_linear_mirror_sampler: layout.binds_only_expected_sampler,
                binds_spatial_kernel_and_semantic_bounds: layout.binds_exact_data,
                targets_only_the_working_format: layout.targets_only_the_working_format,
                semantic_bounds_match_every_mirrored_read: mirrored,
                shader_mirrors_logical_bounds_before_texture_mapping: shader_mirrors_first,
            };
            assert(mirrored_as_observed(*parameters_of, requests@, mirrored));
            Ok(observation)
        },
    }
}

/// A layout says of every pass what it says of all: that it samples the role, in its working format,
/// binds what is expected and writes its working format. It realizes both formats exactly if there are
/// two passes, one of each.
pub proof fn law_layouts_hold_of_every_pass(
    facts: &Vec<SourcePassFacts>,
    role: RuntimeReadRole,
    layout: SourceLayout,
    i: int,
)
    requires
        call_ensures(source_layout, (facts, role), layout),
        0 <= i < facts@.len(),
    ensures
        ({
            let pass = facts@[i];
            let samples_role = pass.source_role == role && pass.source_format
                == pass.working_format;
            &&& layout.binds_exact_source ==> samples_role
            &&& layout.binds_only_expected_sampler ==> pass.has_only_expected_sampler
            &&& layout.binds_exact_data ==> pass.has_exact_data_bindings
            &&& layout.targets_only_the_working_format ==> pass.target_format == pass.working_format
            &&& facts@.len() == 1 ==> {
                &&& layout.binds_exact_source == samples_role
                &&& layout.binds_only_expected_sampler == pass.has_only_expected_sampler
                &&& layout.binds_exact_data == pass.has_exact_data_bindings
                &&& layout.targets_only_the_working_format == (pass.target_format
                    == pass.working_format)
            }
        }),
        layout.realizes_both_working_formats ==> facts@.len() == 2,
        facts@.len() == 2 ==> (layout.realizes_both_working_formats <==> {
            ||| {
                &&& facts@[0].working_format == TextureFormatKey::Working(
                    WorkingFormat::HighPrecision,
                )
                &&& facts@[1].working_format == TextureFormatKey::Working(
                    WorkingFormat::ReducedPrecision,
                )
            }
            ||| {
                &&& facts@[0].working_format == TextureFormatKey::Working(
                    WorkingFormat::ReducedPrecision,
                )
                &&& facts@[1].working_format == TextureFormatKey::Working(
                    WorkingFormat::HighPrecision,
                )
            }
        }),
{
    assert(facts@.len() == 1 ==> i == 0);
    if facts@.len() == 2 {
        let high = |facts: SourcePassFacts|
            facts.working_format == TextureFormatKey::Working(WorkingFormat::HighPrecision);
        let reduced = |facts: SourcePassFacts|
            facts.working_format == TextureFormatKey::Working(WorkingFormat::ReducedPrecision);
        lemma_count_of_two(facts@, high);
        lemma_count_of_two(facts@, reduced);
    }
}

/// Of two items, both, one or none are counted.
proof fn lemma_count_of_two<T>(items: Seq<T>, chosen: spec_fn(T) -> bool)
    requires
        items.len() == 2,
    ensures
        count_where(items, chosen) == (if chosen(items[0]) {
            1nat
        } else {
            0
        }) + (if chosen(items[1]) {
            1nat
        } else {
            0
        }),
{
    let one = items.drop_last();
    assert(one.drop_last() =~= Seq::empty());
    assert(count_where(one.drop_last(), chosen) == 0);
    assert(one.last() == items[0]);
    assert(count_where(one, chosen) == (if chosen(items[0]) {
        1nat
    } else {
        0
    }));
}

/// The layout of backdrop copies is that of passes that sample the completed parent; their images are
/// distinct only if every request says so.
pub proof fn law_backdrop_copies_sample_their_parent(
    requests: &Vec<C12CopyBackdropCacheRequest>,
    facts: &Vec<SourcePassFacts>,
    observed: C12CopyBackdropLayoutObservation,
    i: int,
    j: int,
)
    requires
        call_ensures(c12_copy_backdrop_layout_facts, (requests, facts), observed),
        0 <= i < requests@.len(),
        0 <= j < facts@.len(),
    ensures
        observed.source_and_result_are_distinct ==> requests@[i].source_and_result_are_distinct,
        requests@.len() == 1 ==> observed.source_and_result_are_distinct
            == requests@[0].source_and_result_are_distinct,
        observed.layout.binds_exact_source ==> facts@[j].source_role is CompletedParent
            && facts@[j].source_format == facts@[j].working_format,
        observed.layout.targets_only_the_working_format ==> facts@[j].target_format
            == facts@[j].working_format,
        observed.layout.binds_exact_data ==> facts@[j].has_exact_data_bindings,
        observed.layout.binds_only_expected_sampler ==> facts@[j].has_only_expected_sampler,
{
}

/// Where color filters, shadows, blurs and mirrored blurs bind something known, what is observed of all
/// holds of each: it samples the source that its kind reads, in its working format.
pub proof fn law_filters_bind_their_sources(
    facts: Seq<SourcePassFacts>,
    blurs: Seq<BlurPassFacts>,
    requests: Seq<C12BackdropBlurCacheRequest>,
    mirrored: bool,
    shader_mirrors_first: bool,
    i: int,
    j: int,
)
    requires
        0 <= i < facts.len(),
        0 <= j < blurs.len(),
        requests.len() == blurs.len(),
    ensures
        ({
            let color = color_layout_of(facts);
            let shadow = shadow_layout_of(facts);
            let blur = blur_layout_of(blurs);
            let mirrors = mirrored_layout_of(
                Bound { requests, facts: blurs },
                mirrored,
                shader_mirrors_first,
            );
            &&& color.layout.binds_exact_source ==> facts[i].source_role is FilterSource
                && facts[i].source_format == facts[i].working_format
            &&& shadow.layout.binds_exact_source ==> facts[i].source_role is BlurredSourceAlpha
                && facts[i].source_format == facts[i].working_format
            &&& color.contains_no_dummy_binding ==> facts.len() == 2
                && facts[i].source_role is FilterSource && facts[i].has_only_expected_sampler
                && facts[i].has_exact_data_bindings
            &&& shadow.contains_no_dummy_binding ==> facts.len() == 2
                && facts[i].source_role is BlurredSourceAlpha && facts[i].has_only_expected_sampler
                && facts[i].has_exact_data_bindings
            &&& blur.binds_exact_working_source ==> blurs[j].bindings.source_role is FilterSource
                && blurs[j].bindings.source_format == blurs[j].bindings.working_format
            &&& blur.binds_only_one_linear_sampler ==> blurs[j].bindings.has_only_expected_sampler
            &&& blur.binds_spatial_and_read_only_kernel
                ==> blurs[j].bindings.has_exact_data_bindings
            &&& blur.targets_only_the_working_format ==> blurs[j].bindings.target_format
                == blurs[j].bindings.working_format
            &&& blur.contains_no_dummy_binding == (blur.realizes_all_axis_input_and_precision_keys
                && blur.binds_exact_working_source && blur.binds_only_one_linear_sampler
                && blur.binds_spatial_and_read_only_kernel)
            &&& blur.realizes_all_axis_input_and_precision_keys ==> blurs.len() == 8
            &&& mirrors.realizes_all_axis_input_precision_and_edge_keys
                ==> blur.realizes_all_axis_input_and_precision_keys && requests[j].horizontal
                == blurs[j].horizontal && requests[j].source_alpha == blurs[j].source_alpha
            &&& mirrors.binds_exact_working_source == blur.binds_exact_working_source
            &&& mirrors.binds_only_one_linear_mirror_sampler == blur.binds_only_one_linear_sampler
            &&& mirrors.binds_spatial_kernel_and_semantic_bounds
                == blur.binds_spatial_and_read_only_kernel
            &&& mirrors.targets_only_the_working_format == blur.targets_only_the_working_format
            &&& mirrors.semantic_bounds_match_every_mirrored_read == mirrored
            &&& mirrors.shader_mirrors_logical_bounds_before_texture_mapping
                == shader_mirrors_first
        }),
{
    assert(blur_bindings(blurs)[j] == blurs[j].bindings);
}

/// Where blurs realize every key, there is one pass for each working format, axis and input, and no two
/// passes have the same.
pub proof fn law_blurs_realize_every_key(
    blurs: Seq<BlurPassFacts>,
    format: WorkingFormat,
    horizontal: bool,
    source_alpha: bool,
)
    requires
        blur_layout_of(blurs).realizes_all_axis_input_and_precision_keys,
    ensures
        exists|i: int|
            {
                &&& 0 <= i < blurs.len()
                &&& (#[trigger] blurs[i]).bindings.working_format == TextureFormatKey::Working(
                    format,
                )
                &&& blurs[i].horizontal == horizontal
                &&& blurs[i].source_alpha == source_alpha
            },
{
    let chosen = |facts: BlurPassFacts|
        facts.bindings.working_format == TextureFormatKey::Working(format) && facts.horizontal
            == horizontal && facts.source_alpha == source_alpha;
    assert(blur_count(blurs, format, horizontal, source_alpha) == 1);
    lemma_counted_is_there(blurs, chosen);
}

/// What is counted is there.
proof fn lemma_counted_is_there<T>(items: Seq<T>, chosen: spec_fn(T) -> bool)
    requires
        count_where(items, chosen) > 0,
    ensures
        exists|i: int| 0 <= i < items.len() && chosen(#[trigger] items[i]),
    decreases items.len(),
{
    if items.len() > 0 {
        if chosen(items.last()) {
            assert(chosen(items[items.len() - 1]));
        } else {
            lemma_counted_is_there(items.drop_last(), chosen);
            let i = choose|i: int|
                0 <= i < items.drop_last().len() && chosen(#[trigger] items.drop_last()[i]);
            assert(chosen(items[i]));
        }
    }
}

/// Backdrop copies are observed only where both working formats can be requested; the failure of the
/// first, and otherwise of the second, is reported.
pub proof fn law_backdrop_copies_are_observed_in_both_formats<
    R: Fn(WorkingFormat) -> Result<C12CopyBackdropCacheRequest, Error>,
    F: Fn(RuntimePassCacheKeys) -> Option<SourcePassFacts>,
>(
    request: &R,
    facts_of: &F,
    observation: Result<C12CopyBackdropLayoutObservation, Error>,
)
    requires
        call_ensures(
            c12_copy_backdrop_layout_observation::<R, F>,
            (request, facts_of),
            observation,
        ),
    ensures
        observation is Ok ==> exists|
            high: C12CopyBackdropCacheRequest,
            reduced: C12CopyBackdropCacheRequest,
        |
            {
                &&& #[trigger] call_ensures(
                    *request,
                    (WorkingFormat::HighPrecision,),
                    Ok::<C12CopyBackdropCacheRequest, Error>(high),
                )
                &&& #[trigger] call_ensures(
                    *request,
                    (WorkingFormat::ReducedPrecision,),
                    Ok::<C12CopyBackdropCacheRequest, Error>(reduced),
                )
            },
        observation matches Err(error) ==> call_ensures(
            *request,
            (WorkingFormat::HighPrecision,),
            Err::<C12CopyBackdropCacheRequest, Error>(error),
        ) || call_ensures(
            *request,
            (WorkingFormat::ReducedPrecision,),
            Err::<C12CopyBackdropCacheRequest, Error>(error),
        ),
{
}

} // verus!
