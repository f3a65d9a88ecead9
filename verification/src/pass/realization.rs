//! Realization of cached programs: one after another inside a validation scope, and published
//! together.

use vstd::prelude::*;

use crate::error::{CheckedProgram, Error, InvalidValue, PreparationFailure};
use crate::pass::bound::{facts_found, looks_up_any, may_find, requests_any};
use crate::pass::c10::{color_filter_operation_byte_len, ColorFilterOperationBufferLimits};
use crate::pass::composite_layout::{drop_shadow_merge_observation, C08PassFacts, C08Program};
use crate::pass::layout::pair_of;
use crate::pass::mirrored::{
    edge_program_keys_are_distinct, programs_are_distinct, C12BackdropBlurCacheRequest,
};
use crate::pass::model::{RuntimePassCacheKeys, RuntimeReadRole};
use crate::pass::requests::{C11DropShadowCacheRequests, C12CopyBackdropCacheRequest};
use crate::runtime::{DeviceCapabilities, WorkingFormat};

verus! {

/// How far a realization has come.
#[derive(Clone, Copy, Debug, PartialEq, Eq)]
pub enum RealizationStage {
    /// The requests before `next` are realized.
    Realizing { next: usize },
    /// The scope is to be popped, whether or not everything was realized.
    Scoped { realized: Result<usize, Error> },
    /// The scope was clean; the update is to be committed.
    Committing { count: usize },
    Done { published: Result<usize, Error> },
}

/// A realization of requested programs.
#[derive(Debug)]
pub struct CacheRealization {
    pub program: CheckedProgram,
    pub requests: Vec<RuntimePassCacheKeys>,
    pub stage: RealizationStage,
}

/// What a realization needs next.
#[derive(Clone, Copy, Debug, PartialEq, Eq)]
pub enum RealizationStep {
    Realize { keys: RuntimePassCacheKeys },
    PopScope,
    Commit,
    Done { published: Result<usize, Error> },
}

/// The stage after `count` requests are realized, of `total`.
pub open spec fn stage_at(count: int, total: int) -> RealizationStage {
    if count < total {
        RealizationStage::Realizing { next: count as usize }
    } else {
        RealizationStage::Scoped { realized: Ok(count as usize) }
    }
}

/// The stage after the current request was realized, or failed. A failure ends the realizations.
pub open spec fn after_request(
    stage: RealizationStage,
    total: int,
    outcome: Result<(), Error>,
) -> RealizationStage {
    match stage {
        RealizationStage::Realizing { next } => match outcome {
            Ok(_) => stage_at(next + 1, total),
            Err(error) => RealizationStage::Scoped { realized: Err(error) },
        },
        _ => stage,
    }
}

/// The stage after the scope was popped.
pub open spec fn after_scope(
    stage: RealizationStage,
    program: CheckedProgram,
    failed: bool,
) -> RealizationStage {
    match stage {
        RealizationStage::Scoped { realized } => match checked(program, realized, failed, Ok(())) {
            Ok(count) => RealizationStage::Committing { count },
            Err(error) => RealizationStage::Done { published: Err(error) },
        },
        _ => stage,
    }
}

/// The stage after the update was committed, or failed to be.
pub open spec fn after_commit(stage: RealizationStage, outcome: Result<(), Error>) -> RealizationStage {
    match stage {
        RealizationStage::Committing { count } => RealizationStage::Done {
            published: match outcome {
                Ok(_) => Ok(count),
                Err(error) => Err(error),
            },
        },
        _ => stage,
    }
}

impl CacheRealization {
    /// A count that is on its way to be published is that of all requests.
    pub open spec fn wf(&self) -> bool {
        match self.stage {
            RealizationStage::Realizing { next } => next < self.requests@.len(),
            RealizationStage::Scoped { realized: Ok(count) } => count == self.requests@.len(),
            RealizationStage::Scoped { realized: Err(_) } => true,
            RealizationStage::Committing { count } => count == self.requests@.len(),
            RealizationStage::Done { published: Ok(count) } => count == self.requests@.len(),
            RealizationStage::Done { published: Err(_) } => true,
        }
    }

    pub fn new(program: CheckedProgram, requests: Vec<RuntimePassCacheKeys>) -> (realization: Self)
        ensures
            realization.wf(),
            realization.program == program,
            realization.requests == requests,
            realization.stage == stage_at(0, requests@.len() as int),
    {
        let total: usize = requests.len();
        let stage = if total > 0 {
            RealizationStage::Realizing { next: 0 }
        } else {
            RealizationStage::Scoped { realized: Ok(0) }
        };
        CacheRealization { program, requests, stage }
    }

    pub fn step(&self) -> (step: RealizationStep)
        requires
            self.wf(),
        ensures
            step == (match self.stage {
                RealizationStage::Realizing { next } => RealizationStep::Realize {
                    keys: self.requests@[next as int],
                },
                RealizationStage::Scoped { .. } => RealizationStep::PopScope,
                RealizationStage::Committing { .. } => RealizationStep::Commit,
                RealizationStage::Done { published } => RealizationStep::Done { published },
            }),
    {
        match self.stage {
            RealizationStage::Realizing { next } => RealizationStep::Realize {
                keys: self.requests[next],
            },
            RealizationStage::Scoped { .. } => RealizationStep::PopScope,
            RealizationStage::Committing { .. } => RealizationStep::Commit,
            RealizationStage::Done { published } => RealizationStep::Done { published },
        }
    }

    /// Takes in how the realization of the current request went. A failure ends the realizations.
    pub fn realized(&mut self, outcome: Result<(), Error>)
        requires
            old(self).wf(),
            old(self).stage is Realizing,
        ensures
            final(self).wf(),
            final(self).program == old(self).program,
            final(self).requests == old(self).requests,
            final(self).stage == after_request(
                old(self).stage,
                old(self).requests@.len() as int,
                outcome,
            ),
    {
        if let RealizationStage::Realizing { next } = self.stage {
            self.stage =
            match outcome {
                Ok(_) => {
                    let total: usize = self.requests.len();
                    let count: usize = next + 1;
                    if count < total {
                        RealizationStage::Realizing { next: count }
                    } else {
                        RealizationStage::Scoped { realized: Ok(count) }
                    }
                },
                Err(error) => RealizationStage::Scoped { realized: Err(error) },
            };
        }
    }

    /// Takes in whether the scope had caught a validation error. A failed realization is reported
    /// before it, and nothing is committed after either.
    pub fn scope_popped(&mut self, failed: bool)
        requires
            old(self).wf(),
            old(self).stage is Scoped,
        ensures
            final(self).wf(),
            final(self).program == old(self).program,
            final(self).requests == old(self).requests,
            final(self).stage == after_scope(old(self).stage, old(self).program, failed),
    {
        if let RealizationStage::Scoped { realized } = self.stage {
            self.stage =
            match checked_realization(self.program, realized, failed, Ok(())) {
                Ok(count) => RealizationStage::Committing { count },
                Err(error) => RealizationStage::Done { published: Err(error) },
            };
        }
    }

    /// Takes in how committing the update went.
    pub fn committed(&mut self, outcome: Result<(), Error>)
        requires
            old(self).wf(),
            old(self).stage is Committing,
        ensures
            final(self).wf(),
            final(self).program == old(self).program,
            final(self).requests == old(self).requests,
            final(self).stage == after_commit(old(self).stage, outcome),
    {
        if let RealizationStage::Committing { count } = self.stage {
            self.stage =
            RealizationStage::Done {
                published: match outcome {
                    Ok(_) => Ok(count),
                    Err(error) => Err(error),
                },
            };
        }
    }
}

/// How many programs a checked realization published: a failed realization comes before a failed
/// validation scope, and that before a failed commit.
pub open spec fn checked(
    program: CheckedProgram,
    realized: Result<usize, Error>,
    scope_failed: bool,
    committed: Result<(), Error>,
) -> Result<usize, Error> {
    match realized {
        Err(error) => Err(error),
        Ok(count) => if scope_failed {
            Err(Error::Preparation(PreparationFailure::ScopeValidationFailed { program }))
        } else {
            match committed {
                Err(error) => Err(error),
                Ok(_) => Ok(count),
            }
        },
    }
}

pub fn checked_realization(
    program: CheckedProgram,
    realized: Result<usize, Error>,
    scope_failed: bool,
    committed: Result<(), Error>,
) -> (published: Result<usize, Error>)
    ensures
        published == checked(program, realized, scope_failed, committed),
{
    let count: usize = match realized {
        Ok(count) => count,
        Err(error) => return Err(error),
    };
    if scope_failed {
        return Err(Error::Preparation(PreparationFailure::ScopeValidationFailed { program }));
    }
    match committed {
        Ok(_) => Ok(count),
        Err(error) => Err(error),
    }
}

/// The stage after the requests went as they did, one after another.
pub open spec fn after_requests(outcomes: Seq<Result<(), Error>>, total: int) -> RealizationStage
    decreases outcomes.len(),
{
    if outcomes.len() == 0 {
        stage_at(0, total)
    } else {
        after_request(after_requests(outcomes.drop_last(), total), total, outcomes.last())
    }
}

/// A realization publishes every program or none: it succeeds exactly if each request was realized,
/// the scope was clean and the update was committed.
pub proof fn law_realization_is_all_or_nothing(
    program: CheckedProgram,
    outcomes: Seq<Result<(), Error>>,
    scope_failed: bool,
    committed: Result<(), Error>,
)
    requires
        outcomes.len() <= usize::MAX,
    ensures
        after_commit(
            after_scope(after_requests(outcomes, outcomes.len() as int), program, scope_failed),
            committed,
        ) matches RealizationStage::Done { published } && {
            &&& published is Ok <==> {
                &&& forall|i: int| 0 <= i < outcomes.len() ==> (#[trigger] outcomes[i]) is Ok
                &&& !scope_failed
                &&& committed is Ok
            }
            &&& published matches Ok(count) ==> count == outcomes.len()
        },
{
    lemma_after_requests(outcomes, outcomes.len() as int);
}

proof fn lemma_after_requests(outcomes: Seq<Result<(), Error>>, total: int)
    requires
        outcomes.len() <= total <= usize::MAX,
    ensures
        if forall|i: int| 0 <= i < outcomes.len() ==> (#[trigger] outcomes[i]) is Ok {
            after_requests(outcomes, total) == stage_at(outcomes.len() as int, total)
        } else {
            after_requests(outcomes, total) matches RealizationStage::Scoped { realized: Err(_) }
        },
    decreases outcomes.len(),
{
    if outcomes.len() > 0 {
        let before = outcomes.drop_last();
        lemma_after_requests(before, total);
        if forall|i: int| 0 <= i < before.len() ==> (#[trigger] before[i]) is Ok {
            if outcomes.last() is Ok {
                assert forall|i: int| 0 <= i < outcomes.len() implies (#[trigger] outcomes[i])
                    is Ok by {
                    if i < before.len() {
                        assert(before[i] is Ok);
                    }
                }
            } else {
                assert(outcomes[outcomes.len() - 1] is Err);
            }
        } else {
            let i = choose|i: int| 0 <= i < before.len() && !((#[trigger] before[i]) is Ok);
            assert(outcomes[i] is Err);
        }
    }
}

/// Whether a pair of requests, or a failure, is what asking for both working formats gives. A device
/// that lacks one of them is refused before anything is requested; then the first failed request is
/// reported.
pub open spec fn is_requested<T, R: Fn(WorkingFormat) -> Result<T, Error>>(
    requested: Result<(T, T), Error>,
    capabilities: DeviceCapabilities,
    request: R,
) -> bool {
    match capabilities.both_formats_failure() {
        Some(error) => requested == Err::<(T, T), Error>(error),
        None => exists|high: Result<T, Error>|
            {
                &&& #[trigger] call_ensures(request, (WorkingFormat::HighPrecision,), high)
                &&& match high {
                    Err(error) => requested == Err::<(T, T), Error>(error),
                    Ok(high) => exists|reduced: Result<T, Error>|
                        {
                            &&& #[trigger] call_ensures(
                                request,
                                (WorkingFormat::ReducedPrecision,),
                                reduced,
                            )
                            &&& match reduced {
                                Err(error) => requested == Err::<(T, T), Error>(error),
                                Ok(reduced) => requested == Ok::<(T, T), Error>((high, reduced)),
                            }
                        },
                }
            },
    }
}

/// The requests of both working formats on a device.
pub fn request_both_formats<T, R: Fn(WorkingFormat) -> Result<T, Error>>(
    capabilities: DeviceCapabilities,
    request: &R,
) -> (requested: Result<(T, T), Error>)
    requires
        forall|working_format: WorkingFormat| #[trigger] call_requires(*request, (working_format,)),
    ensures
        is_requested(requested, capabilities, *request),
{
    match capabilities.validate_both_working_formats() {
        Ok(_) => {},
        Err(error) => return Err(error),
    }
    let high = match request(WorkingFormat::HighPrecision) {
        Ok(high) => high,
        Err(error) => return Err(error),
    };
    match request(WorkingFormat::ReducedPrecision) {
        Ok(reduced) => Ok((high, reduced)),
        Err(error) => Err(error),
    }
}

/// The requests of both working formats, in order.
pub fn both_formats(high: &Vec<RuntimePassCacheKeys>, reduced: &Vec<RuntimePassCacheKeys>) -> (both:
    Vec<RuntimePassCacheKeys>)
    ensures
        both@ == high@ + reduced@,
{
    let mut both = crate::pass::model::copy_values(high);
    let count: usize = reduced.len();
    let mut next: usize = 0;
    while next < count
        invariant
            next <= count,
            count == reduced@.len(),
            both@ == high@ + reduced@.take(next as int),
        decreases count - next,
    {
        both.push(reduced[next]);
        proof {
            assert(reduced@.take(next + 1) =~= reduced@.take(next as int).push(
                reduced@[next as int],
            ));
            assert(both@ =~= high@ + reduced@.take(next + 1));
        }
        next = next + 1;
    }
    proof {
        assert(reduced@.take(count as int) =~= reduced@);
    }
    both
}

/// The keys of mirrored blurs, in order.
pub open spec fn mirrored_keys(requests: Seq<C12BackdropBlurCacheRequest>) -> Seq<
    RuntimePassCacheKeys,
> {
    requests.map_values(|request: C12BackdropBlurCacheRequest| request.keys)
}

fn keys_of_mirrored(requests: &Vec<C12BackdropBlurCacheRequest>) -> (keys: Vec<
    RuntimePassCacheKeys,
>)
    ensures
        keys@ == mirrored_keys(requests@),
{
    let count: usize = requests.len();
    let mut keys: Vec<RuntimePassCacheKeys> = Vec::with_capacity(count);
    let mut next: usize = 0;
    while next < count
        invariant
            next <= count,
            count == requests@.len(),
            keys@.len() == next,
            forall|i: int| 0 <= i < next ==> #[trigger] keys@[i] == requests@[i].keys,
        decreases count - next,
    {
        keys.push(requests[next].keys);
        next = next + 1;
    }
    proof {
        assert(keys@ =~= mirrored_keys(requests@));
    }
    keys
}

/// The requests of ordinary and of mirrored blurs.
#[derive(Debug)]
pub struct EdgeBlurRequests {
    pub transparent: Vec<RuntimePassCacheKeys>,
    pub mirrored: Vec<RuntimePassCacheKeys>,
}

/// Whether the requests, or a failure, are what these answers give: the first failure in this order,
/// or else those of high precision before those of reduced precision.
pub open spec fn are_edge_requests(
    requested: Result<EdgeBlurRequests, Error>,
    high: Result<Vec<RuntimePassCacheKeys>, Error>,
    high_mirrored: Result<Vec<C12BackdropBlurCacheRequest>, Error>,
    reduced: Result<Vec<RuntimePassCacheKeys>, Error>,
    reduced_mirrored: Result<Vec<C12BackdropBlurCacheRequest>, Error>,
) -> bool {
    match (high, high_mirrored, reduced, reduced_mirrored) {
        (Err(error), _, _, _) => requested == Err::<EdgeBlurRequests, Error>(error),
        (_, Err(error), _, _) => requested == Err::<EdgeBlurRequests, Error>(error),
        (_, _, Err(error), _) => requested == Err::<EdgeBlurRequests, Error>(error),
        (_, _, _, Err(error)) => requested == Err::<EdgeBlurRequests, Error>(error),
        (Ok(high), Ok(high_mirrored), Ok(reduced), Ok(reduced_mirrored)) => {
            requested matches Ok(requests) && {
                &&& requests.transparent@ == high@ + reduced@
                &&& requests.mirrored@ == mirrored_keys(high_mirrored@) + mirrored_keys(
                    reduced_mirrored@,
                )
            }
        },
    }
}

/// The requests of ordinary and of mirrored blurs in both working formats. A device that lacks one
/// of the formats is refused before anything is requested.
pub fn request_edge_blurs<
    R: Fn(WorkingFormat) -> Result<Vec<RuntimePassCacheKeys>, Error>,
    M: Fn(WorkingFormat) -> Result<Vec<C12BackdropBlurCacheRequest>, Error>,
>(capabilities: DeviceCapabilities, ordinary: &R, backdrop: &M) -> (requested: Result<
    EdgeBlurRequests,
    Error,
>)
    requires
        requests_any(*ordinary),
        requests_any(*backdrop),
    ensures
        match capabilities.both_formats_failure() {
            Some(error) => requested == Err::<EdgeBlurRequests, Error>(error),
            None => exists|
                high: Result<Vec<RuntimePassCacheKeys>, Error>,
                high_mirrored: Result<Vec<C12BackdropBlurCacheRequest>, Error>,
                reduced: Result<Vec<RuntimePassCacheKeys>, Error>,
                reduced_mirrored: Result<Vec<C12BackdropBlurCacheRequest>, Error>,
            |
                {
                    &&& #[trigger] call_ensures(*ordinary, (WorkingFormat::HighPrecision,), high)
                    &&& #[trigger] call_ensures(
                        *backdrop,
                        (WorkingFormat::HighPrecision,),
                        high_mirrored,
                    )
                    &&& #[trigger] call_ensures(
                        *ordinary,
                        (WorkingFormat::ReducedPrecision,),
                        reduced,
                    )
                    &&& #[trigger] call_ensures(
                        *backdrop,
                        (WorkingFormat::ReducedPrecision,),
                        reduced_mirrored,
                    )
                    &&& are_edge_requests(
                        requested,
                        high,
                        high_mirrored,
                        reduced,
                        reduced_mirrored,
                    )
                },
        },
{
    match capabilities.validate_both_working_formats() {
        Ok(_) => {},
        Err(error) => return Err(error),
    }
    let high = ordinary(WorkingFormat::HighPrecision);
    let high_mirrored = backdrop(WorkingFormat::HighPrecision);
    let reduced = ordinary(WorkingFormat::ReducedPrecision);
    let reduced_mirrored = backdrop(WorkingFormat::ReducedPrecision);
    let ghost answers = (high, high_mirrored, reduced, reduced_mirrored);
    let requested = match (&high, &high_mirrored, &reduced, &reduced_mirrored) {
        (Err(error), _, _, _) => Err(*error),
        (_, Err(error), _, _) => Err(*error),
        (_, _, Err(error), _) => Err(*error),
        (_, _, _, Err(error)) => Err(*error),
        (Ok(high), Ok(high_mirrored), Ok(reduced), Ok(reduced_mirrored)) => {
            let first = keys_of_mirrored(high_mirrored);
            let second = keys_of_mirrored(reduced_mirrored);
            Ok(
                EdgeBlurRequests {
                    transparent: both_formats(high, reduced),
                    mirrored: both_formats(&first, &second),
                },
            )
        },
    };
    assert(are_edge_requests(requested, answers.0, answers.1, answers.2, answers.3));
    requested
}

/// The requests of two drop shadows: each colorization before its merge.
pub fn shadow_requests(high: C11DropShadowCacheRequests, reduced: C11DropShadowCacheRequests) -> (
requests: Vec<RuntimePassCacheKeys>)
    ensures
        requests@ == seq![high.colorize, high.merge, reduced.colorize, reduced.merge],
{
    let requests = vec![high.colorize, high.merge, reduced.colorize, reduced.merge];
    assert(requests@ =~= seq![high.colorize, high.merge, reduced.colorize, reduced.merge]);
    requests
}

/// Whether the cache can be asked for any keys.
pub open spec fn asks_any<C: Fn(RuntimePassCacheKeys) -> bool>(contains: C) -> bool {
    forall|keys: RuntimePassCacheKeys| #[trigger] call_requires(contains, (keys,))
}

/// Whether an observation that all requests are cached is true to the answers of the cache: each
/// may be cached, or else one may not be.
pub open spec fn cached_as_observed<C: Fn(RuntimePassCacheKeys) -> bool>(
    contains: C,
    requests: Seq<RuntimePassCacheKeys>,
    cached: bool,
) -> bool {
    if cached {
        forall|i: int|
            0 <= i < requests.len() ==> call_ensures(contains, (#[trigger] requests[i],), true)
    } else {
        exists|i: int|
            0 <= i < requests.len() && call_ensures(contains, (#[trigger] requests[i],), false)
    }
}

fn all_cached<C: Fn(RuntimePassCacheKeys) -> bool>(
    requests: &Vec<RuntimePassCacheKeys>,
    contains: &C,
) -> (cached: bool)
    requires
        asks_any(*contains),
    ensures
        cached_as_observed(*contains, requests@, cached),
{
    let count: usize = requests.len();
    let mut next: usize = 0;
    while next < count
        invariant
            next <= count,
            count == requests@.len(),
            asks_any(*contains),
            forall|i: int|
                0 <= i < next ==> call_ensures(*contains, (#[trigger] requests@[i],), true),
        decreases count - next,
    {
        let found = contains(requests[next]);
        assert(call_ensures(*contains, (requests@[next as int],), found));
        if !found {
            return false;
        }
        next = next + 1;
    }
    true
}

impl DeviceCapabilities {
    /// How many programs were published: none, before all else, on a device that lacks one of the
    /// working formats.
    pub open spec fn requested(self, published: Result<usize, Error>) -> Result<usize, Error> {
        match self.both_formats_failure() {
            Some(error) => Err(error),
            None => published,
        }
    }
}

fn supported(capabilities: DeviceCapabilities, published: Result<usize, Error>) -> (requested: Result<
    usize,
    Error,
>)
    ensures
        requested == capabilities.requested(published),
{
    match capabilities.validate_both_working_formats() {
        Ok(_) => published,
        Err(error) => Err(error),
    }
}

/// What is observed of a realization that was published.
#[derive(Clone, Copy, Debug, PartialEq, Eq, Structural)]
pub struct CacheRealizationObservation {
    pub realizes_every_program: bool,
    pub checked_scope_is_clean: bool,
    pub publishes_only_requested_entries: bool,
}

/// What is observed of a realization that published `count` programs of the `expected` ones.
pub open spec fn realized_as_observed<C: Fn(RuntimePassCacheKeys) -> bool>(
    observation: CacheRealizationObservation,
    count: usize,
    expected: usize,
    requests: Seq<RuntimePassCacheKeys>,
    contains: C,
    holds_no_other: bool,
) -> bool {
    exists|cached: bool| #[trigger]
        cached_as_observed(contains, requests, cached) && observation
            == (CacheRealizationObservation {
            realizes_every_program: count == expected,
            checked_scope_is_clean: true,
            publishes_only_requested_entries: cached && holds_no_other,
        })
}

/// What is observed of a realization: an error, or whether `expected` programs were realized, each
/// request is cached, and the cache holds no other. A device that lacks one of the working formats
/// is refused first.
pub fn cache_realization_observation<C: Fn(RuntimePassCacheKeys) -> bool>(
    capabilities: DeviceCapabilities,
    published: Result<usize, Error>,
    expected: usize,
    requests: &Vec<RuntimePassCacheKeys>,
    contains: &C,
    holds_no_other: bool,
) -> (observation: Result<CacheRealizationObservation, Error>)
    requires
        asks_any(*contains),
    ensures
        match capabilities.requested(published) {
            Err(error) => observation == Err::<CacheRealizationObservation, Error>(error),
            Ok(count) => observation matches Ok(observed) && realized_as_observed(
                observed,
                count,
                expected,
                requests@,
                *contains,
                holds_no_other,
            ),
        },
{
    let count: usize = match supported(capabilities, published) {
        Ok(count) => count,
        Err(error) => return Err(error),
    };
    let cached = all_cached(requests, contains);
    assert(cached_as_observed(*contains, requests@, cached));
    Ok(
        CacheRealizationObservation {
            realizes_every_program: count == expected,
            checked_scope_is_clean: true,
            publishes_only_requested_entries: cached && holds_no_other,
        },
    )
}

/// What is observed of blur programs: one for each axis, input and working format.
pub fn c11_blur_cache_realization_observation<C: Fn(RuntimePassCacheKeys) -> bool>(
    capabilities: DeviceCapabilities,
    high: &Vec<RuntimePassCacheKeys>,
    reduced: &Vec<RuntimePassCacheKeys>,
    published: Result<usize, Error>,
    contains: &C,
    holds_no_other: bool,
) -> (observation: Result<CacheRealizationObservation, Error>)
    requires
        asks_any(*contains),
    ensures
        match capabilities.requested(published) {
            Err(error) => observation == Err::<CacheRealizationObservation, Error>(error),
            Ok(count) => observation matches Ok(observed) && realized_as_observed(
                observed,
                count,
                8,
                high@ + reduced@,
                *contains,
                holds_no_other,
            ),
        },
{
    let requests = both_formats(high, reduced);
    cache_realization_observation(capabilities, published, 8, &requests, contains, holds_no_other)
}

/// What is observed of backdrop copy programs: one for each working format.
#[derive(Clone, Copy, Debug, PartialEq, Eq, Structural)]
pub struct C12CopyBackdropCacheRealizationObservation {
    pub realizes_high_precision: bool,
    pub realizes_reduced_precision: bool,
    pub checked_scope_is_clean: bool,
    pub publishes_only_copy_backdrop_entries: bool,
    pub rejects_unsupported_format_before_publication: bool,
}

/// A device without either precision.
pub open spec fn unsupported_device() -> DeviceCapabilities {
    DeviceCapabilities { high_precision: false, reduced_precision: false, max_texture_dimension: 4096 }
}

/// Whether a device without either precision is refused a backdrop copy in high precision, and its
/// cache stays empty.
pub fn rejects_unsupported_backdrop_copy<
    R: Fn(DeviceCapabilities, WorkingFormat) -> Result<C12CopyBackdropCacheRequest, Error>,
>(request: &R, cache_is_empty: bool) -> (rejects: bool)
    requires
        call_requires(*request, (unsupported_device(), WorkingFormat::HighPrecision)),
    ensures
        exists|answer: Result<C12CopyBackdropCacheRequest, Error>| #[trigger]
            call_ensures(*request, (unsupported_device(), WorkingFormat::HighPrecision), answer)
                && rejects == (answer is Err && cache_is_empty),
{
    let unsupported = DeviceCapabilities {
        high_precision: false,
        reduced_precision: false,
        max_texture_dimension: 4096,
    };
    let answer = request(unsupported, WorkingFormat::HighPrecision);
    answer.is_err() && cache_is_empty
}

/// What is observed of backdrop copy programs. `rejects_unsupported` says whether a device without
/// the format was refused before anything was published.
pub fn c12_copy_backdrop_cache_realization_observation<C: Fn(RuntimePassCacheKeys) -> bool>(
    capabilities: DeviceCapabilities,
    high: C12CopyBackdropCacheRequest,
    reduced: C12CopyBackdropCacheRequest,
    published: Result<usize, Error>,
    contains: &C,
    holds_no_other: bool,
    rejects_unsupported: bool,
) -> (observation: Result<C12CopyBackdropCacheRealizationObservation, Error>)
    requires
        asks_any(*contains),
    ensures
        match capabilities.requested(published) {
            Err(error) => observation == Err::<C12CopyBackdropCacheRealizationObservation, Error>(
                error,
            ),
            Ok(count) => exists|cached: bool| #[trigger]
                cached_as_observed(*contains, pair_of(high.keys, reduced.keys), cached)
                    && observation == Ok::<C12CopyBackdropCacheRealizationObservation, Error>(
                    C12CopyBackdropCacheRealizationObservation {
                        realizes_high_precision: count == 2,
                        realizes_reduced_precision: count == 2,
                        checked_scope_is_clean: true,
                        publishes_only_copy_backdrop_entries: cached && holds_no_other,
                        rejects_unsupported_format_before_publication: rejects_unsupported,
                    },
                ),
        },
{
    let count: usize = match supported(capabilities, published) {
        Ok(count) => count,
        Err(error) => return Err(error),
    };
    let requests = vec![high.keys, reduced.keys];
    assert(requests@ =~= pair_of(high.keys, reduced.keys));
    let cached = all_cached(&requests, contains);
    assert(cached_as_observed(*contains, pair_of(high.keys, reduced.keys), cached));
    Ok(
        C12CopyBackdropCacheRealizationObservation {
            realizes_high_precision: count == 2,
            realizes_reduced_precision: count == 2,
            checked_scope_is_clean: true,
            publishes_only_copy_backdrop_entries: cached && holds_no_other,
            rejects_unsupported_format_before_publication: rejects_unsupported,
        },
    )
}

/// What is observed of color filter programs: one for each working format.
#[derive(Clone, Copy, Debug, PartialEq, Eq, Structural)]
pub struct C10ColorFilterCacheRealizationObservation {
    pub realizes_high_precision: bool,
    pub realizes_reduced_precision: bool,
    pub checked_scope_is_clean: bool,
    pub publishes_only_color_filter_entries: bool,
}

/// What is observed of color filter programs.
pub fn c10_color_filter_cache_realization_observation<C: Fn(RuntimePassCacheKeys) -> bool>(
    capabilities: DeviceCapabilities,
    high: &Vec<RuntimePassCacheKeys>,
    reduced: &Vec<RuntimePassCacheKeys>,
    published: Result<usize, Error>,
    contains: &C,
    holds_no_other: bool,
) -> (observation: Result<C10ColorFilterCacheRealizationObservation, Error>)
    requires
        asks_any(*contains),
    ensures
        match capabilities.requested(published) {
            Err(error) => observation == Err::<C10ColorFilterCacheRealizationObservation, Error>(
                error,
            ),
            Ok(_) => exists|cached: bool| #[trigger]
                cached_as_observed(*contains, high@ + reduced@, cached) && observation == Ok::<
                    C10ColorFilterCacheRealizationObservation,
                    Error,
                >(
                    C10ColorFilterCacheRealizationObservation {
                        realizes_high_precision: high@.len() == 1,
                        realizes_reduced_precision: reduced@.len() == 1,
                        checked_scope_is_clean: true,
                        publishes_only_color_filter_entries: cached && holds_no_other,
                    },
                ),
        },
{
    match supported(capabilities, published) {
        Err(error) => Err(error),
        Ok(_) => {
            let requests = both_formats(high, reduced);
            let cached = all_cached(&requests, contains);
            assert(cached_as_observed(*contains, high@ + reduced@, cached));
            Ok(
                C10ColorFilterCacheRealizationObservation {
                    realizes_high_precision: high.len() == 1,
                    realizes_reduced_precision: reduced.len() == 1,
                    checked_scope_is_clean: true,
                    publishes_only_color_filter_entries: cached && holds_no_other,
                },
            )
        },
    }
}

/// What is observed of ordinary and mirrored blur programs.
#[derive(Clone, Copy, Debug, PartialEq, Eq, Structural)]
pub struct C12BlurCacheRealizationObservation {
    pub realizes_all_transparent_and_mirrored_programs: bool,
    pub checked_scope_is_clean: bool,
    pub publishes_exact_edge_programs: bool,
    pub edge_program_keys_are_distinct: bool,
}

/// What is observed of blur programs: ordinary and mirrored, one for each axis, input and working
/// format.
pub fn c12_blur_cache_realization_observation<C: Fn(RuntimePassCacheKeys) -> bool>(
    capabilities: DeviceCapabilities,
    transparent: &Vec<RuntimePassCacheKeys>,
    mirrored: &Vec<RuntimePassCacheKeys>,
    published: Result<usize, Error>,
    contains: &C,
    holds_no_other: bool,
) -> (observation: Result<C12BlurCacheRealizationObservation, Error>)
    requires
        asks_any(*contains),
    ensures
        match capabilities.requested(published) {
            Err(error) => observation == Err::<C12BlurCacheRealizationObservation, Error>(error),
            Ok(count) => exists|cached: bool| #[trigger]
                cached_as_observed(*contains, transparent@ + mirrored@, cached) && observation
                    == Ok::<C12BlurCacheRealizationObservation, Error>(
                    C12BlurCacheRealizationObservation {
                        realizes_all_transparent_and_mirrored_programs: count == 16,
                        checked_scope_is_clean: true,
                        publishes_exact_edge_programs: cached && holds_no_other,
                        edge_program_keys_are_distinct: programs_are_distinct(
                            transparent@,
                            mirrored@,
                        ),
                    },
                ),
        },
{
    let count: usize = match supported(capabilities, published) {
        Ok(count) => count,
        Err(error) => return Err(error),
    };
    let requests = both_formats(transparent, mirrored);
    let cached = all_cached(&requests, contains);
    assert(cached_as_observed(*contains, transparent@ + mirrored@, cached));
    Ok(
        C12BlurCacheRealizationObservation {
            realizes_all_transparent_and_mirrored_programs: count == 16,
            checked_scope_is_clean: true,
            publishes_exact_edge_programs: cached && holds_no_other,
            edge_program_keys_are_distinct: edge_program_keys_are_distinct(transparent, mirrored),
        },
    )
}

/// What is observed of drop shadow programs: a colorization and a merge for each working format.
#[derive(Clone, Copy, Debug, PartialEq, Eq, Structural)]
pub struct C11DropShadowCacheRealizationObservation {
    pub realizes_checked_colorize_and_merge_programs: bool,
    pub checked_scope_is_clean: bool,
    pub merge_uses_fixed_premultiplied_source_over: bool,
    pub merge_omits_destination_sample: bool,
    pub publishes_only_drop_shadow_entries: bool,
}

/// The observation of drop shadow programs of which `count` were published, with what the keys of
/// their merges bind.
pub open spec fn shadows_observed(
    count: usize,
    merges: Seq<C08PassFacts>,
    cached: bool,
    holds_no_other: bool,
) -> C11DropShadowCacheRealizationObservation {
    C11DropShadowCacheRealizationObservation {
        realizes_checked_colorize_and_merge_programs: count == 4,
        checked_scope_is_clean: true,
        merge_uses_fixed_premultiplied_source_over: forall|i: int|
            0 <= i < merges.len() ==> (#[trigger] merges[i]).program == C08Program::DropShadowMerge
                && merges[i].has_fixed_source_over_blend,
        merge_omits_destination_sample: forall|i: int|
            0 <= i < merges.len() ==> (#[trigger] merges[i]).source_role
                == RuntimeReadRole::CompositeSource && merges[i].has_only_spatial_uniform,
        publishes_only_drop_shadow_entries: cached && holds_no_other,
    }
}

/// What is observed of drop shadow programs. The cache is asked for colorizations and merges apart,
/// and `facts_of` looks up what the keys of a merge bind.
pub fn c11_drop_shadow_cache_realization_observation<
    C: Fn(RuntimePassCacheKeys) -> bool,
    M: Fn(RuntimePassCacheKeys) -> bool,
    F: Fn(RuntimePassCacheKeys) -> Option<C08PassFacts>,
>(
    capabilities: DeviceCapabilities,
    high: C11DropShadowCacheRequests,
    reduced: C11DropShadowCacheRequests,
    published: Result<usize, Error>,
    contains_colorize: &C,
    contains_merge: &M,
    facts_of: &F,
    holds_no_other: bool,
) -> (observation: Result<C11DropShadowCacheRealizationObservation, Error>)
    requires
        asks_any(*contains_colorize),
        asks_any(*contains_merge),
        looks_up_any(*facts_of),
    ensures
        match capabilities.requested(published) {
            Err(error) => observation == Err::<C11DropShadowCacheRealizationObservation, Error>(
                error,
            ),
            Ok(count) => exists|colorized: bool, merged: bool, merges: Seq<C08PassFacts>|
                {
                    &&& #[trigger] cached_as_observed(
                        *contains_colorize,
                        pair_of(high.colorize, reduced.colorize),
                        colorized,
                    )
                    &&& #[trigger] cached_as_observed(
                        *contains_merge,
                        pair_of(high.merge, reduced.merge),
                        merged,
                    )
                    &&& #[trigger] may_find(*facts_of, pair_of(high.merge, reduced.merge), merges)
                    &&& observation == Ok::<C11DropShadowCacheRealizationObservation, Error>(
                        shadows_observed(count, merges, colorized && merged, holds_no_other),
                    )
                },
        },
{
    let count: usize = match supported(capabilities, published) {
        Ok(count) => count,
        Err(error) => return Err(error),
    };
    let colorizations = vec![high.colorize, reduced.colorize];
    assert(colorizations@ =~= pair_of(high.colorize, reduced.colorize));
    let merges = vec![high.merge, reduced.merge];
    assert(merges@ =~= pair_of(high.merge, reduced.merge));
    let colorized = all_cached(&colorizations, contains_colorize);
    let merged = all_cached(&merges, contains_merge);
    let found = facts_found(&merges, facts_of);
    assert(cached_as_observed(
        *contains_colorize,
        pair_of(high.colorize, reduced.colorize),
        colorized,
    ));
    assert(cached_as_observed(*contains_merge, pair_of(high.merge, reduced.merge), merged));
    assert(may_find(*facts_of, pair_of(high.merge, reduced.merge), found@));
    let merge = drop_shadow_merge_observation(&found);
    let observation = C11DropShadowCacheRealizationObservation {
        realizes_checked_colorize_and_merge_programs: count == 4,
        checked_scope_is_clean: true,
        merge_uses_fixed_premultiplied_source_over: merge.uses_fixed_premultiplied_source_over,
        merge_omits_destination_sample: merge.omits_destination_sample,
        publishes_only_drop_shadow_entries: colorized && merged && holds_no_other,
    };
    assert(observation == shadows_observed(count, found@, colorized && merged, holds_no_other));
    Ok(observation)
}

/// What a device holds: its resources and its cached passes, by identities that equal states share.
#[derive(Clone, Copy, Debug, PartialEq, Eq, Structural)]
pub struct DeviceHoldings {
    pub resources: u64,
    pub cached_passes: u64,
}

/// What is observed of the limits on a buffer of operations.
#[derive(Clone, Copy, Debug, PartialEq, Eq, Structural)]
pub struct ColorFilterOperationBufferLimitObservation {
    pub count_overflow_is_exact: bool,
    pub max_buffer_size_is_exact: bool,
    pub max_storage_binding_size_is_exact: bool,
    pub equality_at_both_limits_is_accepted: bool,
    pub rejects_before_any_allocation_or_cache_action: bool,
}

fn is_count_refusal(length: Result<u64, Error>) -> (refused: bool)
    ensures
        refused == (length matches Err(Error::Invalid(InvalidValue::ColorOperationCount(_)))),
{
    matches!(length, Err(Error::Invalid(InvalidValue::ColorOperationCount(_))))
}

fn is_length_refusal(length: Result<u64, Error>) -> (refused: bool)
    ensures
        refused == (length matches Err(Error::Invalid(InvalidValue::ColorOperationByteLength(_)))),
{
    matches!(length, Err(Error::Invalid(InvalidValue::ColorOperationByteLength(_))))
}

/// Tries the limits on a buffer of operations: one count too many, one byte too few in either
/// limit, and both limits exactly. `before` and `after` are what the device held around it.
pub fn color_filter_operation_buffer_limit_observation(
    before: DeviceHoldings,
    after: DeviceHoldings,
) -> (observation: ColorFilterOperationBufferLimitObservation)
    ensures
        observation == (ColorFilterOperationBufferLimitObservation {
            count_overflow_is_exact: true,
            max_buffer_size_is_exact: true,
            max_storage_binding_size_is_exact: true,
            equality_at_both_limits_is_accepted: true,
            rejects_before_any_allocation_or_cache_action: after == before,
        }),
{
    let exact: u64 = 48;
    let unlimited = ColorFilterOperationBufferLimits {
        max_buffer_size: u64::MAX,
        max_storage_binding_size: u64::MAX,
    };
    let short_buffer = ColorFilterOperationBufferLimits {
        max_buffer_size: exact - 1,
        max_storage_binding_size: exact,
    };
    let short_binding = ColorFilterOperationBufferLimits {
        max_buffer_size: exact,
        max_storage_binding_size: exact - 1,
    };
    let fitting = ColorFilterOperationBufferLimits {
        max_buffer_size: exact,
        max_storage_binding_size: exact,
    };
    let count = is_count_refusal(color_filter_operation_byte_len(0x1_0000_0000, unlimited));
    let buffer = is_length_refusal(color_filter_operation_byte_len(1, short_buffer));
    let binding = is_length_refusal(color_filter_operation_byte_len(1, short_binding));
    let equality = matches!(color_filter_operation_byte_len(1, fitting), Ok(length) if length == exact);
    ColorFilterOperationBufferLimitObservation {
        count_overflow_is_exact: count,
        max_buffer_size_is_exact: buffer,
        max_storage_binding_size_is_exact: binding,
        equality_at_both_limits_is_accepted: equality,
        rejects_before_any_allocation_or_cache_action: count && buffer && binding && after
            == before,
    }
}

/// A realization starts with its first request, asks for one after another, and takes its scope down
/// once the last is realized or one has failed.
pub proof fn law_realizations_take_one_request_after_another(
    program: CheckedProgram,
    requests: Vec<RuntimePassCacheKeys>,
    realization: CacheRealization,
    step: RealizationStep,
)
    requires
        call_ensures(CacheRealization::new, (program, requests), realization),
        call_ensures(CacheRealization::step, (&realization,), step),
    ensures
        realization.program == program,
        realization.requests@ == requests@,
        requests@.len() > 0 ==> step == (RealizationStep::Realize { keys: requests@[0] }),
        requests@.len() == 0 ==> step is PopScope,
        forall|current: &mut CacheRealization, outcome: Result<(), Error>, next: usize|
            (*current).stage == (RealizationStage::Realizing { next }) && next
                < (*current).requests@.len() && #[trigger] call_ensures(
                CacheRealization::realized,
                (current, outcome),
                (),
            ) && #[trigger] reached((*current).stage, next) ==> {
                let after = *final(current);
                &&& after.requests@ == (*current).requests@
                &&& after.program == (*current).program
                &&& outcome is Ok && next + 1 < after.requests@.len() ==> after.stage == (
                RealizationStage::Realizing { next: (next + 1) as usize })
                &&& outcome is Ok && next + 1 == after.requests@.len() ==> (
                after.stage matches RealizationStage::Scoped { realized: Ok(count) } && count
                    == after.requests@.len())
                &&& outcome is Err ==> after.stage == (RealizationStage::Scoped {
                    realized: Err(outcome->Err_0),
                })
            },
{
}

/// Whether a realization has come to a request.
pub open spec fn reached(stage: RealizationStage, next: usize) -> bool {
    stage == (RealizationStage::Realizing { next })
}

/// What a realization needs next is told by how far it is: the keys of its current request, the scope
/// to be popped, the update to be committed, or nothing more.
pub proof fn law_steps_follow_the_stage(realization: &CacheRealization, step: RealizationStep)
    requires
        realization.wf(),
        call_ensures(CacheRealization::step, (realization,), step),
    ensures
        step is Realize <==> realization.stage is Realizing,
        step is PopScope <==> realization.stage is Scoped,
        step is Commit <==> realization.stage is Committing,
        step is Done <==> realization.stage is Done,
        realization.stage matches RealizationStage::Realizing { next } ==> step == (
        RealizationStep::Realize { keys: realization.requests@[next as int] }),
        realization.stage matches RealizationStage::Done { published } ==> step == (
        RealizationStep::Done { published }),
{
}

/// Nothing is committed unless everything was realized in a clean scope; a failed realization is
/// reported before a failed scope, and a failed commit publishes nothing.
pub proof fn law_only_clean_realizations_are_committed(failed: bool, outcome: Result<(), Error>)
    ensures
        forall|current: &mut CacheRealization|
            (*current).wf() && (*current).stage is Scoped && #[trigger] call_ensures(
                CacheRealization::scope_popped,
                (current, failed),
                (),
            ) ==> {
                let after = *final(current);
                let realized = (*current).stage->realized;
                &&& after.requests@ == (*current).requests@
                &&& after.stage is Committing <==> realized is Ok && !failed
                &&& realized is Ok && !failed ==> after.stage->Committing_count
                    == after.requests@.len()
                &&& realized is Err ==> after.stage == (RealizationStage::Done {
                    published: Err(realized->Err_0),
                })
                &&& realized is Ok && failed ==> after.stage == (RealizationStage::Done {
                    published: Err(
                        Error::Preparation(
                            PreparationFailure::ScopeValidationFailed {
                                program: (*current).program,
                            },
                        ),
                    ),
                })
            },
        forall|current: &mut CacheRealization|
            (*current).wf() && (*current).stage is Committing && #[trigger] call_ensures(
                CacheRealization::committed,
                (current, outcome),
                (),
            ) ==> {
                let after = *final(current);
                &&& after.requests@ == (*current).requests@
                &&& after.stage is Done
                &&& outcome is Ok ==> (after.stage->published matches Ok(count) && count
                    == after.requests@.len())
                &&& outcome is Err ==> after.stage->published == Err::<usize, Error>(
                    outcome->Err_0,
                )
            },
{
}

/// A checked realization publishes what was realized exactly if its scope is clean and its update was
/// committed; otherwise the first failure is reported.
pub proof fn law_checked_realizations(
    program: CheckedProgram,
    realized: Result<usize, Error>,
    failed: bool,
    committed: Result<(), Error>,
    published: Result<usize, Error>,
)
    requires
        call_ensures(checked_realization, (program, realized, failed, committed), published),
    ensures
        published is Ok <==> realized is Ok && !failed && committed is Ok,
        published is Ok ==> published == realized,
        realized is Err ==> published == realized,
        realized is Ok && failed ==> published == Err::<usize, Error>(
            Error::Preparation(PreparationFailure::ScopeValidationFailed { program }),
        ),
        realized is Ok && !failed && committed is Err ==> published == Err::<usize, Error>(
            committed->Err_0,
        ),
{
}

/// Requests of both working formats are those of high precision and then those of reduced precision;
/// those of two drop shadows color before they merge, in high precision first.
pub proof fn law_high_precision_is_requested_first(
    high: &Vec<RuntimePassCacheKeys>,
    reduced: &Vec<RuntimePassCacheKeys>,
    both: Vec<RuntimePassCacheKeys>,
    first: C11DropShadowCacheRequests,
    second: C11DropShadowCacheRequests,
    shadows: Vec<RuntimePassCacheKeys>,
    i: int,
)
    requires
        call_ensures(both_formats, (high, reduced), both),
        call_ensures(shadow_requests, (first, second), shadows),
    ensures
        both@.len() == high@.len() + reduced@.len(),
        0 <= i < high@.len() ==> both@[i] == high@[i],
        0 <= i < reduced@.len() ==> both@[high@.len() + i] == reduced@[i],
        shadows@.len() == 4,
        shadows@[0] == first.colorize,
        shadows@[1] == first.merge,
        shadows@[2] == second.colorize,
        shadows@[3] == second.merge,
{
}

/// Both working formats are requested only of a device that has both, and each answer is in its place.
pub proof fn law_both_formats_are_requested<T, R: Fn(WorkingFormat) -> Result<T, Error>>(
    capabilities: DeviceCapabilities,
    request: &R,
    high: T,
    reduced: T,
)
    requires
        call_ensures(
            request_both_formats::<T, R>,
            (capabilities, request),
            Ok::<(T, T), Error>((high, reduced)),
        ),
    ensures
        capabilities.high_precision,
        capabilities.reduced_precision,
        call_ensures(*request, (WorkingFormat::HighPrecision,), Ok::<T, Error>(high)),
        call_ensures(*request, (WorkingFormat::ReducedPrecision,), Ok::<T, Error>(reduced)),
{
}

/// Requests of blurs keep the ordinary ones apart from the mirrored ones, in high precision first.
pub proof fn law_edge_requests_stand_apart(
    requests: EdgeBlurRequests,
    high: Vec<RuntimePassCacheKeys>,
    high_mirrored: Vec<C12BackdropBlurCacheRequest>,
    reduced: Vec<RuntimePassCacheKeys>,
    reduced_mirrored: Vec<C12BackdropBlurCacheRequest>,
    i: int,
)
    requires
        are_edge_requests(
            Ok(requests),
            Ok(high),
            Ok(high_mirrored),
            Ok(reduced),
            Ok(reduced_mirrored),
        ),
    ensures
        requests.transparent@.len() == high@.len() + reduced@.len(),
        0 <= i < high@.len() ==> requests.transparent@[i] == high@[i],
        0 <= i < reduced@.len() ==> requests.transparent@[high@.len() + i] == reduced@[i],
        requests.mirrored@.len() == high_mirrored@.len() + reduced_mirrored@.len(),
        0 <= i < high_mirrored@.len() ==> requests.mirrored@[i] == high_mirrored@[i].keys,
        0 <= i < reduced_mirrored@.len() ==> requests.mirrored@[high_mirrored@.len() + i]
            == reduced_mirrored@[i].keys,
{
    if 0 <= i < high_mirrored@.len() {
        assert(mirrored_keys(high_mirrored@)[i] == high_mirrored@[i].keys);
    }
    if 0 <= i < reduced_mirrored@.len() {
        assert(mirrored_keys(reduced_mirrored@)[i] == reduced_mirrored@[i].keys);
    }
}

/// A published realization is observed to realize every program exactly if as many were published as
/// are expected, and to publish only what was requested only if the cache holds each and no other.
pub proof fn law_observed_realizations<C: Fn(RuntimePassCacheKeys) -> bool>(
    capabilities: DeviceCapabilities,
    published: Result<usize, Error>,
    expected: usize,
    requests: &Vec<RuntimePassCacheKeys>,
    contains: &C,
    holds_no_other: bool,
    result: Result<CacheRealizationObservation, Error>,
    i: int,
)
    requires
        call_ensures(
            cache_realization_observation::<C>,
            (capabilities, published, expected, requests, contains, holds_no_other),
            result,
        ),
        0 <= i < requests@.len(),
    ensures
        result is Ok <==> capabilities.high_precision && capabilities.reduced_precision
            && published is Ok,
        result matches Ok(observed) ==> {
            &&& observed.realizes_every_program <==> published == Ok::<usize, Error>(expected)
            &&& observed.checked_scope_is_clean
            &&& observed.publishes_only_requested_entries ==> holds_no_other && call_ensures(
                *contains,
                (requests@[i],),
                true,
            )
            &&& (forall|keys: RuntimePassCacheKeys| !#[trigger]
                call_ensures(*contains, (keys,), false)) && holds_no_other
                ==> observed.publishes_only_requested_entries
        },
{
}

/// Eight blur programs are expected, two of backdrop copies and sixteen of both edges; color filters are
/// one in each working format, and shadows color and merge in each.
pub proof fn law_expected_programs<C: Fn(RuntimePassCacheKeys) -> bool>(
    capabilities: DeviceCapabilities,
    high: &Vec<RuntimePassCacheKeys>,
    reduced: &Vec<RuntimePassCacheKeys>,
    published: Result<usize, Error>,
    contains: &C,
    holds_no_other: bool,
    blurs: CacheRealizationObservation,
    colors: C10ColorFilterCacheRealizationObservation,
    edges: C12BlurCacheRealizationObservation,
    i: int,
)
    requires
        call_ensures(
            c11_blur_cache_realization_observation::<C>,
            (capabilities, high, reduced, published, contains, holds_no_other),
            Ok::<CacheRealizationObservation, Error>(blurs),
        ),
        call_ensures(
            c10_color_filter_cache_realization_observation::<C>,
            (capabilities, high, reduced, published, contains, holds_no_other),
            Ok::<C10ColorFilterCacheRealizationObservation, Error>(colors),
        ),
        call_ensures(
            c12_blur_cache_realization_observation::<C>,
            (capabilities, high, reduced, published, contains, holds_no_other),
            Ok::<C12BlurCacheRealizationObservation, Error>(edges),
        ),
        0 <= i < high@.len() + reduced@.len(),
    ensures
        blurs.realizes_every_program <==> published == Ok::<usize, Error>(8),
        edges.realizes_all_transparent_and_mirrored_programs <==> published == Ok::<usize, Error>(
            16,
        ),
        edges.edge_program_keys_are_distinct && 0 <= i < high@.len() && reduced@.len() > 0
            ==> high@[i].shader != reduced@[0].shader,
        colors.realizes_high_precision <==> high@.len() == 1,
        colors.realizes_reduced_precision <==> reduced@.len() == 1,
        colors.publishes_only_color_filter_entries ==> holds_no_other && call_ensures(
            *contains,
            ((high@ + reduced@)[i],),
            true,
        ),
        edges.publishes_exact_edge_programs ==> holds_no_other && call_ensures(
            *contains,
            ((high@ + reduced@)[i],),
            true,
        ),
        blurs.publishes_only_requested_entries ==> holds_no_other && call_ensures(
            *contains,
            ((high@ + reduced@)[i],),
            true,
        ),
        blurs.checked_scope_is_clean && colors.checked_scope_is_clean
            && edges.checked_scope_is_clean,
{
}

/// Drop shadow programs are four; their merges draw a premultiplied source over what is there, without
/// sampling it, only if each of them does.
pub proof fn law_shadow_programs(
    count: usize,
    merges: Seq<C08PassFacts>,
    cached: bool,
    holds_no_other: bool,
    i: int,
)
    requires
        0 <= i < merges.len(),
    ensures
        ({
            let observed = shadows_observed(count, merges, cached, holds_no_other);
            let blends = merges[i].program is DropShadowMerge
                && merges[i].has_fixed_source_over_blend;
            let omits = merges[i].source_role is CompositeSource
                && merges[i].has_only_spatial_uniform;
            &&& observed.realizes_checked_colorize_and_merge_programs <==> count == 4
            &&& observed.checked_scope_is_clean
            &&& observed.publishes_only_drop_shadow_entries <==> cached && holds_no_other
            &&& observed.merge_uses_fixed_premultiplied_source_over ==> blends
            &&& observed.merge_omits_destination_sample ==> omits
            &&& merges.len() == 1 ==> observed.merge_uses_fixed_premultiplied_source_over == blends
            &&& merges.len() == 1 ==> observed.merge_omits_destination_sample == omits
        }),
{
    assert(merges.len() == 1 ==> i == 0);
}

/// Blurs are requested only of a device with both working formats, and then the ordinary ones before
/// the mirrored ones are kept, in high precision first.
pub proof fn law_edge_blurs_are_requested_in_both_formats<
    R: Fn(WorkingFormat) -> Result<Vec<RuntimePassCacheKeys>, Error>,
    M: Fn(WorkingFormat) -> Result<Vec<C12BackdropBlurCacheRequest>, Error>,
>(
    capabilities: DeviceCapabilities,
    ordinary: &R,
    backdrop: &M,
    requested: Result<EdgeBlurRequests, Error>,
)
    requires
        call_ensures(request_edge_blurs::<R, M>, (capabilities, ordinary, backdrop), requested),
    ensures
        !capabilities.high_precision || !capabilities.reduced_precision ==> requested is Err,
        requested matches Ok(requests) ==> exists|
            high: Vec<RuntimePassCacheKeys>,
            reduced: Vec<RuntimePassCacheKeys>,
        |
            {
                &&& #[trigger] call_ensures(
                    *ordinary,
                    (WorkingFormat::HighPrecision,),
                    Ok::<Vec<RuntimePassCacheKeys>, Error>(high),
                )
                &&& #[trigger] call_ensures(
                    *ordinary,
                    (WorkingFormat::ReducedPrecision,),
                    Ok::<Vec<RuntimePassCacheKeys>, Error>(reduced),
                )
                &&& requests.transparent@ == high@ + reduced@
            },
        requested matches Ok(requests) ==> exists|
            high: Vec<C12BackdropBlurCacheRequest>,
            reduced: Vec<C12BackdropBlurCacheRequest>,
        |
            {
                &&& #[trigger] call_ensures(
                    *backdrop,
                    (WorkingFormat::HighPrecision,),
                    Ok::<Vec<C12BackdropBlurCacheRequest>, Error>(high),
                )
                &&& #[trigger] call_ensures(
                    *backdrop,
                    (WorkingFormat::ReducedPrecision,),
                    Ok::<Vec<C12BackdropBlurCacheRequest>, Error>(reduced),
                )
                &&& requests.mirrored@.len() == high@.len() + reduced@.len()
                &&& forall|i: int|
                    0 <= i < high@.len() ==> requests.mirrored@[i] == (#[trigger] high@[i]).keys
                &&& forall|i: int|
                    0 <= i < reduced@.len() ==> requests.mirrored@[high@.len() + i]
                        == (#[trigger] reduced@[i]).keys
            },
{
}

/// A backdrop copy is refused as unsupported exactly if a device without either precision was asked for
/// it, answered with a failure, and its cache is empty.
pub proof fn law_unsupported_copies_are_refused<
    R: Fn(DeviceCapabilities, WorkingFormat) -> Result<C12CopyBackdropCacheRequest, Error>,
>(request: &R, cache_is_empty: bool, rejects: bool)
    requires
        call_ensures(
            rejects_unsupported_backdrop_copy::<R>,
            (request, cache_is_empty),
            rejects,
        ),
    ensures
        rejects ==> cache_is_empty,
        exists|
            device: DeviceCapabilities,
            format: WorkingFormat,
            answer: Result<C12CopyBackdropCacheRequest, Error>,
        |
            {
                &&& #[trigger] call_ensures(*request, (device, format), answer)
                &&& !device.high_precision
                &&& !device.reduced_precision
                &&& format is HighPrecision
                &&& cache_is_empty ==> (rejects <==> answer is Err)
            },
{
}

/// Backdrop copies are observed on a device with both working formats, and as realized if two were
/// published; they are published alone if the cache holds the keys of both and nothing else.
pub proof fn law_observed_backdrop_copies<C: Fn(RuntimePassCacheKeys) -> bool>(
    capabilities: DeviceCapabilities,
    high: C12CopyBackdropCacheRequest,
    reduced: C12CopyBackdropCacheRequest,
    published: Result<usize, Error>,
    contains: &C,
    holds_no_other: bool,
    rejects: bool,
    observation: Result<C12CopyBackdropCacheRealizationObservation, Error>,
)
    requires
        call_ensures(
            c12_copy_backdrop_cache_realization_observation::<C>,
            (capabilities, high, reduced, published, contains, holds_no_other, rejects),
            observation,
        ),
    ensures
        observation is Ok <==> capabilities.high_precision && capabilities.reduced_precision
            && published is Ok,
        observation matches Ok(seen) ==> {
            &&& seen.realizes_high_precision <==> published == Ok::<usize, Error>(2)
            &&& seen.realizes_reduced_precision <==> published == Ok::<usize, Error>(2)
            &&& seen.rejects_unsupported_format_before_publication == rejects
            &&& seen.publishes_only_copy_backdrop_entries ==> {
                &&& holds_no_other
                &&& call_ensures(*contains, (high.keys,), true)
                &&& call_ensures(*contains, (reduced.keys,), true)
            }
            &&& holds_no_other && !seen.publishes_only_copy_backdrop_entries ==> call_ensures(
                *contains,
                (high.keys,),
                false,
            ) || call_ensures(*contains, (reduced.keys,), false)
        },
{
    let requests = pair_of(high.keys, reduced.keys);
    assert(requests[0] == high.keys);
    assert(requests[1] == reduced.keys);
}

/// Shadow programs are observed on a device with both working formats, and as realized if four were
/// published; they are published alone if the cache holds both colorizations, both merges and nothing
/// else.
pub proof fn law_observed_shadow_programs<
    C: Fn(RuntimePassCacheKeys) -> bool,
    M: Fn(RuntimePassCacheKeys) -> bool,
    F: Fn(RuntimePassCacheKeys) -> Option<C08PassFacts>,
>(
    capabilities: DeviceCapabilities,
    high: C11DropShadowCacheRequests,
    reduced: C11DropShadowCacheRequests,
    published: Result<usize, Error>,
    contains_colorize: &C,
    contains_merge: &M,
    facts_of: &F,
    holds_no_other: bool,
    observation: Result<C11DropShadowCacheRealizationObservation, Error>,
)
    requires
        call_ensures(
            c11_drop_shadow_cache_realization_observation::<C, M, F>,
            (
                capabilities,
                high,
                reduced,
                published,
                contains_colorize,
                contains_merge,
                facts_of,
                holds_no_other,
            ),
            observation,
        ),
    ensures
        observation is Ok <==> capabilities.high_precision && capabilities.reduced_precision
            && published is Ok,
        observation matches Ok(seen) ==> {
            &&& seen.realizes_checked_colorize_and_merge_programs <==> published == Ok::<
                usize,
                Error,
            >(4)
            &&& seen.publishes_only_drop_shadow_entries ==> {
                &&& holds_no_other
                &&& call_ensures(*contains_colorize, (high.colorize,), true)
                &&& call_ensures(*contains_colorize, (reduced.colorize,), true)
                &&& call_ensures(*contains_merge, (high.merge,), true)
                &&& call_ensures(*contains_merge, (reduced.merge,), true)
            }
        },
{
    let colorized = pair_of(high.colorize, reduced.colorize);
    let merged = pair_of(high.merge, reduced.merge);
    assert(colorized[0] == high.colorize && colorized[1] == reduced.colorize);
    assert(merged[0] == high.merge && merged[1] == reduced.merge);
}

} // verus!
