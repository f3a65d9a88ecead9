//! The cache keys of the blurs of a bounded backdrop.

use vstd::prelude::*;

use crate::error::{Error, LoweringFailure};
use crate::pass::model::{
    LoweredGraphPlan, PassModel, Rect, RuntimeBlur, RuntimeBlurAxis, RuntimeBlurInput,
    RuntimePassCacheKeys, RuntimePassKind, RuntimeSamplingEdge, Single,
};
use crate::pass::requests::PrePreparationGraphClassification;

verus! {

/// The semantic bounds of a mirrored blur as a shader reads them.
#[derive(Clone, Copy, Debug, PartialEq, Eq, Structural)]
pub struct BlurEdgeParameters {
    pub x: Single,
    pub y: Single,
    pub width: Single,
    pub height: Single,
}

/// The request of one mirrored blur pass.
#[derive(Clone, Copy, Debug, PartialEq, Eq, Structural)]
pub struct C12BackdropBlurCacheRequest {
    pub keys: RuntimePassCacheKeys,
    pub horizontal: bool,
    pub source_alpha: bool,
    pub semantic_bounds: Rect,
    pub read_edge: RuntimeSamplingEdge,
    pub edge_parameters: BlurEdgeParameters,
}

/// The blur of a blur pass.
pub open spec fn blur_of(kind: RuntimePassKind) -> Option<RuntimeBlur> {
    match kind {
        RuntimePassKind::BlurHorizontal(blur) => blur,
        RuntimePassKind::BlurVertical(blur) => blur,
        _ => None,
    }
}

/// The bounds at which a blur pass mirrors.
pub open spec fn mirrored_bounds(kind: RuntimePassKind) -> Option<Rect> {
    match blur_of(kind) {
        Some(blur) => match blur.edge {
            RuntimeSamplingEdge::SemanticBorderMirror(bounds) => Some(bounds),
            _ => None,
        },
        None => None,
    }
}

/// The bounds as a shader reads them, unless they do not fit.
pub type EdgeParameters = Result<BlurEdgeParameters, Error>;

/// The request of one mirrored blur pass, or why it has none.
pub open spec fn mirrored_request(pass: PassModel, parameters: EdgeParameters) -> Result<
    C12BackdropBlurCacheRequest,
    Error,
> {
    let blur = blur_of(pass.kind)->0;
    if pass.reads.len() != 1 {
        Err(Error::Lowering(LoweringFailure::MirroredBlurReadNotUnique))
    } else {
        match (pass.cache_keys, parameters) {
            (None, _) => Err(Error::Lowering(LoweringFailure::MirroredBlurKeysMissing)),
            (Some(_), Err(error)) => Err(error),
            (Some(keys), Ok(edge_parameters)) => Ok(
                C12BackdropBlurCacheRequest {
                    keys,
                    horizontal: blur.axis == RuntimeBlurAxis::Horizontal,
                    source_alpha: blur.input == RuntimeBlurInput::SourceAlpha,
                    semantic_bounds: mirrored_bounds(pass.kind)->0,
                    read_edge: pass.reads[0].sampling_edge,
                    edge_parameters,
                },
            ),
        }
    }
}

/// The requests of the mirrored blur passes in order, or the first failure.
pub open spec fn mirrored_requests(
    passes: Seq<PassModel>,
    parameters: Seq<EdgeParameters>,
) -> Result<Seq<C12BackdropBlurCacheRequest>, Error>
    decreases passes.len(),
{
    if passes.len() == 0 {
        Ok(Seq::empty())
    } else {
        match mirrored_requests(passes.drop_last(), parameters) {
            Err(error) => Err(error),
            Ok(before) => if mirrored_bounds(passes.last().kind) is Some {
                match mirrored_request(passes.last(), parameters[passes.len() - 1]) {
                    Ok(request) => Ok(before.push(request)),
                    Err(error) => Err(error),
                }
            } else {
                Ok(before)
            },
        }
    }
}

proof fn lemma_mirrored_failure(
    passes: Seq<PassModel>,
    parameters: Seq<EdgeParameters>,
    position: int,
    error: Error,
)
    requires
        0 <= position < passes.len(),
        mirrored_requests(passes.take(position + 1), parameters) == Err::<
            Seq<C12BackdropBlurCacheRequest>,
            Error,
        >(error),
    ensures
        mirrored_requests(passes, parameters) == Err::<Seq<C12BackdropBlurCacheRequest>, Error>(
            error,
        ),
    decreases passes.len() - position,
{
    if position + 1 == passes.len() {
        assert(passes.take(position + 1) =~= passes);
    } else {
        assert(passes.take(position + 2).drop_last() =~= passes.take(position + 1));
        lemma_mirrored_failure(passes, parameters, position + 1, error);
    }
}

fn blur_pass(kind: RuntimePassKind) -> (blur: Option<RuntimeBlur>)
    ensures
        blur == blur_of(kind),
{
    match kind {
        RuntimePassKind::BlurHorizontal(blur) => blur,
        RuntimePassKind::BlurVertical(blur) => blur,
        _ => None,
    }
}

/// The bounds at which a blur pass mirrors.
pub fn mirrored_at(kind: RuntimePassKind) -> (bounds: Option<Rect>)
    ensures
        bounds == mirrored_bounds(kind),
{
    match blur_pass(kind) {
        Some(blur) => match blur.edge {
            RuntimeSamplingEdge::SemanticBorderMirror(bounds) => Some(bounds),
            _ => None,
        },
        None => None,
    }
}

/// Whether these are the requests of the four mirrored blur passes of an exact bounded graph.
pub open spec fn are_mirrored_requests(
    requests: Result<Vec<C12BackdropBlurCacheRequest>, Error>,
    passes: Seq<PassModel>,
    class: PrePreparationGraphClassification,
    parameters: Seq<EdgeParameters>,
) -> bool {
    if class == PrePreparationGraphClassification::ExactC12 {
        match mirrored_requests(passes, parameters) {
            Err(error) => requests == Err::<Vec<C12BackdropBlurCacheRequest>, Error>(error),
            Ok(found) => if found.len() == 4 {
                requests matches Ok(requests) && requests@ == found
            } else {
                requests == Err::<Vec<C12BackdropBlurCacheRequest>, Error>(
                    Error::Lowering(LoweringFailure::MirroredBlursNotFour),
                )
            },
        }
    } else {
        requests == Err::<Vec<C12BackdropBlurCacheRequest>, Error>(
            Error::Lowering(LoweringFailure::OutsideBoundedBlurGraph),
        )
    }
}

/// The requests of the four mirrored blur passes of an exact bounded graph.
pub fn c12_backdrop_blur_cache_requests(
    plan: &LoweredGraphPlan,
    class: PrePreparationGraphClassification,
    parameters: &Vec<EdgeParameters>,
) -> (requests: Result<Vec<C12BackdropBlurCacheRequest>, Error>)
    requires
        parameters@.len() == plan@.passes.len(),
    ensures
        are_mirrored_requests(requests, plan@.passes, class, parameters@),
{
    if class != PrePreparationGraphClassification::ExactC12 {
        return Err(Error::Lowering(LoweringFailure::OutsideBoundedBlurGraph));
    }
    let ghost passes = plan@.passes;
    let length: usize = plan.passes.len();
    let mut requests: Vec<C12BackdropBlurCacheRequest> = Vec::with_capacity(4);
    let mut next: usize = 0;
    proof {
        assert(passes.take(0) =~= Seq::empty());
    }
    while next < length
        invariant
            next <= length,
            length == plan.passes@.len(),
            passes == plan@.passes,
            parameters@.len() == length,
            class == PrePreparationGraphClassification::ExactC12,
            mirrored_requests(passes.take(next as int), parameters@) == Ok::<
                Seq<C12BackdropBlurCacheRequest>,
                Error,
            >(requests@),
        decreases length - next,
    {
        let pass = &plan.passes[next];
        proof {
            let taken = passes.take(next + 1);
            assert(taken.drop_last() =~= passes.take(next as int));
            assert(taken.last() == pass@);
        }
        if let Some(blur) = blur_pass(pass.kind) {
            if let RuntimeSamplingEdge::SemanticBorderMirror(semantic_bounds) = blur.edge {
                if pass.reads.len() != 1 {
                    let error = Error::Lowering(LoweringFailure::MirroredBlurReadNotUnique);
                    proof {
                        lemma_mirrored_failure(passes, parameters@, next as int, error);
                    }
                    return Err(error);
                }
                let keys = match pass.cache_keys {
                    Some(keys) => keys,
                    None => {
                        let error = Error::Lowering(LoweringFailure::MirroredBlurKeysMissing);
                        proof {
                            lemma_mirrored_failure(passes, parameters@, next as int, error);
                        }
                        return Err(error);
                    },
                };
                let edge_parameters = match parameters[next] {
                    Ok(edge_parameters) => edge_parameters,
                    Err(error) => {
                        proof {
                            lemma_mirrored_failure(passes, parameters@, next as int, error);
                        }
                        return Err(error);
                    },
                };
                requests.push(
                    C12BackdropBlurCacheRequest {
                        keys,
                        horizontal: blur.axis == RuntimeBlurAxis::Horizontal,
                        source_alpha: blur.input == RuntimeBlurInput::SourceAlpha,
                        semantic_bounds,
                        read_edge: pass.reads[0].sampling_edge,
                        edge_parameters,
                    },
                );
            }
        }
        next = next + 1;
    }
    proof {
        assert(passes.take(length as int) =~= passes);
    }
    if requests.len() != 4 {
        return Err(Error::Lowering(LoweringFailure::MirroredBlursNotFour));
    }
    Ok(requests)
}

/// Whether no ordinary blur shares its program with a mirrored one.
pub open spec fn programs_are_distinct(
    transparent: Seq<RuntimePassCacheKeys>,
    mirrored: Seq<RuntimePassCacheKeys>,
) -> bool {
    forall|i: int, j: int|
        0 <= i < transparent.len() && 0 <= j < mirrored.len() ==> (
        #[trigger] transparent[i]).shader != (#[trigger] mirrored[j]).shader
}

pub fn edge_program_keys_are_distinct(
    transparent: &Vec<RuntimePassCacheKeys>,
    mirrored: &Vec<RuntimePassCacheKeys>,
) -> (distinct: bool)
    ensures
        distinct == programs_are_distinct(transparent@, mirrored@),
{
    let rows: usize = transparent.len();
    let columns: usize = mirrored.len();
    let mut row: usize = 0;
    while row < rows
        invariant
            row <= rows,
            rows == transparent@.len(),
            columns == mirrored@.len(),
            forall|i: int, j: int|
                0 <= i < row && 0 <= j < columns ==> (#[trigger] transparent@[i]).shader != (
                #[trigger] mirrored@[j]).shader,
        decreases rows - row,
    {
        let mut column: usize = 0;
        while column < columns
            invariant
                row < rows,
                column <= columns,
                rows == transparent@.len(),
                columns == mirrored@.len(),
                forall|j: int|
                    0 <= j < column ==> transparent@[row as int].shader != (
                    #[trigger] mirrored@[j]).shader,
            decreases columns - column,
        {
            if transparent[row].shader == mirrored[column].shader {
                return false;
            }
            column = column + 1;
        }
        row = row + 1;
    }
    true
}

/// A blur pass mirrors exactly if its blur shows a mirror outside its source, and at the bounds of that
/// mirror; no other pass does.
pub proof fn law_blurs_mirror_at_their_edge(kind: RuntimePassKind, bounds: Option<Rect>)
    requires
        call_ensures(mirrored_at, (kind,), bounds),
    ensures
        bounds is Some ==> kind is BlurHorizontal || kind is BlurVertical,
        kind matches RuntimePassKind::BlurHorizontal(Some(blur)) ==> (match blur.edge {
            RuntimeSamplingEdge::SemanticBorderMirror(edge) => bounds == Some(edge),
            _ => bounds is None,
        }),
        kind matches RuntimePassKind::BlurVertical(Some(blur)) ==> (match blur.edge {
            RuntimeSamplingEdge::SemanticBorderMirror(edge) => bounds == Some(edge),
            _ => bounds is None,
        }),
{
}

/// Requests of mirrored blurs are made only of an exact bounded graph and there are four; the request
/// of a pass says whether it blurs across and reads alpha alone, mirrors at the bounds of its blur, and
/// has the keys and the edge of the one read of its pass.
pub proof fn law_mirrored_requests_describe_their_pass(
    plan: &LoweredGraphPlan,
    class: PrePreparationGraphClassification,
    parameters: &Vec<EdgeParameters>,
    result: Result<Vec<C12BackdropBlurCacheRequest>, Error>,
    pass: PassModel,
    edge: EdgeParameters,
    request: C12BackdropBlurCacheRequest,
)
    requires
        parameters@.len() == plan@.passes.len(),
        call_ensures(c12_backdrop_blur_cache_requests, (plan, class, parameters), result),
        mirrored_bounds(pass.kind) is Some,
        mirrored_request(pass, edge) == Ok::<C12BackdropBlurCacheRequest, Error>(request),
    ensures
        result is Ok ==> class is ExactC12,
        result matches Ok(requests) ==> requests@.len() == 4,
        pass.reads.len() == 1,
        pass.cache_keys == Some(request.keys),
        request.read_edge == pass.reads[0].sampling_edge,
        edge == Ok::<BlurEdgeParameters, Error>(request.edge_parameters),
        pass.kind matches RuntimePassKind::BlurHorizontal(Some(blur)) ==> {
            &&& request.horizontal <==> blur.axis is Horizontal
            &&& request.source_alpha <==> blur.input is SourceAlpha
            &&& blur.edge == RuntimeSamplingEdge::SemanticBorderMirror(request.semantic_bounds)
        },
        pass.kind matches RuntimePassKind::BlurVertical(Some(blur)) ==> {
            &&& request.horizontal <==> blur.axis is Horizontal
            &&& request.source_alpha <==> blur.input is SourceAlpha
            &&& blur.edge == RuntimeSamplingEdge::SemanticBorderMirror(request.semantic_bounds)
        },
{
}

/// Programs are distinct exactly if no ordinary blur has the shader of a mirrored one.
pub proof fn law_distinct_programs(
    transparent: &Vec<RuntimePassCacheKeys>,
    mirrored: &Vec<RuntimePassCacheKeys>,
    distinct: bool,
    i: int,
    j: int,
)
    requires
        call_ensures(edge_program_keys_are_distinct, (transparent, mirrored), distinct),
        0 <= i < transparent@.len(),
        0 <= j < mirrored@.len(),
    ensures
        distinct ==> transparent@[i].shader != mirrored@[j].shader,
        transparent@.len() == 1 && mirrored@.len() == 1 && transparent@[0].shader
            != mirrored@[0].shader ==> distinct,
{
}

} // verus!
