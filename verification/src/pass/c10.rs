//! Color filter runs.

use vstd::prelude::*;

use crate::error::{Error, InvalidValue, LoweringFailure};
use crate::pass::model::{
    LoweredGraphPlan, PassModel, PlanModel, RuntimeColorClampBoundary, RuntimeColorOperation,
    RuntimeColorOperationTag, RuntimeColorScalar, RuntimePass, RuntimePassKind, RuntimeReadRole,
    RuntimeResourceProducer, RuntimeResourceRequest, RuntimeResultBinding, RuntimeSamplingEdge,
    RuntimeSamplingFilter, RuntimeSpatialDescriptor, Single,
};
use crate::pass::search::{find_mapped_resource, lemma_filter_step, mapped_resource};

verus! {

/// The binary32 bits of one half.
pub const SINGLE_HALF_BITS: u32 = 0x3f00_0000;

/// The binary32 bits of one.
pub const SINGLE_ONE_BITS: u32 = 0x3f80_0000;

/// The binary32 bits of negative zero.
pub const SINGLE_NEGATIVE_ZERO_BITS: u32 = 0x8000_0000;

/// The first binary32 bits that are not of a finite positive number.
pub const SINGLE_INFINITY_BITS: u32 = 0x7f80_0000;

impl Single {
    /// Neither an infinity nor a NaN.
    pub open spec fn spec_is_finite(self) -> bool {
        self.bits % SINGLE_NEGATIVE_ZERO_BITS < SINGLE_INFINITY_BITS
    }

    /// Either zero.
    pub open spec fn spec_is_zero(self) -> bool {
        self.bits == 0 || self.bits == SINGLE_NEGATIVE_ZERO_BITS
    }

    /// From zero to one; numbers that are not negative are ordered as their bits are.
    pub open spec fn spec_is_unit(self) -> bool {
        self.bits <= SINGLE_ONE_BITS || self.bits == SINGLE_NEGATIVE_ZERO_BITS
    }

    /// From one half to below one.
    pub open spec fn spec_is_normalized(self) -> bool {
        SINGLE_HALF_BITS <= self.bits < SINGLE_ONE_BITS
    }

    pub fn is_finite(self) -> (finite: bool)
        ensures
            finite == self.spec_is_finite(),
    {
        self.bits % SINGLE_NEGATIVE_ZERO_BITS < SINGLE_INFINITY_BITS
    }
}

impl RuntimeColorScalar {
    /// A unit number lies from zero to one, an amount is zero or has a normalized mantissa, and
    /// the sine and cosine of an angle are finite.
    pub open spec fn spec_is_finite_normalized(self) -> bool {
        match self {
            RuntimeColorScalar::Unit(value) => value.spec_is_unit(),
            RuntimeColorScalar::Amount { zero, mantissa, exponent } => if zero {
                mantissa.spec_is_zero() && exponent == 0
            } else {
                mantissa.spec_is_normalized()
            },
            RuntimeColorScalar::Angle { sine, cosine } => sine.spec_is_finite()
                && cosine.spec_is_finite(),
        }
    }

    pub fn is_finite_normalized(self) -> (normalized: bool)
        ensures
            normalized == self.spec_is_finite_normalized(),
    {
        match self {
            RuntimeColorScalar::Unit(value) => value.bits <= SINGLE_ONE_BITS || value.bits
                == SINGLE_NEGATIVE_ZERO_BITS,
            RuntimeColorScalar::Amount { zero, mantissa, exponent } => if zero {
                (mantissa.bits == 0 || mantissa.bits == SINGLE_NEGATIVE_ZERO_BITS) && exponent == 0
            } else {
                SINGLE_HALF_BITS <= mantissa.bits && mantissa.bits < SINGLE_ONE_BITS
            },
            RuntimeColorScalar::Angle { sine, cosine } => sine.is_finite() && cosine.is_finite(),
        }
    }
}

/// Whether a kind of pass is a color filter with its work bound.
pub open spec fn is_color_run(kind: RuntimePassKind) -> bool {
    kind matches RuntimePassKind::ColorFilter(Some(_))
}

/// The color filter passes, in order.
pub open spec fn color_runs(passes: Seq<PassModel>) -> Seq<PassModel> {
    passes.filter(|pass: PassModel| is_color_run(pass.kind))
}

/// The operations of all color runs, in order.
pub open spec fn all_operations(passes: Seq<PassModel>) -> Seq<RuntimeColorOperation>
    decreases passes.len(),
{
    if passes.len() == 0 {
        Seq::empty()
    } else {
        let before = all_operations(passes.drop_last());
        if is_color_run(passes.last().kind) {
            before + passes.last().operations
        } else {
            before
        }
    }
}

/// The operations of all color runs in order; there must be one at least.
pub fn runtime_color_operations(plan: &LoweredGraphPlan) -> (operations: Result<
    Vec<RuntimeColorOperation>,
    Error,
>)
    ensures
        match operations {
            Ok(operations) => operations@ == all_operations(plan@.passes) && operations@.len() > 0,
            Err(error) => {
                &&& all_operations(plan@.passes).len() == 0
                &&& error == Error::Lowering(LoweringFailure::ColorOperationsMissing)
            },
        },
{
    let length: usize = plan.passes.len();
    let mut operations: Vec<RuntimeColorOperation> = Vec::new();
    let mut next: usize = 0;
    while next < length
        invariant
            next <= length,
            length == plan.passes@.len(),
            operations@ == all_operations(plan@.passes.take(next as int)),
        decreases length - next,
    {
        let pass = &plan.passes[next];
        let ghost before = operations@;
        proof {
            let taken = plan@.passes.take(next + 1);
            assert(taken.drop_last() =~= plan@.passes.take(next as int));
            assert(taken.last() == pass@);
        }
        if matches!(pass.kind, RuntimePassKind::ColorFilter(Some(_))) {
            let count: usize = pass.operations.len();
            let mut operation: usize = 0;
            while operation < count
                invariant
                    operation <= count,
                    count == pass.operations@.len(),
                    operations@ == before + pass.operations@.take(operation as int),
                decreases count - operation,
            {
                operations.push(pass.operations[operation]);
                proof {
                    assert(before + pass.operations@.take(operation + 1) =~= (before
                        + pass.operations@.take(operation as int)).push(
                        pass.operations@[operation as int],
                    ));
                }
                operation = operation + 1;
            }
            proof {
                assert(pass.operations@.take(count as int) =~= pass.operations@);
            }
        }
        next = next + 1;
    }
    proof {
        assert(plan@.passes.take(length as int) =~= plan@.passes);
    }
    if operations.len() == 0 {
        return Err(Error::Lowering(LoweringFailure::ColorOperationsMissing));
    }
    Ok(operations)
}

/// The positions of the color filter passes.
pub fn color_pass_indices(plan: &LoweredGraphPlan) -> (indices: Vec<usize>)
    ensures
        indices@.len() == color_runs(plan@.passes).len(),
        forall|i: int|
            0 <= i < indices@.len() ==> (#[trigger] indices@[i]) < plan@.passes.len()
                && plan@.passes[indices@[i] as int] == color_runs(plan@.passes)[i],
        forall|i: int, j: int|
            0 <= i < j < indices@.len() ==> #[trigger] indices@[i] < #[trigger] indices@[j],
{
    let ghost passes = plan@.passes;
    let ghost keep = |pass: PassModel| is_color_run(pass.kind);
    let length: usize = plan.passes.len();
    let mut indices: Vec<usize> = Vec::new();
    let mut next: usize = 0;
    proof {
        reveal(Seq::filter);
        assert(passes.take(0) =~= Seq::empty());
    }
    while next < length
        invariant
            next <= length,
            length == plan.passes@.len(),
            passes == plan@.passes,
            keep == (|pass: PassModel| is_color_run(pass.kind)),
            indices@.len() == passes.take(next as int).filter(keep).len(),
            forall|i: int|
                0 <= i < indices@.len() ==> (#[trigger] indices@[i]) < next
                    && passes[indices@[i] as int] == passes.take(next as int).filter(keep)[i],
            forall|i: int, j: int|
                0 <= i < j < indices@.len() ==> #[trigger] indices@[i] < #[trigger] indices@[j],
        decreases length - next,
    {
        proof {
            lemma_filter_step(passes, keep, next as int);
            assert(passes[next as int] == plan.passes@[next as int]@);
        }
        if matches!(plan.passes[next].kind, RuntimePassKind::ColorFilter(Some(_))) {
            indices.push(next);
        }
        next = next + 1;
    }
    proof {
        assert(passes.take(length as int) =~= passes);
    }
    indices
}

/// The record of a buffer of operations: a header, and a record for each operation.
pub const OPERATION_HEADER_BYTES: u64 = 16;

pub const OPERATION_RECORD_BYTES: u64 = 32;

/// How large a device lets a buffer of operations be.
#[derive(Clone, Copy, Debug, PartialEq, Eq, Structural)]
pub struct ColorFilterOperationBufferLimits {
    pub max_buffer_size: u64,
    pub max_storage_binding_size: u64,
}

/// The bytes that a buffer of operations takes.
pub open spec fn operation_bytes(count: int) -> int {
    OPERATION_HEADER_BYTES + OPERATION_RECORD_BYTES * count
}

/// The bytes that a buffer of `count` operations takes, if a shader can count them and the device
/// can hold and bind them.
pub fn color_filter_operation_byte_len(
    count: u64,
    limits: ColorFilterOperationBufferLimits,
) -> (length: Result<u64, Error>)
    ensures
        length == (if count > u32::MAX {
            Err::<u64, Error>(Error::Invalid(InvalidValue::ColorOperationCount(count)))
        } else if operation_bytes(count as int) > limits.max_buffer_size || operation_bytes(
            count as int,
        ) > limits.max_storage_binding_size {
            Err(
                Error::Invalid(
                    InvalidValue::ColorOperationByteLength(operation_bytes(count as int) as u64),
                ),
            )
        } else {
            Ok(operation_bytes(count as int) as u64)
        }),
{
    if count > 0xffff_ffff {
        return Err(Error::Invalid(InvalidValue::ColorOperationCount(count)));
    }
    let length: u64 = OPERATION_HEADER_BYTES + OPERATION_RECORD_BYTES * count;
    if length > limits.max_buffer_size || length > limits.max_storage_binding_size {
        return Err(Error::Invalid(InvalidValue::ColorOperationByteLength(length)));
    }
    Ok(length)
}

/// Whether every operation is clamped once, before it is premultiplied.
pub open spec fn clamps_once(operations: Seq<RuntimeColorOperation>) -> bool {
    forall|i: int|
        0 <= i < operations.len() ==> (#[trigger] operations[i]).clamp_boundary
            == RuntimeColorClampBoundary::ClampStraightRgbaToUnitThenPremultiply
}

pub fn preserves_one_clamp_per_record(operations: &Vec<RuntimeColorOperation>) -> (clamps: bool)
    ensures
        clamps == clamps_once(operations@),
{
    let length: usize = operations.len();
    let mut next: usize = 0;
    while next < length
        invariant
            next <= length,
            length == operations@.len(),
            forall|i: int|
                0 <= i < next ==> (#[trigger] operations@[i]).clamp_boundary
                    == RuntimeColorClampBoundary::ClampStraightRgbaToUnitThenPremultiply,
        decreases length - next,
    {
        if operations[next].clamp_boundary
            != RuntimeColorClampBoundary::ClampStraightRgbaToUnitThenPremultiply {
            return false;
        }
        next = next + 1;
    }
    true
}

/// The source and the result of a color run, where both are bound and requested.
pub open spec fn run_images(plan: PlanModel, run: PassModel) -> Option<
    (RuntimeResourceRequest, RuntimeResourceRequest),
> {
    if run.reads.len() == 0 {
        None
    } else {
        match run.result {
            RuntimeResultBinding::Resource(result) => match (
                mapped_resource(plan.resources, run.reads[0].resource),
                mapped_resource(plan.resources, result),
            ) {
                (Some(source), Some(written)) => Some((source, written)),
                _ => None,
            },
            _ => None,
        }
    }
}

/// Where the source of a color run lies.
pub open spec fn source_spatial(plan: PlanModel, run: PassModel) -> Option<
    RuntimeSpatialDescriptor,
> {
    match run_images(plan, run) {
        Some((source, _)) => Some(source.spatial),
        None => None,
    }
}

/// The run samples one image, texel by texel, and writes another.
pub open spec fn run_has_one_source(run: PassModel) -> bool {
    let read = run.reads[0];
    &&& run.reads.len() == 1
    &&& RuntimeResultBinding::Resource(read.resource) != run.result
    &&& read.role == RuntimeReadRole::FilterSource
    &&& read.sampling_filter == RuntimeSamplingFilter::Nearest
    &&& read.sampling_edge is ClampToExtent
}

/// The run moves nothing: its source, its result and its mapping lie alike.
pub open spec fn run_preserves_spatial(plan: PlanModel, run: PassModel) -> bool {
    run_images(plan, run) matches Some((source, written)) && run.kind matches
        RuntimePassKind::ColorFilter(Some(mapping)) && {
        &&& source.spatial.spec_same_as(written.spatial)
        &&& mapping.source.spec_same_as(source.spatial)
        &&& mapping.result.spec_same_as(written.spatial)
    }
}

/// The run depends on the producer of its source alone, and is the last to use the source.
pub open spec fn run_lifetimes_are_exact(plan: PlanModel, run: PassModel) -> bool {
    run_images(plan, run) matches Some((source, _)) && {
        &&& source.producer matches RuntimeResourceProducer::Pass(producer)
            && run.dependencies =~= seq![producer]
        &&& source.expected_reads == 1
        &&& source.last_use == run.id
        &&& run.releases =~= seq![run.reads[0].resource]
    }
}

/// Each run after the first samples what the one before it wrote.
pub open spec fn runs_advance(runs: Seq<PassModel>) -> bool {
    forall|i: int|
        0 < i < runs.len() ==> runs[i - 1].result == RuntimeResultBinding::Resource(
            (#[trigger] runs[i]).reads[0].resource,
        )
}

pub open spec fn operation_tags(operations: Seq<RuntimeColorOperation>) -> Seq<
    RuntimeColorOperationTag,
> {
    operations.map_values(|operation: RuntimeColorOperation| operation.tag)
}

/// What is observed of the color runs of a graph.
#[derive(Debug)]
pub struct ColorFilterGraphObservation {
    pub operation_tags_by_run: Vec<Vec<RuntimeColorOperationTag>>,
    pub first_source_spatial: Option<RuntimeSpatialDescriptor>,
    pub every_run_has_one_source_and_distinct_result: bool,
    pub every_run_preserves_exact_spatial_descriptor: bool,
    pub every_operation_retains_one_clamp: bool,
    pub current_resource_advances_after_each_run: bool,
    pub dependencies_and_last_use_are_exact: bool,
    pub closed_color_facts_match_runtime_passes: bool,
}

/// Whether every run has both images.
pub open spec fn runs_are_bound(plan: PlanModel, runs: Seq<PassModel>) -> bool {
    forall|i: int| 0 <= i < runs.len() ==> run_images(plan, #[trigger] runs[i]) is Some
}

pub open spec fn color_graph_observed(
    observation: ColorFilterGraphObservation,
    plan: PlanModel,
    runs: Seq<PassModel>,
    closed_runs: nat,
    facts_are_proven: bool,
) -> bool {
    let some = runs.len() > 0;
    &&& observation.operation_tags_by_run@.len() == runs.len()
    &&& forall|i: int|
        0 <= i < runs.len() ==> (#[trigger] observation.operation_tags_by_run@[i])@
            == operation_tags(runs[i].operations)
    &&& observation.first_source_spatial == (if some {
        source_spatial(plan, runs[0])
    } else {
        None
    })
    &&& observation.every_run_has_one_source_and_distinct_result == (some && forall|i: int|
        0 <= i < runs.len() ==> run_has_one_source(#[trigger] runs[i]))
    &&& observation.every_run_preserves_exact_spatial_descriptor == (some && forall|i: int|
        0 <= i < runs.len() ==> run_preserves_spatial(plan, #[trigger] runs[i]))
    &&& observation.every_operation_retains_one_clamp == (some && forall|i: int|
        0 <= i < runs.len() ==> (#[trigger] runs[i]).operations.len() > 0 && clamps_once(
            runs[i].operations,
        ))
    &&& observation.current_resource_advances_after_each_run == (some && runs_advance(runs))
    &&& observation.dependencies_and_last_use_are_exact == (some && forall|i: int|
        0 <= i < runs.len() ==> run_lifetimes_are_exact(plan, #[trigger] runs[i]))
    &&& observation.closed_color_facts_match_runtime_passes == (closed_runs == runs.len() && some
        && facts_are_proven)
}

fn find_run_images(plan: &LoweredGraphPlan, run: &RuntimePass) -> (images: Option<
    (RuntimeResourceRequest, RuntimeResourceRequest),
>)
    ensures
        images == run_images(plan@, run@),
{
    if run.reads.len() == 0 {
        return None;
    }
    match run.result {
        RuntimeResultBinding::Resource(result) => match (
            find_mapped_resource(&plan.resources, run.reads[0].resource),
            find_mapped_resource(&plan.resources, result),
        ) {
            (Some(source), Some(written)) => Some((source, written)),
            _ => None,
        },
        _ => None,
    }
}

fn tags_of(operations: &Vec<RuntimeColorOperation>) -> (tags: Vec<RuntimeColorOperationTag>)
    ensures
        tags@ == operation_tags(operations@),
{
    let length: usize = operations.len();
    let mut tags: Vec<RuntimeColorOperationTag> = Vec::with_capacity(length);
    let mut next: usize = 0;
    while next < length
        invariant
            next <= length,
            length == operations@.len(),
            tags@.len() == next,
            forall|i: int| 0 <= i < next ==> #[trigger] tags@[i] == operations@[i].tag,
        decreases length - next,
    {
        tags.push(operations[next].tag);
        next = next + 1;
    }
    proof {
        assert(tags@ =~= operation_tags(operations@));
    }
    tags
}

/// What is observed of the color runs of a graph; `None`, where some run lacks an image.
pub fn color_filter_graph_observation(
    plan: &LoweredGraphPlan,
    closed_runs: usize,
    facts_are_proven: bool,
) -> (observation: Option<ColorFilterGraphObservation>)
    ensures
        observation is Some <==> runs_are_bound(plan@, color_runs(plan@.passes)),
        observation matches Some(observation) ==> color_graph_observed(
            observation,
            plan@,
            color_runs(plan@.passes),
            closed_runs as nat,
            facts_are_proven,
        ),
{
    let indices = color_pass_indices(plan);
    let ghost runs = color_runs(plan@.passes);
    let count: usize = indices.len();
    let mut tags: Vec<Vec<RuntimeColorOperationTag>> = Vec::with_capacity(count);
    let mut first: Option<RuntimeSpatialDescriptor> = None;
    let mut one_source = true;
    let mut preserves = true;
    let mut clamps = true;
    let mut advances = true;
    let mut lifetimes = true;
    let mut previous: RuntimeResultBinding = RuntimeResultBinding::Empty;
    let mut next: usize = 0;
    while next < count
        invariant
            next <= count,
            count == indices@.len(),
            runs == color_runs(plan@.passes),
            runs.len() == count,
            forall|i: int|
                0 <= i < count ==> (#[trigger] indices@[i]) < plan@.passes.len()
                    && plan@.passes[indices@[i] as int] == runs[i],
            forall|i: int| 0 <= i < next ==> run_images(plan@, #[trigger] runs[i]) is Some,
            tags@.len() == next,
            forall|i: int|
                0 <= i < next ==> (#[trigger] tags@[i])@ == operation_tags(runs[i].operations),
            next > 0 ==> first == source_spatial(plan@, runs[0]),
            next == 0 ==> first is None,
            next > 0 ==> previous == runs[next - 1].result,
            one_source == (forall|i: int| 0 <= i < next ==> run_has_one_source(#[trigger] runs[i])),
            preserves == (forall|i: int|
                0 <= i < next ==> run_preserves_spatial(plan@, #[trigger] runs[i])),
            clamps == (forall|i: int|
                0 <= i < next ==> (#[trigger] runs[i]).operations.len() > 0 && clamps_once(
                    runs[i].operations,
                )),
            advances == (forall|i: int|
                0 < i < next ==> runs[i - 1].result == RuntimeResultBinding::Resource(
                    (#[trigger] runs[i]).reads[0].resource,
                )),
            lifetimes == (forall|i: int|
                0 <= i < next ==> run_lifetimes_are_exact(plan@, #[trigger] runs[i])),
        decreases count - next,
    {
        let run = &plan.passes[indices[next]];
        let ghost model = runs[next as int];
        assert(plan@.passes[indices@[next as int] as int] == run@);
        assert(model == run@);
        let (source, written) = match find_run_images(plan, run) {
            Some(images) => images,
            None => {
                assert(run_images(plan@, runs[next as int]) is None);
                return None;
            },
        };
        let read = run.reads[0];
        if next == 0 {
            first = Some(source.spatial);
        }
        let run_one_source = run.reads.len() == 1 && RuntimeResultBinding::Resource(read.resource)
            != run.result && read.role == RuntimeReadRole::FilterSource && read.sampling_filter
            == RuntimeSamplingFilter::Nearest && matches!(
            read.sampling_edge,
            RuntimeSamplingEdge::ClampToExtent
        );
        assert(run_one_source == run_has_one_source(model));
        one_source = one_source && run_one_source;
        let run_preserves = match run.kind {
            RuntimePassKind::ColorFilter(Some(mapping)) => source.spatial.same_as(written.spatial)
                && mapping.source.same_as(source.spatial) && mapping.result.same_as(
                written.spatial,
            ),
            _ => false,
        };
        assert(run_preserves == run_preserves_spatial(plan@, model));
        preserves = preserves && run_preserves;
        let run_clamps = run.operations.len() > 0 && preserves_one_clamp_per_record(
            &run.operations,
        );
        clamps = clamps && run_clamps;
        if next > 0 {
            let follows = previous == RuntimeResultBinding::Resource(read.resource);
            assert(follows == (runs[next - 1].result == RuntimeResultBinding::Resource(
                runs[next as int].reads[0].resource,
            )));
            advances = advances && follows;
        }
        previous = run.result;
        let depends_on_producer = match source.producer {
            RuntimeResourceProducer::Pass(producer) => {
                let expected = [producer];
                assert(expected@ =~= seq![producer]);
                crate::pass::c08::lists_passes(&run.dependencies, &expected)
            },
            RuntimeResourceProducer::Import => false,
        };
        let released = [read.resource];
        assert(released@ =~= seq![read.resource]);
        let run_lifetimes = depends_on_producer && source.expected_reads == 1 && source.last_use
            == run.id && crate::pass::c08::lists_resources(&run.releases, &released);
        assert(run_lifetimes == run_lifetimes_are_exact(plan@, model));
        lifetimes = lifetimes && run_lifetimes;
        tags.push(tags_of(&run.operations));
        next = next + 1;
    }
    let some = count > 0;
    Some(
        ColorFilterGraphObservation {
            operation_tags_by_run: tags,
            first_source_spatial: first,
            every_run_has_one_source_and_distinct_result: some && one_source,
            every_run_preserves_exact_spatial_descriptor: some && preserves,
            every_operation_retains_one_clamp: some && clamps,
            current_resource_advances_after_each_run: some && advances,
            dependencies_and_last_use_are_exact: some && lifetimes,
            closed_color_facts_match_runtime_passes: closed_runs == count && some
                && facts_are_proven,
        },
    )
}

/// A number of a color operation is accepted exactly if it is what its form says: a unit from zero to
/// one, an amount that is zero throughout or has a mantissa from one half to below one, an angle with a
/// finite sine and a finite cosine.
pub proof fn law_normalized_numbers(scalar: RuntimeColorScalar, normalized: bool)
    requires
        call_ensures(RuntimeColorScalar::is_finite_normalized, (scalar,), normalized),
    ensures
        scalar matches RuntimeColorScalar::Unit(value) ==> (normalized <==> value.bits
            <= 0x3f80_0000 || value.bits == 0x8000_0000),
        scalar matches RuntimeColorScalar::Amount { zero: true, mantissa, exponent } ==> (normalized
            <==> (mantissa.bits == 0 || mantissa.bits == 0x8000_0000) && exponent == 0),
        scalar matches RuntimeColorScalar::Amount { zero: false, mantissa, exponent } ==> (
        normalized <==> 0x3f00_0000 <= mantissa.bits < 0x3f80_0000),
        scalar matches RuntimeColorScalar::Angle { sine, cosine } ==> (normalized <==> (sine.bits
            < 0x7f80_0000 || 0x8000_0000 <= sine.bits < 0xff80_0000) && (cosine.bits < 0x7f80_0000
            || 0x8000_0000 <= cosine.bits < 0xff80_0000)),
{
}

/// A buffer of operations takes sixteen bytes and thirty-two for each; it is refused if a shader cannot
/// count them, or the device cannot hold or cannot bind so many bytes.
pub proof fn law_operation_buffers(
    count: u64,
    limits: ColorFilterOperationBufferLimits,
    length: Result<u64, Error>,
)
    requires
        call_ensures(color_filter_operation_byte_len, (count, limits), length),
    ensures
        length is Ok <==> count <= 0xffff_ffff && 16 + 32 * count <= limits.max_buffer_size && 16
            + 32 * count <= limits.max_storage_binding_size,
        length matches Ok(bytes) ==> bytes == 16 + 32 * count,
        count > 0xffff_ffff ==> length == Err::<u64, Error>(
            Error::Invalid(InvalidValue::ColorOperationCount(count)),
        ),
{
}

/// Operations keep one clamp exactly if each of them clamps, once, before it is premultiplied.
pub proof fn law_clamps(operations: &Vec<RuntimeColorOperation>, clamps: bool, i: int)
    requires
        call_ensures(preserves_one_clamp_per_record, (operations,), clamps),
        0 <= i < operations@.len(),
    ensures
        operations@[i].clamp_boundary is Unclamped ==> !clamps,
        operations@.len() == 1 && !(operations@[0].clamp_boundary is Unclamped) ==> clamps,
{
}

/// The operations of a plan are those of its color runs, run by run: alone, a run gives its own, and a
/// pass of another kind, or without its work, none.
pub proof fn law_operations_are_those_of_the_runs(
    plan: &LoweredGraphPlan,
    operations: Result<Vec<RuntimeColorOperation>, Error>,
)
    requires
        call_ensures(runtime_color_operations, (plan,), operations),
    ensures
        plan@.passes.len() == 1 ==> (operations is Ok <==> plan@.passes[0].kind is ColorFilter
            && plan@.passes[0].kind->ColorFilter_0 is Some && plan@.passes[0].operations.len() > 0),
        plan@.passes.len() == 1 && operations is Ok ==> operations->Ok_0@
            == plan@.passes[0].operations,
        plan@.passes.len() == 2 && plan@.passes[0].kind is ColorFilter
            && plan@.passes[0].kind->ColorFilter_0 is Some && plan@.passes[1].kind is ColorFilter
            && plan@.passes[1].kind->ColorFilter_0 is Some && operations is Ok
            ==> operations->Ok_0@ == plan@.passes[0].operations + plan@.passes[1].operations,
{
    let passes = plan@.passes;
    if passes.len() == 1 || passes.len() == 2 {
        let one = passes.take(1);
        let none = one.drop_last();
        assert(none =~= Seq::empty());
        assert(all_operations(none) =~= Seq::empty());
        assert(one.last() == passes[0]);
        assert(all_operations(one) =~= (if is_color_run(passes[0].kind) {
            passes[0].operations
        } else {
            Seq::empty()
        }));
        if passes.len() == 1 {
            assert(one =~= passes);
        } else {
            assert(passes.drop_last() =~= one);
        }
    }
}

/// The positions of color runs are those of the passes that filter colors and have their work bound, in
/// order, and no others.
pub proof fn law_color_positions(plan: &LoweredGraphPlan, indices: Vec<usize>, i: int, j: int)
    requires
        call_ensures(color_pass_indices, (plan,), indices),
        0 <= i < indices@.len(),
        0 <= j < plan@.passes.len(),
    ensures
        indices@[i] < plan@.passes.len(),
        plan@.passes[indices@[i] as int].kind matches RuntimePassKind::ColorFilter(Some(_)),
        (plan@.passes[j].kind matches RuntimePassKind::ColorFilter(Some(_))) ==> exists|k: int|
            0 <= k < indices@.len() && plan@.passes[#[trigger] indices@[k] as int]
                == plan@.passes[j],
{
    let passes = plan@.passes;
    let keep = |pass: PassModel| is_color_run(pass.kind);
    #[allow(deprecated)]
    passes.filter_lemma(keep);
    let runs = color_runs(passes);
    assert(runs == passes.filter(keep));
    assert(keep(runs[i]));
    assert(passes[indices@[i] as int] == runs[i]);
    if keep(passes[j]) {
        assert(runs.contains(passes[j]));
        let k = choose|k: int| 0 <= k < runs.len() && runs[k] == passes[j];
        assert(passes[indices@[k] as int] == runs[k]);
    }
}

/// What a color graph is observed to keep, run by run: a run with one source samples it texel by texel
/// and writes another image; one that moves nothing has its source, its result and its mapping at the
/// same place; runs that advance sample what the run before wrote.
pub proof fn law_color_graphs_keep_what_is_observed(
    plan: &LoweredGraphPlan,
    closed_runs: usize,
    proven: bool,
    observation: ColorFilterGraphObservation,
    i: int,
)
    requires
        call_ensures(
            color_filter_graph_observation,
            (plan, closed_runs, proven),
            Some(observation),
        ),
        0 <= i < color_runs(plan@.passes).len(),
    ensures
        ({
            let runs = color_runs(plan@.passes);
            let run = runs[i];
            &&& observation.operation_tags_by_run@.len() == runs.len()
            &&& observation.operation_tags_by_run@[i]@.len() == run.operations.len()
            &&& forall|k: int|
                0 <= k < run.operations.len() ==> #[trigger] observation.operation_tags_by_run@[i]@[k]
                    == run.operations[k].tag
            &&& observation.every_run_has_one_source_and_distinct_result ==> run.reads.len() == 1
                && run.reads[0].role is FilterSource && run.reads[0].sampling_filter is Nearest
                && run.reads[0].sampling_edge is ClampToExtent && run.result
                != RuntimeResultBinding::Resource(run.reads[0].resource)
            &&& observation.every_operation_retains_one_clamp ==> run.operations.len() > 0 && forall|
                k: int,
            |
                0 <= k < run.operations.len() ==> !((
                #[trigger] run.operations[k]).clamp_boundary is Unclamped)
            &&& observation.current_resource_advances_after_each_run && i > 0 ==> runs[i - 1].result
                == RuntimeResultBinding::Resource(run.reads[0].resource)
            &&& observation.closed_color_facts_match_runtime_passes <==> closed_runs == runs.len()
                && proven
            &&& observation.dependencies_and_last_use_are_exact ==> run.releases
                == seq![run.reads[0].resource] && run.dependencies.len() == 1
        }),
{
    let runs = color_runs(plan@.passes);
    let run = runs[i];
    assert(observation.operation_tags_by_run@[i]@ == operation_tags(run.operations));
    if observation.dependencies_and_last_use_are_exact {
        assert(run_lifetimes_are_exact(plan@, run));
    }
    if observation.every_run_has_one_source_and_distinct_result {
        assert(run_has_one_source(run));
    }
}

} // verus!
