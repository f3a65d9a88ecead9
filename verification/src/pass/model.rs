//! The lowered graph as plain values.

use vstd::prelude::*;

use crate::filter::materialized::FilterColor;
use crate::geometry::PhysicalSize;
use crate::options::Antialiasing;
use crate::reference::index::Extend;
use crate::reference::pixel::BlendMode;
use crate::runtime::{Format, WorkingFormat};
use crate::scalar::Scalar;

verus! {

/// A pass of one graph generation.
#[derive(Clone, Copy, Debug, PartialEq, Eq, Structural)]
pub struct RuntimePassId(pub u64);

/// A resource of one graph generation.
#[derive(Clone, Copy, Debug, PartialEq, Eq, Structural)]
pub struct RuntimeResourceId(pub u64);

/// A rectangle in logical coordinates.
#[derive(Clone, Copy, Debug, PartialEq, Eq, Structural)]
pub struct Rect {
    pub x: Scalar,
    pub y: Scalar,
    pub width: Scalar,
    pub height: Scalar,
}

impl Rect {
    /// Whether the four numbers are equal.
    pub open spec fn spec_same_as(self, other: Rect) -> bool {
        &&& self.x.spec_equals(other.x)
        &&& self.y.spec_equals(other.y)
        &&& self.width.spec_equals(other.width)
        &&& self.height.spec_equals(other.height)
    }

    pub fn same_as(self, other: Rect) -> (same: bool)
        ensures
            same == self.spec_same_as(other),
    {
        self.x.equals(other.x) && self.y.equals(other.y) && self.width.equals(other.width)
            && self.height.equals(other.height)
    }
}

/// An affine transform by its six coefficients.
#[derive(Clone, Copy, Debug, PartialEq, Eq, Structural)]
pub struct Transform {
    pub a: Scalar,
    pub b: Scalar,
    pub c: Scalar,
    pub d: Scalar,
    pub e: Scalar,
    pub f: Scalar,
}

/// Where a resource lies in logical and in device coordinates.
#[derive(Clone, Copy, Debug, PartialEq, Eq, Structural)]
pub struct RuntimeSpatialDescriptor {
    pub logical_bounds: Rect,
    pub device_x: i32,
    pub device_y: i32,
    pub device_extent: PhysicalSize,
    pub texel_x: Scalar,
    pub texel_y: Scalar,
    pub raster_scale: Scalar,
}

impl RuntimeSpatialDescriptor {
    /// Whether every coordinate is equal.
    pub open spec fn spec_same_as(self, other: RuntimeSpatialDescriptor) -> bool {
        &&& self.logical_bounds.spec_same_as(other.logical_bounds)
        &&& self.device_x == other.device_x
        &&& self.device_y == other.device_y
        &&& self.device_extent == other.device_extent
        &&& self.texel_x.spec_equals(other.texel_x)
        &&& self.texel_y.spec_equals(other.texel_y)
        &&& self.raster_scale.spec_equals(other.raster_scale)
    }

    pub fn same_as(self, other: RuntimeSpatialDescriptor) -> (same: bool)
        ensures
            same == self.spec_same_as(other),
    {
        self.logical_bounds.same_as(other.logical_bounds) && self.device_x == other.device_x
            && self.device_y == other.device_y && self.device_extent == other.device_extent
            && self.texel_x.equals(other.texel_x) && self.texel_y.equals(other.texel_y)
            && self.raster_scale.equals(other.raster_scale)
    }
}

/// The source and the result of one pass.
#[derive(Clone, Copy, Debug, PartialEq, Eq, Structural)]
pub struct RuntimeSpatialMapping {
    pub source: RuntimeSpatialDescriptor,
    pub result: RuntimeSpatialDescriptor,
}

/// How the root or an isolated group starts.
#[derive(Clone, Copy, Debug, PartialEq, Eq, Structural)]
pub enum RuntimeInitialization {
    SurfaceBaseColor,
    Transparent,
}

/// What a captured span draws into.
#[derive(Clone, Copy, Debug, PartialEq, Eq, Structural)]
pub enum RuntimeVelloSpanScope {
    SurfaceRoot,
    LayerSource,
}

/// What a capture rasterizes.
#[derive(Clone, Copy, Debug, PartialEq, Eq, Structural)]
pub enum RuntimeVelloCapture {
    Span {
        command_count: usize,
        scope: RuntimeVelloSpanScope,
        captured_before_outer_semantics: bool,
        span_antialiasing: Antialiasing,
    },
    ClipCoverage { element_count: usize, coverage_antialiasing: Antialiasing },
}

/// Which way a blur pass convolves.
#[derive(Clone, Copy, Debug, PartialEq, Eq, Structural)]
pub enum RuntimeBlurAxis {
    Horizontal,
    Vertical,
}

/// Which channels a blur pass reads.
#[derive(Clone, Copy, Debug, PartialEq, Eq, Structural)]
pub enum RuntimeBlurInput {
    Rgba,
    SourceAlpha,
}

#[derive(Clone, Copy, Debug, PartialEq, Eq, Structural)]
pub enum RuntimeSamplingFilter {
    Nearest,
    Linear,
}

/// What a sample outside the source shows.
#[derive(Clone, Copy, Debug, PartialEq, Eq, Structural)]
pub enum RuntimeSamplingEdge {
    TransparentBlack,
    ClampToExtent,
    SemanticBorderMirror(Rect),
}

impl RuntimeSamplingEdge {
    pub open spec fn spec_same_as(self, other: RuntimeSamplingEdge) -> bool {
        match (self, other) {
            (RuntimeSamplingEdge::TransparentBlack, RuntimeSamplingEdge::TransparentBlack) => true,
            (RuntimeSamplingEdge::ClampToExtent, RuntimeSamplingEdge::ClampToExtent) => true,
            (
                RuntimeSamplingEdge::SemanticBorderMirror(bounds),
                RuntimeSamplingEdge::SemanticBorderMirror(others),
            ) => bounds.spec_same_as(others),
            _ => false,
        }
    }

    pub fn same_as(self, other: RuntimeSamplingEdge) -> (same: bool)
        ensures
            same == self.spec_same_as(other),
    {
        match (self, other) {
            (RuntimeSamplingEdge::TransparentBlack, RuntimeSamplingEdge::TransparentBlack) => true,
            (RuntimeSamplingEdge::ClampToExtent, RuntimeSamplingEdge::ClampToExtent) => true,
            (
                RuntimeSamplingEdge::SemanticBorderMirror(bounds),
                RuntimeSamplingEdge::SemanticBorderMirror(others),
            ) => bounds.same_as(others),
            _ => false,
        }
    }

    pub open spec fn spec_is_mirror(self) -> bool {
        self is SemanticBorderMirror
    }

    pub fn is_mirror(self) -> (mirror: bool)
        ensures
            mirror == self.spec_is_mirror(),
    {
        matches!(self, RuntimeSamplingEdge::SemanticBorderMirror(_))
    }
}

/// One axis of a Gaussian blur.
#[derive(Clone, Copy, Debug, PartialEq, Eq, Structural)]
pub struct RuntimeBlur {
    pub axis: RuntimeBlurAxis,
    pub input: RuntimeBlurInput,
    pub edge: RuntimeSamplingEdge,
    pub standard_deviation: Scalar,
    pub spatial: RuntimeSpatialMapping,
}

/// The colorization of a blurred alpha.
#[derive(Clone, Copy, Debug, PartialEq, Eq, Structural)]
pub struct RuntimeDropShadow {
    pub uses_source_alpha: bool,
    pub uses_continuous_offset: bool,
    pub retains_unchanged_source: bool,
    pub edge: RuntimeSamplingEdge,
    pub spatial: RuntimeSpatialMapping,
}

/// The uniform parameters of one layer composition.
#[derive(Clone, Copy, Debug, PartialEq, Eq, Structural)]
pub struct RuntimeLayerComposite {
    pub transform: Transform,
    pub opacity: Scalar,
    pub blend: BlendMode,
    pub alpha_mask: Option<RuntimeResourceId>,
    pub has_clip: bool,
    pub clip_coverage: Option<RuntimeResourceId>,
}

#[derive(Clone, Copy, Debug, PartialEq, Eq, Structural)]
pub enum RuntimeCompositeKind {
    SpanSourceOver,
    Layer(RuntimeLayerComposite),
    DropShadow,
}

#[derive(Clone, Copy, Debug, PartialEq, Eq, Structural)]
pub struct RuntimeComposite {
    pub kind: RuntimeCompositeKind,
    pub source_captured_before_outer_semantics: bool,
}

/// What a pass does. A `None` payload is a pass whose work was not bound.
#[derive(Clone, Copy, Debug, PartialEq, Eq, Structural)]
pub enum RuntimePassKind {
    ClearRoot { initialization: RuntimeInitialization, color: FilterColor },
    VelloCapture(Option<RuntimeVelloCapture>),
    CanonicalizeCapture,
    CopyBackdrop,
    ColorFilter(Option<RuntimeSpatialMapping>),
    BlurHorizontal(Option<RuntimeBlur>),
    BlurVertical(Option<RuntimeBlur>),
    DropShadowColorize(Option<RuntimeDropShadow>),
    Composite(Option<RuntimeComposite>),
    Present,
}

/// A binary32 number by its bits.
#[derive(Clone, Copy, Debug, PartialEq, Eq, Structural)]
pub struct Single {
    pub bits: u32,
}

/// The number that one color operation carries.
#[derive(Clone, Copy, Debug, PartialEq, Eq, Structural)]
pub enum RuntimeColorScalar {
    Unit(Single),
    Amount { zero: bool, mantissa: Single, exponent: i32 },
    Angle { sine: Single, cosine: Single },
}

#[derive(Clone, Copy, Debug, PartialEq, Eq, Structural)]
pub enum RuntimeColorOperationTag {
    Brightness,
    Contrast,
    Grayscale,
    HueRotate,
    Invert,
    Opacity,
    Saturate,
    Sepia,
}

/// Where the channels of one color operation are clamped.
#[derive(Clone, Copy, Debug, PartialEq, Eq, Structural)]
pub enum RuntimeColorClampBoundary {
    ClampStraightRgbaToUnitThenPremultiply,
    Unclamped,
}

#[derive(Clone, Copy, Debug, PartialEq, Eq, Structural)]
pub struct RuntimeColorOperation {
    pub tag: RuntimeColorOperationTag,
    pub scalar: RuntimeColorScalar,
    pub clamp_boundary: RuntimeColorClampBoundary,
}

#[derive(Clone, Copy, Debug, PartialEq, Eq, Structural)]
pub enum RuntimeReadRole {
    CaptureSource,
    CompletedParent,
    FilterSource,
    BlurredSourceAlpha,
    Shadow,
    CompositeParent,
    CompositeSource,
    ClipCoverage,
    AlphaMask,
    FinalWorkingImage,
}

#[derive(Clone, Copy, Debug, PartialEq, Eq, Structural)]
pub enum RuntimeResourceRole {
    RootWorkingImage,
    CaptureWorkingImage,
    ClipCoverage,
    ResolvedAlphaMask,
    BackdropCopy,
    FilterIntermediate,
    CompositeResult,
}

#[derive(Clone, Copy, Debug, PartialEq, Eq, Structural)]
pub enum RuntimeResourceFormat {
    VelloCaptureRgba8Unorm,
    ClipCoverageRgba8Unorm,
    ResolvedMaskRgba8Unorm,
    Working(WorkingFormat),
}

#[derive(Clone, Copy, Debug, PartialEq, Eq, Structural)]
pub enum RuntimeResourceProducer {
    Pass(RuntimePassId),
    Import,
}

#[derive(Clone, Copy, Debug, PartialEq, Eq, Structural)]
pub enum RuntimeResultBinding {
    Empty,
    Resource(RuntimeResourceId),
    Output(Format),
}

impl RuntimeResultBinding {
    /// The resource that the pass writes, if it writes one.
    pub open spec fn spec_resource(self) -> Option<RuntimeResourceId> {
        match self {
            RuntimeResultBinding::Resource(resource) => Some(resource),
            _ => None,
        }
    }

    pub fn resource(self) -> (resource: Option<RuntimeResourceId>)
        ensures
            resource == self.spec_resource(),
    {
        match self {
            RuntimeResultBinding::Resource(resource) => Some(resource),
            _ => None,
        }
    }
}

#[derive(Clone, Copy, Debug, PartialEq, Eq, Structural)]
pub enum ImageQuality {
    Low,
    Medium,
    High,
}

/// The sampling of a resolved mask.
#[derive(Clone, Copy, Debug, PartialEq, Eq, Structural)]
pub struct MaskSampling {
    pub quality: ImageQuality,
    pub extend: Extend,
}

/// The sampling edge as far as a pipeline is specialized by it.
#[derive(Clone, Copy, Debug, PartialEq, Eq, Structural)]
pub enum SamplingEdgeKey {
    TransparentBlack,
    ClampToExtent,
    Mirror,
}

/// What one sampler binding is specialized by.
#[derive(Clone, Copy, Debug, PartialEq, Eq, Structural)]
pub struct SamplerKey {
    pub role: RuntimeReadRole,
    pub source_format: RuntimeResourceFormat,
    pub filter: RuntimeSamplingFilter,
    pub edge: SamplingEdgeKey,
    pub mask: Option<MaskSampling>,
}

pub open spec fn edge_key(edge: RuntimeSamplingEdge) -> SamplingEdgeKey {
    match edge {
        RuntimeSamplingEdge::TransparentBlack => SamplingEdgeKey::TransparentBlack,
        RuntimeSamplingEdge::ClampToExtent => SamplingEdgeKey::ClampToExtent,
        RuntimeSamplingEdge::SemanticBorderMirror(_) => SamplingEdgeKey::Mirror,
    }
}

/// The part of an edge that a pipeline is specialized by.
pub fn shader_sampling_edge(edge: RuntimeSamplingEdge) -> (key: SamplingEdgeKey)
    ensures
        key == edge_key(edge),
{
    match edge {
        RuntimeSamplingEdge::TransparentBlack => SamplingEdgeKey::TransparentBlack,
        RuntimeSamplingEdge::ClampToExtent => SamplingEdgeKey::ClampToExtent,
        RuntimeSamplingEdge::SemanticBorderMirror(_) => SamplingEdgeKey::Mirror,
    }
}

/// One sampled input of a pass.
#[derive(Clone, Copy, Debug, PartialEq, Eq, Structural)]
pub struct RuntimeReadBinding {
    pub role: RuntimeReadRole,
    pub resource: RuntimeResourceId,
    pub sampling_filter: RuntimeSamplingFilter,
    pub sampling_edge: RuntimeSamplingEdge,
    pub sampler_key: SamplerKey,
}

/// The cache keys of one pass, each by an identity that equal keys share.
#[derive(Clone, Copy, Debug, PartialEq, Eq, Structural)]
pub struct RuntimePassCacheKeys {
    pub samplers: u64,
    pub layout: u64,
    pub shader: u64,
    pub pipeline: u64,
}

/// One pass. The operations belong to a color filter and the outer clips to a layer composition;
/// other passes have none.
#[derive(Debug)]
pub struct RuntimePass {
    pub id: RuntimePassId,
    pub kind: RuntimePassKind,
    pub dependencies: Vec<RuntimePassId>,
    pub reads: Vec<RuntimeReadBinding>,
    pub result: RuntimeResultBinding,
    pub releases: Vec<RuntimeResourceId>,
    pub cache_keys: Option<RuntimePassCacheKeys>,
    pub operations: Vec<RuntimeColorOperation>,
    pub outer_clips: Vec<Transform>,
}

/// A pass by its contents.
#[verifier::ext_equal]
pub struct PassModel {
    pub id: RuntimePassId,
    pub kind: RuntimePassKind,
    pub dependencies: Seq<RuntimePassId>,
    pub reads: Seq<RuntimeReadBinding>,
    pub result: RuntimeResultBinding,
    pub releases: Seq<RuntimeResourceId>,
    pub cache_keys: Option<RuntimePassCacheKeys>,
    pub operations: Seq<RuntimeColorOperation>,
    pub outer_clips: Seq<Transform>,
}

impl View for RuntimePass {
    type V = PassModel;

    open spec fn view(&self) -> PassModel {
        PassModel {
            id: self.id,
            kind: self.kind,
            dependencies: self.dependencies@,
            reads: self.reads@,
            result: self.result,
            releases: self.releases@,
            cache_keys: self.cache_keys,
            operations: self.operations@,
            outer_clips: self.outer_clips@,
        }
    }
}

/// An uploaded image that a resource is made of. The key that it is cached by is given by an
/// identity that equal keys share.
#[derive(Clone, Copy, Debug, PartialEq, Eq, Structural)]
pub struct MaskUpload {
    pub image_id: u64,
    pub cache_key: u64,
    pub physical_size: PhysicalSize,
    pub sampling: MaskSampling,
}

/// A resource that a graph allocates or imports.
#[derive(Clone, Copy, Debug, PartialEq, Eq, Structural)]
pub struct RuntimeResourceRequest {
    pub id: RuntimeResourceId,
    pub role: RuntimeResourceRole,
    pub format: RuntimeResourceFormat,
    pub producer: RuntimeResourceProducer,
    pub expected_reads: u32,
    pub last_use: RuntimePassId,
    pub spatial: RuntimeSpatialDescriptor,
    pub import: Option<MaskUpload>,
}

/// A graph lowered to ordered passes and the resources between them.
#[derive(Debug)]
pub struct LoweredGraphPlan {
    pub passes: Vec<RuntimePass>,
    pub resources: Vec<RuntimeResourceRequest>,
    pub root_working_image: RuntimeResourceId,
    pub final_present: RuntimePassId,
    pub working_format: WorkingFormat,
    pub output_format: Format,
}

/// A lowered graph by its contents.
#[verifier::ext_equal]
pub struct PlanModel {
    pub passes: Seq<PassModel>,
    pub resources: Seq<RuntimeResourceRequest>,
    pub root_working_image: RuntimeResourceId,
    pub final_present: RuntimePassId,
    pub working_format: WorkingFormat,
    pub output_format: Format,
}

/// The contents of a run of passes.
pub open spec fn pass_models(passes: Seq<RuntimePass>) -> Seq<PassModel> {
    Seq::new(passes.len(), |i: int| passes[i]@)
}

impl View for LoweredGraphPlan {
    type V = PlanModel;

    open spec fn view(&self) -> PlanModel {
        PlanModel {
            passes: pass_models(self.passes@),
            resources: self.resources@,
            root_working_image: self.root_working_image,
            final_present: self.final_present,
            working_format: self.working_format,
            output_format: self.output_format,
        }
    }
}

/// The contents of a run of plans.
pub open spec fn plan_models(plans: Seq<LoweredGraphPlan>) -> Seq<PlanModel> {
    Seq::new(plans.len(), |i: int| plans[i]@)
}

/// A copy of plain values.
pub fn copy_values<T: Copy>(values: &Vec<T>) -> (copied: Vec<T>)
    ensures
        copied@ == values@,
{
    let length: usize = values.len();
    let mut copied: Vec<T> = Vec::with_capacity(length);
    let mut next: usize = 0;
    while next < length
        invariant
            next <= length,
            length == values@.len(),
            copied@ == values@.take(next as int),
        decreases length - next,
    {
        copied.push(values[next]);
        proof {
            assert(values@.take(next + 1) =~= values@.take(next as int).push(values@[next as int]));
        }
        next = next + 1;
    }
    proof {
        assert(values@.take(length as int) =~= values@);
    }
    copied
}

impl RuntimePass {
    /// A copy of this pass.
    pub fn duplicate(&self) -> (pass: Self)
        ensures
            pass@ == self@,
    {
        RuntimePass {
            id: self.id,
            kind: self.kind,
            dependencies: copy_values(&self.dependencies),
            reads: copy_values(&self.reads),
            result: self.result,
            releases: copy_values(&self.releases),
            cache_keys: self.cache_keys,
            operations: copy_values(&self.operations),
            outer_clips: copy_values(&self.outer_clips),
        }
    }
}

impl LoweredGraphPlan {
    /// A copy of this plan.
    pub fn duplicate(&self) -> (plan: Self)
        ensures
            plan@ == self@,
    {
        let length: usize = self.passes.len();
        let mut passes: Vec<RuntimePass> = Vec::with_capacity(length);
        let mut next: usize = 0;
        while next < length
            invariant
                next <= length,
                length == self.passes@.len(),
                passes@.len() == next,
                forall|i: int| 0 <= i < next ==> (#[trigger] passes@[i])@ == self.passes@[i]@,
            decreases length - next,
        {
            passes.push(self.passes[next].duplicate());
            next = next + 1;
        }
        let plan = LoweredGraphPlan {
            passes,
            resources: copy_values(&self.resources),
            root_working_image: self.root_working_image,
            final_present: self.final_present,
            working_format: self.working_format,
            output_format: self.output_format,
        };
        proof {
            assert(plan@.passes =~= self@.passes);
        }
        plan
    }
}

/// Bounds are alike exactly if their origins and their sizes are equal in both axes.
pub proof fn law_like_bounds(a: Rect, b: Rect, same: bool)
    requires
        call_ensures(Rect::same_as, (a, b), same),
    ensures
        same ==> a.x.spec_equals(b.x),
        same ==> a.y.spec_equals(b.y),
        same ==> a.width.spec_equals(b.width),
        same ==> a.height.spec_equals(b.height),
        a.x.spec_equals(b.x) && a.y.spec_equals(b.y) && a.width.spec_equals(b.width)
            && a.height.spec_equals(b.height) ==> same,
        same == b.spec_same_as(a),
{
}

/// Images lie alike exactly if their logical bounds, their device origins and extents, their texel
/// origins and their raster scales are equal, in both axes.
pub proof fn law_like_images(
    a: RuntimeSpatialDescriptor,
    b: RuntimeSpatialDescriptor,
    same: bool,
)
    requires
        call_ensures(RuntimeSpatialDescriptor::same_as, (a, b), same),
    ensures
        same ==> a.device_x == b.device_x,
        same ==> a.device_y == b.device_y,
        same ==> a.device_extent.width == b.device_extent.width,
        same ==> a.device_extent.height == b.device_extent.height,
        same ==> a.texel_x.spec_equals(b.texel_x),
        same ==> a.texel_y.spec_equals(b.texel_y),
        same ==> a.raster_scale.spec_equals(b.raster_scale),
        same ==> a.logical_bounds.x.spec_equals(b.logical_bounds.x),
        same ==> a.logical_bounds.y.spec_equals(b.logical_bounds.y),
        same ==> a.logical_bounds.width.spec_equals(b.logical_bounds.width),
        same ==> a.logical_bounds.height.spec_equals(b.logical_bounds.height),
        a.device_x == b.device_x && a.device_y == b.device_y && a.device_extent == b.device_extent
            && a.texel_x.spec_equals(b.texel_x) && a.texel_y.spec_equals(b.texel_y)
            && a.raster_scale.spec_equals(b.raster_scale) && a.logical_bounds.x.spec_equals(
            b.logical_bounds.x,
        ) && a.logical_bounds.y.spec_equals(b.logical_bounds.y) && a.logical_bounds.width.spec_equals(
            b.logical_bounds.width,
        ) && a.logical_bounds.height.spec_equals(b.logical_bounds.height) ==> same,
{
}

/// Edges are alike exactly if they show the same outside the source: nothing, the nearest texel, or a
/// mirror at the same bounds. A pipeline is specialized by which of these it is.
pub proof fn law_like_edges(
    a: RuntimeSamplingEdge,
    b: RuntimeSamplingEdge,
    same: bool,
    mirror: bool,
    key: SamplingEdgeKey,
)
    requires
        call_ensures(RuntimeSamplingEdge::same_as, (a, b), same),
        call_ensures(RuntimeSamplingEdge::is_mirror, (a,), mirror),
        call_ensures(shader_sampling_edge, (a,), key),
    ensures
        same ==> (a is TransparentBlack <==> b is TransparentBlack),
        same ==> (a is ClampToExtent <==> b is ClampToExtent),
        same ==> (a is SemanticBorderMirror <==> b is SemanticBorderMirror),
        a is TransparentBlack && b is TransparentBlack ==> same,
        a is ClampToExtent && b is ClampToExtent ==> same,
        a is SemanticBorderMirror && b is SemanticBorderMirror ==> same
            == a->SemanticBorderMirror_0.spec_same_as(b->SemanticBorderMirror_0),
        mirror <==> a is SemanticBorderMirror,
        key is TransparentBlack <==> a is TransparentBlack,
        key is ClampToExtent <==> a is ClampToExtent,
        key is Mirror <==> a is SemanticBorderMirror,
{
}

/// A pass writes a resource exactly if its result is bound to one, and then that one.
pub proof fn law_results_name_their_resource(
    binding: RuntimeResultBinding,
    resource: Option<RuntimeResourceId>,
)
    requires
        call_ensures(RuntimeResultBinding::resource, (binding,), resource),
    ensures
        binding is Resource <==> resource is Some,
        resource matches Some(id) ==> binding == RuntimeResultBinding::Resource(id),
{
}

/// A copy of a plan has its passes, in order and field by field, its resources, its root, its last pass
/// and its formats.
pub proof fn law_plan_copies_are_equal(plan: &LoweredGraphPlan, copy: LoweredGraphPlan, i: int)
    requires
        call_ensures(LoweredGraphPlan::duplicate, (plan,), copy),
        0 <= i < plan.passes@.len(),
    ensures
        copy.passes@.len() == plan.passes@.len(),
        copy.passes@[i].id == plan.passes@[i].id,
        copy.passes@[i].kind == plan.passes@[i].kind,
        copy.passes@[i].dependencies@ == plan.passes@[i].dependencies@,
        copy.passes@[i].reads@ == plan.passes@[i].reads@,
        copy.passes@[i].result == plan.passes@[i].result,
        copy.passes@[i].releases@ == plan.passes@[i].releases@,
        copy.passes@[i].cache_keys == plan.passes@[i].cache_keys,
        copy.passes@[i].operations@ == plan.passes@[i].operations@,
        copy.passes@[i].outer_clips@ == plan.passes@[i].outer_clips@,
        copy.resources@ == plan.resources@,
        copy.root_working_image == plan.root_working_image,
        copy.final_present == plan.final_present,
        copy.working_format == plan.working_format,
        copy.output_format == plan.output_format,
{
    assert(copy@.passes.len() == plan@.passes.len());
    assert(copy@.passes[i] == copy.passes@[i]@);
    assert(plan@.passes[i] == plan.passes@[i]@);
}

/// A copy of values has each of them, in its place.
pub proof fn law_copied_values_stay_in_place<T: Copy>(values: &Vec<T>, copied: Vec<T>, i: int)
    requires
        call_ensures(copy_values::<T>, (values,), copied),
    ensures
        copied@.len() == values@.len(),
        0 <= i < values@.len() ==> copied@[i] == values@[i],
{
}

} // verus!
