//! Prepared graphs: what is handed to the encoder, and what it gives back.

use vstd::prelude::*;

use crate::geometry::PhysicalSize;
use crate::pass::model::{
    PassModel, RuntimePass, RuntimePassCacheKeys, RuntimePassId, RuntimePassKind,
    RuntimeReadBinding, RuntimeResourceFormat, RuntimeResourceId, RuntimeResourceRequest,
    RuntimeResourceRole, RuntimeResultBinding,
};
use crate::pass::requests::composites_layer;
use crate::runtime::WorkingFormat;

verus! {

/// The place of a kind of pass in the vocabulary.
pub open spec fn kind_index(kind: RuntimePassKind) -> int {
    match kind {
        RuntimePassKind::ClearRoot { .. } => 0,
        RuntimePassKind::VelloCapture(_) => 1,
        RuntimePassKind::CanonicalizeCapture => 2,
        RuntimePassKind::CopyBackdrop => 3,
        RuntimePassKind::ColorFilter(_) => 4,
        RuntimePassKind::BlurHorizontal(_) => 5,
        RuntimePassKind::BlurVertical(_) => 6,
        RuntimePassKind::DropShadowColorize(_) => 7,
        RuntimePassKind::Composite(_) => 8,
        RuntimePassKind::Present => 9,
    }
}

pub fn runtime_pass_kind_index(kind: RuntimePassKind) -> (index: usize)
    ensures
        index == kind_index(kind),
        index < 10,
{
    match kind {
        RuntimePassKind::ClearRoot { .. } => 0,
        RuntimePassKind::VelloCapture(_) => 1,
        RuntimePassKind::CanonicalizeCapture => 2,
        RuntimePassKind::CopyBackdrop => 3,
        RuntimePassKind::ColorFilter(_) => 4,
        RuntimePassKind::BlurHorizontal(_) => 5,
        RuntimePassKind::BlurVertical(_) => 6,
        RuntimePassKind::DropShadowColorize(_) => 7,
        RuntimePassKind::Composite(_) => 8,
        RuntimePassKind::Present => 9,
    }
}

/// The format of an allocated texture.
#[derive(Clone, Copy, Debug, PartialEq, Eq, Structural)]
pub enum TextureFormat {
    Rgba8Unorm,
    Rgba16Float,
}

/// What a texture is allocated for.
#[derive(Clone, Copy, Debug, PartialEq, Eq, Structural)]
pub enum EffectTextureRole {
    Capture,
    Coverage,
    Working,
}

/// What is allocated for a resource; usages are bit sets.
#[derive(Clone, Copy, Debug, PartialEq, Eq, Structural)]
pub enum RuntimeAllocationRequest {
    EffectTexture {
        role: EffectTextureRole,
        working_format: Option<WorkingFormat>,
        texture_format: TextureFormat,
        usage: u32,
    },
    ResolvedMask { cache_key: u64, physical_size: PhysicalSize },
}

/// The usages that textures need.
#[derive(Clone, Copy, Debug, PartialEq, Eq, Structural)]
pub struct TextureUsages {
    pub capture: u32,
    pub high_precision: u32,
    pub reduced_precision: u32,
}

/// A resource with what is allocated for it.
#[derive(Clone, Copy, Debug, PartialEq, Eq, Structural)]
pub struct PreparedResource {
    pub runtime: RuntimeResourceRequest,
    pub allocation: RuntimeAllocationRequest,
}

/// A pass with its keys and the lengths of its parameter blocks.
#[derive(Debug)]
pub struct PreparedPass {
    pub runtime: RuntimePass,
    pub cache_keys: Option<RuntimePassCacheKeys>,
    pub kernel: Option<u64>,
    pub kernel_releases: Vec<u64>,
    pub spatial_uniform: Option<usize>,
    pub blur_edge_parameters: Option<usize>,
    pub composite_parameters: Option<usize>,
    pub drop_shadow_parameters: Option<usize>,
}

/// What is handed to the encoder. A kernel is known by its key.
#[derive(Debug)]
pub struct RuntimeGraphPreparationPlan {
    pub passes: Vec<PreparedPass>,
    pub resources: Vec<PreparedResource>,
    pub kernels: Vec<u64>,
    pub root_working_image: RuntimeResourceId,
    pub final_present: RuntimePassId,
}

/// Whether some pass has the kind at a place in the vocabulary.
pub open spec fn speaks(passes: Seq<PreparedPass>, index: int) -> bool {
    exists|i: int|
        0 <= i < passes.len() && kind_index((#[trigger] passes[i]).runtime.kind) == index
}

/// Whether a place belongs to the vocabulary of layer composition.
pub open spec fn in_composition_vocabulary(index: int) -> bool {
    index == 0 || index == 1 || index == 2 || index == 8 || index == 9
}

/// Whether the passes speak exactly the vocabulary of layer composition.
pub open spec fn speaks_composition(passes: Seq<PreparedPass>) -> bool {
    forall|index: int|
        0 <= index < 10 ==> #[trigger] speaks(passes, index) == in_composition_vocabulary(index)
}

/// The first resource with the role of the root.
pub open spec fn first_root(resources: Seq<PreparedResource>) -> Option<RuntimeResourceId> {
    match crate::pass::search::first_where(
        resources,
        |resource: PreparedResource| resource.runtime.role == RuntimeResourceRole::RootWorkingImage,
    ) {
        Some(position) => Some(resources[position].runtime.id),
        None => None,
    }
}

fn find_first_root(resources: &Vec<PreparedResource>) -> (root: Option<RuntimeResourceId>)
    ensures
        root == first_root(resources@),
{
    let ghost chosen = |resource: PreparedResource|
        resource.runtime.role == RuntimeResourceRole::RootWorkingImage;
    proof {
        crate::pass::search::lemma_first_where(resources@, chosen);
    }
    let length: usize = resources.len();
    let mut next: usize = 0;
    while next < length
        invariant
            next <= length,
            length == resources@.len(),
            chosen == (|resource: PreparedResource|
                resource.runtime.role == RuntimeResourceRole::RootWorkingImage),
            forall|i: int| 0 <= i < next ==> !chosen(#[trigger] resources@[i]),
            match crate::pass::search::first_where(resources@, chosen) {
                Some(position) => {
                    &&& 0 <= position < resources@.len()
                    &&& chosen(resources@[position])
                    &&& forall|i: int| 0 <= i < position ==> !chosen(#[trigger] resources@[i])
                },
                None => forall|i: int|
                    0 <= i < resources@.len() ==> !chosen(#[trigger] resources@[i]),
            },
        decreases length - next,
    {
        if resources[next].runtime.role == RuntimeResourceRole::RootWorkingImage {
            assert(chosen(resources@[next as int]));
            return Some(resources[next].runtime.id);
        }
        assert(!chosen(resources@[next as int]));
        next = next + 1;
    }
    None
}

/// Which kinds of pass there are.
fn vocabulary(passes: &Vec<PreparedPass>) -> (found: [bool; 10])
    ensures
        forall|index: int| 0 <= index < 10 ==> found@[index] == #[trigger] speaks(passes@, index),
{
    let length: usize = passes.len();
    let mut found: [bool; 10] = [false; 10];
    let mut next: usize = 0;
    proof {
        assert forall|index: int| 0 <= index < 10 implies found@[index] == #[trigger] speaks(
            passes@.take(0),
            index,
        ) by {}
    }
    while next < length
        invariant
            next <= length,
            length == passes@.len(),
            forall|index: int|
                0 <= index < 10 ==> found@[index] == #[trigger] speaks(
                    passes@.take(next as int),
                    index,
                ),
        decreases length - next,
    {
        let spoken: usize = runtime_pass_kind_index(passes[next].runtime.kind);
        let ghost before = found@;
        found[spoken] = true;
        proof {
            let earlier = passes@.take(next as int);
            let taken = passes@.take(next + 1);
            assert forall|index: int| 0 <= index < 10 implies found@[index] == #[trigger] speaks(
                taken,
                index,
            ) by {
                assert(before[index] == speaks(earlier, index));
                if index == spoken {
                    assert(kind_index(taken[next as int].runtime.kind) == index);
                } else {
                    assert(found@[index] == before[index]);
                    if speaks(earlier, index) {
                        let i = choose|i: int|
                            0 <= i < earlier.len() && kind_index(
                                (#[trigger] earlier[i]).runtime.kind,
                            ) == index;
                        assert(taken[i] == earlier[i]);
                    }
                    if speaks(taken, index) {
                        let i = choose|i: int|
                            0 <= i < taken.len() && kind_index((#[trigger] taken[i]).runtime.kind)
                                == index;
                        assert(i != next);
                        assert(earlier[i] == taken[i]);
                    }
                }
            }
        }
        next = next + 1;
    }
    proof {
        assert(passes@.take(length as int) =~= passes@);
    }
    found
}

/// Whether the root and the final present are handed over, the passes speak exactly the vocabulary
/// of layer composition, and there are resources and no kernels.
pub open spec fn handoff_is_complete(plan: RuntimeGraphPreparationPlan) -> bool {
    &&& first_root(plan.resources@) == Some(plan.root_working_image)
    &&& plan.passes@.len() > 0 && plan.passes@.last().runtime.id == plan.final_present
    &&& speaks_composition(plan.passes@)
    &&& plan.resources@.len() > 0
    &&& plan.kernels@.len() == 0
}

pub fn prepared_handoff_is_complete(plan: &RuntimeGraphPreparationPlan) -> (complete: bool)
    ensures
        complete == handoff_is_complete(*plan),
{
    let found = vocabulary(&plan.passes);
    let closed = found[0] && found[1] && found[2] && found[8] && found[9] && !found[3] && !found[4]
        && !found[5] && !found[6] && !found[7];
    proof {
        let passes = plan.passes@;
        assert forall|index: int| 0 <= index < 10 implies found@[index] == #[trigger] speaks(
            passes,
            index,
        ) by {}
        assert(speaks(passes, 0) == found@[0] && speaks(passes, 1) == found@[1] && speaks(passes, 2)
            == found@[2] && speaks(passes, 3) == found@[3] && speaks(passes, 4) == found@[4]
            && speaks(passes, 5) == found@[5] && speaks(passes, 6) == found@[6] && speaks(passes, 7)
            == found@[7] && speaks(passes, 8) == found@[8] && speaks(passes, 9) == found@[9]);
        assert(closed == speaks_composition(passes));
    }
    let length: usize = plan.passes.len();
    find_first_root(&plan.resources) == Some(plan.root_working_image) && length > 0
        && plan.passes[length - 1].runtime.id == plan.final_present && closed
        && plan.resources.len() > 0 && plan.kernels.len() == 0
}

/// The texture format of a working format.
pub open spec fn working_texture(format: WorkingFormat) -> TextureFormat {
    match format {
        WorkingFormat::HighPrecision => TextureFormat::Rgba16Float,
        WorkingFormat::ReducedPrecision => TextureFormat::Rgba8Unorm,
    }
}

impl TextureUsages {
    pub open spec fn of_working(self, format: WorkingFormat) -> u32 {
        match format {
            WorkingFormat::HighPrecision => self.high_precision,
            WorkingFormat::ReducedPrecision => self.reduced_precision,
        }
    }
}

/// Whether what is allocated for a resource is what its format asks for.
pub open spec fn allocation_is_exact(resource: PreparedResource, usages: TextureUsages) -> bool {
    match (resource.runtime.format, resource.allocation) {
        (
            RuntimeResourceFormat::VelloCaptureRgba8Unorm,
            RuntimeAllocationRequest::EffectTexture { role, working_format, texture_format, usage },
        ) => role == EffectTextureRole::Capture && working_format is None && texture_format
            == TextureFormat::Rgba8Unorm && usage == usages.capture,
        (
            RuntimeResourceFormat::ClipCoverageRgba8Unorm,
            RuntimeAllocationRequest::EffectTexture { role, working_format, texture_format, usage },
        ) => role == EffectTextureRole::Coverage && working_format is None && texture_format
            == TextureFormat::Rgba8Unorm && usage == usages.capture,
        (
            RuntimeResourceFormat::Working(format),
            RuntimeAllocationRequest::EffectTexture { role, working_format, texture_format, usage },
        ) => role == EffectTextureRole::Working && working_format == Some(format) && texture_format
            == working_texture(format) && usage == usages.of_working(format),
        (
            RuntimeResourceFormat::ResolvedMaskRgba8Unorm,
            RuntimeAllocationRequest::ResolvedMask { cache_key, physical_size },
        ) => resource.runtime.import matches Some(upload) && upload.cache_key == cache_key
            && upload.physical_size == physical_size,
        _ => false,
    }
}

fn allocates_exactly(resource: &PreparedResource, usages: TextureUsages) -> (exact: bool)
    ensures
        exact == allocation_is_exact(*resource, usages),
{
    match (resource.runtime.format, resource.allocation) {
        (
            RuntimeResourceFormat::VelloCaptureRgba8Unorm,
            RuntimeAllocationRequest::EffectTexture { role, working_format, texture_format, usage },
        ) => role == EffectTextureRole::Capture && working_format.is_none() && texture_format
            == TextureFormat::Rgba8Unorm && usage == usages.capture,
        (
            RuntimeResourceFormat::ClipCoverageRgba8Unorm,
            RuntimeAllocationRequest::EffectTexture { role, working_format, texture_format, usage },
        ) => role == EffectTextureRole::Coverage && working_format.is_none() && texture_format
            == TextureFormat::Rgba8Unorm && usage == usages.capture,
        (
            RuntimeResourceFormat::Working(format),
            RuntimeAllocationRequest::EffectTexture { role, working_format, texture_format, usage },
        ) => {
            let (expected_texture, expected_usage) = match format {
                WorkingFormat::HighPrecision => (
                    TextureFormat::Rgba16Float,
                    usages.high_precision,
                ),
                WorkingFormat::ReducedPrecision => (
                    TextureFormat::Rgba8Unorm,
                    usages.reduced_precision,
                ),
            };
            role == EffectTextureRole::Working && working_format == Some(format) && texture_format
                == expected_texture && usage == expected_usage
        },
        (
            RuntimeResourceFormat::ResolvedMaskRgba8Unorm,
            RuntimeAllocationRequest::ResolvedMask { cache_key, physical_size },
        ) => match resource.runtime.import {
            Some(upload) => upload.cache_key == cache_key && upload.physical_size == physical_size,
            None => false,
        },
        _ => false,
    }
}

/// Whether the resources hold captures, coverages, working images and masks.
pub open spec fn holds_every_format(resources: Seq<PreparedResource>) -> bool {
    &&& exists|i: int|
        0 <= i < resources.len() && (#[trigger] resources[i]).runtime.format
            is VelloCaptureRgba8Unorm
    &&& exists|i: int|
        0 <= i < resources.len() && (#[trigger] resources[i]).runtime.format
            is ClipCoverageRgba8Unorm
    &&& exists|i: int|
        0 <= i < resources.len() && (#[trigger] resources[i]).runtime.format is Working
    &&& exists|i: int|
        0 <= i < resources.len() && (#[trigger] resources[i]).runtime.format
            is ResolvedMaskRgba8Unorm
}

/// Whether every format is allocated, each exactly, and there are no kernels.
pub open spec fn allocations_are_exact(
    plan: RuntimeGraphPreparationPlan,
    usages: TextureUsages,
) -> bool {
    &&& holds_every_format(plan.resources@)
    &&& forall|i: int|
        0 <= i < plan.resources@.len() ==> allocation_is_exact(
            #[trigger] plan.resources@[i],
            usages,
        )
    &&& plan.kernels@.len() == 0
}

pub fn prepared_allocations_are_exact(
    plan: &RuntimeGraphPreparationPlan,
    usages: TextureUsages,
) -> (exact: bool)
    ensures
        exact == allocations_are_exact(*plan, usages),
{
    let length: usize = plan.resources.len();
    let mut capture = false;
    let mut coverage = false;
    let mut working = false;
    let mut mask = false;
    let mut next: usize = 0;
    while next < length
        invariant
            next <= length,
            length == plan.resources@.len(),
            forall|i: int|
                0 <= i < next ==> allocation_is_exact(#[trigger] plan.resources@[i], usages),
            capture == (exists|i: int|
                0 <= i < next && (#[trigger] plan.resources@[i]).runtime.format
                    is VelloCaptureRgba8Unorm),
            coverage == (exists|i: int|
                0 <= i < next && (#[trigger] plan.resources@[i]).runtime.format
                    is ClipCoverageRgba8Unorm),
            working == (exists|i: int|
                0 <= i < next && (#[trigger] plan.resources@[i]).runtime.format is Working),
            mask == (exists|i: int|
                0 <= i < next && (#[trigger] plan.resources@[i]).runtime.format
                    is ResolvedMaskRgba8Unorm),
        decreases length - next,
    {
        let ghost item = plan.resources@[next as int];
        if !allocates_exactly(&plan.resources[next], usages) {
            assert(!allocation_is_exact(plan.resources@[next as int], usages));
            return false;
        }
        match plan.resources[next].runtime.format {
            RuntimeResourceFormat::VelloCaptureRgba8Unorm => {
                assert(plan.resources@[next as int].runtime.format is VelloCaptureRgba8Unorm);
                capture = true;
            },
            RuntimeResourceFormat::ClipCoverageRgba8Unorm => {
                assert(plan.resources@[next as int].runtime.format is ClipCoverageRgba8Unorm);
                coverage = true;
            },
            RuntimeResourceFormat::Working(_) => {
                assert(plan.resources@[next as int].runtime.format is Working);
                working = true;
            },
            RuntimeResourceFormat::ResolvedMaskRgba8Unorm => {
                assert(plan.resources@[next as int].runtime.format is ResolvedMaskRgba8Unorm);
                mask = true;
            },
        }
        next = next + 1;
    }
    capture && coverage && working && mask && plan.kernels.len() == 0
}

/// The bytes of the spatial uniform of a pass.
pub const SPATIAL_UNIFORM_BYTES: usize = 48;

/// The bytes of the edge parameters of a mirrored blur.
pub const BLUR_EDGE_BYTES: usize = 16;

/// The bytes of the parameters of a layer composition.
pub const COMPOSITE_BYTES: usize = 112;

/// The bytes of the parameters of a drop shadow.
pub const DROP_SHADOW_BYTES: usize = 32;

/// A pass keeps its keys, and has a spatial uniform of the right length where it has keys.
pub open spec fn keys_are_kept(pass: PreparedPass) -> bool {
    &&& pass.cache_keys == pass.runtime.cache_keys
    &&& pass.spatial_uniform is Some == pass.cache_keys is Some
    &&& pass.spatial_uniform matches Some(length) ==> length == SPATIAL_UNIFORM_BYTES
}

/// Whether every pass keeps its keys.
pub open spec fn all_keys_are_kept(plan: RuntimeGraphPreparationPlan) -> bool {
    forall|i: int| 0 <= i < plan.passes@.len() ==> keys_are_kept(#[trigger] plan.passes@[i])
}

pub fn prepared_spatial_keys_are_exact(plan: &RuntimeGraphPreparationPlan) -> (exact: bool)
    ensures
        exact == all_keys_are_kept(*plan),
{
    let length: usize = plan.passes.len();
    let mut next: usize = 0;
    while next < length
        invariant
            next <= length,
            length == plan.passes@.len(),
            forall|i: int| 0 <= i < next ==> keys_are_kept(#[trigger] plan.passes@[i]),
        decreases length - next,
    {
        let pass = &plan.passes[next];
        let uniform = match pass.spatial_uniform {
            Some(bytes) => bytes == SPATIAL_UNIFORM_BYTES,
            None => true,
        };
        if !(pass.cache_keys == pass.runtime.cache_keys && pass.spatial_uniform.is_some()
            == pass.cache_keys.is_some() && uniform) {
            assert(!keys_are_kept(plan.passes@[next as int]));
            return false;
        }
        next = next + 1;
    }
    true
}

/// Whether a kind of pass blurs with a mirrored edge.
pub open spec fn mirrors(kind: RuntimePassKind) -> bool {
    ||| kind matches RuntimePassKind::BlurHorizontal(Some(blur)) && blur.edge.spec_is_mirror()
    ||| kind matches RuntimePassKind::BlurVertical(Some(blur)) && blur.edge.spec_is_mirror()
}

/// A pass has a parameter block of the right length exactly where its kind reads one.
pub open spec fn view_is_consistent(pass: PreparedPass) -> bool {
    &&& (pass.spatial_uniform == Some(SPATIAL_UNIFORM_BYTES)) == pass.cache_keys is Some
    &&& (pass.blur_edge_parameters == Some(BLUR_EDGE_BYTES)) == mirrors(pass.runtime.kind)
    &&& (pass.composite_parameters == Some(COMPOSITE_BYTES)) == composites_layer(pass.runtime.kind)
    &&& (pass.drop_shadow_parameters == Some(DROP_SHADOW_BYTES)) == (pass.runtime.kind matches
        RuntimePassKind::DropShadowColorize(Some(_)))
}

pub fn prepared_pass_view_is_consistent(pass: &PreparedPass) -> (consistent: bool)
    ensures
        consistent == view_is_consistent(*pass),
{
    let mirrored = match pass.runtime.kind {
        RuntimePassKind::BlurHorizontal(Some(blur)) => blur.edge.is_mirror(),
        RuntimePassKind::BlurVertical(Some(blur)) => blur.edge.is_mirror(),
        _ => false,
    };
    let colorizes = matches!(pass.runtime.kind, RuntimePassKind::DropShadowColorize(Some(_)));
    let layer = crate::pass::requests::is_layer_composite(pass.runtime.kind);
    (pass.spatial_uniform == Some(SPATIAL_UNIFORM_BYTES)) == pass.cache_keys.is_some() && (
    pass.blur_edge_parameters == Some(BLUR_EDGE_BYTES)) == mirrored && (pass.composite_parameters
        == Some(COMPOSITE_BYTES)) == layer && (pass.drop_shadow_parameters == Some(
        DROP_SHADOW_BYTES,
    )) == colorizes
}

/// The images that a pass samples, then the one that it writes.
pub open spec fn bound_resources_of(pass: PassModel) -> Seq<RuntimeResourceId> {
    let sampled = pass.reads.map_values(|read: RuntimeReadBinding| read.resource);
    match pass.result {
        RuntimeResultBinding::Resource(result) => sampled.push(result),
        _ => sampled,
    }
}

pub fn bound_resources(pass: &RuntimePass) -> (resources: Vec<RuntimeResourceId>)
    ensures
        resources@ == bound_resources_of(pass@),
{
    let length: usize = pass.reads.len();
    let mut resources: Vec<RuntimeResourceId> = Vec::with_capacity(length);
    let mut next: usize = 0;
    while next < length
        invariant
            next <= length,
            length == pass.reads@.len(),
            resources@.len() == next,
            forall|i: int| 0 <= i < next ==> #[trigger] resources@[i] == pass.reads@[i].resource,
        decreases length - next,
    {
        resources.push(pass.reads[next].resource);
        next = next + 1;
    }
    proof {
        assert(resources@ =~= pass@.reads.map_values(|read: RuntimeReadBinding| read.resource));
    }
    if let RuntimeResultBinding::Resource(result) = pass.result {
        resources.push(result);
    }
    resources
}

/// Every kind of pass has its own place in the vocabulary, in the order in which a graph goes through
/// them.
pub proof fn law_kinds_have_their_own_place(kind: RuntimePassKind, index: usize)
    requires
        call_ensures(runtime_pass_kind_index, (kind,), index),
    ensures
        index == 0 <==> kind is ClearRoot,
        index == 1 <==> kind is VelloCapture,
        index == 2 <==> kind is CanonicalizeCapture,
        index == 3 <==> kind is CopyBackdrop,
        index == 4 <==> kind is ColorFilter,
        index == 5 <==> kind is BlurHorizontal,
        index == 6 <==> kind is BlurVertical,
        index == 7 <==> kind is DropShadowColorize,
        index == 8 <==> kind is Composite,
        index == 9 <==> kind is Present,
{
}

/// A complete handoff ends with the final present, starts its resources of the root role with the root
/// image, has no kernels, clears, captures, canonicalizes, composites and presents, and does nothing
/// else.
pub proof fn law_complete_handoffs(plan: &RuntimeGraphPreparationPlan, complete: bool, i: int)
    requires
        call_ensures(prepared_handoff_is_complete, (plan,), complete),
        complete,
        0 <= i < plan.passes@.len(),
    ensures
        plan.kernels@.len() == 0,
        plan.resources@.len() > 0,
        plan.passes@[plan.passes@.len() - 1].runtime.id == plan.final_present,
        ({
            let kind = plan.passes@[i].runtime.kind;
            kind is ClearRoot || kind is VelloCapture || kind is CanonicalizeCapture
                || kind is Composite || kind is Present
        }),
        exists|j: int|
            0 <= j < plan.passes@.len() && (#[trigger] plan.passes@[j]).runtime.kind is ClearRoot,
        exists|j: int|
            0 <= j < plan.passes@.len() && (#[trigger] plan.passes@[j]).runtime.kind is VelloCapture,
        exists|j: int|
            0 <= j < plan.passes@.len() && (
            #[trigger] plan.passes@[j]).runtime.kind is CanonicalizeCapture,
        exists|j: int|
            0 <= j < plan.passes@.len() && (#[trigger] plan.passes@[j]).runtime.kind is Composite,
        exists|j: int|
            0 <= j < plan.passes@.len() && (#[trigger] plan.passes@[j]).runtime.kind is Present,
        exists|j: int|
            {
                let resource = #[trigger] plan.resources@[j];
                &&& 0 <= j < plan.resources@.len()
                &&& resource.runtime.role is RootWorkingImage
                &&& resource.runtime.id == plan.root_working_image
                &&& forall|k: int|
                    0 <= k < j ==> !((
                    #[trigger] plan.resources@[k]).runtime.role is RootWorkingImage)
            },
{
    let passes = plan.passes@;
    let index = kind_index(passes[i].runtime.kind);
    assert(speaks(passes, index));
    assert(speaks(passes, 0) && speaks(passes, 1) && speaks(passes, 2) && speaks(passes, 8)
        && speaks(passes, 9));
    let chosen = |resource: PreparedResource|
        resource.runtime.role == RuntimeResourceRole::RootWorkingImage;
    crate::pass::search::lemma_first_where(plan.resources@, chosen);
    let j = crate::pass::search::first_where(plan.resources@, chosen)->0;
    assert(plan.resources@[j].runtime.role is RootWorkingImage);
    assert forall|k: int| 0 <= k < j implies !((
    #[trigger] plan.resources@[k]).runtime.role is RootWorkingImage) by {
        assert(!chosen(plan.resources@[k]));
    }
}

/// Exact allocations are those of the format: captures and coverages in eight bits, working images in
/// sixteen bits of high and eight of reduced precision, and masks as they were uploaded.
pub proof fn law_exact_allocations(
    plan: &RuntimeGraphPreparationPlan,
    usages: TextureUsages,
    exact: bool,
    i: int,
)
    requires
        call_ensures(prepared_allocations_are_exact, (plan, usages), exact),
        exact,
        0 <= i < plan.resources@.len(),
    ensures
        plan.kernels@.len() == 0,
        ({
            let resource = plan.resources@[i];
            let format = resource.runtime.format;
            &&& format is VelloCaptureRgba8Unorm ==> resource.allocation == (
            RuntimeAllocationRequest::EffectTexture {
                role: EffectTextureRole::Capture,
                working_format: None,
                texture_format: TextureFormat::Rgba8Unorm,
                usage: usages.capture,
            })
            &&& format is ClipCoverageRgba8Unorm ==> resource.allocation == (
            RuntimeAllocationRequest::EffectTexture {
                role: EffectTextureRole::Coverage,
                working_format: None,
                texture_format: TextureFormat::Rgba8Unorm,
                usage: usages.capture,
            })
            &&& format == RuntimeResourceFormat::Working(WorkingFormat::HighPrecision)
                ==> resource.allocation == (RuntimeAllocationRequest::EffectTexture {
                role: EffectTextureRole::Working,
                working_format: Some(WorkingFormat::HighPrecision),
                texture_format: TextureFormat::Rgba16Float,
                usage: usages.high_precision,
            })
            &&& format == RuntimeResourceFormat::Working(WorkingFormat::ReducedPrecision)
                ==> resource.allocation == (RuntimeAllocationRequest::EffectTexture {
                role: EffectTextureRole::Working,
                working_format: Some(WorkingFormat::ReducedPrecision),
                texture_format: TextureFormat::Rgba8Unorm,
                usage: usages.reduced_precision,
            })
            &&& format is ResolvedMaskRgba8Unorm ==> (
            resource.runtime.import matches Some(upload) && resource.allocation == (
            RuntimeAllocationRequest::ResolvedMask {
                cache_key: upload.cache_key,
                physical_size: upload.physical_size,
            }))
        }),
        exists|j: int|
            0 <= j < plan.resources@.len() && (
            #[trigger] plan.resources@[j]).runtime.format is VelloCaptureRgba8Unorm,
        exists|j: int|
            0 <= j < plan.resources@.len() && (
            #[trigger] plan.resources@[j]).runtime.format is ClipCoverageRgba8Unorm,
        exists|j: int|
            0 <= j < plan.resources@.len() && (
            #[trigger] plan.resources@[j]).runtime.format is Working,
        exists|j: int|
            0 <= j < plan.resources@.len() && (
            #[trigger] plan.resources@[j]).runtime.format is ResolvedMaskRgba8Unorm,
{
    assert(allocation_is_exact(plan.resources@[i], usages));
}

/// Keys are exact only if each pass keeps its own and has a spatial uniform of forty-eight bytes exactly
/// where it has keys; for a single pass that is enough.
pub proof fn law_spatial_keys(plan: &RuntimeGraphPreparationPlan, exact: bool, i: int)
    requires
        call_ensures(prepared_spatial_keys_are_exact, (plan,), exact),
        0 <= i < plan.passes@.len(),
    ensures
        ({
            let pass = plan.passes@[i];
            let kept = {
                &&& pass.cache_keys == pass.runtime.cache_keys
                &&& pass.cache_keys is Some ==> pass.spatial_uniform == Some(48usize)
                &&& pass.cache_keys is None ==> pass.spatial_uniform is None
            };
            &&& exact ==> kept
            &&& plan.passes@.len() == 1 ==> exact == kept
        }),
{
    assert(plan.passes@.len() == 1 ==> i == 0);
    assert(exact ==> keys_are_kept(plan.passes@[i]));
}

/// A pass has the parameters that its kind reads and no others: forty-eight bytes for the space of a
/// program, sixteen for a mirrored edge, a hundred and twelve for a layer and thirty-two for a shadow.
pub proof fn law_consistent_parameters(pass: &PreparedPass, consistent: bool)
    requires
        call_ensures(prepared_pass_view_is_consistent, (pass,), consistent),
    ensures
        ({
            let kind = pass.runtime.kind;
            consistent <==> {
                &&& pass.spatial_uniform == Some(48usize) <==> pass.cache_keys is Some
                &&& pass.blur_edge_parameters == Some(16usize) <==> {
                    ||| kind matches RuntimePassKind::BlurHorizontal(Some(blur))
                        && blur.edge is SemanticBorderMirror
                    ||| kind matches RuntimePassKind::BlurVertical(Some(blur))
                        && blur.edge is SemanticBorderMirror
                }
                &&& pass.composite_parameters == Some(112usize) <==> (
                kind matches RuntimePassKind::Composite(Some(composite))
                    && composite.kind is Layer)
                &&& pass.drop_shadow_parameters == Some(32usize) <==> (
                kind matches RuntimePassKind::DropShadowColorize(Some(_)))
            }
        }),
{
}

/// A pass binds what it samples, in order, and behind that what it writes, where it writes a resource.
pub proof fn law_bound_resources(pass: &RuntimePass, resources: Vec<RuntimeResourceId>, i: int)
    requires
        call_ensures(bound_resources, (pass,), resources),
    ensures
        0 <= i < pass.reads@.len() ==> resources@[i] == pass.reads@[i].resource,
        pass.result matches RuntimeResultBinding::Resource(written) ==> resources@.len()
            == pass.reads@.len() + 1 && resources@[pass.reads@.len() as int] == written,
        !(pass.result is Resource) ==> resources@.len() == pass.reads@.len(),
{
}

} // verus!
