//! What the keys of the spine and of layer compositions bind.

use vstd::prelude::*;

use crate::error::Error;
use crate::pass::bound::{facts_found, looks_up_any, may_find};
use crate::pass::layout::TextureFormatKey;
use crate::pass::model::{RuntimePassCacheKeys, RuntimeReadRole};
use crate::pass::search::{
    count_where, first_where, law_counting_is_filtering, lemma_count_step, lemma_first_where,
};
use crate::runtime::{Format, WorkingFormat};

verus! {

/// Whether a composition blends in fixed function or samples its destination.
#[derive(Clone, Copy, Debug, PartialEq, Eq, Structural)]
pub enum CompositePath {
    Normal,
    DestinationSampling,
}

/// What the keys of one layer composition bind.
#[derive(Debug)]
pub struct CompositePassFacts {
    pub path: CompositePath,
    pub has_clip_coverage: bool,
    pub has_alpha_mask: bool,
    pub sampled_roles: Vec<RuntimeReadRole>,
    pub uses_fixed_source_over_blend: bool,
    pub uses_replace_blend: bool,
    pub has_only_source_sampler: bool,
    pub has_exact_uniforms: bool,
    pub working_format: TextureFormatKey,
    pub target_format: TextureFormatKey,
}

pub open spec fn is_role(role: RuntimeReadRole) -> spec_fn(RuntimeReadRole) -> bool {
    |sampled: RuntimeReadRole| sampled == role
}

/// How often a role is sampled.
pub open spec fn role_count(roles: Seq<RuntimeReadRole>, role: RuntimeReadRole) -> nat {
    count_where(roles, is_role(role))
}

fn roles_counted(roles: &Vec<RuntimeReadRole>, role: RuntimeReadRole) -> (count: usize)
    ensures
        count == role_count(roles@, role),
{
    let ghost chosen = is_role(role);
    let length: usize = roles.len();
    let mut count: usize = 0;
    let mut next: usize = 0;
    while next < length
        invariant
            next <= length,
            length == roles@.len(),
            chosen == is_role(role),
            count <= next,
            count == count_where(roles@.take(next as int), chosen),
        decreases length - next,
    {
        proof {
            lemma_count_step(roles@, chosen, next as int);
        }
        if roles[next] == role {
            count = count + 1;
        }
        next = next + 1;
    }
    proof {
        assert(roles@.take(length as int) =~= roles@);
    }
    count
}

pub open spec fn one_if(holds: bool) -> nat {
    if holds {
        1
    } else {
        0
    }
}

impl CompositePassFacts {
    /// A normal composition blends in fixed function and does not sample its parent.
    pub open spec fn omits_parent_if_normal(self) -> bool {
        self.path == CompositePath::Normal ==> {
            &&& role_count(self.sampled_roles@, RuntimeReadRole::CompositeParent) == 0
            &&& self.uses_fixed_source_over_blend
            &&& !self.uses_replace_blend
        }
    }

    /// A composition that samples its destination samples its parent once and replaces.
    pub open spec fn binds_parent_if_sampled(self) -> bool {
        self.path == CompositePath::DestinationSampling ==> {
            &&& role_count(self.sampled_roles@, RuntimeReadRole::CompositeParent) == 1
            &&& self.uses_replace_blend
            &&& !self.uses_fixed_source_over_blend
        }
    }

    pub open spec fn clip_is_exact(self) -> bool {
        role_count(self.sampled_roles@, RuntimeReadRole::ClipCoverage) == one_if(
            self.has_clip_coverage,
        )
    }

    pub open spec fn mask_is_exact(self) -> bool {
        role_count(self.sampled_roles@, RuntimeReadRole::AlphaMask) == one_if(self.has_alpha_mask)
    }

    pub open spec fn source_is_exact(self) -> bool {
        self.has_only_source_sampler && role_count(
            self.sampled_roles@,
            RuntimeReadRole::CompositeSource,
        ) == 1
    }

    pub open spec fn uniforms_are_exact(self) -> bool {
        &&& self.has_exact_uniforms
        &&& self.working_format == self.target_format
        &&& self.sampled_roles@.len() == 1 + one_if(self.path == CompositePath::DestinationSampling)
            + one_if(self.has_clip_coverage) + one_if(self.has_alpha_mask)
    }

    /// Whether the composition has this path, with or without a clip and a mask.
    pub open spec fn is_interface(self, path: CompositePath, clip: bool, mask: bool) -> bool {
        self.path == path && self.has_clip_coverage == clip && self.has_alpha_mask == mask
    }
}

/// How many compositions have an interface.
pub open spec fn interface_count(
    facts: Seq<CompositePassFacts>,
    path: CompositePath,
    clip: bool,
    mask: bool,
) -> nat {
    count_where(facts, |facts: CompositePassFacts| facts.is_interface(path, clip, mask))
}

pub open spec fn path_is_realized(facts: Seq<CompositePassFacts>, path: CompositePath) -> bool {
    &&& interface_count(facts, path, false, false) == 1
    &&& interface_count(facts, path, true, false) == 1
    &&& interface_count(facts, path, false, true) == 1
    &&& interface_count(facts, path, true, true) == 1
}

fn interfaces_counted(
    facts: &Vec<CompositePassFacts>,
    path: CompositePath,
    clip: bool,
    mask: bool,
) -> (count: usize)
    ensures
        count == interface_count(facts@, path, clip, mask),
{
    let ghost chosen = |facts: CompositePassFacts| facts.is_interface(path, clip, mask);
    let length: usize = facts.len();
    let mut count: usize = 0;
    let mut next: usize = 0;
    while next < length
        invariant
            next <= length,
            length == facts@.len(),
            chosen == (|facts: CompositePassFacts| facts.is_interface(path, clip, mask)),
            count <= next,
            count == count_where(facts@.take(next as int), chosen),
        decreases length - next,
    {
        proof {
            lemma_count_step(facts@, chosen, next as int);
        }
        let item = &facts[next];
        if item.path == path && item.has_clip_coverage == clip && item.has_alpha_mask == mask {
            count = count + 1;
        }
        next = next + 1;
    }
    proof {
        assert(facts@.take(length as int) =~= facts@);
    }
    count
}

fn realizes_path(facts: &Vec<CompositePassFacts>, path: CompositePath) -> (realized: bool)
    ensures
        realized == path_is_realized(facts@, path),
{
    interfaces_counted(facts, path, false, false) == 1 && interfaces_counted(
        facts,
        path,
        true,
        false,
    ) == 1 && interfaces_counted(facts, path, false, true) == 1 && interfaces_counted(
        facts,
        path,
        true,
        true,
    ) == 1
}

/// What layer compositions bind.
#[derive(Clone, Copy, Debug, PartialEq, Eq, Structural)]
pub struct C09CompositeLayoutObservation {
    pub realizes_all_eight_entry_interfaces: bool,
    pub normal_omits_parent: bool,
    pub destination_binds_parent: bool,
    pub optional_clip_is_exact: bool,
    pub optional_mask_is_exact: bool,
    pub binds_only_one_source_sampler: bool,
    pub binds_only_exact_uniforms: bool,
}

pub open spec fn composite_layout_of(requested: nat, facts: Seq<CompositePassFacts>) ->
    C09CompositeLayoutObservation {
    C09CompositeLayoutObservation {
        realizes_all_eight_entry_interfaces: facts.len() == requested && facts.len() == 8
            && path_is_realized(facts, CompositePath::Normal) && path_is_realized(
            facts,
            CompositePath::DestinationSampling,
        ),
        normal_omits_parent: forall|i: int|
            0 <= i < facts.len() ==> (#[trigger] facts[i]).omits_parent_if_normal(),
        destination_binds_parent: forall|i: int|
            0 <= i < facts.len() ==> (#[trigger] facts[i]).binds_parent_if_sampled(),
        optional_clip_is_exact: forall|i: int|
            0 <= i < facts.len() ==> (#[trigger] facts[i]).clip_is_exact(),
        optional_mask_is_exact: forall|i: int|
            0 <= i < facts.len() ==> (#[trigger] facts[i]).mask_is_exact(),
        binds_only_one_source_sampler: forall|i: int|
            0 <= i < facts.len() ==> (#[trigger] facts[i]).source_is_exact(),
        binds_only_exact_uniforms: forall|i: int|
            0 <= i < facts.len() ==> (#[trigger] facts[i]).uniforms_are_exact(),
    }
}

/// What the layer compositions that are requested bind, as far as `facts_of` knows their keys.
pub fn c09_composite_layout_observation<
    F: Fn(RuntimePassCacheKeys) -> Option<CompositePassFacts>,
>(requests: &Vec<RuntimePassCacheKeys>, facts_of: &F) -> (observation: C09CompositeLayoutObservation)
    requires
        looks_up_any(*facts_of),
    ensures
        exists|found: Seq<CompositePassFacts>| #[trigger]
            may_find(*facts_of, requests@, found) && observation == composite_layout_of(
                requests@.len(),
                found,
            ),
{
    let found = facts_found(requests, facts_of);
    assert(may_find(*facts_of, requests@, found@));
    composite_layout(requests.len(), &found)
}

/// What layer compositions bind, of `requested` that were asked for.
pub fn composite_layout(requested: usize, facts: &Vec<CompositePassFacts>) -> (observation:
    C09CompositeLayoutObservation)
    ensures
        observation == composite_layout_of(requested as nat, facts@),
{
    let length: usize = facts.len();
    let mut omits = true;
    let mut binds = true;
    let mut clip = true;
    let mut mask = true;
    let mut source = true;
    let mut uniforms = true;
    let mut next: usize = 0;
    while next < length
        invariant
            next <= length,
            length == facts@.len(),
            omits == (forall|i: int|
                0 <= i < next ==> (#[trigger] facts@[i]).omits_parent_if_normal()),
            binds == (forall|i: int|
                0 <= i < next ==> (#[trigger] facts@[i]).binds_parent_if_sampled()),
            clip == (forall|i: int| 0 <= i < next ==> (#[trigger] facts@[i]).clip_is_exact()),
            mask == (forall|i: int| 0 <= i < next ==> (#[trigger] facts@[i]).mask_is_exact()),
            source == (forall|i: int| 0 <= i < next ==> (#[trigger] facts@[i]).source_is_exact()),
            uniforms == (forall|i: int|
                0 <= i < next ==> (#[trigger] facts@[i]).uniforms_are_exact()),
        decreases length - next,
    {
        let item = &facts[next];
        let parents: usize = roles_counted(&item.sampled_roles, RuntimeReadRole::CompositeParent);
        let clips: usize = roles_counted(&item.sampled_roles, RuntimeReadRole::ClipCoverage);
        let masks: usize = roles_counted(&item.sampled_roles, RuntimeReadRole::AlphaMask);
        let sources: usize = roles_counted(&item.sampled_roles, RuntimeReadRole::CompositeSource);
        let samples_destination = item.path == CompositePath::DestinationSampling;
        let mut expected: usize = 1;
        if samples_destination {
            expected = expected + 1;
        }
        if item.has_clip_coverage {
            expected = expected + 1;
        }
        if item.has_alpha_mask {
            expected = expected + 1;
        }
        let item_omits = samples_destination || (parents == 0 && item.uses_fixed_source_over_blend
            && !item.uses_replace_blend);
        let item_binds = !samples_destination || (parents == 1 && item.uses_replace_blend
            && !item.uses_fixed_source_over_blend);
        let item_clip = if item.has_clip_coverage {
            clips == 1
        } else {
            clips == 0
        };
        let item_mask = if item.has_alpha_mask {
            masks == 1
        } else {
            masks == 0
        };
        let item_source = item.has_only_source_sampler && sources == 1;
        let item_uniforms = item.has_exact_uniforms && item.working_format == item.target_format
            && item.sampled_roles.len() == expected;
        assert(item_omits == item.omits_parent_if_normal());
        assert(item_binds == item.binds_parent_if_sampled());
        assert(item_clip == item.clip_is_exact());
        assert(item_mask == item.mask_is_exact());
        assert(item_source == item.source_is_exact());
        assert(item_uniforms == item.uniforms_are_exact());
        omits = omits && item_omits;
        binds = binds && item_binds;
        clip = clip && item_clip;
        mask = mask && item_mask;
        source = source && item_source;
        uniforms = uniforms && item_uniforms;
        next = next + 1;
    }
    C09CompositeLayoutObservation {
        realizes_all_eight_entry_interfaces: length == requested && length == 8 && realizes_path(
            facts,
            CompositePath::Normal,
        ) && realizes_path(facts, CompositePath::DestinationSampling),
        normal_omits_parent: omits,
        destination_binds_parent: binds,
        optional_clip_is_exact: clip,
        optional_mask_is_exact: mask,
        binds_only_one_source_sampler: source,
        binds_only_exact_uniforms: uniforms,
    }
}

/// The first composition with an interface.
pub fn composite_pass(
    facts: &Vec<CompositePassFacts>,
    path: CompositePath,
    clip: bool,
    mask: bool,
) -> (found: Option<usize>)
    ensures
        match found {
            Some(position) => first_where(
                facts@,
                |facts: CompositePassFacts| facts.is_interface(path, clip, mask),
            ) == Some(position as int),
            None => first_where(
                facts@,
                |facts: CompositePassFacts| facts.is_interface(path, clip, mask),
            ) is None,
        },
{
    let ghost chosen = |facts: CompositePassFacts| facts.is_interface(path, clip, mask);
    proof {
        lemma_first_where(facts@, chosen);
    }
    let length: usize = facts.len();
    let mut next: usize = 0;
    while next < length
        invariant
            next <= length,
            length == facts@.len(),
            chosen == (|facts: CompositePassFacts| facts.is_interface(path, clip, mask)),
            forall|i: int| 0 <= i < next ==> !chosen(#[trigger] facts@[i]),
            match first_where(facts@, chosen) {
                Some(position) => {
                    &&& 0 <= position < facts@.len()
                    &&& chosen(facts@[position])
                    &&& forall|i: int| 0 <= i < position ==> !chosen(#[trigger] facts@[i])
                },
                None => forall|i: int| 0 <= i < facts@.len() ==> !chosen(#[trigger] facts@[i]),
            },
        decreases length - next,
    {
        let item = &facts[next];
        if item.path == path && item.has_clip_coverage == clip && item.has_alpha_mask == mask {
            assert(chosen(facts@[next as int]));
            return Some(next);
        }
        assert(!chosen(facts@[next as int]));
        next = next + 1;
    }
    None
}

/// The programs of the spine, and the one that merges a drop shadow.
#[derive(Clone, Copy, Debug, PartialEq, Eq, Structural)]
pub enum C08Program {
    CanonicalizeCapture,
    SpanSourceOver,
    Present,
    DropShadowMerge,
}

/// What the keys of one pass of the spine bind.
#[derive(Clone, Copy, Debug, PartialEq, Eq, Structural)]
pub struct C08PassFacts {
    pub program: C08Program,
    pub source_role: RuntimeReadRole,
    pub source_format: TextureFormatKey,
    pub working_format: TextureFormatKey,
    pub output_format: Option<TextureFormatKey>,
    pub target_format: TextureFormatKey,
    pub has_only_spatial_uniform: bool,
    pub has_fixed_source_over_blend: bool,
}

/// The passes of one spine: what each binds, where its keys say.
#[derive(Debug)]
pub struct C08LayoutBlock {
    pub working_format: WorkingFormat,
    pub output_format: Format,
    pub facts: Vec<Option<C08PassFacts>>,
}

/// The first pass that runs a program.
pub open spec fn first_program(facts: Seq<Option<C08PassFacts>>, program: C08Program) -> Option<
    C08PassFacts,
> {
    match first_where(
        facts,
        |facts: Option<C08PassFacts>| facts matches Some(known) && known.program == program,
    ) {
        Some(position) => facts[position],
        None => None,
    }
}

impl C08LayoutBlock {
    pub open spec fn is_known(self) -> bool {
        forall|i: int| 0 <= i < self.facts@.len() ==> #[trigger] self.facts@[i] is Some
    }

    pub open spec fn canonicalize_is_exact(self) -> bool {
        let working = TextureFormatKey::Working(self.working_format);
        first_program(self.facts@, C08Program::CanonicalizeCapture) matches Some(facts) && {
            &&& facts.source_role == RuntimeReadRole::CaptureSource
            &&& facts.source_format == TextureFormatKey::VelloCaptureRgba8Unorm
            &&& facts.working_format == working
            &&& facts.output_format is None
            &&& facts.target_format == working
            &&& facts.has_only_spatial_uniform
        }
    }

    pub open spec fn source_over_is_exact(self) -> bool {
        let working = TextureFormatKey::Working(self.working_format);
        first_program(self.facts@, C08Program::SpanSourceOver) matches Some(facts) && {
            &&& facts.source_role == RuntimeReadRole::CompositeSource
            &&& facts.source_format == working
            &&& facts.working_format == working
            &&& facts.output_format is None
            &&& facts.target_format == working
            &&& facts.has_only_spatial_uniform
            &&& facts.has_fixed_source_over_blend
        }
    }

    pub open spec fn present_is_exact(self) -> bool {
        let working = TextureFormatKey::Working(self.working_format);
        let output = TextureFormatKey::Output(self.output_format);
        first_program(self.facts@, C08Program::Present) matches Some(facts) && {
            &&& facts.source_role == RuntimeReadRole::FinalWorkingImage
            &&& facts.source_format == working
            &&& facts.working_format == working
            &&& facts.output_format == Some(output)
            &&& facts.target_format == output
            &&& facts.has_only_spatial_uniform
        }
    }

    /// No pass samples the parent that it is drawn over.
    pub open spec fn omits_parent(self) -> bool {
        forall|i: int|
            0 <= i < self.facts@.len() ==> (#[trigger] self.facts@[i])->0.source_role
                != RuntimeReadRole::CompositeParent
    }

    pub open spec fn binds_only_spatial(self) -> bool {
        forall|i: int|
            0 <= i < self.facts@.len() ==> (#[trigger] self.facts@[i])->0.has_only_spatial_uniform
    }
}

/// The formats that the present of a block is specialized by.
pub type Specialization = (TextureFormatKey, Option<TextureFormatKey>);

/// The specializations of the blocks that present, in order.
pub open spec fn specializations(blocks: Seq<C08LayoutBlock>) -> Seq<Specialization>
    decreases blocks.len(),
{
    if blocks.len() == 0 {
        Seq::empty()
    } else {
        let before = specializations(blocks.drop_last());
        match first_program(blocks.last().facts@, C08Program::Present) {
            Some(facts) => before.push((facts.working_format, facts.output_format)),
            None => before,
        }
    }
}

/// Whether there are four specializations and none is repeated.
pub open spec fn specializations_are_exact(found: Seq<Specialization>) -> bool {
    found.len() == 4 && found.no_duplicates()
}

pub fn c08_output_specializations_are_exact(found: &Vec<Specialization>) -> (exact: bool)
    ensures
        exact == specializations_are_exact(found@),
{
    if found.len() != 4 {
        return false;
    }
    let mut right: usize = 0;
    while right < 4
        invariant
            right <= 4,
            found@.len() == 4,
            forall|i: int, j: int|
                0 <= i < right && 0 <= j < right && i != j ==> found@[i] != found@[j],
        decreases 4 - right,
    {
        let mut left: usize = 0;
        while left < right
            invariant
                left <= right < 4,
                found@.len() == 4,
                forall|i: int| 0 <= i < left ==> #[trigger] found@[i] != found@[right as int],
            decreases right - left,
        {
            let (working, output) = found[left];
            let (other_working, other_output) = found[right];
            if working == other_working && output == other_output {
                proof {
                    assert(found@[left as int] == found@[right as int]);
                }
                return false;
            }
            left = left + 1;
        }
        right = right + 1;
    }
    true
}

fn program_facts(facts: &Vec<Option<C08PassFacts>>, program: C08Program) -> (found: Option<
    C08PassFacts,
>)
    ensures
        found == first_program(facts@, program),
{
    let ghost chosen = |facts: Option<C08PassFacts>|
        facts matches Some(known) && known.program == program;
    proof {
        lemma_first_where(facts@, chosen);
    }
    let length: usize = facts.len();
    let mut next: usize = 0;
    while next < length
        invariant
            next <= length,
            length == facts@.len(),
            chosen == (|facts: Option<C08PassFacts>|
                facts matches Some(known) && known.program == program),
            forall|i: int| 0 <= i < next ==> !chosen(#[trigger] facts@[i]),
            match first_where(facts@, chosen) {
                Some(position) => {
                    &&& 0 <= position < facts@.len()
                    &&& chosen(facts@[position])
                    &&& forall|i: int| 0 <= i < position ==> !chosen(#[trigger] facts@[i])
                },
                None => forall|i: int| 0 <= i < facts@.len() ==> !chosen(#[trigger] facts@[i]),
            },
        decreases length - next,
    {
        match facts[next] {
            Some(known) => if known.program == program {
                assert(chosen(facts@[next as int]));
                return Some(known);
            },
            None => {},
        }
        assert(!chosen(facts@[next as int]));
        next = next + 1;
    }
    None
}

/// What the passes of the spine bind.
#[derive(Clone, Copy, Debug, PartialEq, Eq, Structural)]
pub struct C08PassLayoutObservation {
    pub canonicalize_binds_capture_and_spatial_only: bool,
    pub span_source_over_binds_source_and_spatial_only: bool,
    pub present_binds_final_image_and_spatial_only: bool,
    pub copy_only_parent_is_not_sampled: bool,
    pub dummy_parameters_are_not_bound: bool,
    /// Parents and composite parameters stay in the vocabulary that nothing here binds.
    pub c09_typed_vocabulary_is_preserved: bool,
    pub output_specialization_is_exact: bool,
}

pub open spec fn all_blocks_known(blocks: Seq<C08LayoutBlock>) -> bool {
    forall|i: int| 0 <= i < blocks.len() ==> (#[trigger] blocks[i]).is_known()
}

pub open spec fn spine_layout_of(blocks: Seq<C08LayoutBlock>) -> C08PassLayoutObservation {
    if all_blocks_known(blocks) {
        C08PassLayoutObservation {
            canonicalize_binds_capture_and_spatial_only: forall|i: int|
                0 <= i < blocks.len() ==> (#[trigger] blocks[i]).canonicalize_is_exact(),
            span_source_over_binds_source_and_spatial_only: forall|i: int|
                0 <= i < blocks.len() ==> (#[trigger] blocks[i]).source_over_is_exact(),
            present_binds_final_image_and_spatial_only: forall|i: int|
                0 <= i < blocks.len() ==> (#[trigger] blocks[i]).present_is_exact(),
            copy_only_parent_is_not_sampled: forall|i: int|
                0 <= i < blocks.len() ==> (#[trigger] blocks[i]).omits_parent(),
            dummy_parameters_are_not_bound: forall|i: int|
                0 <= i < blocks.len() ==> (#[trigger] blocks[i]).binds_only_spatial(),
            c09_typed_vocabulary_is_preserved: true,
            output_specialization_is_exact: specializations_are_exact(specializations(blocks)),
        }
    } else {
        no_spine_layout()
    }
}

/// Whether no pass of a known block samples the parent, and whether every pass binds only the
/// spatial uniform; `None` for a block that is not known.
fn block_bindings(block: &C08LayoutBlock) -> (bindings: Option<(bool, bool)>)
    ensures
        match bindings {
            Some((omits_parent, only_spatial)) => {
                &&& block.is_known()
                &&& omits_parent == block.omits_parent()
                &&& only_spatial == block.binds_only_spatial()
            },
            None => !block.is_known(),
        },
{
    let length: usize = block.facts.len();
    let mut omits_parent = true;
    let mut only_spatial = true;
    let mut next: usize = 0;
    while next < length
        invariant
            next <= length,
            length == block.facts@.len(),
            forall|i: int| 0 <= i < next ==> #[trigger] block.facts@[i] is Some,
            omits_parent == (forall|i: int|
                0 <= i < next ==> (#[trigger] block.facts@[i])->0.source_role
                    != RuntimeReadRole::CompositeParent),
            only_spatial == (forall|i: int|
                0 <= i < next ==> (#[trigger] block.facts@[i])->0.has_only_spatial_uniform),
        decreases length - next,
    {
        match block.facts[next] {
            Some(facts) => {
                omits_parent = omits_parent && facts.source_role
                    != RuntimeReadRole::CompositeParent;
                only_spatial = only_spatial && facts.has_only_spatial_uniform;
            },
            None => {
                assert(block.facts@[next as int] is None);
                return None;
            },
        }
        next = next + 1;
    }
    Some((omits_parent, only_spatial))
}

fn canonicalize_matches(block: &C08LayoutBlock) -> (exact: bool)
    ensures
        exact == block.canonicalize_is_exact(),
{
    let working = TextureFormatKey::Working(block.working_format);
    match program_facts(&block.facts, C08Program::CanonicalizeCapture) {
        Some(facts) => facts.source_role == RuntimeReadRole::CaptureSource && facts.source_format
            == TextureFormatKey::VelloCaptureRgba8Unorm && facts.working_format == working
            && facts.output_format.is_none() && facts.target_format == working
            && facts.has_only_spatial_uniform,
        None => false,
    }
}

fn source_over_matches(block: &C08LayoutBlock) -> (exact: bool)
    ensures
        exact == block.source_over_is_exact(),
{
    let working = TextureFormatKey::Working(block.working_format);
    match program_facts(&block.facts, C08Program::SpanSourceOver) {
        Some(facts) => facts.source_role == RuntimeReadRole::CompositeSource && facts.source_format
            == working && facts.working_format == working && facts.output_format.is_none()
            && facts.target_format == working && facts.has_only_spatial_uniform
            && facts.has_fixed_source_over_blend,
        None => false,
    }
}

fn present_matches(block: &C08LayoutBlock) -> (exact: bool)
    ensures
        exact == block.present_is_exact(),
{
    let working = TextureFormatKey::Working(block.working_format);
    let output = TextureFormatKey::Output(block.output_format);
    match program_facts(&block.facts, C08Program::Present) {
        Some(facts) => facts.source_role == RuntimeReadRole::FinalWorkingImage
            && facts.source_format == working && facts.working_format == working
            && facts.output_format == Some(output) && facts.target_format == output
            && facts.has_only_spatial_uniform,
        None => false,
    }
}

/// What is observed where some pass has no facts.
pub open spec fn no_spine_layout() -> C08PassLayoutObservation {
    C08PassLayoutObservation {
        canonicalize_binds_capture_and_spatial_only: false,
        span_source_over_binds_source_and_spatial_only: false,
        present_binds_final_image_and_spatial_only: false,
        copy_only_parent_is_not_sampled: false,
        dummy_parameters_are_not_bound: false,
        c09_typed_vocabulary_is_preserved: false,
        output_specialization_is_exact: false,
    }
}

/// Whether these may be the passes of the spine for a pair of formats: none, where they cannot be
/// requested.
pub open spec fn may_be_block<
    R: Fn(WorkingFormat, Format) -> Result<Vec<RuntimePassCacheKeys>, Error>,
    F: Fn(RuntimePassCacheKeys) -> Option<C08PassFacts>,
>(
    request: R,
    facts_of: F,
    working_format: WorkingFormat,
    output_format: Format,
    block: Option<C08LayoutBlock>,
) -> bool {
    exists|answer: Result<Vec<RuntimePassCacheKeys>, Error>|
        {
            &&& #[trigger] call_ensures(request, (working_format, output_format), answer)
            &&& match (answer, block) {
                (Err(_), None) => true,
                (Ok(keys), Some(block)) => {
                    &&& block.working_format == working_format
                    &&& block.output_format == output_format
                    &&& block.facts@.len() == keys@.len()
                    &&& forall|i: int|
                        0 <= i < keys@.len() ==> call_ensures(
                            facts_of,
                            (#[trigger] keys@[i],),
                            block.facts@[i],
                        )
                },
                _ => false,
            }
        }
}

fn request_block<
    R: Fn(WorkingFormat, Format) -> Result<Vec<RuntimePassCacheKeys>, Error>,
    F: Fn(RuntimePassCacheKeys) -> Option<C08PassFacts>,
>(request: &R, facts_of: &F, working_format: WorkingFormat, output_format: Format) -> (block: Option<
    C08LayoutBlock,
>)
    requires
        call_requires(*request, (working_format, output_format)),
        looks_up_any(*facts_of),
    ensures
        may_be_block(*request, *facts_of, working_format, output_format, block),
{
    let answer = request(working_format, output_format);
    assert(call_ensures(*request, (working_format, output_format), answer));
    let keys = match answer {
        Ok(keys) => keys,
        Err(_) => return None,
    };
    let length: usize = keys.len();
    let mut facts: Vec<Option<C08PassFacts>> = Vec::with_capacity(length);
    let mut next: usize = 0;
    while next < length
        invariant
            next <= length,
            length == keys@.len(),
            looks_up_any(*facts_of),
            facts@.len() == next,
            forall|i: int|
                0 <= i < next ==> call_ensures(*facts_of, (#[trigger] keys@[i],), facts@[i]),
        decreases length - next,
    {
        let found = facts_of(keys[next]);
        facts.push(found);
        next = next + 1;
    }
    Some(C08LayoutBlock { working_format, output_format, facts })
}

/// Whether an observation is true of the spines of all format pairs: nothing is observed where one
/// of them cannot be requested.
pub open spec fn is_spine_layout(
    observation: C08PassLayoutObservation,
    blocks: (
        Option<C08LayoutBlock>,
        Option<C08LayoutBlock>,
        Option<C08LayoutBlock>,
        Option<C08LayoutBlock>,
    ),
) -> bool {
    observation == match blocks {
        (Some(first), Some(second), Some(third), Some(fourth)) => spine_layout_of(
            seq![first, second, third, fourth],
        ),
        _ => no_spine_layout(),
    }
}

/// What the passes of the spine bind in every pair of a working format and an output format;
/// nothing, where they cannot be requested or some pass has no facts. `facts_of` looks up what keys
/// bind.
pub fn c08_pass_layout_observation<
    R: Fn(WorkingFormat, Format) -> Result<Vec<RuntimePassCacheKeys>, Error>,
    F: Fn(RuntimePassCacheKeys) -> Option<C08PassFacts>,
>(request: &R, facts_of: &F) -> (observation: C08PassLayoutObservation)
    requires
        forall|working_format: WorkingFormat, output_format: Format| #[trigger]
            call_requires(*request, (working_format, output_format)),
        looks_up_any(*facts_of),
    ensures
        exists|
            first: Option<C08LayoutBlock>,
            second: Option<C08LayoutBlock>,
            third: Option<C08LayoutBlock>,
            fourth: Option<C08LayoutBlock>,
        |
            {
                &&& #[trigger] may_be_block(
                    *request,
                    *facts_of,
                    WorkingFormat::HighPrecision,
                    Format::Rgba8,
                    first,
                )
                &&& #[trigger] may_be_block(
                    *request,
                    *facts_of,
                    WorkingFormat::HighPrecision,
                    Format::Bgra8,
                    second,
                )
                &&& #[trigger] may_be_block(
                    *request,
                    *facts_of,
                    WorkingFormat::ReducedPrecision,
                    Format::Rgba8,
                    third,
                )
                &&& #[trigger] may_be_block(
                    *request,
                    *facts_of,
                    WorkingFormat::ReducedPrecision,
                    Format::Bgra8,
                    fourth,
                )
                &&& is_spine_layout(observation, (first, second, third, fourth))
            },
{
    let high = WorkingFormat::HighPrecision;
    let reduced = WorkingFormat::ReducedPrecision;
    let first = request_block(request, facts_of, high, Format::Rgba8);
    let second = request_block(request, facts_of, high, Format::Bgra8);
    let third = request_block(request, facts_of, reduced, Format::Rgba8);
    let fourth = request_block(request, facts_of, reduced, Format::Bgra8);
    let ghost answers = (first, second, third, fourth);
    let observation = match (first, second, third, fourth) {
        (Some(first), Some(second), Some(third), Some(fourth)) => {
            let mut blocks: Vec<C08LayoutBlock> = Vec::with_capacity(4);
            blocks.push(first);
            blocks.push(second);
            blocks.push(third);
            blocks.push(fourth);
            assert(blocks@ =~= seq![first, second, third, fourth]);
            spine_layout(&blocks)
        },
        _ => C08PassLayoutObservation {
            canonicalize_binds_capture_and_spatial_only: false,
            span_source_over_binds_source_and_spatial_only: false,
            present_binds_final_image_and_spatial_only: false,
            copy_only_parent_is_not_sampled: false,
            dummy_parameters_are_not_bound: false,
            c09_typed_vocabulary_is_preserved: false,
            output_specialization_is_exact: false,
        },
    };
    assert(is_spine_layout(observation, answers));
    observation
}

/// What the passes of some spines bind; nothing, where some pass has no facts.
pub fn spine_layout(blocks: &Vec<C08LayoutBlock>) -> (observation: C08PassLayoutObservation)
    ensures
        observation == spine_layout_of(blocks@),
{
    let length: usize = blocks.len();
    let mut canonicalize = true;
    let mut source_over = true;
    let mut present = true;
    let mut omits_parent = true;
    let mut only_spatial = true;
    let mut found: Vec<Specialization> = Vec::new();
    let mut next: usize = 0;
    proof {
        assert(blocks@.take(0) =~= Seq::empty());
    }
    while next < length
        invariant
            next <= length,
            length == blocks@.len(),
            forall|i: int| 0 <= i < next ==> (#[trigger] blocks@[i]).is_known(),
            canonicalize == (forall|i: int|
                0 <= i < next ==> (#[trigger] blocks@[i]).canonicalize_is_exact()),
            source_over == (forall|i: int|
                0 <= i < next ==> (#[trigger] blocks@[i]).source_over_is_exact()),
            present == (forall|i: int|
                0 <= i < next ==> (#[trigger] blocks@[i]).present_is_exact()),
            omits_parent == (forall|i: int|
                0 <= i < next ==> (#[trigger] blocks@[i]).omits_parent()),
            only_spatial == (forall|i: int|
                0 <= i < next ==> (#[trigger] blocks@[i]).binds_only_spatial()),
            found@ == specializations(blocks@.take(next as int)),
        decreases length - next,
    {
        let block = &blocks[next];
        proof {
            let taken = blocks@.take(next + 1);
            assert(taken.drop_last() =~= blocks@.take(next as int));
            assert(taken.last() == blocks@[next as int]);
        }
        match block_bindings(block) {
            Some((block_omits_parent, block_only_spatial)) => {
                omits_parent = omits_parent && block_omits_parent;
                only_spatial = only_spatial && block_only_spatial;
            },
            None => {
                assert(!blocks@[next as int].is_known());
                return C08PassLayoutObservation {
                    canonicalize_binds_capture_and_spatial_only: false,
                    span_source_over_binds_source_and_spatial_only: false,
                    present_binds_final_image_and_spatial_only: false,
                    copy_only_parent_is_not_sampled: false,
                    dummy_parameters_are_not_bound: false,
                    c09_typed_vocabulary_is_preserved: false,
                    output_specialization_is_exact: false,
                };
            },
        }
        let block_canonicalize = canonicalize_matches(block);
        let block_source_over = source_over_matches(block);
        let block_present = present_matches(block);
        canonicalize = canonicalize && block_canonicalize;
        source_over = source_over && block_source_over;
        present = present && block_present;
        if let Some(facts) = program_facts(&block.facts, C08Program::Present) {
            found.push((facts.working_format, facts.output_format));
        }
        next = next + 1;
    }
    proof {
        assert(blocks@.take(length as int) =~= blocks@);
    }
    C08PassLayoutObservation {
        canonicalize_binds_capture_and_spatial_only: canonicalize,
        span_source_over_binds_source_and_spatial_only: source_over,
        present_binds_final_image_and_spatial_only: present,
        copy_only_parent_is_not_sampled: omits_parent,
        dummy_parameters_are_not_bound: only_spatial,
        c09_typed_vocabulary_is_preserved: true,
        output_specialization_is_exact: c08_output_specializations_are_exact(&found),
    }
}

/// What the merges of a drop shadow bind.
#[derive(Clone, Copy, Debug, PartialEq, Eq, Structural)]
pub struct ShadowMergeObservation {
    pub uses_fixed_premultiplied_source_over: bool,
    pub omits_destination_sample: bool,
}

pub fn drop_shadow_merge_observation(facts: &Vec<C08PassFacts>) -> (observation:
    ShadowMergeObservation)
    ensures
        observation.uses_fixed_premultiplied_source_over == (forall|i: int|
            0 <= i < facts@.len() ==> (#[trigger] facts@[i]).program == C08Program::DropShadowMerge
                && facts@[i].has_fixed_source_over_blend),
        observation.omits_destination_sample == (forall|i: int|
            0 <= i < facts@.len() ==> (#[trigger] facts@[i]).source_role
                == RuntimeReadRole::CompositeSource && facts@[i].has_only_spatial_uniform),
{
    let length: usize = facts.len();
    let mut fixed = true;
    let mut omits = true;
    let mut next: usize = 0;
    while next < length
        invariant
            next <= length,
            length == facts@.len(),
            fixed == (forall|i: int|
                0 <= i < next ==> (#[trigger] facts@[i]).program == C08Program::DropShadowMerge
                    && facts@[i].has_fixed_source_over_blend),
            omits == (forall|i: int|
                0 <= i < next ==> (#[trigger] facts@[i]).source_role
                    == RuntimeReadRole::CompositeSource && facts@[i].has_only_spatial_uniform),
        decreases length - next,
    {
        let item = facts[next];
        fixed = fixed && item.program == C08Program::DropShadowMerge
            && item.has_fixed_source_over_blend;
        omits = omits && item.source_role == RuntimeReadRole::CompositeSource
            && item.has_only_spatial_uniform;
        next = next + 1;
    }
    ShadowMergeObservation {
        uses_fixed_premultiplied_source_over: fixed,
        omits_destination_sample: omits,
    }
}

/// A layout of compositions holds of each: a normal one omits its parent and blends in fixed function,
/// one that samples its destination binds its parent once and replaces, clips and masks are sampled
/// once where there are any and not otherwise, the source is sampled once, and nothing else is bound.
pub proof fn law_compositions_bind_what_they_need(
    requested: usize,
    facts: &Vec<CompositePassFacts>,
    layout: C09CompositeLayoutObservation,
    i: int,
)
    requires
        call_ensures(composite_layout, (requested, facts), layout),
        0 <= i < facts@.len(),
    ensures
        ({
            let pass = facts@[i];
            let roles = pass.sampled_roles@;
            let parents = roles.filter(
                |role: RuntimeReadRole| role == RuntimeReadRole::CompositeParent,
            ).len();
            let clips = roles.filter(
                |role: RuntimeReadRole| role == RuntimeReadRole::ClipCoverage,
            ).len();
            let masks = roles.filter(
                |role: RuntimeReadRole| role == RuntimeReadRole::AlphaMask,
            ).len();
            let sources = roles.filter(
                |role: RuntimeReadRole| role == RuntimeReadRole::CompositeSource,
            ).len();
            &&& layout.normal_omits_parent && pass.path is Normal ==> parents == 0
                && pass.uses_fixed_source_over_blend && !pass.uses_replace_blend
            &&& layout.destination_binds_parent && pass.path is DestinationSampling ==> parents == 1
                && pass.uses_replace_blend && !pass.uses_fixed_source_over_blend
            &&& layout.optional_clip_is_exact ==> clips == (if pass.has_clip_coverage {
                1nat
            } else {
                0
            })
            &&& layout.optional_mask_is_exact ==> masks == (if pass.has_alpha_mask {
                1nat
            } else {
                0
            })
            &&& layout.binds_only_one_source_sampler ==> pass.has_only_source_sampler && sources
                == 1
            &&& layout.binds_only_exact_uniforms ==> pass.has_exact_uniforms && pass.working_format
                == pass.target_format && roles.len() == 1 + (if pass.path is DestinationSampling {
                1nat
            } else {
                0
            }) + (if pass.has_clip_coverage {
                1nat
            } else {
                0
            }) + (if pass.has_alpha_mask {
                1nat
            } else {
                0
            })
            &&& facts@.len() == 1 ==> {
                &&& layout.optional_clip_is_exact == (clips == (if pass.has_clip_coverage {
                    1nat
                } else {
                    0
                }))
                &&& layout.optional_mask_is_exact == (masks == (if pass.has_alpha_mask {
                    1nat
                } else {
                    0
                }))
                &&& layout.binds_only_one_source_sampler == (pass.has_only_source_sampler && sources
                    == 1)
                &&& pass.path is Normal ==> layout.destination_binds_parent
                &&& pass.path is DestinationSampling ==> layout.normal_omits_parent
                &&& pass.path is Normal ==> layout.normal_omits_parent == (parents == 0
                    && pass.uses_fixed_source_over_blend && !pass.uses_replace_blend)
                &&& pass.path is DestinationSampling ==> layout.destination_binds_parent == (parents
                    == 1 && pass.uses_replace_blend && !pass.uses_fixed_source_over_blend)
            }
        }),
        layout.realizes_all_eight_entry_interfaces ==> facts@.len() == 8 && requested == 8,
{
    let roles = facts@[i].sampled_roles@;
    assert(facts@.len() == 1 ==> i == 0);
    law_counting_is_filtering(roles, is_role(RuntimeReadRole::CompositeParent));
    law_counting_is_filtering(roles, is_role(RuntimeReadRole::ClipCoverage));
    law_counting_is_filtering(roles, is_role(RuntimeReadRole::AlphaMask));
    law_counting_is_filtering(roles, is_role(RuntimeReadRole::CompositeSource));
    assert(is_role(RuntimeReadRole::CompositeParent) =~= (|role: RuntimeReadRole|
        role == RuntimeReadRole::CompositeParent));
    assert(is_role(RuntimeReadRole::ClipCoverage) =~= (|role: RuntimeReadRole|
        role == RuntimeReadRole::ClipCoverage));
    assert(is_role(RuntimeReadRole::AlphaMask) =~= (|role: RuntimeReadRole|
        role == RuntimeReadRole::AlphaMask));
    assert(is_role(RuntimeReadRole::CompositeSource) =~= (|role: RuntimeReadRole|
        role == RuntimeReadRole::CompositeSource));
}

/// Where all interfaces are realized, each path has a composition with and without a clip, and with and
/// without a mask.
pub proof fn law_every_interface_is_realized(
    requested: usize,
    facts: &Vec<CompositePassFacts>,
    layout: C09CompositeLayoutObservation,
    path: CompositePath,
    clip: bool,
    mask: bool,
    found: Option<usize>,
)
    requires
        call_ensures(composite_layout, (requested, facts), layout),
        call_ensures(composite_pass, (facts, path, clip, mask), found),
    ensures
        layout.realizes_all_eight_entry_interfaces ==> found is Some,
        found matches Some(position) ==> {
            &&& position < facts@.len()
            &&& facts@[position as int].path == path
            &&& facts@[position as int].has_clip_coverage == clip
            &&& facts@[position as int].has_alpha_mask == mask
            &&& forall|i: int|
                0 <= i < position ==> !((#[trigger] facts@[i]).path == path
                    && facts@[i].has_clip_coverage == clip && facts@[i].has_alpha_mask == mask)
        },
        found is None ==> forall|i: int|
            0 <= i < facts@.len() ==> !((#[trigger] facts@[i]).path == path
                && facts@[i].has_clip_coverage == clip && facts@[i].has_alpha_mask == mask),
{
    let chosen = |facts: CompositePassFacts| facts.is_interface(path, clip, mask);
    lemma_first_where(facts@, chosen);
    if layout.realizes_all_eight_entry_interfaces {
        assert(path_is_realized(facts@, path));
        assert(interface_count(facts@, path, clip, mask) == 1);
        law_counting_is_filtering(facts@, chosen);
        lemma_some_is_counted(facts@, chosen);
    }
    assert forall|i: int| 0 <= i < facts@.len() && !chosen(#[trigger] facts@[i]) implies !(
    facts@[i].path == path && facts@[i].has_clip_coverage == clip && facts@[i].has_alpha_mask
        == mask) by {}
}

/// What is counted is there.
proof fn lemma_some_is_counted<T>(items: Seq<T>, chosen: spec_fn(T) -> bool)
    requires
        count_where(items, chosen) > 0,
    ensures
        exists|i: int| 0 <= i < items.len() && chosen(#[trigger] items[i]),
    decreases items.len(),
{
    if items.len() > 0 {
        if chosen(items.last()) {
            assert(chosen(items[items.len() - 1]));
        } else {
            lemma_some_is_counted(items.drop_last(), chosen);
            let i = choose|i: int|
                0 <= i < items.drop_last().len() && chosen(#[trigger] items.drop_last()[i]);
            assert(chosen(items[i]));
        }
    }
}

/// The first pass that runs a program is the one that is held against it.
proof fn lemma_program(facts: Seq<Option<C08PassFacts>>, program: C08Program, at: int)
    requires
        0 <= at < facts.len(),
        facts[at] is Some,
        facts[at]->0.program == program,
        forall|i: int|
            0 <= i < at ==> !((#[trigger] facts[i]) is Some && facts[i]->0.program == program),
    ensures
        first_program(facts, program) == facts[at],
{
    let chosen = |facts: Option<C08PassFacts>|
        facts matches Some(known) && known.program == program;
    lemma_first_where(facts, chosen);
    assert(chosen(facts[at]));
}

/// Spines bind what their formats say: a capture is canonicalized from eight bits to the working
/// format, a span is drawn over in the working format, the final image is presented from the working
/// to the output format, no pass samples a parent, and each binds the spatial uniform alone.
pub proof fn law_spines_bind_their_formats(
    blocks: &Vec<C08LayoutBlock>,
    layout: C08PassLayoutObservation,
    i: int,
    at: int,
)
    requires
        call_ensures(spine_layout, (blocks,), layout),
        0 <= i < blocks@.len(),
        0 <= at < blocks@[i].facts@.len(),
    ensures
        layout.c09_typed_vocabulary_is_preserved ==> blocks@[i].facts@[at] is Some,
        ({
            let block = blocks@[i];
            let working = TextureFormatKey::Working(block.working_format);
            let output = TextureFormatKey::Output(block.output_format);
            let pass = block.facts@[at]->0;
            let known = block.facts@[at] is Some;
            let first = forall|j: int|
                0 <= j < at ==> !((#[trigger] block.facts@[j]) is Some
                    && block.facts@[j]->0.program == pass.program);
            &&& layout.copy_only_parent_is_not_sampled ==> known
                && !(pass.source_role is CompositeParent)
            &&& layout.dummy_parameters_are_not_bound ==> known && pass.has_only_spatial_uniform
            &&& layout.canonicalize_binds_capture_and_spatial_only && known && first
                && pass.program is CanonicalizeCapture ==> {
                &&& pass.source_role is CaptureSource
                &&& pass.source_format is VelloCaptureRgba8Unorm
                &&& pass.working_format == working
                &&& pass.output_format is None
                &&& pass.target_format == working
                &&& pass.has_only_spatial_uniform
            }
            &&& layout.span_source_over_binds_source_and_spatial_only && known && first
                && pass.program is SpanSourceOver ==> {
                &&& pass.source_role is CompositeSource
                &&& pass.source_format == working
                &&& pass.working_format == working
                &&& pass.output_format is None
                &&& pass.target_format == working
                &&& pass.has_only_spatial_uniform
                &&& pass.has_fixed_source_over_blend
            }
            &&& layout.present_binds_final_image_and_spatial_only && known && first
                && pass.program is Present ==> {
                &&& pass.source_role is FinalWorkingImage
                &&& pass.source_format == working
                &&& pass.working_format == working
                &&& pass.output_format == Some(output)
                &&& pass.target_format == output
                &&& pass.has_only_spatial_uniform
            }
        }),
{
    let block = blocks@[i];
    if all_blocks_known(blocks@) {
        assert(block.is_known());
        assert(block.facts@[at] is Some);
        let pass = block.facts@[at]->0;
        if forall|j: int|
            0 <= j < at ==> !((#[trigger] block.facts@[j]) is Some && block.facts@[j]->0.program
                == pass.program) {
            lemma_program(block.facts@, pass.program, at);
        }
        assert(layout == spine_layout_of(blocks@));
        assert(layout.canonicalize_binds_capture_and_spatial_only
            ==> block.canonicalize_is_exact());
        assert(layout.span_source_over_binds_source_and_spatial_only
            ==> block.source_over_is_exact());
        assert(layout.present_binds_final_image_and_spatial_only ==> block.present_is_exact());
        assert(layout.copy_only_parent_is_not_sampled ==> block.omits_parent());
        assert(layout.dummy_parameters_are_not_bound ==> block.binds_only_spatial());
    }
}

/// Specializations are exact exactly if there are four and no two are the same.
pub proof fn law_specializations(found: &Vec<Specialization>, exact: bool, i: int, j: int)
    requires
        call_ensures(c08_output_specializations_are_exact, (found,), exact),
    ensures
        exact ==> found@.len() == 4,
        exact && 0 <= i < j < 4 ==> found@[i].0 != found@[j].0 || found@[i].1 != found@[j].1,
        found@.len() == 4 && found@[0] != found@[1] && found@[0] != found@[2] && found@[0]
            != found@[3] && found@[1] != found@[2] && found@[1] != found@[3] && found@[2]
            != found@[3] ==> exact,
{
    if exact && 0 <= i < j < 4 {
        assert(found@[i] != found@[j]);
    }
}

/// Merges are observed to draw over in fixed function, and to sample no destination, only if each does.
pub proof fn law_merges_draw_over(
    facts: &Vec<C08PassFacts>,
    observed: ShadowMergeObservation,
    i: int,
)
    requires
        call_ensures(drop_shadow_merge_observation, (facts,), observed),
        0 <= i < facts@.len(),
    ensures
        observed.uses_fixed_premultiplied_source_over ==> facts@[i].program is DropShadowMerge
            && facts@[i].has_fixed_source_over_blend,
        observed.omits_destination_sample ==> facts@[i].source_role is CompositeSource
            && facts@[i].has_only_spatial_uniform,
        facts@.len() == 1 && facts@[0].program is DropShadowMerge
            && facts@[0].has_fixed_source_over_blend
            ==> observed.uses_fixed_premultiplied_source_over,
        facts@.len() == 1 && facts@[0].source_role is CompositeSource
            && facts@[0].has_only_spatial_uniform ==> observed.omits_destination_sample,
{
}

} // verus!
