//! What the cache keys of a lowered graph say.

use vstd::prelude::*;

use crate::pass::model::{
    edge_key, shader_sampling_edge, LoweredGraphPlan, PassModel, PlanModel, RuntimePass,
    RuntimePassCacheKeys, RuntimePassId, RuntimePassKind, RuntimeReadBinding, RuntimeReadRole,
    RuntimeResourceId, RuntimeResourceRequest, RuntimeSamplingEdge, SamplerKey,
};
use crate::pass::requests::added;
use crate::pass::search::{find_resource, first_resource, last_where, lemma_first_where, lemma_last_where};

verus! {

/// Whether a kind of pass runs a program of the renderer.
pub open spec fn is_custom(kind: RuntimePassKind) -> bool {
    !(kind is ClearRoot) && !(kind is VelloCapture)
}

fn runs_custom_program(kind: RuntimePassKind) -> (custom: bool)
    ensures
        custom == is_custom(kind),
{
    !matches!(kind, RuntimePassKind::ClearRoot { .. }) && !matches!(
        kind,
        RuntimePassKind::VelloCapture(_)
    )
}

/// Whether the sampler key of a read says how its resource is sampled; the sampling of a mask is
/// part of the key where a mask is read as one.
pub open spec fn read_key_is_exact(plan: PlanModel, read: RuntimeReadBinding) -> bool {
    first_resource(plan.resources, read.resource) matches Some(resource) && read.sampler_key == (
    SamplerKey {
        role: read.role,
        source_format: resource.format,
        filter: read.sampling_filter,
        edge: edge_key(read.sampling_edge),
        mask: match resource.import {
            Some(upload) => if read.role == RuntimeReadRole::AlphaMask {
                Some(upload.sampling)
            } else {
                None
            },
            None => None,
        },
    })
}

pub fn runtime_read_key_is_exact(plan: &LoweredGraphPlan, read: &RuntimeReadBinding) -> (exact:
    bool)
    ensures
        exact == read_key_is_exact(plan@, *read),
{
    let resource = match find_resource(&plan.resources, read.resource) {
        Some(resource) => resource,
        None => return false,
    };
    let mask = match resource.import {
        Some(upload) => if read.role == RuntimeReadRole::AlphaMask {
            Some(upload.sampling)
        } else {
            None
        },
        None => None,
    };
    let expected = SamplerKey {
        role: read.role,
        source_format: resource.format,
        filter: read.sampling_filter,
        edge: shader_sampling_edge(read.sampling_edge),
        mask,
    };
    read.sampler_key == expected
}

/// Every read of a pass has an exact key.
pub open spec fn read_keys_are_exact(plan: PlanModel, pass: PassModel) -> bool {
    forall|i: int| 0 <= i < pass.reads.len() ==> read_key_is_exact(plan, #[trigger] pass.reads[i])
}

/// A pass has keys exactly if it runs a program of the renderer, and its reads have exact keys.
pub open spec fn pass_keys_are_exact(plan: PlanModel, pass: PassModel) -> bool {
    &&& is_custom(pass.kind) == pass.cache_keys is Some
    &&& read_keys_are_exact(plan, pass)
}

/// The distinct layouts of the custom passes, in order of appearance.
pub open spec fn layouts(passes: Seq<PassModel>) -> Seq<u64>
    decreases passes.len(),
{
    if passes.len() == 0 {
        Seq::empty()
    } else {
        let before = layouts(passes.drop_last());
        match passes.last().cache_keys {
            Some(keys) => if is_custom(passes.last().kind) {
                added(before, keys.layout)
            } else {
                before
            },
            None => before,
        }
    }
}

/// The distinct shaders of the custom passes, in order of appearance.
pub open spec fn shaders(passes: Seq<PassModel>) -> Seq<u64>
    decreases passes.len(),
{
    if passes.len() == 0 {
        Seq::empty()
    } else {
        let before = shaders(passes.drop_last());
        match passes.last().cache_keys {
            Some(keys) => if is_custom(passes.last().kind) {
                added(before, keys.shader)
            } else {
                before
            },
            None => before,
        }
    }
}

/// Whether some custom pass samples with a transparent edge, or with a mirrored one.
pub open spec fn samples_edge(pass: PassModel, mirrored: bool) -> bool {
    is_custom(pass.kind) && exists|i: int|
        0 <= i < pass.reads.len() && if mirrored {
            (#[trigger] pass.reads[i]).sampling_edge is SemanticBorderMirror
        } else {
            pass.reads[i].sampling_edge is TransparentBlack
        }
}

pub open spec fn has_edge(passes: Seq<PassModel>, mirrored: bool) -> bool {
    exists|i: int| 0 <= i < passes.len() && samples_edge(#[trigger] passes[i], mirrored)
}

fn add_number(items: &mut Vec<u64>, item: u64)
    ensures
        final(items)@ == added(old(items)@, item),
{
    let length: usize = items.len();
    let mut next: usize = 0;
    while next < length
        invariant
            next <= length,
            length == items@.len(),
            items@ == old(items)@,
            forall|i: int| 0 <= i < next ==> #[trigger] items@[i] != item,
        decreases length - next,
    {
        if items[next] == item {
            assert(items@[next as int] == item);
            return;
        }
        next = next + 1;
    }
    items.push(item);
}

fn all_read_keys_are_exact(plan: &LoweredGraphPlan, pass: &RuntimePass) -> (exact: bool)
    ensures
        exact == read_keys_are_exact(plan@, pass@),
{
    let length: usize = pass.reads.len();
    let mut next: usize = 0;
    while next < length
        invariant
            next <= length,
            length == pass.reads@.len(),
            forall|i: int|
                0 <= i < next ==> read_key_is_exact(plan@, #[trigger] pass.reads@[i]),
        decreases length - next,
    {
        if !runtime_read_key_is_exact(plan, &pass.reads[next]) {
            assert(!read_key_is_exact(plan@, pass@.reads[next as int]));
            return false;
        }
        next = next + 1;
    }
    assert forall|i: int| 0 <= i < pass@.reads.len() implies read_key_is_exact(
        plan@,
        #[trigger] pass@.reads[i],
    ) by {
        assert(read_key_is_exact(plan@, pass.reads@[i]));
    }
    true
}

fn pass_samples_edge(pass: &RuntimePass, mirrored: bool) -> (samples: bool)
    ensures
        samples == samples_edge(pass@, mirrored),
{
    if !runs_custom_program(pass.kind) {
        return false;
    }
    let length: usize = pass.reads.len();
    let mut next: usize = 0;
    while next < length
        invariant
            next <= length,
            length == pass.reads@.len(),
            is_custom(pass.kind),
            forall|i: int|
                0 <= i < next ==> !(if mirrored {
                    (#[trigger] pass@.reads[i]).sampling_edge is SemanticBorderMirror
                } else {
                    pass@.reads[i].sampling_edge is TransparentBlack
                }),
        decreases length - next,
    {
        let edge = pass.reads[next].sampling_edge;
        assert(pass@.reads[next as int].sampling_edge == edge);
        let found = if mirrored {
            edge.is_mirror()
        } else {
            matches!(edge, RuntimeSamplingEdge::TransparentBlack)
        };
        if found {
            return true;
        }
        next = next + 1;
    }
    false
}

/// Whether some pass runs a program, and the keys of every pass are exact.
pub open spec fn keys_are_exact(plan: PlanModel) -> bool {
    &&& exists|i: int| 0 <= i < plan.passes.len() && is_custom((#[trigger] plan.passes[i]).kind)
    &&& forall|i: int|
        0 <= i < plan.passes.len() ==> pass_keys_are_exact(plan, #[trigger] plan.passes[i])
}

/// Whether the keys tell programs, layouts, samplings and edges apart.
pub open spec fn keys_are_varied(passes: Seq<PassModel>) -> bool {
    &&& layouts(passes).len() > 3
    &&& shaders(passes).len() > 5
    &&& has_edge(passes, false)
    &&& has_edge(passes, true)
}

/// Whether the keys of a plan are exact, and whether they tell its programs, layouts, samplings
/// and edges apart.
pub fn runtime_cache_key_facts(plan: &LoweredGraphPlan) -> (facts: (bool, bool))
    ensures
        facts.0 == keys_are_exact(plan@),
        facts.1 == keys_are_varied(plan@.passes),
{
    let ghost passes = plan@.passes;
    let length: usize = plan.passes.len();
    let mut custom = false;
    let mut exact = true;
    let mut transparent = false;
    let mut mirror = false;
    let mut found_layouts: Vec<u64> = Vec::new();
    let mut found_shaders: Vec<u64> = Vec::new();
    let mut next: usize = 0;
    while next < length
        invariant
            next <= length,
            length == plan.passes@.len(),
            passes == plan@.passes,
            custom == (exists|i: int| 0 <= i < next && is_custom((#[trigger] passes[i]).kind)),
            exact == (forall|i: int|
                0 <= i < next ==> pass_keys_are_exact(plan@, #[trigger] passes[i])),
            transparent == (exists|i: int|
                0 <= i < next && samples_edge(#[trigger] passes[i], false)),
            mirror == (exists|i: int| 0 <= i < next && samples_edge(#[trigger] passes[i], true)),
            found_layouts@ == layouts(passes.take(next as int)),
            found_shaders@ == shaders(passes.take(next as int)),
        decreases length - next,
    {
        let pass = &plan.passes[next];
        proof {
            let taken = passes.take(next + 1);
            assert(taken.drop_last() =~= passes.take(next as int));
            assert(taken.last() == pass@);
            assert(passes[next as int] == pass@);
        }
        let pass_is_custom = runs_custom_program(pass.kind);
        if pass_is_custom {
            assert(is_custom(passes[next as int].kind));
            custom = true;
            if let Some(keys) = pass.cache_keys {
                add_number(&mut found_layouts, keys.layout);
                add_number(&mut found_shaders, keys.shader);
            }
        }
        let keyed = pass_is_custom == pass.cache_keys.is_some() && all_read_keys_are_exact(
            plan,
            pass,
        );
        assert(keyed == pass_keys_are_exact(plan@, passes[next as int]));
        exact = exact && keyed;
        if pass_samples_edge(pass, false) {
            assert(samples_edge(passes[next as int], false));
            transparent = true;
        }
        if pass_samples_edge(pass, true) {
            assert(samples_edge(passes[next as int], true));
            mirror = true;
        }
        next = next + 1;
    }
    proof {
        assert(passes.take(length as int) =~= passes);
    }
    (
        custom && exact,
        found_layouts.len() > 3 && found_shaders.len() > 5 && transparent && mirror,
    )
}

pub open spec fn has_keys(id: RuntimePassId) -> spec_fn(PassModel) -> bool {
    |pass: PassModel| pass.id == id && pass.cache_keys is Some
}

/// The keys that a map by pass holds: those of the last pass with the identity that has any.
pub open spec fn mapped_keys(passes: Seq<PassModel>, id: RuntimePassId) -> Option<
    RuntimePassCacheKeys,
> {
    match last_where(passes, has_keys(id)) {
        Some(position) => passes[position].cache_keys,
        None => None,
    }
}

/// The keys that a map of the custom passes holds for one of them.
pub fn custom_keys(plan: &LoweredGraphPlan, id: RuntimePassId) -> (keys: Option<
    RuntimePassCacheKeys,
>)
    ensures
        keys == mapped_keys(plan@.passes, id),
{
    let ghost passes = plan@.passes;
    let ghost chosen = has_keys(id);
    proof {
        lemma_last_where(passes, chosen);
    }
    let length: usize = plan.passes.len();
    let mut left: usize = length;
    while left > 0
        invariant
            left <= length,
            length == plan.passes@.len(),
            passes == plan@.passes,
            chosen == has_keys(id),
            forall|i: int| left <= i < length ==> !chosen(#[trigger] passes[i]),
            match last_where(passes, chosen) {
                Some(position) => {
                    &&& 0 <= position < passes.len()
                    &&& chosen(passes[position])
                    &&& forall|i: int| position < i < passes.len() ==> !chosen(#[trigger] passes[i])
                },
                None => forall|i: int| 0 <= i < passes.len() ==> !chosen(#[trigger] passes[i]),
            },
        decreases left,
    {
        left = left - 1;
        assert(passes[left as int] == plan.passes@[left as int]@);
        if plan.passes[left].id == id && plan.passes[left].cache_keys.is_some() {
            assert(chosen(passes[left as int]));
            return plan.passes[left].cache_keys;
        }
        assert(!chosen(passes[left as int]));
    }
    None
}

/// Another working format changes the keys of a pass that has any.
pub open spec fn working_format_changes(
    main: Seq<PassModel>,
    reduced: Seq<PassModel>,
    pass: PassModel,
) -> bool {
    pass.cache_keys is Some ==> (mapped_keys(reduced, pass.id) matches Some(other) && Some(other)
        != mapped_keys(main, pass.id))
}

/// Another output format changes the keys of a pass that has any exactly if it presents.
pub open spec fn output_format_changes(alternate: Seq<PassModel>, pass: PassModel) -> bool {
    pass.cache_keys is Some ==> (mapped_keys(alternate, pass.id) matches Some(other) && pass.kind
        is Present == (Some(other) != pass.cache_keys))
}

/// Whether the working format changes every key, the output format only those of the present, and
/// the root and the present are those of the graph.
pub open spec fn formats_are_separate(
    graph_root: RuntimeResourceId,
    graph_present: RuntimePassId,
    plan: PlanModel,
    reduced: Seq<PassModel>,
    alternate_output: Seq<PassModel>,
) -> bool {
    &&& forall|i: int|
        0 <= i < plan.passes.len() ==> working_format_changes(
            plan.passes,
            reduced,
            #[trigger] plan.passes[i],
        )
    &&& forall|i: int|
        0 <= i < plan.passes.len() ==> output_format_changes(
            alternate_output,
            #[trigger] plan.passes[i],
        )
    &&& plan.root_working_image == graph_root
    &&& plan.final_present == graph_present
}

pub fn runtime_format_keys_are_separate(
    graph_root: RuntimeResourceId,
    graph_present: RuntimePassId,
    plan: &LoweredGraphPlan,
    reduced: &LoweredGraphPlan,
    alternate_output: &LoweredGraphPlan,
) -> (separate: bool)
    ensures
        separate == formats_are_separate(
            graph_root,
            graph_present,
            plan@,
            reduced@.passes,
            alternate_output@.passes,
        ),
{
    let ghost passes = plan@.passes;
    let length: usize = plan.passes.len();
    let mut next: usize = 0;
    while next < length
        invariant
            next <= length,
            length == plan.passes@.len(),
            passes == plan@.passes,
            forall|i: int|
                0 <= i < next ==> working_format_changes(
                    passes,
                    reduced@.passes,
                    #[trigger] passes[i],
                ),
            forall|i: int|
                0 <= i < next ==> output_format_changes(
                    alternate_output@.passes,
                    #[trigger] passes[i],
                ),
        decreases length - next,
    {
        let pass = &plan.passes[next];
        assert(passes[next as int] == pass@);
        if let Some(keys) = pass.cache_keys {
            let working = match custom_keys(reduced, pass.id) {
                Some(other) => Some(other) != custom_keys(plan, pass.id),
                None => false,
            };
            let presents = matches!(pass.kind, RuntimePassKind::Present);
            let output = match custom_keys(alternate_output, pass.id) {
                Some(other) => presents == (other != keys),
                None => false,
            };
            assert(working == working_format_changes(
                passes,
                reduced@.passes,
                passes[next as int],
            ));
            assert(output == output_format_changes(
                alternate_output@.passes,
                passes[next as int],
            ));
            if !working || !output {
                return false;
            }
        }
        next = next + 1;
    }
    plan.root_working_image == graph_root && plan.final_present == graph_present
}

/// The key of a read is exact exactly if it says the role, the filter and the edge of the read, the
/// format of what is read, and, of a mask that is read as one, how it is sampled.
pub proof fn law_read_keys_say_how_they_sample(
    plan: &LoweredGraphPlan,
    read: &RuntimeReadBinding,
    exact: bool,
    at: int,
)
    requires
        call_ensures(runtime_read_key_is_exact, (plan, read), exact),
        0 <= at < plan@.resources.len(),
        plan@.resources[at].id == read.resource,
        forall|i: int| 0 <= i < at ==> (#[trigger] plan@.resources[i]).id != read.resource,
    ensures
        exact <==> {
            let resource = plan@.resources[at];
            let key = read.sampler_key;
            &&& key.role == read.role
            &&& key.source_format == resource.format
            &&& key.filter == read.sampling_filter
            &&& key.edge is TransparentBlack <==> read.sampling_edge is TransparentBlack
            &&& key.edge is ClampToExtent <==> read.sampling_edge is ClampToExtent
            &&& key.edge is Mirror <==> read.sampling_edge is SemanticBorderMirror
            &&& resource.import is Some && read.role is AlphaMask ==> key.mask == Some(
                resource.import->0.sampling,
            )
            &&& !(resource.import is Some && read.role is AlphaMask) ==> key.mask is None
        },
{
    let id = read.resource;
    let chosen = |resource: RuntimeResourceRequest| resource.id == id;
    lemma_first_where(plan@.resources, chosen);
    assert(chosen(plan@.resources[at]));
}

/// Where keys are exact, a pass has keys exactly if it neither clears nor captures; and some pass does
/// neither.
pub proof fn law_programs_have_keys(plan: &LoweredGraphPlan, facts: (bool, bool), i: int)
    requires
        call_ensures(runtime_cache_key_facts, (plan,), facts),
        facts.0,
        0 <= i < plan@.passes.len(),
    ensures
        plan@.passes[i].cache_keys is Some <==> !(plan@.passes[i].kind is ClearRoot)
            && !(plan@.passes[i].kind is VelloCapture),
        exists|j: int|
            {
                let pass = #[trigger] plan@.passes[j];
                0 <= j < plan@.passes.len() && !(pass.kind is ClearRoot)
                    && !(pass.kind is VelloCapture)
            },
{
    assert(pass_keys_are_exact(plan@, plan@.passes[i]));
}

/// Where keys are varied, some program shows nothing outside what it reads and some mirrors it.
pub proof fn law_varied_keys_tell_edges_apart(plan: &LoweredGraphPlan, facts: (bool, bool))
    requires
        call_ensures(runtime_cache_key_facts, (plan,), facts),
        facts.1,
    ensures
        layouts(plan@.passes).len() >= 4,
        shaders(plan@.passes).len() >= 6,
        exists|i: int, j: int|
            {
                &&& 0 <= i < plan@.passes.len()
                &&& 0 <= j < plan@.passes[i].reads.len()
                &&& (#[trigger] plan@.passes[i].reads[j]).sampling_edge is TransparentBlack
            },
        exists|i: int, j: int|
            {
                &&& 0 <= i < plan@.passes.len()
                &&& 0 <= j < plan@.passes[i].reads.len()
                &&& (#[trigger] plan@.passes[i].reads[j]).sampling_edge is SemanticBorderMirror
            },
{
    let passes = plan@.passes;
    let i = choose|i: int| 0 <= i < passes.len() && samples_edge(#[trigger] passes[i], false);
    let j = choose|j: int|
        0 <= j < passes[i].reads.len() && (#[trigger] passes[i].reads[j]).sampling_edge
            is TransparentBlack;
    assert(samples_edge(passes[i], false));
    assert(plan@.passes[i].reads[j].sampling_edge is TransparentBlack);
    let k = choose|k: int| 0 <= k < passes.len() && samples_edge(#[trigger] passes[k], true);
    let l = choose|l: int|
        0 <= l < passes[k].reads.len() && (#[trigger] passes[k].reads[l]).sampling_edge
            is SemanticBorderMirror;
    assert(samples_edge(passes[k], true));
    assert(plan@.passes[k].reads[l].sampling_edge is SemanticBorderMirror);
}

/// Layouts and shaders are those of the programs: every one that a program has, and none twice.
pub proof fn law_layouts_and_shaders_are_those_of_programs(passes: Seq<PassModel>, i: int)
    ensures
        layouts(passes).no_duplicates(),
        shaders(passes).no_duplicates(),
        0 <= i < passes.len() && passes[i].cache_keys is Some && !(passes[i].kind is ClearRoot)
            && !(passes[i].kind is VelloCapture) ==> {
            &&& layouts(passes).contains(passes[i].cache_keys->0.layout)
            &&& shaders(passes).contains(passes[i].cache_keys->0.shader)
        },
    decreases passes.len(),
{
    if passes.len() > 0 {
        law_layouts_and_shaders_are_those_of_programs(passes.drop_last(), i);
        let keys = passes.last().cache_keys->0;
        lemma_added_once(layouts(passes.drop_last()), keys.layout);
        lemma_added_once(shaders(passes.drop_last()), keys.shader);
        if i == passes.len() - 1 {
            assert(passes[i] == passes.last());
        }
    }
}

proof fn lemma_added_once(items: Seq<u64>, item: u64)
    requires
        items.no_duplicates(),
    ensures
        added(items, item).no_duplicates(),
        added(items, item).contains(item),
        forall|other: u64| items.contains(other) ==> #[trigger] added(items, item).contains(other),
{
    if !items.contains(item) {
        let longer = items.push(item);
        assert(longer[items.len() as int] == item);
        assert forall|other: u64| items.contains(other) implies #[trigger] longer.contains(other) by {
            let i = choose|i: int| 0 <= i < items.len() && items[i] == other;
            assert(longer[i] == other);
        }
    }
}

/// The keys that a map holds for a pass are those of the last pass with its identity that has any.
pub proof fn law_mapped_keys_are_the_last(
    plan: &LoweredGraphPlan,
    id: RuntimePassId,
    keys: Option<RuntimePassCacheKeys>,
    at: int,
)
    requires
        call_ensures(custom_keys, (plan, id), keys),
        0 <= at < plan@.passes.len(),
        plan@.passes[at].id == id,
        plan@.passes[at].cache_keys is Some,
        forall|i: int| at < i < plan@.passes.len() ==> (#[trigger] plan@.passes[i]).id != id,
    ensures
        keys == plan@.passes[at].cache_keys,
{
    let chosen = has_keys(id);
    lemma_last_where(plan@.passes, chosen);
    assert(chosen(plan@.passes[at]));
    let found = last_where(plan@.passes, chosen)->0;
    assert(chosen(plan@.passes[found]));
}

/// Where formats are separate, another working format changes the keys of every pass, another output
/// format those of the presents and no others, and the root and the last pass are the graph's.
pub proof fn law_separate_formats(
    root: RuntimeResourceId,
    present: RuntimePassId,
    plan: &LoweredGraphPlan,
    reduced: &LoweredGraphPlan,
    alternate: &LoweredGraphPlan,
    separate: bool,
    i: int,
)
    requires
        call_ensures(
            runtime_format_keys_are_separate,
            (root, present, plan, reduced, alternate),
            separate,
        ),
        separate,
        0 <= i < plan@.passes.len(),
        plan@.passes[i].cache_keys is Some,
    ensures
        plan@.root_working_image == root,
        plan@.final_present == present,
        mapped_keys(reduced@.passes, plan@.passes[i].id) is Some,
        mapped_keys(reduced@.passes, plan@.passes[i].id) != mapped_keys(
            plan@.passes,
            plan@.passes[i].id,
        ),
        mapped_keys(alternate@.passes, plan@.passes[i].id) is Some,
        mapped_keys(alternate@.passes, plan@.passes[i].id) != plan@.passes[i].cache_keys
            <==> plan@.passes[i].kind is Present,
{
    assert(working_format_changes(plan@.passes, reduced@.passes, plan@.passes[i]));
    assert(output_format_changes(alternate@.passes, plan@.passes[i]));
}

} // verus!
