//! Lookups in ordered passes and resources.

use vstd::prelude::*;

use crate::pass::model::{
    pass_models, PassModel, RuntimePass, RuntimePassId, RuntimeResourceId,
    RuntimeResourceRequest,
};

verus! {

/// The first position whose item is chosen.
pub open spec fn first_where<T>(items: Seq<T>, chosen: spec_fn(T) -> bool) -> Option<int>
    decreases items.len(),
{
    if items.len() == 0 {
        None
    } else {
        match first_where(items.drop_last(), chosen) {
            Some(position) => Some(position),
            None => if chosen(items.last()) {
                Some(items.len() - 1)
            } else {
                None
            },
        }
    }
}

/// The last position whose item is chosen.
pub open spec fn last_where<T>(items: Seq<T>, chosen: spec_fn(T) -> bool) -> Option<int>
    decreases items.len(),
{
    if items.len() == 0 {
        None
    } else if chosen(items.last()) {
        Some(items.len() - 1)
    } else {
        last_where(items.drop_last(), chosen)
    }
}

/// How many items are chosen.
pub open spec fn count_where<T>(items: Seq<T>, chosen: spec_fn(T) -> bool) -> nat
    decreases items.len(),
{
    if items.len() == 0 {
        0
    } else {
        count_where(items.drop_last(), chosen) + (if chosen(items.last()) {
            1nat
        } else {
            0nat
        })
    }
}

pub proof fn lemma_first_where<T>(items: Seq<T>, chosen: spec_fn(T) -> bool)
    ensures
        match first_where(items, chosen) {
            Some(position) => {
                &&& 0 <= position < items.len()
                &&& chosen(items[position])
                &&& forall|i: int| 0 <= i < position ==> !chosen(#[trigger] items[i])
            },
            None => forall|i: int| 0 <= i < items.len() ==> !chosen(#[trigger] items[i]),
        },
    decreases items.len(),
{
    if items.len() > 0 {
        lemma_first_where(items.drop_last(), chosen);
        assert forall|i: int| 0 <= i < items.len() - 1 implies #[trigger] items[i]
            == items.drop_last()[i] by {}
    }
}

pub proof fn lemma_last_where<T>(items: Seq<T>, chosen: spec_fn(T) -> bool)
    ensures
        match last_where(items, chosen) {
            Some(position) => {
                &&& 0 <= position < items.len()
                &&& chosen(items[position])
                &&& forall|i: int| position < i < items.len() ==> !chosen(#[trigger] items[i])
            },
            None => forall|i: int| 0 <= i < items.len() ==> !chosen(#[trigger] items[i]),
        },
    decreases items.len(),
{
    if items.len() > 0 {
        lemma_last_where(items.drop_last(), chosen);
        assert forall|i: int| 0 <= i < items.len() - 1 implies #[trigger] items[i]
            == items.drop_last()[i] by {}
    }
}

pub proof fn lemma_count_where_bound<T>(items: Seq<T>, chosen: spec_fn(T) -> bool)
    ensures
        count_where(items, chosen) <= items.len(),
    decreases items.len(),
{
    if items.len() > 0 {
        lemma_count_where_bound(items.drop_last(), chosen);
    }
}

/// Filtering one more item keeps it or leaves it out.
pub proof fn lemma_filter_step<T>(items: Seq<T>, keep: spec_fn(T) -> bool, next: int)
    requires
        0 <= next < items.len(),
    ensures
        items.take(next + 1).filter(keep) == (if keep(items[next]) {
            items.take(next).filter(keep).push(items[next])
        } else {
            items.take(next).filter(keep)
        }),
{
    reveal(Seq::filter);
    assert(items.take(next + 1).drop_last() =~= items.take(next));
    assert(items.take(next + 1).last() == items[next]);
}

/// What is filtered was there and is kept; nothing is repeated that was not.
pub proof fn lemma_filter_distinct<T>(items: Seq<T>, keep: spec_fn(T) -> bool)
    requires
        items.no_duplicates(),
    ensures
        items.filter(keep).no_duplicates(),
        forall|i: int|
            0 <= i < items.filter(keep).len() ==> keep(#[trigger] items.filter(keep)[i])
                && items.contains(items.filter(keep)[i]),
    decreases items.len(),
{
    reveal(Seq::filter);
    if items.len() > 0 {
        let before = items.drop_last();
        assert(before.no_duplicates());
        lemma_filter_distinct(before, keep);
        assert forall|i: int| 0 <= i < before.filter(keep).len() implies items.contains(
            #[trigger] before.filter(keep)[i],
        ) && before.filter(keep)[i] != items.last() by {
            assert(before.contains(before.filter(keep)[i]));
            let j = choose|j: int| 0 <= j < before.len() && before[j] == before.filter(keep)[i];
            assert(items[j] == before[j]);
        }
    }
}

/// Counting one more item adds it or not.
pub proof fn lemma_count_step<T>(items: Seq<T>, chosen: spec_fn(T) -> bool, next: int)
    requires
        0 <= next < items.len(),
    ensures
        count_where(items.take(next + 1), chosen) == count_where(items.take(next), chosen) + (
        if chosen(items[next]) {
            1nat
        } else {
            0nat
        }),
{
    assert(items.take(next + 1).drop_last() =~= items.take(next));
    assert(items.take(next + 1).last() == items[next]);
}

/// The first resource with an identity.
pub open spec fn first_resource(
    resources: Seq<RuntimeResourceRequest>,
    id: RuntimeResourceId,
) -> Option<RuntimeResourceRequest> {
    match first_where(resources, |resource: RuntimeResourceRequest| resource.id == id) {
        Some(position) => Some(resources[position]),
        None => None,
    }
}

/// The resource that a map by identity holds: the last with that identity.
pub open spec fn mapped_resource(
    resources: Seq<RuntimeResourceRequest>,
    id: RuntimeResourceId,
) -> Option<RuntimeResourceRequest> {
    match last_where(resources, |resource: RuntimeResourceRequest| resource.id == id) {
        Some(position) => Some(resources[position]),
        None => None,
    }
}

pub open spec fn resources_are_distinct(resources: Seq<RuntimeResourceRequest>) -> bool {
    forall|i: int, j: int|
        0 <= i < j < resources.len() ==> (#[trigger] resources[i]).id != (
        #[trigger] resources[j]).id
}

pub open spec fn passes_are_distinct(passes: Seq<PassModel>) -> bool {
    forall|i: int, j: int|
        0 <= i < j < passes.len() ==> (#[trigger] passes[i]).id != (#[trigger] passes[j]).id
}

/// In a list without a repeated identity a resource is found by its own.
pub proof fn lemma_resource_found(resources: Seq<RuntimeResourceRequest>, position: int)
    requires
        resources_are_distinct(resources),
        0 <= position < resources.len(),
    ensures
        first_resource(resources, resources[position].id) == Some(resources[position]),
        mapped_resource(resources, resources[position].id) == Some(resources[position]),
{
    let id = resources[position].id;
    lemma_first_where(resources, |resource: RuntimeResourceRequest| resource.id == id);
    lemma_last_where(resources, |resource: RuntimeResourceRequest| resource.id == id);
}

/// What a lookup finds is in the list and has the identity.
pub proof fn lemma_first_resource(
    resources: Seq<RuntimeResourceRequest>,
    id: RuntimeResourceId,
)
    ensures
        match first_resource(resources, id) {
            Some(resource) => resource.id == id && exists|i: int|
                0 <= i < resources.len() && #[trigger] resources[i] == resource,
            None => forall|i: int| 0 <= i < resources.len() ==> (#[trigger] resources[i]).id != id,
        },
{
    lemma_first_where(resources, |resource: RuntimeResourceRequest| resource.id == id);
}

/// The first resource with an identity.
pub fn find_resource(resources: &Vec<RuntimeResourceRequest>, id: RuntimeResourceId) -> (found:
    Option<RuntimeResourceRequest>)
    ensures
        found == first_resource(resources@, id),
{
    match find_resource_position(resources, id) {
        Some(position) => Some(resources[position]),
        None => None,
    }
}

/// The position of the first resource with an identity.
pub fn find_resource_position(
    resources: &Vec<RuntimeResourceRequest>,
    id: RuntimeResourceId,
) -> (found: Option<usize>)
    ensures
        match found {
            Some(position) => first_where(
                resources@,
                |resource: RuntimeResourceRequest| resource.id == id,
            ) == Some(position as int) && position < resources@.len(),
            None => first_where(
                resources@,
                |resource: RuntimeResourceRequest| resource.id == id,
            ) is None,
        },
{
    let length: usize = resources.len();
    let mut next: usize = 0;
    let ghost chosen = |resource: RuntimeResourceRequest| resource.id == id;
    proof {
        lemma_first_where(resources@, chosen);
    }
    while next < length
        invariant
            next <= length,
            length == resources@.len(),
            chosen == (|resource: RuntimeResourceRequest| resource.id == id),
            forall|i: int| 0 <= i < next ==> (#[trigger] resources@[i]).id != id,
            match first_where(resources@, chosen) {
                Some(position) => {
                    &&& 0 <= position < resources@.len()
                    &&& chosen(resources@[position])
                    &&& forall|i: int| 0 <= i < position ==> !chosen(#[trigger] resources@[i])
                },
                None => forall|i: int|
                    0 <= i < resources@.len() ==> !chosen(#[trigger] resources@[i]),
            },
        decreases length - next,
    {
        if resources[next].id == id {
            return Some(next);
        }
        next = next + 1;
    }
    None
}

/// The resource that a map by identity holds.
pub fn find_mapped_resource(
    resources: &Vec<RuntimeResourceRequest>,
    id: RuntimeResourceId,
) -> (found: Option<RuntimeResourceRequest>)
    ensures
        found == mapped_resource(resources@, id),
{
    let length: usize = resources.len();
    let mut left: usize = length;
    proof {
        lemma_last_where(resources@, |resource: RuntimeResourceRequest| resource.id == id);
    }
    while left > 0
        invariant
            left <= length,
            length == resources@.len(),
            forall|i: int| left <= i < length ==> (#[trigger] resources@[i]).id != id,
            match last_where(resources@, |resource: RuntimeResourceRequest| resource.id == id) {
                Some(position) => {
                    &&& 0 <= position < resources@.len()
                    &&& resources@[position].id == id
                    &&& forall|i: int|
                        position < i < resources@.len() ==> (#[trigger] resources@[i]).id != id
                },
                None => forall|i: int|
                    0 <= i < resources@.len() ==> (#[trigger] resources@[i]).id != id,
            },
        decreases left,
    {
        left = left - 1;
        if resources[left].id == id {
            return Some(resources[left]);
        }
    }
    None
}

/// Whether no identity is repeated.
pub fn resource_ids_are_distinct(resources: &Vec<RuntimeResourceRequest>) -> (distinct: bool)
    ensures
        distinct == resources_are_distinct(resources@),
{
    let length: usize = resources.len();
    let mut right: usize = 0;
    while right < length
        invariant
            right <= length,
            length == resources@.len(),
            forall|i: int, j: int|
                0 <= i < j < right ==> (#[trigger] resources@[i]).id != (
                #[trigger] resources@[j]).id,
        decreases length - right,
    {
        let mut left: usize = 0;
        while left < right
            invariant
                left <= right < length,
                length == resources@.len(),
                forall|i: int|
                    0 <= i < left ==> (#[trigger] resources@[i]).id != resources@[right as int].id,
            decreases right - left,
        {
            if resources[left].id == resources[right].id {
                return false;
            }
            left = left + 1;
        }
        right = right + 1;
    }
    true
}

/// Whether no identity is repeated.
pub fn pass_ids_are_distinct(passes: &Vec<RuntimePass>) -> (distinct: bool)
    ensures
        distinct == passes_are_distinct(pass_models(passes@)),
{
    let ghost models = pass_models(passes@);
    let length: usize = passes.len();
    let mut right: usize = 0;
    while right < length
        invariant
            right <= length,
            length == passes@.len(),
            models == pass_models(passes@),
            forall|i: int, j: int|
                0 <= i < j < right ==> (#[trigger] models[i]).id != (#[trigger] models[j]).id,
        decreases length - right,
    {
        let mut left: usize = 0;
        while left < right
            invariant
                left <= right < length,
                length == passes@.len(),
                models == pass_models(passes@),
                forall|i: int|
                    0 <= i < left ==> (#[trigger] models[i]).id != models[right as int].id,
            decreases right - left,
        {
            if passes[left].id == passes[right].id {
                proof {
                    assert(models[left as int].id == models[right as int].id);
                }
                return false;
            }
            left = left + 1;
        }
        right = right + 1;
    }
    true
}

/// The first pass with an identity.
pub open spec fn first_pass(passes: Seq<PassModel>, id: RuntimePassId) -> Option<int> {
    first_where(passes, |pass: PassModel| pass.id == id)
}

/// The position of the first pass with an identity.
pub fn find_pass(passes: &Vec<RuntimePass>, id: RuntimePassId) -> (found: Option<usize>)
    ensures
        match found {
            Some(position) => first_pass(pass_models(passes@), id) == Some(
                position as int,
            ) && position < passes@.len(),
            None => first_pass(pass_models(passes@), id) is None,
        },
{
    let ghost models = pass_models(passes@);
    proof {
        lemma_first_where(models, |pass: PassModel| pass.id == id);
    }
    let length: usize = passes.len();
    let mut next: usize = 0;
    while next < length
        invariant
            next <= length,
            length == passes@.len(),
            models == pass_models(passes@),
            forall|i: int| 0 <= i < next ==> (#[trigger] models[i]).id != id,
            match first_where(models, |pass: PassModel| pass.id == id) {
                Some(position) => {
                    &&& 0 <= position < models.len()
                    &&& models[position].id == id
                    &&& forall|i: int| 0 <= i < position ==> (#[trigger] models[i]).id != id
                },
                None => forall|i: int| 0 <= i < models.len() ==> (#[trigger] models[i]).id != id,
            },
        decreases length - next,
    {
        if passes[next].id == id {
            proof {
                assert(models[next as int].id == id);
            }
            return Some(next);
        }
        next = next + 1;
    }
    None
}

/// The position that a map by identity holds for a pass: the last with that identity.
pub open spec fn mapped_pass(passes: Seq<PassModel>, id: RuntimePassId) -> Option<int> {
    last_where(passes, |pass: PassModel| pass.id == id)
}

/// The position that a map by identity holds for a pass.
pub fn find_mapped_pass(passes: &Vec<RuntimePass>, id: RuntimePassId) -> (found: Option<usize>)
    ensures
        match found {
            Some(position) => mapped_pass(pass_models(passes@), id) == Some(position as int)
                && position < passes@.len(),
            None => mapped_pass(pass_models(passes@), id) is None,
        },
{
    let ghost models = pass_models(passes@);
    let ghost chosen = |pass: PassModel| pass.id == id;
    proof {
        lemma_last_where(models, chosen);
    }
    let length: usize = passes.len();
    let mut left: usize = length;
    while left > 0
        invariant
            left <= length,
            length == passes@.len(),
            models == pass_models(passes@),
            chosen == (|pass: PassModel| pass.id == id),
            forall|i: int| left <= i < length ==> !chosen(#[trigger] models[i]),
            match last_where(models, chosen) {
                Some(position) => {
                    &&& 0 <= position < models.len()
                    &&& chosen(models[position])
                    &&& forall|i: int| position < i < models.len() ==> !chosen(#[trigger] models[i])
                },
                None => forall|i: int| 0 <= i < models.len() ==> !chosen(#[trigger] models[i]),
            },
        decreases left,
    {
        left = left - 1;
        if passes[left].id == id {
            assert(chosen(models[left as int]));
            return Some(left);
        }
        assert(!chosen(models[left as int]));
    }
    None
}

/// A lookup by identity finds the first item that has it, a map the last; where there is none, neither
/// finds any.
pub proof fn law_lookups_find_by_identity(
    resources: &Vec<RuntimeResourceRequest>,
    id: RuntimeResourceId,
    first: Option<RuntimeResourceRequest>,
    mapped: Option<RuntimeResourceRequest>,
    at: int,
)
    requires
        call_ensures(find_resource, (resources, id), first),
        call_ensures(find_mapped_resource, (resources, id), mapped),
        0 <= at < resources@.len(),
        resources@[at].id.0 == id.0,
    ensures
        first is Some,
        mapped is Some,
        first->0.id == id,
        mapped->0.id == id,
        (forall|i: int| 0 <= i < at ==> (#[trigger] resources@[i]).id != id) ==> first == Some(
            resources@[at],
        ),
        (forall|i: int| at < i < resources@.len() ==> (#[trigger] resources@[i]).id != id)
            ==> mapped == Some(resources@[at]),
{
    let chosen = |resource: RuntimeResourceRequest| resource.id == id;
    lemma_first_where(resources@, chosen);
    lemma_last_where(resources@, chosen);
    assert(chosen(resources@[at]));
}

/// What is not there is not found.
pub proof fn law_lookups_find_nothing_else(
    resources: &Vec<RuntimeResourceRequest>,
    id: RuntimeResourceId,
    passes: &Vec<RuntimePass>,
    pass: RuntimePassId,
)
    requires
        forall|i: int| 0 <= i < resources@.len() ==> (#[trigger] resources@[i]).id != id,
        forall|i: int| 0 <= i < passes@.len() ==> (#[trigger] passes@[i]).id != pass,
    ensures
        forall|found: Option<RuntimeResourceRequest>| #[trigger]
            call_ensures(find_resource, (resources, id), found) ==> found is None,
        forall|found: Option<RuntimeResourceRequest>| #[trigger]
            call_ensures(find_mapped_resource, (resources, id), found) ==> found is None,
        forall|found: Option<usize>| #[trigger]
            call_ensures(find_pass, (passes, pass), found) ==> found is None,
        forall|found: Option<usize>| #[trigger]
            call_ensures(find_mapped_pass, (passes, pass), found) ==> found is None,
{
    let chosen = |resource: RuntimeResourceRequest| resource.id == id;
    lemma_first_where(resources@, chosen);
    lemma_last_where(resources@, chosen);
    let models = pass_models(passes@);
    let wanted = |model: PassModel| model.id == pass;
    lemma_first_where(models, wanted);
    lemma_last_where(models, wanted);
    assert forall|i: int| 0 <= i < models.len() implies !wanted(#[trigger] models[i]) by {
        assert(passes@[i].id != pass);
    }
}

/// A pass is found where it stands: the first with its identity, and by a map the last.
pub proof fn law_passes_are_found_where_they_stand(
    passes: &Vec<RuntimePass>,
    id: RuntimePassId,
    at: usize,
)
    requires
        at < passes@.len(),
        passes@[at as int].id.0 == id.0,
    ensures
        (forall|i: int| 0 <= i < at ==> (#[trigger] passes@[i]).id != id) ==> forall|
            found: Option<usize>,
        | #[trigger] call_ensures(find_pass, (passes, id), found) ==> found == Some(at),
        (forall|i: int| at < i < passes@.len() ==> (#[trigger] passes@[i]).id != id) ==> forall|
            found: Option<usize>,
        | #[trigger] call_ensures(find_mapped_pass, (passes, id), found) ==> found == Some(at),
        forall|found: Option<usize>| #[trigger]
            call_ensures(find_pass, (passes, id), found) ==> (found matches Some(position)
                && position <= at && passes@[position as int].id == id),
        forall|found: Option<usize>| #[trigger]
            call_ensures(find_mapped_pass, (passes, id), found) ==> (found matches Some(position)
                && at <= position && passes@[position as int].id == id),
{
    let models = pass_models(passes@);
    let chosen = |pass: PassModel| pass.id == id;
    lemma_first_where(models, chosen);
    lemma_last_where(models, chosen);
    assert(chosen(models[at as int]));
    assert forall|i: int| 0 <= i < models.len() implies (#[trigger] models[i]).id == passes@[i].id by {
    }
    if forall|i: int| 0 <= i < at ==> (#[trigger] passes@[i]).id != id {
        let position = first_where(models, chosen)->0;
        assert(passes@[position].id == id);
    }
    if forall|i: int| at < i < passes@.len() ==> (#[trigger] passes@[i]).id != id {
        let position = last_where(models, chosen)->0;
        assert(passes@[position].id == id);
    }
}

/// Identities are distinct exactly if no two items at different places share one.
pub proof fn law_distinct_identities(
    resources: &Vec<RuntimeResourceRequest>,
    passes: &Vec<RuntimePass>,
    i: int,
    j: int,
)
    requires
        0 <= i < resources@.len(),
        0 <= j < resources@.len(),
        i != j,
    ensures
        resources@[i].id.0 == resources@[j].id.0 ==> forall|distinct: bool| #[trigger]
            call_ensures(resource_ids_are_distinct, (resources,), distinct) ==> !distinct,
        0 <= i < passes@.len() && 0 <= j < passes@.len() && passes@[i].id.0 == passes@[j].id.0
            ==> forall|distinct: bool| #[trigger]
            call_ensures(pass_ids_are_distinct, (passes,), distinct) ==> !distinct,
{
    let models = pass_models(passes@);
    if 0 <= i < passes@.len() && 0 <= j < passes@.len() {
        assert(models[i].id == passes@[i].id);
        assert(models[j].id == passes@[j].id);
    }
}

/// How many items are chosen is how many are kept by filtering for them.
pub proof fn law_counting_is_filtering<T>(items: Seq<T>, chosen: spec_fn(T) -> bool)
    ensures
        count_where(items, chosen) == items.filter(chosen).len(),
    decreases items.len(),
{
    reveal(Seq::filter);
    if items.len() > 0 {
        law_counting_is_filtering(items.drop_last(), chosen);
    }
}

/// The position of a resource is that of the first with its identity, and there is none exactly where
/// no resource has it.
pub proof fn law_resources_are_found_where_they_stand(
    resources: &Vec<RuntimeResourceRequest>,
    id: RuntimeResourceId,
    found: Option<usize>,
)
    requires
        call_ensures(find_resource_position, (resources, id), found),
    ensures
        match found {
            Some(position) => {
                &&& position < resources@.len()
                &&& resources@[position as int].id == id
                &&& forall|i: int| 0 <= i < position ==> (#[trigger] resources@[i]).id != id
            },
            None => forall|i: int| 0 <= i < resources@.len() ==> (#[trigger] resources@[i]).id != id,
        },
{
    lemma_first_where(resources@, |resource: RuntimeResourceRequest| resource.id == id);
}

} // verus!
