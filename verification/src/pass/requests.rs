//! The cache keys that each subset asks the pass cache for.

use vstd::prelude::*;

use crate::error::{Error, LoweringFailure, PreparationFailure};
use crate::pass::c08::{is_spine, PassDerivation};
use crate::pass::model::{
    plan_models,
    LoweredGraphPlan, PassModel, PlanModel, RuntimeComposite, RuntimeCompositeKind,
    RuntimeLayerComposite, RuntimePass, RuntimePassCacheKeys, RuntimePassKind, RuntimeResultBinding,
};
use crate::reference::pixel::BlendMode;
use crate::runtime::{DeviceCapabilities, Format, WorkingFormat};

verus! {

/// A kind of pass whose keys are requested.
#[derive(Clone, Copy, Debug, PartialEq, Eq, Structural)]
pub enum PassSelection {
    Every,
    LayerComposite,
    ColorFilter,
    Blur,
}

/// Whether a kind of pass composites a layer.
pub open spec fn composites_layer(kind: RuntimePassKind) -> bool {
    kind matches RuntimePassKind::Composite(Some(composite)) && composite.kind is Layer
}

pub open spec fn selects(selection: PassSelection, pass: PassModel) -> bool {
    match selection {
        PassSelection::Every => true,
        PassSelection::LayerComposite => composites_layer(pass.kind),
        PassSelection::ColorFilter => {
            pass.kind matches RuntimePassKind::ColorFilter(Some(_)) && pass.operations.len() > 0
        },
        PassSelection::Blur => {
            ||| pass.kind matches RuntimePassKind::BlurHorizontal(Some(_))
            ||| pass.kind matches RuntimePassKind::BlurVertical(Some(_))
        },
    }
}

pub fn is_layer_composite(kind: RuntimePassKind) -> (layer: bool)
    ensures
        layer == composites_layer(kind),
{
    match kind {
        RuntimePassKind::Composite(Some(composite)) => matches!(
            composite.kind,
            RuntimeCompositeKind::Layer(_)
        ),
        _ => false,
    }
}

fn is_selected(selection: PassSelection, pass: &RuntimePass) -> (selected: bool)
    ensures
        selected == selects(selection, pass@),
{
    match selection {
        PassSelection::Every => true,
        PassSelection::LayerComposite => is_layer_composite(pass.kind),
        PassSelection::ColorFilter => matches!(pass.kind, RuntimePassKind::ColorFilter(Some(_)))
            && pass.operations.len() > 0,
        PassSelection::Blur => matches!(pass.kind, RuntimePassKind::BlurHorizontal(Some(_)))
            || matches!(pass.kind, RuntimePassKind::BlurVertical(Some(_))),
    }
}

/// The keys of the selected passes that have any, in order.
pub open spec fn selected_keys(passes: Seq<PassModel>, selection: PassSelection) -> Seq<
    RuntimePassCacheKeys,
>
    decreases passes.len(),
{
    if passes.len() == 0 {
        Seq::empty()
    } else {
        let before = selected_keys(passes.drop_last(), selection);
        match passes.last().cache_keys {
            Some(keys) => if selects(selection, passes.last()) {
                before.push(keys)
            } else {
                before
            },
            None => before,
        }
    }
}

fn collect_keys(plan: &LoweredGraphPlan, selection: PassSelection) -> (keys: Vec<
    RuntimePassCacheKeys,
>)
    ensures
        keys@ == selected_keys(plan@.passes, selection),
{
    let length: usize = plan.passes.len();
    let mut keys: Vec<RuntimePassCacheKeys> = Vec::new();
    let mut next: usize = 0;
    while next < length
        invariant
            next <= length,
            length == plan.passes@.len(),
            keys@ == selected_keys(plan@.passes.take(next as int), selection),
        decreases length - next,
    {
        let pass = &plan.passes[next];
        proof {
            let taken = plan@.passes.take(next + 1);
            assert(taken.drop_last() =~= plan@.passes.take(next as int));
            assert(taken.last() == pass@);
        }
        if is_selected(selection, pass) {
            match pass.cache_keys {
                Some(found) => keys.push(found),
                None => {},
            }
        }
        next = next + 1;
    }
    proof {
        assert(plan@.passes.take(length as int) =~= plan@.passes);
    }
    keys
}

/// Whether these are the keys of every pass of an exact spine.
pub open spec fn are_spine_requests(
    keys: Result<Vec<RuntimePassCacheKeys>, Error>,
    plan: PlanModel,
    derived: Seq<PassDerivation>,
) -> bool {
    match keys {
        Ok(keys) => {
            &&& is_spine(plan, derived)
            &&& keys@ == selected_keys(plan.passes, PassSelection::Every)
            &&& keys@.len() > 0
        },
        Err(error) => if is_spine(plan, derived) {
            &&& selected_keys(plan.passes, PassSelection::Every).len() == 0
            &&& error == Error::Lowering(LoweringFailure::CustomPassKeysMissing)
        } else {
            error == Error::Lowering(LoweringFailure::ExecutableKeysLost)
        },
    }
}

/// The keys of every pass of an exact spine.
pub fn c08_pass_cache_requests(plan: &LoweredGraphPlan, derived: &Vec<PassDerivation>) -> (keys:
    Result<Vec<RuntimePassCacheKeys>, Error>)
    ensures
        are_spine_requests(keys, plan@, derived@),
{
    if plan.c08_execution_facts(derived).is_none() {
        return Err(Error::Lowering(LoweringFailure::ExecutableKeysLost));
    }
    let keys = collect_keys(plan, PassSelection::Every);
    if keys.len() == 0 {
        return Err(Error::Lowering(LoweringFailure::CustomPassKeysMissing));
    }
    Ok(keys)
}

/// The items with one more, unless it is there already.
pub open spec fn added<T>(items: Seq<T>, item: T) -> Seq<T> {
    if items.contains(item) {
        items
    } else {
        items.push(item)
    }
}

/// The items with every further one that is not there already.
pub open spec fn all_added<T>(items: Seq<T>, further: Seq<T>) -> Seq<T>
    decreases further.len(),
{
    if further.len() == 0 {
        items
    } else {
        added(all_added(items, further.drop_last()), further.last())
    }
}

fn add_keys(keys: &mut Vec<RuntimePassCacheKeys>, item: RuntimePassCacheKeys)
    ensures
        final(keys)@ == added(old(keys)@, item),
{
    let length: usize = keys.len();
    let mut next: usize = 0;
    while next < length
        invariant
            next <= length,
            length == keys@.len(),
            keys@ == old(keys)@,
            forall|i: int| 0 <= i < next ==> #[trigger] keys@[i] != item,
        decreases length - next,
    {
        if keys[next] == item {
            proof {
                assert(keys@[next as int] == item);
            }
            return;
        }
        next = next + 1;
    }
    keys.push(item);
}

/// What the keys of a pass would be with a normal blend.
pub type NormalKeys = Result<Option<RuntimePassCacheKeys>, Error>;

/// Whether a pass composites a layer that samples its destination.
pub open spec fn blends_with_destination(kind: RuntimePassKind) -> bool {
    kind matches RuntimePassKind::Composite(Some(composite)) && composite.kind matches
        RuntimeCompositeKind::Layer(layer) && layer.blend != BlendMode::Normal
}

/// The kind of a pass with a normal blend, where it composites a layer.
pub open spec fn with_normal_blend(kind: RuntimePassKind) -> RuntimePassKind {
    match kind {
        RuntimePassKind::Composite(Some(composite)) => match composite.kind {
            RuntimeCompositeKind::Layer(layer) => RuntimePassKind::Composite(
                Some(
                    RuntimeComposite {
                        kind: RuntimeCompositeKind::Layer(
                            RuntimeLayerComposite { blend: BlendMode::Normal, ..layer },
                        ),
                        ..composite
                    },
                ),
            ),
            _ => kind,
        },
        _ => kind,
    }
}

pub fn normal_blend(kind: RuntimePassKind) -> (normal: RuntimePassKind)
    ensures
        normal == with_normal_blend(kind),
{
    match kind {
        RuntimePassKind::Composite(Some(composite)) => match composite.kind {
            RuntimeCompositeKind::Layer(layer) => RuntimePassKind::Composite(
                Some(
                    RuntimeComposite {
                        kind: RuntimeCompositeKind::Layer(
                            RuntimeLayerComposite { blend: BlendMode::Normal, ..layer },
                        ),
                        ..composite
                    },
                ),
            ),
            _ => kind,
        },
        _ => kind,
    }
}

pub fn is_destination_blend(kind: RuntimePassKind) -> (destination: bool)
    ensures
        destination == blends_with_destination(kind),
{
    match kind {
        RuntimePassKind::Composite(Some(composite)) => match composite.kind {
            RuntimeCompositeKind::Layer(layer) => layer.blend != BlendMode::Normal,
            _ => false,
        },
        _ => false,
    }
}

/// The keys together with the normal-blend keys of every layer that samples its destination, or
/// the first failure to derive them.
pub open spec fn with_normal_paths(
    keys: Seq<RuntimePassCacheKeys>,
    passes: Seq<PassModel>,
    normals: Seq<NormalKeys>,
) -> Result<Seq<RuntimePassCacheKeys>, Error>
    decreases passes.len(),
{
    if passes.len() == 0 {
        Ok(keys)
    } else {
        match with_normal_paths(keys, passes.drop_last(), normals) {
            Err(error) => Err(error),
            Ok(before) => if blends_with_destination(passes.last().kind) {
                match normals[passes.len() - 1] {
                    Err(error) => Err(error),
                    Ok(None) => Err(Error::Lowering(LoweringFailure::NormalPathKeysLost)),
                    Ok(Some(normal)) => Ok(added(before, normal)),
                }
            } else {
                Ok(before)
            },
        }
    }
}

/// The composite keys of the first `count` plans, each once, or the first failure.
pub open spec fn composite_keys(
    plans: Seq<PlanModel>,
    normals: Seq<Seq<NormalKeys>>,
    count: nat,
) -> Result<Seq<RuntimePassCacheKeys>, Error>
    decreases count,
{
    if count == 0 {
        Ok(Seq::empty())
    } else {
        match composite_keys(plans, normals, (count - 1) as nat) {
            Err(error) => Err(error),
            Ok(before) => {
                let plan = plans[count - 1];
                let layers = selected_keys(plan.passes, PassSelection::LayerComposite);
                if layers.len() == 0 {
                    Err(Error::Lowering(LoweringFailure::LayerCompositeKeysMissing))
                } else {
                    with_normal_paths(all_added(before, layers), plan.passes, normals[count - 1])
                }
            },
        }
    }
}

pub open spec fn normal_models(normals: Seq<Vec<NormalKeys>>) -> Seq<Seq<NormalKeys>> {
    Seq::new(normals.len(), |i: int| normals[i]@)
}

fn add_layer_keys(keys: &mut Vec<RuntimePassCacheKeys>, layers: &Vec<RuntimePassCacheKeys>)
    ensures
        final(keys)@ == all_added(old(keys)@, layers@),
{
    let length: usize = layers.len();
    let ghost start = keys@;
    let mut next: usize = 0;
    while next < length
        invariant
            next <= length,
            length == layers@.len(),
            keys@ == all_added(start, layers@.take(next as int)),
        decreases length - next,
    {
        proof {
            let taken = layers@.take(next + 1);
            assert(taken.drop_last() =~= layers@.take(next as int));
        }
        add_keys(keys, layers[next]);
        next = next + 1;
    }
    proof {
        assert(layers@.take(length as int) =~= layers@);
    }
}

fn add_normal_paths(
    keys: Vec<RuntimePassCacheKeys>,
    plan: &LoweredGraphPlan,
    normals: &Vec<NormalKeys>,
) -> (extended: Result<Vec<RuntimePassCacheKeys>, Error>)
    requires
        normals@.len() == plan@.passes.len(),
    ensures
        match extended {
            Ok(extended) => with_normal_paths(keys@, plan@.passes, normals@) == Ok::<
                Seq<RuntimePassCacheKeys>,
                Error,
            >(extended@),
            Err(error) => with_normal_paths(keys@, plan@.passes, normals@) == Err::<
                Seq<RuntimePassCacheKeys>,
                Error,
            >(error),
        },
{
    let ghost start = keys@;
    let ghost passes = plan@.passes;
    let length: usize = plan.passes.len();
    let mut extended = keys;
    let mut next: usize = 0;
    proof {
        assert(passes.take(0) =~= Seq::empty());
    }
    while next < length
        invariant
            next <= length,
            length == plan.passes@.len(),
            start == keys@,
            passes == plan@.passes,
            normals@.len() == length,
            with_normal_paths(start, passes.take(next as int), normals@) == Ok::<
                Seq<RuntimePassCacheKeys>,
                Error,
            >(extended@),
        decreases length - next,
    {
        proof {
            let taken = passes.take(next + 1);
            assert(taken.drop_last() =~= passes.take(next as int));
            assert(taken.last() == plan.passes@[next as int]@);
        }
        if is_destination_blend(plan.passes[next].kind) {
            match normals[next] {
                Err(error) => {
                    proof {
                        lemma_normal_failure(start, passes, normals@, next as int, error);
                    }
                    return Err(error);
                },
                Ok(None) => {
                    let error = Error::Lowering(LoweringFailure::NormalPathKeysLost);
                    proof {
                        lemma_normal_failure(start, passes, normals@, next as int, error);
                    }
                    return Err(error);
                },
                Ok(Some(normal)) => add_keys(&mut extended, normal),
            }
        }
        next = next + 1;
    }
    proof {
        assert(passes.take(length as int) =~= passes);
    }
    Ok(extended)
}

/// A failure at one pass is the failure of the whole.
proof fn lemma_normal_failure(
    keys: Seq<RuntimePassCacheKeys>,
    passes: Seq<PassModel>,
    normals: Seq<NormalKeys>,
    position: int,
    error: Error,
)
    requires
        0 <= position < passes.len(),
        with_normal_paths(keys, passes.take(position + 1), normals) == Err::<
            Seq<RuntimePassCacheKeys>,
            Error,
        >(error),
    ensures
        with_normal_paths(keys, passes, normals) == Err::<Seq<RuntimePassCacheKeys>, Error>(error),
    decreases passes.len() - position,
{
    if position + 1 == passes.len() {
        assert(passes.take(position + 1) =~= passes);
    } else {
        assert(passes.take(position + 2).drop_last() =~= passes.take(position + 1));
        lemma_normal_failure(keys, passes, normals, position + 1, error);
    }
}

/// A failure of one plan is the failure of all.
proof fn lemma_composite_failure(
    plans: Seq<PlanModel>,
    normals: Seq<Seq<NormalKeys>>,
    count: nat,
    total: nat,
    error: Error,
)
    requires
        count <= total,
        composite_keys(plans, normals, count) == Err::<Seq<RuntimePassCacheKeys>, Error>(error),
    ensures
        composite_keys(plans, normals, total) == Err::<Seq<RuntimePassCacheKeys>, Error>(error),
    decreases total - count,
{
    if count < total {
        lemma_composite_failure(plans, normals, (count + 1) as nat, total, error);
    }
}

/// The composite keys of several plans, each once, or the first failure.
pub fn collect_composite_keys(plans: &Vec<LoweredGraphPlan>, normals: &Vec<Vec<NormalKeys>>) -> (
keys: Result<Vec<RuntimePassCacheKeys>, Error>)
    requires
        normals@.len() == plans@.len(),
        forall|i: int|
            0 <= i < plans@.len() ==> (#[trigger] normals@[i])@.len() == plans@[i]@.passes.len(),
    ensures
        match composite_keys(plan_models(plans@), normal_models(normals@), plans@.len()) {
            Err(error) => keys == Err::<Vec<RuntimePassCacheKeys>, Error>(error),
            Ok(found) => keys matches Ok(keys) && keys@ == found,
        },
{
    let ghost models = plan_models(plans@);
    let ghost others = normal_models(normals@);
    let length: usize = plans.len();
    let mut keys: Vec<RuntimePassCacheKeys> = Vec::new();
    let mut next: usize = 0;
    while next < length
        invariant
            next <= length,
            length == plans@.len(),
            normals@.len() == length,
            models == plan_models(plans@),
            others == normal_models(normals@),
            forall|i: int|
                0 <= i < length ==> (#[trigger] normals@[i])@.len() == plans@[i]@.passes.len(),
            composite_keys(models, others, next as nat) == Ok::<Seq<RuntimePassCacheKeys>, Error>(
                keys@,
            ),
        decreases length - next,
    {
        let layers = collect_keys(&plans[next], PassSelection::LayerComposite);
        assert(models[next as int] == plans@[next as int]@);
        assert(others[next as int] == normals@[next as int]@);
        if layers.len() == 0 {
            let error = Error::Lowering(LoweringFailure::LayerCompositeKeysMissing);
            proof {
                lemma_composite_failure(models, others, (next + 1) as nat, length as nat, error);
            }
            return Err(error);
        }
        add_layer_keys(&mut keys, &layers);
        match add_normal_paths(keys, &plans[next], &normals[next]) {
            Ok(extended) => {
                keys = extended;
            },
            Err(error) => {
                proof {
                    lemma_composite_failure(
                        models,
                        others,
                        (next + 1) as nat,
                        length as nat,
                        error,
                    );
                }
                return Err(error);
            },
        }
        next = next + 1;
    }
    Ok(keys)
}

/// The composite keys of several plans, each once: those of their layers, and those that the
/// layers that sample their destination would have with a normal blend.
pub fn c09_composite_cache_requests(
    plans: &Vec<LoweredGraphPlan>,
    normals: &Vec<Vec<NormalKeys>>,
) -> (keys: Result<Vec<RuntimePassCacheKeys>, Error>)
    requires
        normals@.len() == plans@.len(),
        forall|i: int|
            0 <= i < plans@.len() ==> (#[trigger] normals@[i])@.len() == plans@[i]@.passes.len(),
    ensures
        match composite_keys(plan_models(plans@), normal_models(normals@), plans@.len()) {
            Err(error) => keys == Err::<Vec<RuntimePassCacheKeys>, Error>(error),
            Ok(found) => if found.len() == 0 {
                keys == Err::<Vec<RuntimePassCacheKeys>, Error>(
                    Error::Lowering(LoweringFailure::CompositeVariantsMissing),
                )
            } else {
                keys matches Ok(keys) && keys@ == found
            },
        },
{
    let keys = match collect_composite_keys(plans, normals) {
        Ok(keys) => keys,
        Err(error) => return Err(error),
    };
    if keys.len() == 0 {
        return Err(Error::Lowering(LoweringFailure::CompositeVariantsMissing));
    }
    Ok(keys)
}

/// The requested composite keys hold nothing twice and miss no layer of any plan.
pub proof fn law_composite_requests_are_unique_and_complete(
    plans: Seq<PlanModel>,
    normals: Seq<Seq<NormalKeys>>,
    count: nat,
)
    requires
        count <= plans.len(),
    ensures
        composite_keys(plans, normals, count) matches Ok(found) ==> {
            &&& found.no_duplicates()
            &&& forall|i: int, key: RuntimePassCacheKeys|
                0 <= i < count && #[trigger] selected_keys(
                    plans[i].passes,
                    PassSelection::LayerComposite,
                ).contains(key) ==> found.contains(key)
        },
    decreases count,
{
    if count > 0 && composite_keys(plans, normals, count) is Ok {
        let before = composite_keys(plans, normals, (count - 1) as nat)->Ok_0;
        let plan = plans[count - 1];
        let layers = selected_keys(plan.passes, PassSelection::LayerComposite);
        law_composite_requests_are_unique_and_complete(plans, normals, (count - 1) as nat);
        lemma_all_added(before, layers);
        lemma_normal_paths(all_added(before, layers), plan.passes, normals[count - 1]);
    }
}

proof fn lemma_added<T>(items: Seq<T>, item: T)
    ensures
        items.no_duplicates() ==> added(items, item).no_duplicates(),
        added(items, item).contains(item),
        forall|other: T| items.contains(other) ==> #[trigger] added(items, item).contains(other),
{
    if !items.contains(item) {
        let longer = items.push(item);
        assert(longer[items.len() as int] == item);
        assert forall|other: T| items.contains(other) implies #[trigger] longer.contains(other) by {
            let i = choose|i: int| 0 <= i < items.len() && items[i] == other;
            assert(longer[i] == other);
        }
    }
}

proof fn lemma_all_added<T>(items: Seq<T>, further: Seq<T>)
    ensures
        items.no_duplicates() ==> all_added(items, further).no_duplicates(),
        forall|other: T|
            items.contains(other) || further.contains(other) ==> #[trigger] all_added(
                items,
                further,
            ).contains(other),
    decreases further.len(),
{
    if further.len() > 0 {
        let before = all_added(items, further.drop_last());
        lemma_all_added(items, further.drop_last());
        lemma_added(before, further.last());
        assert forall|other: T| items.contains(other) || further.contains(other) implies
            #[trigger] all_added(items, further).contains(other) by {
            if further.contains(other) && other != further.last() {
                let i = choose|i: int| 0 <= i < further.len() && further[i] == other;
                assert(further.drop_last()[i] == other);
                assert(further.drop_last().contains(other));
                assert(before.contains(other));
            } else if items.contains(other) {
                assert(before.contains(other));
            }
        }
    }
}

proof fn lemma_normal_paths(
    keys: Seq<RuntimePassCacheKeys>,
    passes: Seq<PassModel>,
    normals: Seq<NormalKeys>,
)
    ensures
        with_normal_paths(keys, passes, normals) matches Ok(extended) ==> {
            &&& keys.no_duplicates() ==> extended.no_duplicates()
            &&& forall|other: RuntimePassCacheKeys|
                keys.contains(other) ==> #[trigger] extended.contains(other)
        },
    decreases passes.len(),
{
    if passes.len() > 0 {
        lemma_normal_paths(keys, passes.drop_last(), normals);
        if let Ok(before) = with_normal_paths(keys, passes.drop_last(), normals) {
            if let Ok(Some(normal)) = normals[passes.len() - 1] {
                lemma_added(before, normal);
            }
        }
    }
}

/// How a lowered graph is classified before it is prepared.
#[derive(Clone, Copy, Debug, PartialEq, Eq, Structural)]
pub enum PrePreparationGraphClassification {
    ExactC08,
    ExactC09,
    ExactC10,
    ExactC11,
    ExactC12,
    FuturePasses,
    Ineligible,
}

/// Accepts a graph whose class is the one wanted and whose closed facts are proven.
fn preparable_graph(
    class: PrePreparationGraphClassification,
    wanted: PrePreparationGraphClassification,
    facts_are_proven: bool,
    outside: PreparationFailure,
) -> (accepted: Result<(), Error>)
    ensures
        accepted == (if class == wanted && facts_are_proven {
            Ok::<(), Error>(())
        } else {
            Err(Error::Preparation(outside))
        }),
{
    if class == wanted && facts_are_proven {
        Ok(())
    } else {
        Err(Error::Preparation(outside))
    }
}

/// A graph with its class, and whether its closed facts are proven.
pub struct ClassifiedGraph<P> {
    pub class: PrePreparationGraphClassification,
    pub facts_are_proven: bool,
    pub graph: P,
}

/// Whether a preparable graph, or a failure, is what lowering and classifying a graph gives. A
/// working format that the device lacks is refused before the graph is lowered.
pub open spec fn is_preparable<
    P,
    L: FnOnce(WorkingFormat, Format, DeviceCapabilities) -> Result<LoweredGraphPlan, Error>,
    C: FnOnce(LoweredGraphPlan) -> ClassifiedGraph<P>,
>(
    prepared: Result<P, Error>,
    wanted: PrePreparationGraphClassification,
    outside: PreparationFailure,
    output_format: Format,
    working_format: WorkingFormat,
    capabilities: DeviceCapabilities,
    lower: L,
    classify: C,
) -> bool {
    match capabilities.format_failure(working_format) {
        Some(error) => prepared == Err::<P, Error>(error),
        None => exists|lowered: Result<LoweredGraphPlan, Error>|
            {
                &&& #[trigger] call_ensures(
                    lower,
                    (working_format, output_format, capabilities),
                    lowered,
                )
                &&& match lowered {
                    Err(error) => prepared == Err::<P, Error>(error),
                    Ok(plan) => exists|classified: ClassifiedGraph<P>|
                        {
                            &&& #[trigger] call_ensures(classify, (plan,), classified)
                            &&& prepared == (if classified.class == wanted
                                && classified.facts_are_proven {
                                Ok::<P, Error>(classified.graph)
                            } else {
                                Err(Error::Preparation(outside))
                            })
                        },
                }
            },
    }
}

fn prepare_graph<
    P,
    L: FnOnce(WorkingFormat, Format, DeviceCapabilities) -> Result<LoweredGraphPlan, Error>,
    C: FnOnce(LoweredGraphPlan) -> ClassifiedGraph<P>,
>(
    wanted: PrePreparationGraphClassification,
    outside: PreparationFailure,
    output_format: Format,
    working_format: WorkingFormat,
    capabilities: DeviceCapabilities,
    lower: L,
    classify: C,
) -> (prepared: Result<P, Error>)
    requires
        call_requires(lower, (working_format, output_format, capabilities)),
        forall|plan: LoweredGraphPlan| #[trigger] call_requires(classify, (plan,)),
    ensures
        is_preparable(
            prepared,
            wanted,
            outside,
            output_format,
            working_format,
            capabilities,
            lower,
            classify,
        ),
{
    match capabilities.validate_supported_working_format(working_format) {
        Ok(_) => {},
        Err(error) => return Err(error),
    }
    let plan = match lower(working_format, output_format, capabilities) {
        Ok(plan) => plan,
        Err(error) => return Err(error),
    };
    let classified = classify(plan);
    match preparable_graph(classified.class, wanted, classified.facts_are_proven, outside) {
        Ok(_) => Ok(classified.graph),
        Err(error) => Err(error),
    }
}

/// Lowers and classifies an authored graph, and accepts an exact closed color graph.
pub fn c10_preparable_graph<
    P,
    L: FnOnce(WorkingFormat, Format, DeviceCapabilities) -> Result<LoweredGraphPlan, Error>,
    C: FnOnce(LoweredGraphPlan) -> ClassifiedGraph<P>,
>(
    output_format: Format,
    working_format: WorkingFormat,
    capabilities: DeviceCapabilities,
    lower: L,
    classify: C,
) -> (prepared: Result<P, Error>)
    requires
        call_requires(lower, (working_format, output_format, capabilities)),
        forall|plan: LoweredGraphPlan| #[trigger] call_requires(classify, (plan,)),
    ensures
        is_preparable(
            prepared,
            PrePreparationGraphClassification::ExactC10,
            PreparationFailure::OutsideColorGraph,
            output_format,
            working_format,
            capabilities,
            lower,
            classify,
        ),
{
    prepare_graph(
        PrePreparationGraphClassification::ExactC10,
        PreparationFailure::OutsideColorGraph,
        output_format,
        working_format,
        capabilities,
        lower,
        classify,
    )
}

/// Lowers and classifies an authored graph, and accepts an exact closed graph of spatial filters.
pub fn c11_preparable_graph<
    P,
    L: FnOnce(WorkingFormat, Format, DeviceCapabilities) -> Result<LoweredGraphPlan, Error>,
    C: FnOnce(LoweredGraphPlan) -> ClassifiedGraph<P>,
>(
    output_format: Format,
    working_format: WorkingFormat,
    capabilities: DeviceCapabilities,
    lower: L,
    classify: C,
) -> (prepared: Result<P, Error>)
    requires
        call_requires(lower, (working_format, output_format, capabilities)),
        forall|plan: LoweredGraphPlan| #[trigger] call_requires(classify, (plan,)),
    ensures
        is_preparable(
            prepared,
            PrePreparationGraphClassification::ExactC11,
            PreparationFailure::OutsideSpatialFilterGraph,
            output_format,
            working_format,
            capabilities,
            lower,
            classify,
        ),
{
    prepare_graph(
        PrePreparationGraphClassification::ExactC11,
        PreparationFailure::OutsideSpatialFilterGraph,
        output_format,
        working_format,
        capabilities,
        lower,
        classify,
    )
}

/// Lowers and classifies an authored graph, and accepts an exact bounded backdrop graph.
pub fn c12_preparable_graph<
    P,
    L: FnOnce(WorkingFormat, Format, DeviceCapabilities) -> Result<LoweredGraphPlan, Error>,
    C: FnOnce(LoweredGraphPlan) -> ClassifiedGraph<P>,
>(
    output_format: Format,
    working_format: WorkingFormat,
    capabilities: DeviceCapabilities,
    lower: L,
    classify: C,
) -> (prepared: Result<P, Error>)
    requires
        call_requires(lower, (working_format, output_format, capabilities)),
        forall|plan: LoweredGraphPlan| #[trigger] call_requires(classify, (plan,)),
    ensures
        is_preparable(
            prepared,
            PrePreparationGraphClassification::ExactC12,
            PreparationFailure::OutsideBackdropGraph,
            output_format,
            working_format,
            capabilities,
            lower,
            classify,
        ),
{
    prepare_graph(
        PrePreparationGraphClassification::ExactC12,
        PreparationFailure::OutsideBackdropGraph,
        output_format,
        working_format,
        capabilities,
        lower,
        classify,
    )
}

/// Whether these are the keys of the one color filter of the passes that has operations.
pub open spec fn is_color_filter_request(
    keys: Result<Vec<RuntimePassCacheKeys>, Error>,
    passes: Seq<PassModel>,
) -> bool {
    match keys {
        Ok(keys) => keys@ == selected_keys(passes, PassSelection::ColorFilter) && keys@.len() == 1,
        Err(error) => {
            &&& selected_keys(passes, PassSelection::ColorFilter).len() != 1
            &&& error == Error::Lowering(LoweringFailure::ColorFilterRequestNotUnique)
        },
    }
}

/// The keys of the one color filter that has operations.
pub fn c10_color_filter_cache_requests(plan: &LoweredGraphPlan) -> (keys: Result<
    Vec<RuntimePassCacheKeys>,
    Error,
>)
    ensures
        is_color_filter_request(keys, plan@.passes),
{
    let keys = collect_keys(plan, PassSelection::ColorFilter);
    if keys.len() != 1 {
        return Err(Error::Lowering(LoweringFailure::ColorFilterRequestNotUnique));
    }
    Ok(keys)
}

/// Whether these are the keys of the four blur passes of an exact graph.
pub open spec fn are_blur_requests(
    keys: Result<Vec<RuntimePassCacheKeys>, Error>,
    passes: Seq<PassModel>,
    class: PrePreparationGraphClassification,
    facts_are_proven: bool,
) -> bool {
    match keys {
        Ok(keys) => {
            &&& class == PrePreparationGraphClassification::ExactC11 && facts_are_proven
            &&& keys@ == selected_keys(passes, PassSelection::Blur)
            &&& keys@.len() == 4
        },
        Err(error) => if class == PrePreparationGraphClassification::ExactC11 && facts_are_proven {
            &&& selected_keys(passes, PassSelection::Blur).len() != 4
            &&& error == Error::Lowering(LoweringFailure::BlurRequestsNotFour)
        } else {
            error == Error::Preparation(PreparationFailure::OutsideSpatialFilterGraph)
        },
    }
}

/// The keys of the four blur passes of an exact graph: two axes of an ordinary blur and two of a
/// drop shadow.
pub fn c11_blur_cache_requests(
    plan: &LoweredGraphPlan,
    class: PrePreparationGraphClassification,
    facts_are_proven: bool,
) -> (keys: Result<Vec<RuntimePassCacheKeys>, Error>)
    ensures
        are_blur_requests(keys, plan@.passes, class, facts_are_proven),
{
    match preparable_graph(
        class,
        PrePreparationGraphClassification::ExactC11,
        facts_are_proven,
        PreparationFailure::OutsideSpatialFilterGraph,
    ) {
        Ok(_) => {},
        Err(error) => return Err(error),
    }
    let keys = collect_keys(plan, PassSelection::Blur);
    if keys.len() != 4 {
        return Err(Error::Lowering(LoweringFailure::BlurRequestsNotFour));
    }
    Ok(keys)
}

/// The keys of a drop shadow.
#[derive(Clone, Copy, Debug, PartialEq, Eq, Structural)]
pub struct C11DropShadowCacheRequests {
    pub colorize: RuntimePassCacheKeys,
    pub merge: RuntimePassCacheKeys,
}

/// The two passes that a drop shadow is drawn by.
#[derive(Clone, Copy, Debug, PartialEq, Eq, Structural)]
pub enum ShadowStage {
    Colorize,
    Merge,
}

pub open spec fn shadow_stage(kind: RuntimePassKind) -> Option<ShadowStage> {
    match kind {
        RuntimePassKind::DropShadowColorize(Some(_)) => Some(ShadowStage::Colorize),
        RuntimePassKind::Composite(
            Some(RuntimeComposite { kind: RuntimeCompositeKind::DropShadow, .. }),
        ) => Some(ShadowStage::Merge),
        _ => None,
    }
}

/// The shadow passes found so far, each with the keys that it has.
pub struct ShadowSlots {
    pub colorize: Option<Option<RuntimePassCacheKeys>>,
    pub merge: Option<Option<RuntimePassCacheKeys>>,
}

/// What the passes fill the slots with; `Err` at the first pass whose slot is taken.
pub open spec fn shadow_slots(passes: Seq<PassModel>) -> Result<ShadowSlots, LoweringFailure>
    decreases passes.len(),
{
    if passes.len() == 0 {
        Ok(ShadowSlots { colorize: None, merge: None })
    } else {
        match shadow_slots(passes.drop_last()) {
            Err(failure) => Err(failure),
            Ok(before) => match shadow_stage(passes.last().kind) {
                None => Ok(before),
                Some(ShadowStage::Colorize) => if before.colorize is Some {
                    Err(LoweringFailure::ShadowColorizeRepeated)
                } else {
                    Ok(ShadowSlots { colorize: Some(passes.last().cache_keys), ..before })
                },
                Some(ShadowStage::Merge) => if before.merge is Some {
                    Err(LoweringFailure::ShadowMergeRepeated)
                } else {
                    Ok(ShadowSlots { merge: Some(passes.last().cache_keys), ..before })
                },
            },
        }
    }
}

/// The keys of the one drop shadow of the passes.
pub open spec fn shadow_requests(passes: Seq<PassModel>) -> Result<
    C11DropShadowCacheRequests,
    LoweringFailure,
> {
    match shadow_slots(passes) {
        Err(failure) => Err(failure),
        Ok(slots) => match (slots.colorize, slots.merge) {
            (Some(Some(colorize)), Some(Some(merge))) => Ok(
                C11DropShadowCacheRequests { colorize, merge },
            ),
            (Some(Some(_)), _) => Err(LoweringFailure::ShadowMergeKeysLost),
            _ => Err(LoweringFailure::ShadowColorizeKeysLost),
        },
    }
}

proof fn lemma_shadow_failure(passes: Seq<PassModel>, position: int, failure: LoweringFailure)
    requires
        0 <= position < passes.len(),
        shadow_slots(passes.take(position + 1)) == Err::<ShadowSlots, LoweringFailure>(failure),
    ensures
        shadow_slots(passes) == Err::<ShadowSlots, LoweringFailure>(failure),
    decreases passes.len() - position,
{
    if position + 1 == passes.len() {
        assert(passes.take(position + 1) =~= passes);
    } else {
        assert(passes.take(position + 2).drop_last() =~= passes.take(position + 1));
        lemma_shadow_failure(passes, position + 1, failure);
    }
}

/// Fills a slot that must be empty.
fn set_unique_drop_shadow_cache_keys(
    slot: &mut Option<Option<RuntimePassCacheKeys>>,
    keys: Option<RuntimePassCacheKeys>,
    repeated: LoweringFailure,
) -> (filled: Result<(), Error>)
    ensures
        *final(slot) == Some(keys),
        filled == (if *old(slot) is Some {
            Err::<(), Error>(Error::Lowering(repeated))
        } else {
            Ok(())
        }),
{
    let taken = slot.is_some();
    *slot = Some(keys);
    if taken {
        return Err(Error::Lowering(repeated));
    }
    Ok(())
}

/// The keys of the one drop shadow of an exact graph, or why it has none.
pub open spec fn exact_shadow_requests(
    passes: Seq<PassModel>,
    class: PrePreparationGraphClassification,
    facts_are_proven: bool,
) -> Result<C11DropShadowCacheRequests, Error> {
    if class == PrePreparationGraphClassification::ExactC11 && facts_are_proven {
        match shadow_requests(passes) {
            Ok(found) => Ok(found),
            Err(failure) => Err(Error::Lowering(failure)),
        }
    } else {
        Err(Error::Preparation(PreparationFailure::OutsideSpatialFilterGraph))
    }
}

/// The keys of the one drop shadow of an exact graph.
pub fn c11_drop_shadow_cache_requests(
    plan: &LoweredGraphPlan,
    class: PrePreparationGraphClassification,
    facts_are_proven: bool,
) -> (requests: Result<C11DropShadowCacheRequests, Error>)
    ensures
        requests == exact_shadow_requests(plan@.passes, class, facts_are_proven),
{
    match preparable_graph(
        class,
        PrePreparationGraphClassification::ExactC11,
        facts_are_proven,
        PreparationFailure::OutsideSpatialFilterGraph,
    ) {
        Ok(_) => {},
        Err(error) => return Err(error),
    }
    let ghost passes = plan@.passes;
    let length: usize = plan.passes.len();
    let mut colorize: Option<Option<RuntimePassCacheKeys>> = None;
    let mut merge: Option<Option<RuntimePassCacheKeys>> = None;
    let mut next: usize = 0;
    proof {
        assert(passes.take(0) =~= Seq::empty());
    }
    while next < length
        invariant
            next <= length,
            length == plan.passes@.len(),
            passes == plan@.passes,
            class == PrePreparationGraphClassification::ExactC11 && facts_are_proven,
            shadow_slots(passes.take(next as int)) == Ok::<ShadowSlots, LoweringFailure>(
                ShadowSlots { colorize, merge },
            ),
        decreases length - next,
    {
        let pass = &plan.passes[next];
        proof {
            let taken = passes.take(next + 1);
            assert(taken.drop_last() =~= passes.take(next as int));
            assert(taken.last() == pass@);
        }
        let filled = match pass.kind {
            RuntimePassKind::DropShadowColorize(Some(_)) => set_unique_drop_shadow_cache_keys(
                &mut colorize,
                pass.cache_keys,
                LoweringFailure::ShadowColorizeRepeated,
            ),
            RuntimePassKind::Composite(
                Some(RuntimeComposite { kind: RuntimeCompositeKind::DropShadow, .. }),
            ) => set_unique_drop_shadow_cache_keys(
                &mut merge,
                pass.cache_keys,
                LoweringFailure::ShadowMergeRepeated,
            ),
            _ => Ok(()),
        };
        match filled {
            Ok(_) => {},
            Err(error) => {
                proof {
                    lemma_shadow_failure(
                        passes,
                        next as int,
                        shadow_slots(passes.take(next + 1))->Err_0,
                    );
                }
                return Err(error);
            },
        }
        next = next + 1;
    }
    proof {
        assert(passes.take(length as int) =~= passes);
    }
    match (colorize, merge) {
        (Some(Some(colorize)), Some(Some(merge))) => Ok(
            C11DropShadowCacheRequests { colorize, merge },
        ),
        (Some(Some(_)), _) => Err(Error::Lowering(LoweringFailure::ShadowMergeKeysLost)),
        _ => Err(Error::Lowering(LoweringFailure::ShadowColorizeKeysLost)),
    }
}

/// The keys of a backdrop copy.
#[derive(Clone, Copy, Debug, PartialEq, Eq, Structural)]
pub struct C12CopyBackdropCacheRequest {
    pub keys: RuntimePassCacheKeys,
    pub source_and_result_are_distinct: bool,
}

/// The passes that copy a backdrop.
pub open spec fn backdrop_copies(passes: Seq<PassModel>) -> Seq<PassModel> {
    passes.filter(|pass: PassModel| pass.kind is CopyBackdrop)
}

/// The request of the one backdrop copy of the passes.
pub open spec fn copy_request(passes: Seq<PassModel>) -> Result<
    C12CopyBackdropCacheRequest,
    LoweringFailure,
> {
    let copies = backdrop_copies(passes);
    if copies.len() != 1 {
        Err(LoweringFailure::BackdropCopyNotUnique)
    } else if copies[0].reads.len() != 1 {
        Err(LoweringFailure::BackdropCopyReadNotUnique)
    } else {
        match copies[0].result {
            RuntimeResultBinding::Resource(result) => match copies[0].cache_keys {
                Some(keys) => Ok(
                    C12CopyBackdropCacheRequest {
                        keys,
                        source_and_result_are_distinct: copies[0].reads[0].resource != result,
                    },
                ),
                None => Err(LoweringFailure::BackdropCopyKeysMissing),
            },
            _ => Err(LoweringFailure::BackdropCopyResultMissing),
        }
    }
}

/// The request of the one backdrop copy of an exact bounded graph, or why it has none.
pub open spec fn exact_copy_request(
    passes: Seq<PassModel>,
    class: PrePreparationGraphClassification,
) -> Result<C12CopyBackdropCacheRequest, Error> {
    if class == PrePreparationGraphClassification::ExactC12 {
        match copy_request(passes) {
            Ok(found) => Ok(found),
            Err(failure) => Err(Error::Lowering(failure)),
        }
    } else {
        Err(Error::Lowering(LoweringFailure::OutsideBoundedGraph))
    }
}

/// The request of the one backdrop copy of an exact bounded graph.
pub fn c12_copy_backdrop_cache_request(
    plan: &LoweredGraphPlan,
    class: PrePreparationGraphClassification,
) -> (request: Result<C12CopyBackdropCacheRequest, Error>)
    ensures
        request == exact_copy_request(plan@.passes, class),
{
    if class != PrePreparationGraphClassification::ExactC12 {
        return Err(Error::Lowering(LoweringFailure::OutsideBoundedGraph));
    }
    let ghost passes = plan@.passes;
    let ghost keep = |pass: PassModel| pass.kind is CopyBackdrop;
    let length: usize = plan.passes.len();
    let mut found: usize = 0;
    let mut position: usize = 0;
    let mut next: usize = 0;
    proof {
        reveal(Seq::filter);
        assert(passes.take(0) =~= Seq::empty());
    }
    while next < length
        invariant
            next <= length,
            length == plan.passes@.len(),
            passes == plan@.passes,
            keep == (|pass: PassModel| pass.kind is CopyBackdrop),
            found <= next,
            passes.take(next as int).filter(keep).len() == found,
            found == 1 ==> position < length && passes.take(next as int).filter(keep)[0]
                == passes[position as int],
        decreases length - next,
    {
        proof {
            crate::pass::search::lemma_filter_step(passes, keep, next as int);
            assert(passes[next as int] == plan.passes@[next as int]@);
        }
        if matches!(plan.passes[next].kind, RuntimePassKind::CopyBackdrop) {
            found = found + 1;
            position = next;
        }
        next = next + 1;
    }
    proof {
        assert(passes.take(length as int) =~= passes);
    }
    if found != 1 {
        return Err(Error::Lowering(LoweringFailure::BackdropCopyNotUnique));
    }
    let copy = &plan.passes[position];
    assert(backdrop_copies(passes)[0] == copy@);
    if copy.reads.len() != 1 {
        return Err(Error::Lowering(LoweringFailure::BackdropCopyReadNotUnique));
    }
    let result = match copy.result {
        RuntimeResultBinding::Resource(result) => result,
        _ => return Err(Error::Lowering(LoweringFailure::BackdropCopyResultMissing)),
    };
    match copy.cache_keys {
        Some(keys) => Ok(
            C12CopyBackdropCacheRequest {
                keys,
                source_and_result_are_distinct: copy.reads[0].resource != result,
            },
        ),
        None => Err(Error::Lowering(LoweringFailure::BackdropCopyKeysMissing)),
    }
}

/// The keys of the selected passes are those of the passes kept for them.
proof fn lemma_selected_keys(passes: Seq<PassModel>, selection: PassSelection)
    ensures
        ({
            let kept = passes.filter(
                |pass: PassModel| pass.cache_keys is Some && selects(selection, pass),
            );
            let keys = selected_keys(passes, selection);
            &&& keys.len() == kept.len()
            &&& forall|i: int| 0 <= i < kept.len() ==> #[trigger] keys[i] == kept[i].cache_keys->0
        }),
    decreases passes.len(),
{
    reveal(Seq::filter);
    if passes.len() > 0 {
        lemma_selected_keys(passes.drop_last(), selection);
    }
}

/// The keys of an exact spine are those of every pass that has any, in order.
pub proof fn law_spines_request_every_pass(
    plan: &LoweredGraphPlan,
    derived: &Vec<PassDerivation>,
    keys: Vec<RuntimePassCacheKeys>,
)
    requires
        call_ensures(
            c08_pass_cache_requests,
            (plan, derived),
            Ok::<Vec<RuntimePassCacheKeys>, Error>(keys),
        ),
    ensures
        ({
            let kept = plan@.passes.filter(|pass: PassModel| pass.cache_keys is Some);
            &&& kept.len() > 0
            &&& keys@.len() == kept.len()
            &&& forall|i: int| 0 <= i < kept.len() ==> #[trigger] keys@[i] == kept[i].cache_keys->0
        }),
{
    lemma_selected_keys(plan@.passes, PassSelection::Every);
    assert((|pass: PassModel| pass.cache_keys is Some && selects(PassSelection::Every, pass)) =~= (|
        pass: PassModel,
    | pass.cache_keys is Some));
}

/// The one color filter request is that of the one pass that filters colors by some operation and has
/// keys.
pub proof fn law_color_filters_are_requested_once(
    plan: &LoweredGraphPlan,
    result: Result<Vec<RuntimePassCacheKeys>, Error>,
)
    requires
        call_ensures(c10_color_filter_cache_requests, (plan,), result),
    ensures
        ({
            let kept = plan@.passes.filter(
                |pass: PassModel|
                    pass.cache_keys is Some && pass.kind is ColorFilter
                        && pass.kind->ColorFilter_0 is Some && pass.operations.len() > 0,
            );
            &&& result is Ok <==> kept.len() == 1
            &&& result matches Ok(keys) ==> keys@ == seq![kept[0].cache_keys->0]
        }),
{
    let selection = PassSelection::ColorFilter;
    lemma_selected_keys(plan@.passes, selection);
    assert((|pass: PassModel| pass.cache_keys is Some && selects(selection, pass)) =~= (|
        pass: PassModel,
    |
        pass.cache_keys is Some && pass.kind is ColorFilter && pass.kind->ColorFilter_0 is Some
            && pass.operations.len() > 0));
}

/// The blur requests are those of the passes that blur across or down and have keys, in order; there
/// are four, and only of an exact graph whose facts are proven.
pub proof fn law_blurs_are_requested_in_order(
    plan: &LoweredGraphPlan,
    class: PrePreparationGraphClassification,
    proven: bool,
    result: Result<Vec<RuntimePassCacheKeys>, Error>,
)
    requires
        call_ensures(c11_blur_cache_requests, (plan, class, proven), result),
    ensures
        ({
            let kept = plan@.passes.filter(
                |pass: PassModel|
                    pass.cache_keys is Some && (pass.kind is BlurHorizontal
                        && pass.kind->BlurHorizontal_0 is Some || pass.kind is BlurVertical
                        && pass.kind->BlurVertical_0 is Some),
            );
            &&& result is Ok <==> class is ExactC11 && proven && kept.len() == 4
            &&& result matches Ok(keys) ==> keys@.len() == 4 && forall|i: int|
                0 <= i < 4 ==> #[trigger] keys@[i] == kept[i].cache_keys->0
        }),
{
    let selection = PassSelection::Blur;
    lemma_selected_keys(plan@.passes, selection);
    assert((|pass: PassModel| pass.cache_keys is Some && selects(selection, pass)) =~= (|
        pass: PassModel,
    |
        pass.cache_keys is Some && (pass.kind is BlurHorizontal
            && pass.kind->BlurHorizontal_0 is Some || pass.kind is BlurVertical
            && pass.kind->BlurVertical_0 is Some)));
}

/// A normal blend changes the blend of a layer and nothing else; a layer with it samples no
/// destination, and one without does.
pub proof fn law_normal_blends(
    kind: RuntimePassKind,
    normal: RuntimePassKind,
    layer: bool,
    destination: bool,
)
    requires
        call_ensures(normal_blend, (kind,), normal),
        call_ensures(is_layer_composite, (kind,), layer),
        call_ensures(is_destination_blend, (kind,), destination),
    ensures
        !layer ==> normal == kind && !destination,
        layer ==> kind is Composite && normal is Composite,
        layer ==> {
            let before = kind->Composite_0->0;
            let after = normal->Composite_0->0;
            &&& kind->Composite_0 is Some
            &&& normal->Composite_0 is Some
            &&& before.kind is Layer
            &&& after.kind is Layer
            &&& after.kind->Layer_0.blend is Normal
            &&& after.kind->Layer_0.opacity == before.kind->Layer_0.opacity
            &&& after.kind->Layer_0.has_clip == before.kind->Layer_0.has_clip
            &&& after.kind->Layer_0.clip_coverage == before.kind->Layer_0.clip_coverage
            &&& destination <==> !(before.kind->Layer_0.blend is Normal)
            &&& !destination ==> normal == kind
        },
        kind is Composite && kind->Composite_0 is Some && kind->Composite_0->0.kind is Layer
            ==> layer,
        call_ensures(is_destination_blend, (normal,), destination) ==> !destination,
{
}

/// The keys with further ones hold no others.
proof fn lemma_only_added<T>(items: Seq<T>, further: Seq<T>, other: T)
    requires
        all_added(items, further).contains(other),
    ensures
        items.contains(other) || further.contains(other),
    decreases further.len(),
{
    if further.len() > 0 {
        let before = all_added(items, further.drop_last());
        if before.contains(other) {
            lemma_only_added(items, further.drop_last(), other);
            if further.drop_last().contains(other) {
                let i = choose|i: int|
                    0 <= i < further.drop_last().len() && further.drop_last()[i] == other;
                assert(further[i] == other);
            }
        } else {
            let all = before.push(further.last());
            let i = choose|i: int| 0 <= i < all.len() && all[i] == other;
            if i < before.len() {
                assert(before[i] == other);
            }
            assert(further[further.len() - 1] == other);
        }
    }
}

/// The keys with normal paths hold the normal key of every layer that samples its destination, and no
/// others.
proof fn lemma_normal_paths_are_there(
    keys: Seq<RuntimePassCacheKeys>,
    passes: Seq<PassModel>,
    normals: Seq<NormalKeys>,
)
    requires
        with_normal_paths(keys, passes, normals) is Ok,
    ensures
        ({
            let extended = with_normal_paths(keys, passes, normals)->Ok_0;
            &&& forall|i: int|
                0 <= i < passes.len() && blends_with_destination((#[trigger] passes[i]).kind) ==> (
                normals[i] matches Ok(Some(normal)) && extended.contains(normal))
            &&& forall|key: RuntimePassCacheKeys| #[trigger]
                extended.contains(key) ==> keys.contains(key) || exists|i: int|
                    0 <= i < passes.len() && blends_with_destination((#[trigger] passes[i]).kind)
                        && normals[i] == Ok::<Option<RuntimePassCacheKeys>, Error>(Some(key))
        }),
    decreases passes.len(),
{
    if passes.len() > 0 {
        let shorter = passes.drop_last();
        lemma_normal_paths_are_there(keys, shorter, normals);
        let before = with_normal_paths(keys, shorter, normals)->Ok_0;
        let extended = with_normal_paths(keys, passes, normals)->Ok_0;
        let last = passes.len() - 1;
        if blends_with_destination(passes[last].kind) {
            lemma_added(before, normals[last]->Ok_0->0);
        }
        assert forall|i: int| 0 <= i < passes.len() && blends_with_destination(
            (#[trigger] passes[i]).kind,
        ) implies (normals[i] matches Ok(Some(normal)) && extended.contains(normal)) by {
            if i < last {
                assert(shorter[i] == passes[i]);
            }
        }
        assert forall|key: RuntimePassCacheKeys| #[trigger] extended.contains(key) implies keys.contains(
            key,
        ) || exists|i: int|
            0 <= i < passes.len() && blends_with_destination((#[trigger] passes[i]).kind)
                && normals[i] == Ok::<Option<RuntimePassCacheKeys>, Error>(Some(key)) by {
            if before.contains(key) {
                if !keys.contains(key) {
                    let i = choose|i: int|
                        0 <= i < shorter.len() && blends_with_destination(
                            (#[trigger] shorter[i]).kind,
                        ) && normals[i] == Ok::<Option<RuntimePassCacheKeys>, Error>(Some(key));
                    assert(passes[i] == shorter[i]);
                }
            } else {
                let i = choose|i: int| 0 <= i < extended.len() && extended[i] == key;
                if i < before.len() {
                    assert(before[i] == key);
                }
                assert(passes[last] == passes.last());
            }
        }
    }
}

/// What is kept was there.
proof fn lemma_kept_is_there(
    passes: Seq<PassModel>,
    keep: spec_fn(PassModel) -> bool,
    k: int,
)
    requires
        0 <= k < passes.filter(keep).len(),
    ensures
        passes.contains(passes.filter(keep)[k]),
    decreases passes.len(),
{
    reveal(Seq::filter);
    if passes.len() > 0 {
        let before = passes.drop_last().filter(keep);
        if k < before.len() {
            lemma_kept_is_there(passes.drop_last(), keep, k);
            let j = choose|j: int|
                0 <= j < passes.drop_last().len() && passes.drop_last()[j] == before[k];
            assert(passes[j] == before[k]);
        } else {
            assert(passes[passes.len() - 1] == passes.filter(keep)[k]);
        }
    }
}

/// The composite keys that are requested of one plan are those of its layer composites and the normal
/// keys of those that sample their destination: all of them, and no others, each once. Without a layer,
/// or without the normal keys of one that needs them, nothing is requested.
pub proof fn law_composite_requests_of_a_plan(
    plans: &Vec<LoweredGraphPlan>,
    normals: &Vec<Vec<NormalKeys>>,
    keys: Vec<RuntimePassCacheKeys>,
    i: int,
    key: RuntimePassCacheKeys,
)
    requires
        plans@.len() == 1,
        normals@.len() == 1,
        normals@[0]@.len() == plans@[0]@.passes.len(),
        call_ensures(
            c09_composite_cache_requests,
            (plans, normals),
            Ok::<Vec<RuntimePassCacheKeys>, Error>(keys),
        ),
        0 <= i < plans@[0]@.passes.len(),
    ensures
        keys@.no_duplicates(),
        ({
            let pass = plans@[0]@.passes[i];
            let is_layer = pass.kind is Composite && pass.kind->Composite_0 is Some
                && pass.kind->Composite_0->0.kind is Layer;
            let blend = pass.kind->Composite_0->0.kind->Layer_0.blend;
            &&& is_layer && pass.cache_keys is Some ==> keys@.contains(pass.cache_keys->0)
            &&& is_layer && !(blend is Normal) ==> (normals@[0]@[i] matches Ok(Some(normal))
                && keys@.contains(normal))
        }),
        keys@.contains(key) ==> exists|j: int|
            {
                let pass = #[trigger] plans@[0]@.passes[j];
                &&& 0 <= j < plans@[0]@.passes.len()
                &&& pass.kind is Composite && pass.kind->Composite_0 is Some
                    && pass.kind->Composite_0->0.kind is Layer
                &&& pass.cache_keys == Some(key) || normals@[0]@[j] == Ok::<
                    Option<RuntimePassCacheKeys>,
                    Error,
                >(Some(key))
            },
{
    let models = plan_models(plans@);
    let others = normal_models(normals@);
    let passes = plans@[0]@.passes;
    assert(models[0] == plans@[0]@);
    assert(others[0] == normals@[0]@);
    law_composite_requests_are_unique_and_complete(models, others, 1);
    let selection = PassSelection::LayerComposite;
    let layers = selected_keys(passes, selection);
    assert(composite_keys(models, others, 0) == Ok::<Seq<RuntimePassCacheKeys>, Error>(
        Seq::empty(),
    ));
    assert(composite_keys(models, others, 1) == with_normal_paths(
        all_added(Seq::empty(), layers),
        passes,
        normals@[0]@,
    ));
    lemma_normal_paths_are_there(all_added(Seq::empty(), layers), passes, normals@[0]@);
    lemma_selected_keys(passes, selection);
    let keep = |pass: PassModel| pass.cache_keys is Some && selects(selection, pass);
    let kept = passes.filter(keep);
    #[allow(deprecated)]
    passes.filter_lemma(keep);
    let pass = passes[i];
    if keep(pass) {
        assert(kept.contains(pass));
        let k = choose|k: int| 0 <= k < kept.len() && kept[k] == pass;
        assert(layers[k] == pass.cache_keys->0);
        assert(layers.contains(pass.cache_keys->0));
        assert(selected_keys(models[0].passes, selection).contains(pass.cache_keys->0));
    }
    if keys@.contains(key) && all_added(Seq::<RuntimePassCacheKeys>::empty(), layers).contains(key) {
        lemma_only_added(Seq::empty(), layers, key);
        assert(!Seq::<RuntimePassCacheKeys>::empty().contains(key));
        let k = choose|k: int| 0 <= k < layers.len() && layers[k] == key;
        assert(keep(kept[k]));
        lemma_kept_is_there(passes, keep, k);
        let j = choose|j: int| 0 <= j < passes.len() && passes[j] == kept[k];
        assert(plans@[0]@.passes[j].cache_keys == Some(key));
    }
}

/// A graph is preparable only if it is lowered for the working format, the output format and the
/// device, and classified as what is wanted with its facts proven; it is then the classified graph.
pub proof fn law_preparable_graphs_are_classified<
    P,
    L: FnOnce(WorkingFormat, Format, DeviceCapabilities) -> Result<LoweredGraphPlan, Error>,
    C: FnOnce(LoweredGraphPlan) -> ClassifiedGraph<P>,
>(
    output_format: Format,
    working_format: WorkingFormat,
    capabilities: DeviceCapabilities,
    lower: L,
    classify: C,
    color: P,
    spatial: P,
    backdrop: P,
)
    requires
        call_ensures(
            c10_preparable_graph::<P, L, C>,
            (output_format, working_format, capabilities, lower, classify),
            Ok::<P, Error>(color),
        ),
        call_ensures(
            c11_preparable_graph::<P, L, C>,
            (output_format, working_format, capabilities, lower, classify),
            Ok::<P, Error>(spatial),
        ),
        call_ensures(
            c12_preparable_graph::<P, L, C>,
            (output_format, working_format, capabilities, lower, classify),
            Ok::<P, Error>(backdrop),
        ),
    ensures
        exists|plan: LoweredGraphPlan, found: ClassifiedGraph<P>|
            {
                &&& #[trigger] call_ensures(
                    lower,
                    (working_format, output_format, capabilities),
                    Ok::<LoweredGraphPlan, Error>(plan),
                )
                &&& #[trigger] call_ensures(classify, (plan,), found)
                &&& found.class is ExactC10
                &&& found.facts_are_proven
                &&& found.graph == color
            },
        exists|plan: LoweredGraphPlan, found: ClassifiedGraph<P>|
            {
                &&& #[trigger] call_ensures(
                    lower,
                    (working_format, output_format, capabilities),
                    Ok::<LoweredGraphPlan, Error>(plan),
                )
                &&& #[trigger] call_ensures(classify, (plan,), found)
                &&& found.class is ExactC11
                &&& found.facts_are_proven
                &&& found.graph == spatial
            },
        exists|plan: LoweredGraphPlan, found: ClassifiedGraph<P>|
            {
                &&& #[trigger] call_ensures(
                    lower,
                    (working_format, output_format, capabilities),
                    Ok::<LoweredGraphPlan, Error>(plan),
                )
                &&& #[trigger] call_ensures(classify, (plan,), found)
                &&& found.class is ExactC12
                &&& found.facts_are_proven
                &&& found.graph == backdrop
            },
{
}

/// What fills the shadow slots: a pass of its stage, and no two of one stage.
proof fn lemma_slots_are_filled(passes: Seq<PassModel>, i: int)
    requires
        shadow_slots(passes) is Ok,
        0 <= i < passes.len(),
    ensures
        shadow_stage(passes[i].kind) == Some(ShadowStage::Colorize)
            ==> shadow_slots(passes)->Ok_0.colorize == Some(passes[i].cache_keys),
        shadow_stage(passes[i].kind) == Some(ShadowStage::Merge)
            ==> shadow_slots(passes)->Ok_0.merge == Some(passes[i].cache_keys),
    decreases passes.len(),
{
    if i < passes.len() - 1 {
        lemma_slots_are_filled(passes.drop_last(), i);
        assert(passes.drop_last()[i] == passes[i]);
    }
}

/// A slot is filled by a pass.
proof fn lemma_slots_come_from_passes(passes: Seq<PassModel>)
    requires
        shadow_slots(passes) is Ok,
    ensures
        shadow_slots(passes)->Ok_0.colorize is Some ==> exists|i: int|
            0 <= i < passes.len() && shadow_stage((#[trigger] passes[i]).kind) == Some(
                ShadowStage::Colorize,
            ),
        shadow_slots(passes)->Ok_0.merge is Some ==> exists|i: int|
            0 <= i < passes.len() && shadow_stage((#[trigger] passes[i]).kind) == Some(
                ShadowStage::Merge,
            ),
    decreases passes.len(),
{
    if passes.len() > 0 {
        let shorter = passes.drop_last();
        lemma_slots_come_from_passes(shorter);
        let before = shadow_slots(shorter)->Ok_0;
        let last = passes.len() - 1;
        assert(passes[last] == passes.last());
        assert forall|i: int| 0 <= i < shorter.len() implies #[trigger] shorter[i] == passes[i] by {
        }
        if before.colorize is Some {
            let i = choose|i: int|
                0 <= i < shorter.len() && shadow_stage((#[trigger] shorter[i]).kind) == Some(
                    ShadowStage::Colorize,
                );
            assert(shadow_stage(passes[i].kind) == Some(ShadowStage::Colorize));
        }
        if before.merge is Some {
            let i = choose|i: int|
                0 <= i < shorter.len() && shadow_stage((#[trigger] shorter[i]).kind) == Some(
                    ShadowStage::Merge,
                );
            assert(shadow_stage(passes[i].kind) == Some(ShadowStage::Merge));
        }
    }
}

/// The keys of a drop shadow are those of the pass that colors it and of the composite that merges it;
/// there is such a pass of each, and only an exact graph whose facts are proven has them requested.
pub proof fn law_shadows_are_requested_by_stage(
    plan: &LoweredGraphPlan,
    class: PrePreparationGraphClassification,
    proven: bool,
    requests: C11DropShadowCacheRequests,
    i: int,
)
    requires
        call_ensures(
            c11_drop_shadow_cache_requests,
            (plan, class, proven),
            Ok::<C11DropShadowCacheRequests, Error>(requests),
        ),
        0 <= i < plan@.passes.len(),
    ensures
        class is ExactC11,
        proven,
        (plan@.passes[i].kind matches RuntimePassKind::DropShadowColorize(Some(_)))
            ==> plan@.passes[i].cache_keys == Some(requests.colorize),
        (plan@.passes[i].kind matches RuntimePassKind::Composite(Some(composite))
            && composite.kind is DropShadow) ==> plan@.passes[i].cache_keys == Some(requests.merge),
        exists|j: int|
            0 <= j < plan@.passes.len() && ((
            #[trigger] plan@.passes[j]).kind matches RuntimePassKind::DropShadowColorize(Some(_)))
                && plan@.passes[j].cache_keys == Some(requests.colorize),
        exists|j: int|
            0 <= j < plan@.passes.len() && ((
            #[trigger] plan@.passes[j]).kind matches RuntimePassKind::Composite(Some(composite))
                && composite.kind is DropShadow) && plan@.passes[j].cache_keys == Some(
                requests.merge,
            ),
{
    let passes = plan@.passes;
    lemma_slots_are_filled(passes, i);
    lemma_slots_come_from_passes(passes);
    let colorize = choose|j: int|
        0 <= j < passes.len() && shadow_stage((#[trigger] passes[j]).kind) == Some(
            ShadowStage::Colorize,
        );
    lemma_slots_are_filled(passes, colorize);
    assert(passes[colorize].kind matches RuntimePassKind::DropShadowColorize(Some(_)));
    let merge = choose|j: int|
        0 <= j < passes.len() && shadow_stage((#[trigger] passes[j]).kind) == Some(
            ShadowStage::Merge,
        );
    lemma_slots_are_filled(passes, merge);
    assert(passes[merge].kind matches RuntimePassKind::Composite(Some(composite))
        && composite.kind is DropShadow);
}

/// The request of a backdrop copy is that of the one pass that copies a backdrop: it has its keys, and
/// says whether what it reads is another image than what it writes.
pub proof fn law_backdrop_copies_are_requested(
    plan: &LoweredGraphPlan,
    class: PrePreparationGraphClassification,
    result: Result<C12CopyBackdropCacheRequest, Error>,
    i: int,
)
    requires
        call_ensures(c12_copy_backdrop_cache_request, (plan, class), result),
        0 <= i < plan@.passes.len(),
        plan@.passes[i].kind is CopyBackdrop,
    ensures
        result matches Ok(request) ==> {
            let pass = plan@.passes[i];
            &&& class is ExactC12
            &&& pass.cache_keys == Some(request.keys)
            &&& pass.reads.len() == 1
            &&& pass.result matches RuntimeResultBinding::Resource(written)
                && request.source_and_result_are_distinct == (pass.reads[0].resource != written)
        },
        !(class is ExactC12) ==> result is Err,
{
    let passes = plan@.passes;
    let keep = |pass: PassModel| pass.kind is CopyBackdrop;
    #[allow(deprecated)]
    passes.filter_lemma(keep);
    assert(keep(passes[i]));
    assert(backdrop_copies(passes).contains(passes[i]));
}

} // verus!
