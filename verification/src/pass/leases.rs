//! The leases of a prepared graph, from the first pass to the last.

use vstd::prelude::*;

use crate::error::{Error, PreparationFailure};
use crate::pass::model::{RuntimePassId, RuntimeResourceId};
use crate::pass::search::{count_where, law_counting_is_filtering, lemma_count_step};

verus! {

/// What a pass leases.
#[derive(Clone, Copy, Debug, PartialEq, Eq, Structural)]
pub enum LeaseId {
    Resource(RuntimeResourceId),
    Kernel(u64),
}

/// A pass by what it binds and what it releases when it completes.
#[derive(Debug)]
pub struct LeasedPass {
    pub id: RuntimePassId,
    pub bound: Vec<LeaseId>,
    pub releases: Vec<LeaseId>,
}

/// A prepared graph while it is encoded.
#[derive(Debug)]
pub struct PreparedGraph {
    pub passes: Vec<LeasedPass>,
    pub leases: Vec<LeaseId>,
    pub live: Vec<bool>,
    pub next_pass: usize,
}

pub open spec fn pass_ids_differ(passes: Seq<LeasedPass>) -> bool {
    forall|i: int, j: int|
        0 <= i < j < passes.len() ==> (#[trigger] passes[i]).id != (#[trigger] passes[j]).id
}

pub open spec fn leases_differ(leases: Seq<LeaseId>) -> bool {
    forall|i: int, j: int|
        0 <= i < j < leases.len() ==> #[trigger] leases[i] != #[trigger] leases[j]
}

/// Whether one of the first `count` passes releases a lease.
pub open spec fn released_before(passes: Seq<LeasedPass>, count: int, lease: LeaseId) -> bool {
    exists|i: int| 0 <= i < count && (#[trigger] passes[i]).releases@.contains(lease)
}

impl PreparedGraph {
    /// No pass and no lease is repeated, and a lease is live until a completed pass released it.
    pub open spec fn wf(self) -> bool {
        &&& pass_ids_differ(self.passes@)
        &&& leases_differ(self.leases@)
        &&& self.live@.len() == self.leases@.len()
        &&& self.next_pass <= self.passes@.len()
        &&& forall|i: int|
            0 <= i < self.leases@.len() ==> #[trigger] self.live@[i] == !released_before(
                self.passes@,
                self.next_pass as int,
                self.leases@[i],
            )
    }

    /// The pass that is to be encoded next.
    pub open spec fn spec_current(self) -> Option<RuntimePassId> {
        if self.next_pass < self.passes@.len() {
            Some(self.passes@[self.next_pass as int].id)
        } else {
            None
        }
    }

    /// Whether a lease is live.
    pub open spec fn holds(self, lease: LeaseId) -> bool {
        self.leases@.contains(lease) && !released_before(
            self.passes@,
            self.next_pass as int,
            lease,
        )
    }

    /// A graph with every lease live, before its first pass.
    pub fn try_new(passes: Vec<LeasedPass>, leases: Vec<LeaseId>) -> (graph: Result<Self, Error>)
        ensures
            match graph {
                Ok(graph) => {
                    &&& graph.wf()
                    &&& graph.passes == passes
                    &&& graph.leases == leases
                    &&& graph.next_pass == 0
                },
                Err(error) => if pass_ids_differ(passes@) {
                    &&& !leases_differ(leases@)
                    &&& error == Error::Preparation(PreparationFailure::RepeatedLease)
                } else {
                    error == Error::Preparation(PreparationFailure::RepeatedPass)
                },
            },
    {
        if !passes_differ(&passes) {
            return Err(Error::Preparation(PreparationFailure::RepeatedPass));
        }
        if !all_leases_differ(&leases) {
            return Err(Error::Preparation(PreparationFailure::RepeatedLease));
        }
        let length: usize = leases.len();
        let mut live: Vec<bool> = Vec::with_capacity(length);
        let mut next: usize = 0;
        while next < length
            invariant
                next <= length,
                length == leases@.len(),
                live@.len() == next,
                forall|i: int| 0 <= i < next ==> #[trigger] live@[i],
            decreases length - next,
        {
            live.push(true);
            next = next + 1;
        }
        Ok(PreparedGraph { passes, leases, live, next_pass: 0 })
    }

    pub fn current_pass(&self) -> (current: Option<RuntimePassId>)
        requires
            self.wf(),
        ensures
            current == self.spec_current(),
    {
        if self.next_pass < self.passes.len() {
            Some(self.passes[self.next_pass].id)
        } else {
            None
        }
    }

    /// Completes the current pass and releases what it releases; a pass that is not current
    /// changes nothing.
    pub fn complete_pass(&mut self, pass: RuntimePassId) -> (completed: Result<(), Error>)
        requires
            old(self).wf(),
        ensures
            final(self).wf(),
            final(self).passes == old(self).passes,
            final(self).leases == old(self).leases,
            completed == (if old(self).spec_current() == Some(pass) {
                Ok::<(), Error>(())
            } else {
                Err(Error::Preparation(PreparationFailure::PassOutOfOrder))
            }),
            completed is Ok ==> final(self).next_pass == old(self).next_pass + 1,
            completed is Err ==> *final(self) == *old(self),
    {
        if self.next_pass >= self.passes.len() || self.passes[self.next_pass].id != pass {
            return Err(Error::Preparation(PreparationFailure::PassOutOfOrder));
        }
        let current: usize = self.next_pass;
        let length: usize = self.leases.len();
        let mut live: Vec<bool> = Vec::with_capacity(length);
        let mut next: usize = 0;
        while next < length
            invariant
                next <= length,
                length == self.leases@.len(),
                *self == *old(self),
                self.wf(),
                current == self.next_pass,
                current < self.passes@.len(),
                live@.len() == next,
                forall|i: int|
                    0 <= i < next ==> #[trigger] live@[i] == !released_before(
                        self.passes@,
                        current + 1,
                        self.leases@[i],
                    ),
            decreases length - next,
        {
            let lease = self.leases[next];
            let released = lists_lease(&self.passes[current].releases, lease);
            let ghost passes = self.passes@;
            proof {
                assert(self.live@[next as int] == !released_before(
                    passes,
                    current as int,
                    lease,
                ));
                assert(released_before(passes, current + 1, lease) == (released_before(
                    passes,
                    current as int,
                    lease,
                ) || released)) by {
                    if released {
                        assert(passes[current as int].releases@.contains(lease));
                    }
                    if released_before(passes, current as int, lease) {
                        let i = choose|i: int|
                            0 <= i < current && (#[trigger] passes[i]).releases@.contains(lease);
                        assert(passes[i].releases@.contains(lease));
                    }
                    if released_before(passes, current + 1, lease) {
                        let i = choose|i: int|
                            0 <= i < current + 1 && (#[trigger] passes[i]).releases@.contains(
                                lease,
                            );
                        assert(i == current || i < current);
                    }
                }
            }
            live.push(self.live[next] && !released);
            next = next + 1;
        }
        self.live = live;
        self.next_pass = current + 1;
        Ok(())
    }

    /// Where the lease of an image is, for the current pass if it binds the image.
    pub fn texture_binding_for_pass(&self, pass: RuntimePassId, lease: LeaseId) -> (position: Result<
        usize,
        Error,
    >)
        requires
            self.wf(),
        ensures
            match position {
                Ok(position) => {
                    &&& self.spec_current() == Some(pass)
                    &&& self.passes@[self.next_pass as int].bound@.contains(lease)
                    &&& self.holds(lease)
                    &&& position < self.leases@.len()
                    &&& self.leases@[position as int] == lease
                },
                Err(error) => if self.spec_current() != Some(pass) {
                    error == Error::Preparation(PreparationFailure::PassOutOfOrder)
                } else if !self.passes@[self.next_pass as int].bound@.contains(lease) {
                    error == Error::Preparation(PreparationFailure::ResourceNotBound)
                } else {
                    &&& !self.holds(lease)
                    &&& error == Error::Preparation(PreparationFailure::ResourceReleased)
                },
            },
    {
        if self.next_pass >= self.passes.len() || self.passes[self.next_pass].id != pass {
            return Err(Error::Preparation(PreparationFailure::PassOutOfOrder));
        }
        if !lists_lease(&self.passes[self.next_pass].bound, lease) {
            return Err(Error::Preparation(PreparationFailure::ResourceNotBound));
        }
        let length: usize = self.leases.len();
        let mut next: usize = 0;
        while next < length
            invariant
                next <= length,
                length == self.leases@.len(),
                self.wf(),
                self.spec_current() == Some(pass),
                self.passes@[self.next_pass as int].bound@.contains(lease),
                forall|i: int| 0 <= i < next ==> #[trigger] self.leases@[i] != lease,
            decreases length - next,
        {
            if self.leases[next] == lease {
                assert(self.leases@[next as int] == lease);
                assert(self.live@[next as int] == !released_before(
                    self.passes@,
                    self.next_pass as int,
                    lease,
                ));
                if self.live[next] {
                    return Ok(next);
                }
                return Err(Error::Preparation(PreparationFailure::ResourceReleased));
            }
            next = next + 1;
        }
        Err(Error::Preparation(PreparationFailure::ResourceReleased))
    }

    /// How many leases are live.
    pub fn outstanding_lease_count(&self) -> (count: usize)
        requires
            self.wf(),
        ensures
            count == count_where(self.live@, |live: bool| live),
            count == 0 <==> forall|i: int| 0 <= i < self.leases@.len() ==> !self.holds(
                #[trigger] self.leases@[i],
            ),
    {
        let ghost chosen = |live: bool| live;
        let length: usize = self.live.len();
        let mut count: usize = 0;
        let mut next: usize = 0;
        while next < length
            invariant
                next <= length,
                length == self.live@.len(),
                chosen == (|live: bool| live),
                count <= next,
                count == count_where(self.live@.take(next as int), chosen),
                count == 0 <==> forall|i: int| 0 <= i < next ==> !#[trigger] self.live@[i],
            decreases length - next,
        {
            proof {
                lemma_count_step(self.live@, chosen, next as int);
            }
            if self.live[next] {
                count = count + 1;
            }
            next = next + 1;
        }
        proof {
            assert(self.live@.take(length as int) =~= self.live@);
            assert forall|i: int| 0 <= i < self.leases@.len() implies self.live@[i] == self.holds(
                #[trigger] self.leases@[i],
            ) by {
                assert(self.leases@.contains(self.leases@[i]));
            }
            if forall|i: int| 0 <= i < self.leases@.len() ==> !self.holds(
                #[trigger] self.leases@[i],
            ) {
                assert forall|i: int| 0 <= i < self.live@.len() implies !#[trigger] self.live@[i] by {
                    assert(!self.holds(self.leases@[i]));
                }
            }
            if count == 0 {
                assert forall|i: int| 0 <= i < self.leases@.len() implies !self.holds(
                    #[trigger] self.leases@[i],
                ) by {
                    assert(!self.live@[i]);
                }
            }
        }
        count
    }
}

fn passes_differ(passes: &Vec<LeasedPass>) -> (differ: bool)
    ensures
        differ == pass_ids_differ(passes@),
{
    let length: usize = passes.len();
    let mut right: usize = 0;
    while right < length
        invariant
            right <= length,
            length == passes@.len(),
            forall|i: int, j: int|
                0 <= i < j < right ==> (#[trigger] passes@[i]).id != (#[trigger] passes@[j]).id,
        decreases length - right,
    {
        let mut left: usize = 0;
        while left < right
            invariant
                left <= right < length,
                length == passes@.len(),
                forall|i: int|
                    0 <= i < left ==> (#[trigger] passes@[i]).id != passes@[right as int].id,
            decreases right - left,
        {
            if passes[left].id == passes[right].id {
                assert(passes@[left as int].id == passes@[right as int].id);
                return false;
            }
            left = left + 1;
        }
        right = right + 1;
    }
    true
}

fn all_leases_differ(leases: &Vec<LeaseId>) -> (differ: bool)
    ensures
        differ == leases_differ(leases@),
{
    let length: usize = leases.len();
    let mut right: usize = 0;
    while right < length
        invariant
            right <= length,
            length == leases@.len(),
            forall|i: int, j: int|
                0 <= i < j < right ==> #[trigger] leases@[i] != #[trigger] leases@[j],
        decreases length - right,
    {
        let mut left: usize = 0;
        while left < right
            invariant
                left <= right < length,
                length == leases@.len(),
                forall|i: int| 0 <= i < left ==> #[trigger] leases@[i] != leases@[right as int],
            decreases right - left,
        {
            if leases[left] == leases[right] {
                assert(leases@[left as int] == leases@[right as int]);
                return false;
            }
            left = left + 1;
        }
        right = right + 1;
    }
    true
}

fn lists_lease(leases: &Vec<LeaseId>, lease: LeaseId) -> (listed: bool)
    ensures
        listed == leases@.contains(lease),
{
    let length: usize = leases.len();
    let mut next: usize = 0;
    while next < length
        invariant
            next <= length,
            length == leases@.len(),
            forall|i: int| 0 <= i < next ==> #[trigger] leases@[i] != lease,
        decreases length - next,
    {
        if leases[next] == lease {
            assert(leases@[next as int] == lease);
            return true;
        }
        next = next + 1;
    }
    false
}

/// Whether every bound lease is live when its pass is current.
pub open spec fn bindings_are_live(passes: Seq<LeasedPass>, leases: Seq<LeaseId>) -> bool {
    forall|i: int, j: int|
        0 <= i < passes.len() && 0 <= j < passes[i].bound@.len() ==> {
            &&& leases.contains(#[trigger] passes[i].bound@[j])
            &&& !released_before(passes, i, passes[i].bound@[j])
        }
}

/// Once every pass is complete, a lease is live exactly if no pass releases it: where each lease is
/// released by some pass, none is left over.
pub proof fn law_completed_graphs_hold_no_released_lease(graph: PreparedGraph, lease: LeaseId)
    requires
        graph.wf(),
        graph.next_pass == graph.passes@.len(),
    ensures
        graph.holds(lease) == (graph.leases@.contains(lease) && forall|i: int|
            0 <= i < graph.passes@.len() ==> !(#[trigger] graph.passes@[i]).releases@.contains(
                lease,
            )),
{
}

/// A lease that was released stays released.
pub proof fn law_released_leases_stay_released(
    earlier: PreparedGraph,
    later: PreparedGraph,
    lease: LeaseId,
)
    requires
        earlier.wf(),
        later.wf(),
        earlier.passes@ == later.passes@,
        earlier.leases@ == later.leases@,
        earlier.next_pass <= later.next_pass,
        !earlier.holds(lease),
    ensures
        !later.holds(lease),
{
    if earlier.leases@.contains(lease) {
        let i = choose|i: int|
            0 <= i < earlier.next_pass && (#[trigger] earlier.passes@[i]).releases@.contains(lease);
        assert(later.passes@[i].releases@.contains(lease));
    }
}

/// Runs every pass in order, with each of its bindings looked up while it is current. `Ok(true)`
/// exactly where nothing is left over at the end.
pub fn complete_every_pass(graph: &mut PreparedGraph) -> (finished: Result<bool, Error>)
    requires
        old(graph).wf(),
        old(graph).next_pass == 0,
    ensures
        final(graph).wf(),
        final(graph).passes == old(graph).passes,
        final(graph).leases == old(graph).leases,
        match finished {
            Ok(empty) => {
                &&& bindings_are_live(old(graph).passes@, old(graph).leases@)
                &&& final(graph).next_pass == old(graph).passes@.len()
                &&& empty == (forall|i: int|
                    0 <= i < old(graph).leases@.len() ==> released_before(
                        old(graph).passes@,
                        old(graph).passes@.len() as int,
                        #[trigger] old(graph).leases@[i],
                    ))
            },
            Err(error) => {
                &&& !bindings_are_live(old(graph).passes@, old(graph).leases@)
                &&& error == Error::Preparation(PreparationFailure::ResourceReleased)
            },
        },
{
    let ghost passes = graph.passes@;
    let ghost leases = graph.leases@;
    let count: usize = graph.passes.len();
    while graph.next_pass < count
        invariant
            graph.wf(),
            graph.passes == old(graph).passes,
            graph.leases == old(graph).leases,
            passes == graph.passes@,
            leases == graph.leases@,
            count == passes.len(),
            graph.next_pass <= count,
            forall|i: int, j: int|
                0 <= i < graph.next_pass && 0 <= j < passes[i].bound@.len() ==> {
                    &&& leases.contains(#[trigger] passes[i].bound@[j])
                    &&& !released_before(passes, i, passes[i].bound@[j])
                },
        decreases count - graph.next_pass,
    {
        let current: usize = graph.next_pass;
        let id = graph.passes[current].id;
        let bound: usize = graph.passes[current].bound.len();
        let mut next: usize = 0;
        while next < bound
            invariant
                next <= bound,
                graph.wf(),
                graph.passes == old(graph).passes,
                graph.leases == old(graph).leases,
                passes == graph.passes@,
                leases == graph.leases@,
                current == graph.next_pass,
                current < passes.len(),
                id == passes[current as int].id,
                bound == passes[current as int].bound@.len(),
                forall|j: int|
                    0 <= j < next ==> {
                        &&& leases.contains(#[trigger] passes[current as int].bound@[j])
                        &&& !released_before(
                            passes,
                            current as int,
                            passes[current as int].bound@[j],
                        )
                    },
            decreases bound - next,
        {
            let lease = graph.passes[current].bound[next];
            proof {
                assert(passes[current as int].bound@[next as int] == lease);
                assert(passes[current as int].bound@.contains(lease));
            }
            match graph.texture_binding_for_pass(id, lease) {
                Ok(position) => {
                    assert(leases[position as int] == lease);
                    assert(leases.contains(lease));
                },
                Err(error) => {
                    assert(!(leases.contains(passes[current as int].bound@[next as int])
                        && !released_before(
                        passes,
                        current as int,
                        passes[current as int].bound@[next as int],
                    )));
                    return Err(error);
                },
            }
            next = next + 1;
        }
        let completed = graph.complete_pass(id);
        assert(completed is Ok);
    }
    let left: usize = graph.outstanding_lease_count();
    proof {
        assert forall|i: int| 0 <= i < leases.len() implies graph.holds(#[trigger] leases[i])
            == !released_before(passes, count as int, leases[i]) by {
            assert(leases.contains(leases[i]));
        }
        if left == 0 {
            assert forall|i: int| 0 <= i < leases.len() implies released_before(
                passes,
                count as int,
                #[trigger] leases[i],
            ) by {
                assert(!graph.holds(graph.leases@[i]));
            }
        } else {
            let i = choose|i: int| 0 <= i < leases.len() && graph.holds(#[trigger] leases[i]);
            assert(!released_before(passes, count as int, leases[i]));
        }
    }
    Ok(left == 0)
}

/// A graph is prepared exactly if no two of its passes and no two of its leases are the same; then every
/// lease is live and the first pass is current.
pub proof fn law_prepared_graphs_start_with_every_lease(
    passes: Vec<LeasedPass>,
    leases: Vec<LeaseId>,
    result: Result<PreparedGraph, Error>,
    i: int,
    j: int,
)
    requires
        call_ensures(PreparedGraph::try_new, (passes, leases), result),
    ensures
        0 <= i < j < passes@.len() && passes@[i].id == passes@[j].id ==> result is Err,
        0 <= i < j < leases@.len() && leases@[i] == leases@[j] ==> result is Err,
        result matches Ok(graph) ==> {
            &&& graph.next_pass == 0
            &&& graph.passes@ == passes@
            &&& graph.leases@ == leases@
            &&& graph.live@.len() == leases@.len()
            &&& 0 <= i < leases@.len() ==> graph.live@[i]
        },
        passes@.len() <= 1 && leases@.len() <= 1 ==> result is Ok,
{
}

/// Completing a pass is possible exactly while it is current: it makes the next pass current and
/// releases what it releases, and no other lease.
pub proof fn law_completing_a_pass_releases_its_leases(pass: RuntimePassId, i: int)
    ensures
        forall|graph: &mut PreparedGraph, completed: Result<(), Error>|
            (*graph).wf() && #[trigger] call_ensures(
                PreparedGraph::complete_pass,
                (graph, pass),
                completed,
            ) ==> {
                let before = *graph;
                let after = *final(graph);
                let is_current = before.next_pass < before.passes@.len()
                    && before.passes@[before.next_pass as int].id == pass;
                &&& completed is Ok <==> is_current
                &&& !is_current ==> after == before
                &&& is_current ==> {
                    &&& after.next_pass == before.next_pass + 1
                    &&& after.leases@ == before.leases@
                    &&& after.passes@ == before.passes@
                    &&& 0 <= i < before.leases@.len() ==> after.live@[i] == (before.live@[i]
                        && !before.passes@[before.next_pass as int].releases@.contains(
                        before.leases@[i],
                    ))
                }
            },
{
    assert forall|graph: &mut PreparedGraph, completed: Result<(), Error>|
        (*graph).wf() && #[trigger] call_ensures(
            PreparedGraph::complete_pass,
            (graph, pass),
            completed,
        ) && completed is Ok && 0 <= i < (*graph).leases@.len() implies (*final(graph)).live@[i] == (
    (*graph).live@[i] && !(*graph).passes@[(*graph).next_pass as int].releases@.contains(
        (*graph).leases@[i],
    )) by {
        let before = *graph;
        let after = *final(graph);
        let current = before.next_pass as int;
        let lease = before.leases@[i];
        let passes = before.passes@;
        assert(before.live@[i] == !released_before(passes, current, lease));
        assert(after.live@[i] == !released_before(passes, current + 1, lease));
        if passes[current].releases@.contains(lease) {
            assert(released_before(passes, current + 1, lease));
        }
        if released_before(passes, current, lease) {
            let k = choose|k: int|
                0 <= k < current && (#[trigger] passes[k]).releases@.contains(lease);
            assert(passes[k].releases@.contains(lease));
            assert(released_before(passes, current + 1, lease));
        }
        if released_before(passes, current + 1, lease) {
            let k = choose|k: int|
                0 <= k < current + 1 && (#[trigger] passes[k]).releases@.contains(lease);
            assert(k == current || k < current);
        }
    }
}

/// A binding is found exactly for the current pass, if it binds the lease and the lease is live: where
/// the lease stands.
pub proof fn law_bindings_are_found_while_live(
    graph: &PreparedGraph,
    pass: RuntimePassId,
    lease: LeaseId,
    result: Result<usize, Error>,
    i: int,
)
    requires
        graph.wf(),
        call_ensures(PreparedGraph::texture_binding_for_pass, (graph, pass, lease), result),
        0 <= i < graph.leases@.len(),
        graph.leases@[i] == lease,
    ensures
        result is Ok <==> {
            &&& graph.next_pass < graph.passes@.len()
            &&& graph.passes@[graph.next_pass as int].id == pass
            &&& graph.passes@[graph.next_pass as int].bound@.contains(lease)
            &&& graph.live@[i]
        },
        result matches Ok(position) ==> position == i,
{
    assert(graph.leases@.contains(lease));
    assert(graph.live@[i] == !released_before(graph.passes@, graph.next_pass as int, lease));
}

/// The current pass is the one to be encoded next, and there is none once all are complete; the leases
/// that are outstanding are those that are live.
pub proof fn law_current_passes_and_outstanding_leases(
    graph: &PreparedGraph,
    current: Option<RuntimePassId>,
    count: usize,
)
    requires
        graph.wf(),
        call_ensures(PreparedGraph::current_pass, (graph,), current),
        call_ensures(PreparedGraph::outstanding_lease_count, (graph,), count),
    ensures
        current is Some <==> graph.next_pass < graph.passes@.len(),
        current matches Some(pass) ==> pass == graph.passes@[graph.next_pass as int].id,
        count == graph.live@.filter(|live: bool| live).len(),
{
    law_counting_is_filtering(graph.live@, |live: bool| live);
}

/// Whether a binding of a pass can be looked up when it runs: it is leased, and no earlier pass released
/// it.
pub open spec fn is_bound_in_time(passes: Seq<LeasedPass>, leases: Seq<LeaseId>, i: int, j: int) -> bool {
    &&& leases.contains(passes[i].bound@[j])
    &&& forall|k: int|
        0 <= k < i ==> !(#[trigger] passes[k]).releases@.contains(passes[i].bound@[j])
}

/// Whether some pass releases a lease.
pub open spec fn is_released(passes: Seq<LeasedPass>, lease: LeaseId) -> bool {
    exists|k: int| 0 <= k < passes.len() && (#[trigger] passes[k]).releases@.contains(lease)
}

/// Running every pass succeeds exactly where each binding is leased and no earlier pass released it, and
/// then nothing is left over exactly if some pass releases each lease.
pub proof fn law_graphs_run_to_their_end()
    ensures
        forall|graph: &mut PreparedGraph, finished: Result<bool, Error>| #[trigger]
            call_ensures(complete_every_pass, (graph,), finished) ==> {
                &&& (*final(graph)).passes == (*graph).passes
                &&& (*final(graph)).leases == (*graph).leases
                &&& finished is Ok ==> (*final(graph)).next_pass == (*graph).passes@.len()
                    && forall|i: int, j: int|
                    0 <= i < (*graph).passes@.len() && 0 <= j < (*graph).passes@[i].bound@.len()
                        ==> #[trigger] is_bound_in_time(
                        (*graph).passes@,
                        (*graph).leases@,
                        i,
                        j,
                    )
                &&& finished matches Err(error) ==> error == Error::Preparation(
                    PreparationFailure::ResourceReleased,
                ) && exists|i: int, j: int|
                    {
                        &&& 0 <= i < (*graph).passes@.len()
                        &&& 0 <= j < (*graph).passes@[i].bound@.len()
                        &&& !#[trigger] is_bound_in_time((*graph).passes@, (*graph).leases@, i, j)
                    }
                &&& finished is Ok ==> (finished->Ok_0 <==> forall|i: int|
                    0 <= i < (*graph).leases@.len() ==> is_released(
                        (*graph).passes@,
                        #[trigger] (*graph).leases@[i],
                    ))
            },
{
    assert forall|graph: &mut PreparedGraph, finished: Result<bool, Error>| #[trigger]
        call_ensures(complete_every_pass, (graph,), finished) && finished is Ok implies forall|
        i: int,
        j: int,
    |
        0 <= i < (*graph).passes@.len() && 0 <= j < (*graph).passes@[i].bound@.len()
            ==> #[trigger] is_bound_in_time((*graph).passes@, (*graph).leases@, i, j) by {
        let passes = (*graph).passes@;
        let leases = (*graph).leases@;
        assert forall|i: int, j: int|
            0 <= i < passes.len() && 0 <= j < passes[i].bound@.len() implies #[trigger] is_bound_in_time(
            passes,
            leases,
            i,
            j,
        ) by {
            assert(leases.contains(passes[i].bound@[j]));
        }
    }
    assert forall|graph: &mut PreparedGraph, finished: Result<bool, Error>| #[trigger]
        call_ensures(complete_every_pass, (graph,), finished) && finished is Err implies exists|
        i: int,
        j: int,
    |
        {
            &&& 0 <= i < (*graph).passes@.len()
            &&& 0 <= j < (*graph).passes@[i].bound@.len()
            &&& !#[trigger] is_bound_in_time((*graph).passes@, (*graph).leases@, i, j)
        } by {
        let passes = (*graph).passes@;
        let leases = (*graph).leases@;
        let (i, j) = choose|i: int, j: int|
            0 <= i < passes.len() && 0 <= j < passes[i].bound@.len() && !(leases.contains(
                #[trigger] passes[i].bound@[j],
            ) && !released_before(passes, i, passes[i].bound@[j]));
        assert(!is_bound_in_time(passes, leases, i, j));
    }
    assert forall|passes: Seq<LeasedPass>, lease: LeaseId| #[trigger]
        released_before(passes, passes.len() as int, lease) == is_released(passes, lease) by {}
}

} // verus!
