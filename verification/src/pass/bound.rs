//! What the keys that are requested bind, where a shader says so.

use vstd::prelude::*;

use crate::error::Error;
use crate::pass::mirrored::C12BackdropBlurCacheRequest;
use crate::pass::model::RuntimePassCacheKeys;
use crate::pass::requests::C12CopyBackdropCacheRequest;
use crate::runtime::WorkingFormat;

verus! {

/// A request of the pass cache.
pub trait CacheRequest: Copy {
    spec fn spec_keys(self) -> RuntimePassCacheKeys;

    fn keys(self) -> (keys: RuntimePassCacheKeys)
        ensures
            keys == self.spec_keys(),
    ;
}

impl CacheRequest for RuntimePassCacheKeys {
    open spec fn spec_keys(self) -> RuntimePassCacheKeys {
        self
    }

    fn keys(self) -> (keys: RuntimePassCacheKeys) {
        self
    }
}

impl CacheRequest for C12BackdropBlurCacheRequest {
    open spec fn spec_keys(self) -> RuntimePassCacheKeys {
        self.keys
    }

    fn keys(self) -> (keys: RuntimePassCacheKeys) {
        self.keys
    }
}

impl CacheRequest for C12CopyBackdropCacheRequest {
    open spec fn spec_keys(self) -> RuntimePassCacheKeys {
        self.keys
    }

    fn keys(self) -> (keys: RuntimePassCacheKeys) {
        self.keys
    }
}

/// Whether the facts of any keys can be looked up.
pub open spec fn looks_up_any<T, F: Fn(RuntimePassCacheKeys) -> Option<T>>(facts_of: F) -> bool {
    forall|keys: RuntimePassCacheKeys| #[trigger] call_requires(facts_of, (keys,))
}

/// Whether it is true to a lookup that requests bind these facts: each has its own, or one has
/// none.
pub open spec fn may_know<Q: CacheRequest, T, F: Fn(RuntimePassCacheKeys) -> Option<T>>(
    facts_of: F,
    requests: Seq<Q>,
    known: Option<Seq<T>>,
) -> bool {
    match known {
        Some(facts) => {
            &&& facts.len() == requests.len()
            &&& forall|i: int|
                0 <= i < requests.len() ==> call_ensures(
                    facts_of,
                    ((#[trigger] requests[i]).spec_keys(),),
                    Some(facts[i]),
                )
        },
        None => exists|i: int|
            0 <= i < requests.len() && call_ensures(
                facts_of,
                ((#[trigger] requests[i]).spec_keys(),),
                None::<T>,
            ),
    }
}

/// The facts of every request, or none where one has none.
pub open spec fn known_facts<T>(facts: Option<Vec<T>>) -> Option<Seq<T>> {
    match facts {
        Some(facts) => Some(facts@),
        None => None,
    }
}

pub fn every_fact_of<Q: CacheRequest, T, F: Fn(RuntimePassCacheKeys) -> Option<T>>(
    requests: &Vec<Q>,
    facts_of: &F,
) -> (facts: Option<Vec<T>>)
    requires
        looks_up_any(*facts_of),
    ensures
        may_know(*facts_of, requests@, known_facts(facts)),
{
    let length: usize = requests.len();
    let mut facts: Vec<T> = Vec::with_capacity(length);
    let mut next: usize = 0;
    while next < length
        invariant
            next <= length,
            length == requests@.len(),
            looks_up_any(*facts_of),
            facts@.len() == next,
            forall|i: int|
                0 <= i < next ==> call_ensures(
                    *facts_of,
                    ((#[trigger] requests@[i]).spec_keys(),),
                    Some(facts@[i]),
                ),
        decreases length - next,
    {
        let request = requests[next];
        let found = facts_of(request.keys());
        match found {
            Some(known) => facts.push(known),
            None => {
                assert(call_ensures(
                    *facts_of,
                    (requests@[next as int].spec_keys(),),
                    None::<T>,
                ));
                return None;
            },
        }
        next = next + 1;
    }
    Some(facts)
}

/// Whether it is true to a lookup that these are the facts of the requests that have any, in order.
pub open spec fn may_find<Q: CacheRequest, T, F: Fn(RuntimePassCacheKeys) -> Option<T>>(
    facts_of: F,
    requests: Seq<Q>,
    found: Seq<T>,
) -> bool
    decreases requests.len(),
{
    if requests.len() == 0 {
        found.len() == 0
    } else {
        let keys = requests.last().spec_keys();
        ||| {
            &&& call_ensures(facts_of, (keys,), None::<T>)
            &&& may_find(facts_of, requests.drop_last(), found)
        }
        ||| {
            &&& found.len() > 0
            &&& call_ensures(facts_of, (keys,), Some(found.last()))
            &&& may_find(facts_of, requests.drop_last(), found.drop_last())
        }
    }
}

pub fn facts_found<Q: CacheRequest, T, F: Fn(RuntimePassCacheKeys) -> Option<T>>(
    requests: &Vec<Q>,
    facts_of: &F,
) -> (found: Vec<T>)
    requires
        looks_up_any(*facts_of),
    ensures
        may_find(*facts_of, requests@, found@),
{
    let length: usize = requests.len();
    let mut found: Vec<T> = Vec::new();
    let mut next: usize = 0;
    while next < length
        invariant
            next <= length,
            length == requests@.len(),
            looks_up_any(*facts_of),
            may_find(*facts_of, requests@.take(next as int), found@),
        decreases length - next,
    {
        let request = requests[next];
        let looked_up = facts_of(request.keys());
        let ghost before = found@;
        proof {
            let taken = requests@.take(next + 1);
            assert(taken.drop_last() =~= requests@.take(next as int));
            assert(taken.last() == request);
        }
        match looked_up {
            Some(facts) => {
                found.push(facts);
                assert(found@.drop_last() =~= before);
            },
            None => {},
        }
        next = next + 1;
    }
    proof {
        assert(requests@.take(length as int) =~= requests@);
    }
    found
}

/// Requests, and what the keys of each bind.
pub struct Bound<Q, T> {
    pub requests: Seq<Q>,
    pub facts: Seq<T>,
}

/// What is bound, if the requests succeed and each binds something.
pub type Bindings<Q, T> = Result<Option<(Vec<Q>, Vec<T>)>, Error>;

pub open spec fn bound_by<Q, T>(bindings: Bindings<Q, T>) -> Result<Option<Bound<Q, T>>, Error> {
    match bindings {
        Err(error) => Err(error),
        Ok(None) => Ok(None),
        Ok(Some((requests, facts))) => Ok(Some(Bound { requests: requests@, facts: facts@ })),
    }
}

/// Whether the programs of any working format can be requested.
pub open spec fn requests_any<Q, R: Fn(WorkingFormat) -> Result<Vec<Q>, Error>>(request: R) -> bool {
    forall|working_format: WorkingFormat| #[trigger] call_requires(request, (working_format,))
}

/// Whether this is what the requests of one working format may bind.
pub open spec fn may_bind<
    Q: CacheRequest,
    T,
    R: Fn(WorkingFormat) -> Result<Vec<Q>, Error>,
    F: Fn(RuntimePassCacheKeys) -> Option<T>,
>(request: R, facts_of: F, format: WorkingFormat, bound: Result<Option<Bound<Q, T>>, Error>) -> bool {
    exists|answer: Result<Vec<Q>, Error>|
        {
            &&& #[trigger] call_ensures(request, (format,), answer)
            &&& match answer {
                Err(error) => bound == Err::<Option<Bound<Q, T>>, Error>(error),
                Ok(requests) => exists|known: Option<Seq<T>>|
                    {
                        &&& #[trigger] may_know(facts_of, requests@, known)
                        &&& bound == Ok::<Option<Bound<Q, T>>, Error>(
                            match known {
                                Some(facts) => Some(Bound { requests: requests@, facts }),
                                None => None,
                            },
                        )
                    },
            }
        }
}

/// Whether this is what the requests of both working formats may bind: those of high precision
/// come first, and what they lack is lacking in all.
pub open spec fn may_bind_both<
    Q: CacheRequest,
    T,
    R: Fn(WorkingFormat) -> Result<Vec<Q>, Error>,
    F: Fn(RuntimePassCacheKeys) -> Option<T>,
>(request: R, facts_of: F, bound: Result<Option<Bound<Q, T>>, Error>) -> bool {
    exists|high: Result<Option<Bound<Q, T>>, Error>|
        {
            &&& #[trigger] may_bind(request, facts_of, WorkingFormat::HighPrecision, high)
            &&& match high {
                Ok(Some(first)) => exists|reduced: Result<Option<Bound<Q, T>>, Error>|
                    {
                        &&& #[trigger] may_bind(
                            request,
                            facts_of,
                            WorkingFormat::ReducedPrecision,
                            reduced,
                        )
                        &&& bound == match reduced {
                            Ok(Some(second)) => Ok(
                                Some(
                                    Bound {
                                        requests: first.requests + second.requests,
                                        facts: first.facts + second.facts,
                                    },
                                ),
                            ),
                            other => other,
                        }
                    },
                other => bound == other,
            }
        }
}

fn bind<
    Q: CacheRequest,
    T,
    R: Fn(WorkingFormat) -> Result<Vec<Q>, Error>,
    F: Fn(RuntimePassCacheKeys) -> Option<T>,
>(request: &R, facts_of: &F, format: WorkingFormat) -> (bindings: Bindings<Q, T>)
    requires
        requests_any(*request),
        looks_up_any(*facts_of),
    ensures
        may_bind(*request, *facts_of, format, bound_by(bindings)),
{
    let answer = request(format);
    assert(call_ensures(*request, (format,), answer));
    match answer {
        Err(error) => Err(error),
        Ok(requests) => {
            let facts = every_fact_of(&requests, facts_of);
            assert(may_know(*facts_of, requests@, known_facts(facts)));
            match facts {
                Some(facts) => {
                    let bindings: Bindings<Q, T> = Ok(Some((requests, facts)));
                    assert(may_bind(*request, *facts_of, format, bound_by(bindings)));
                    bindings
                },
                None => Ok(None),
            }
        },
    }
}

/// What the requests of both working formats bind.
pub fn bind_both<
    Q: CacheRequest,
    T: Copy,
    R: Fn(WorkingFormat) -> Result<Vec<Q>, Error>,
    F: Fn(RuntimePassCacheKeys) -> Option<T>,
>(request: &R, facts_of: &F) -> (bindings: Bindings<Q, T>)
    requires
        requests_any(*request),
        looks_up_any(*facts_of),
    ensures
        may_bind_both(*request, *facts_of, bound_by(bindings)),
{
    let high = bind(request, facts_of, WorkingFormat::HighPrecision);
    assert(may_bind(*request, *facts_of, WorkingFormat::HighPrecision, bound_by(high)));
    let (mut requests, mut facts) = match high {
        Ok(Some((requests, facts))) => (requests, facts),
        other => return other,
    };
    let reduced = bind(request, facts_of, WorkingFormat::ReducedPrecision);
    assert(may_bind(*request, *facts_of, WorkingFormat::ReducedPrecision, bound_by(reduced)));
    match reduced {
        Ok(Some((further_requests, further_facts))) => {
            append_values(&mut requests, &further_requests);
            append_values(&mut facts, &further_facts);
            Ok(Some((requests, facts)))
        },
        other => other,
    }
}

/// Every request that binds something binds one thing.
pub proof fn lemma_bound_lengths<
    Q: CacheRequest,
    T,
    R: Fn(WorkingFormat) -> Result<Vec<Q>, Error>,
    F: Fn(RuntimePassCacheKeys) -> Option<T>,
>(request: R, facts_of: F, bound: Result<Option<Bound<Q, T>>, Error>)
    requires
        may_bind_both(request, facts_of, bound),
    ensures
        bound matches Ok(Some(found)) ==> found.requests.len() == found.facts.len(),
{
}

fn append_values<T: Copy>(values: &mut Vec<T>, further: &Vec<T>)
    ensures
        final(values)@ == old(values)@ + further@,
{
    let count: usize = further.len();
    let mut next: usize = 0;
    while next < count
        invariant
            next <= count,
            count == further@.len(),
            values@ == old(values)@ + further@.take(next as int),
        decreases count - next,
    {
        values.push(further[next]);
        proof {
            assert(further@.take(next + 1) =~= further@.take(next as int).push(
                further@[next as int],
            ));
            assert(values@ =~= old(values)@ + further@.take(next + 1));
        }
        next = next + 1;
    }
    proof {
        assert(further@.take(count as int) =~= further@);
    }
}

/// What is looked up for a request is looked up by its own keys.
pub proof fn law_requests_are_looked_up_by_their_keys(
    keys: RuntimePassCacheKeys,
    blur: C12BackdropBlurCacheRequest,
    copy: C12CopyBackdropCacheRequest,
)
    ensures
        keys.spec_keys() == keys,
        blur.spec_keys() == blur.keys,
        copy.spec_keys() == copy.keys,
{
}

/// The facts of requests, where there are any of all, are those of each in its place; and where a
/// lookup never fails there are.
pub proof fn law_facts_stand_in_their_place<T, F: Fn(RuntimePassCacheKeys) -> Option<T>>(
    requests: &Vec<RuntimePassCacheKeys>,
    facts_of: &F,
    facts: Option<Vec<T>>,
    i: int,
)
    requires
        call_ensures(every_fact_of::<RuntimePassCacheKeys, T, F>, (requests, facts_of), facts),
    ensures
        facts matches Some(facts) ==> facts@.len() == requests@.len(),
        facts is Some && 0 <= i < requests@.len() ==> call_ensures(
            *facts_of,
            (requests@[i],),
            Some(facts->0@[i]),
        ),
        (forall|keys: RuntimePassCacheKeys| !#[trigger] call_ensures(*facts_of, (keys,), None::<T>))
            ==> facts is Some,
{
    if facts is Some && 0 <= i < requests@.len() {
        assert(requests@[i].spec_keys() == requests@[i]);
    }
}

/// Facts that are found are those of requests: where every lookup finds some, one of each in its place.
pub proof fn law_found_facts_keep_the_order<T, F: Fn(RuntimePassCacheKeys) -> Option<T>>(
    requests: Seq<RuntimePassCacheKeys>,
    facts_of: F,
    found: Seq<T>,
)
    requires
        may_find(facts_of, requests, found),
        forall|keys: RuntimePassCacheKeys| !#[trigger] call_ensures(facts_of, (keys,), None::<T>),
    ensures
        found.len() == requests.len(),
        forall|i: int|
            0 <= i < requests.len() ==> #[trigger] call_ensures(
                facts_of,
                (requests[i],),
                Some(found[i]),
            ),
    decreases requests.len(),
{
    if requests.len() > 0 {
        law_found_facts_keep_the_order(requests.drop_last(), facts_of, found.drop_last());
        assert forall|i: int| 0 <= i < requests.len() implies #[trigger] call_ensures(
            facts_of,
            (requests[i],),
            Some(found[i]),
        ) by {
            if i < requests.len() - 1 {
                assert(requests.drop_last()[i] == requests[i]);
                assert(found.drop_last()[i] == found[i]);
                assert(call_ensures(
                    facts_of,
                    (requests.drop_last()[i],),
                    Some(found.drop_last()[i]),
                ));
            }
        }
    }
}

/// What both working formats bind is what is requested in high precision followed by what is requested
/// in reduced precision, each with its own facts.
pub proof fn law_high_precision_is_bound_first<
    T: Copy,
    R: Fn(WorkingFormat) -> Result<Vec<RuntimePassCacheKeys>, Error>,
    F: Fn(RuntimePassCacheKeys) -> Option<T>,
>(request: &R, facts_of: &F, requests: Vec<RuntimePassCacheKeys>, facts: Vec<T>)
    requires
        call_ensures(
            bind_both::<RuntimePassCacheKeys, T, R, F>,
            (request, facts_of),
            Ok::<Option<(Vec<RuntimePassCacheKeys>, Vec<T>)>, Error>(Some((requests, facts))),
        ),
    ensures
        facts@.len() == requests@.len(),
        forall|i: int|
            0 <= i < requests@.len() ==> #[trigger] call_ensures(
                *facts_of,
                (requests@[i],),
                Some(facts@[i]),
            ),
        exists|high: Vec<RuntimePassCacheKeys>, reduced: Vec<RuntimePassCacheKeys>|
            {
                &&& #[trigger] call_ensures(
                    *request,
                    (WorkingFormat::HighPrecision,),
                    Ok::<Vec<RuntimePassCacheKeys>, Error>(high),
                )
                &&& #[trigger] call_ensures(
                    *request,
                    (WorkingFormat::ReducedPrecision,),
                    Ok::<Vec<RuntimePassCacheKeys>, Error>(reduced),
                )
                &&& requests@ == high@ + reduced@
            },
{
    let bindings: Bindings<RuntimePassCacheKeys, T> = Ok(Some((requests, facts)));
    let bound = bound_by(bindings);
    assert(may_bind_both(*request, *facts_of, bound));
    let high = choose|high: Result<Option<Bound<RuntimePassCacheKeys, T>>, Error>|
        {
            &&& #[trigger] may_bind(*request, *facts_of, WorkingFormat::HighPrecision, high)
            &&& match high {
                Ok(Some(first)) => exists|
                    reduced: Result<Option<Bound<RuntimePassCacheKeys, T>>, Error>,
                |
                    {
                        &&& #[trigger] may_bind(
                            *request,
                            *facts_of,
                            WorkingFormat::ReducedPrecision,
                            reduced,
                        )
                        &&& bound == match reduced {
                            Ok(Some(second)) => Ok(
                                Some(
                                    Bound {
                                        requests: first.requests + second.requests,
                                        facts: first.facts + second.facts,
                                    },
                                ),
                            ),
                            other => other,
                        }
                    },
                other => bound == other,
            }
        };
    assert(high is Ok && high->Ok_0 is Some);
    let first = high->Ok_0->0;
    let reduced = choose|reduced: Result<Option<Bound<RuntimePassCacheKeys, T>>, Error>|
        {
            &&& #[trigger] may_bind(*request, *facts_of, WorkingFormat::ReducedPrecision, reduced)
            &&& bound == match reduced {
                Ok(Some(second)) => Ok(
                    Some(
                        Bound {
                            requests: first.requests + second.requests,
                            facts: first.facts + second.facts,
                        },
                    ),
                ),
                other => other,
            }
        };
    let second = reduced->Ok_0->0;
    assert(requests@ == first.requests + second.requests);
    assert(facts@ == first.facts + second.facts);
    assert(first.requests.len() == first.facts.len());
    assert(second.requests.len() == second.facts.len());
    assert forall|i: int| 0 <= i < requests@.len() implies #[trigger] call_ensures(
        *facts_of,
        (requests@[i],),
        Some(facts@[i]),
    ) by {
        if i < first.requests.len() {
            assert(first.requests[i].spec_keys() == requests@[i]);
        } else {
            let j = i - first.requests.len();
            assert(second.requests[j].spec_keys() == requests@[i]);
            assert(facts@[i] == second.facts[j]);
        }
    }
}

/// Of requests whose keys bind something known, what is found is what each binds, in order; of one
/// request, what its own keys bind.
pub proof fn law_known_requests_are_all_found<T, F: Fn(RuntimePassCacheKeys) -> Option<T>>(
    requests: &Vec<RuntimePassCacheKeys>,
    facts_of: &F,
    found: Vec<T>,
    i: int,
)
    requires
        call_ensures(facts_found::<RuntimePassCacheKeys, T, F>, (requests, facts_of), found),
    ensures
        (forall|keys: RuntimePassCacheKeys| !#[trigger] call_ensures(*facts_of, (keys,), None::<T>))
            ==> found@.len() == requests@.len() && (0 <= i < requests@.len() ==> call_ensures(
            *facts_of,
            (requests@[i],),
            Some(found@[i]),
        )),
        requests@.len() == 1 && found@.len() == 0 ==> call_ensures(
            *facts_of,
            (requests@[0],),
            None::<T>,
        ),
        requests@.len() == 1 && found@.len() > 0 ==> found@.len() == 1 && call_ensures(
            *facts_of,
            (requests@[0],),
            Some(found@[0]),
        ),
        requests@.len() == 0 ==> found@.len() == 0,
{
    if forall|keys: RuntimePassCacheKeys| !#[trigger] call_ensures(*facts_of, (keys,), None::<T>) {
        law_found_facts_keep_the_order(requests@, *facts_of, found@);
        if 0 <= i < requests@.len() {
            assert(call_ensures(*facts_of, (requests@[i],), Some(found@[i])));
        }
    }
    if requests@.len() == 1 {
        assert(requests@.last() == requests@[0]);
        assert(requests@.last().spec_keys() == requests@[0]);
        assert(requests@.drop_last().len() == 0);
        reveal_with_fuel(may_find, 2);
    }
}

} // verus!
