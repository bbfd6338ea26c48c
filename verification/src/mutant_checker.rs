//! Matches requested names against the named mutexes of the system.

use crate::data::{IocEntryId, IocId};
use crate::ioc_evaluator::SearchOutcome;
use crate::query_result::{
    collect, found, lemma_collect_ends, lemma_collect_of_nothing, lemma_collect_step,
    lemma_collected_is_given, lemma_select_ends, lemma_select_from_nothing, lemma_select_step,
    lemma_selected_is_made, outcomes_of, push_outcome, select, Outcome,
};
use crate::text::{
    chars_of, contains, contains_seq, decimal, push_chars, push_decimal, push_str, starts_with,
    string_of,
};
use vstd::prelude::*;

verus! {

/// A request to look for a mutex by a part of its name.
#[derive(Debug)]
pub struct MutexParameters {
    pub ioc_entry_id: IocEntryId,
    pub ioc_id: IocId,
    pub data: String,
}

/// The name that the system gives to the type of a mutex.
pub open spec fn mutex_type() -> Seq<char> {
    "Mutant"@
}

/// Whether an object is a mutex, by the name of its type: the name begins
/// with that of the mutex type.
pub fn is_mutex_type(kind: &str) -> (is_mutex: bool)
    ensures
        is_mutex == mutex_type().is_prefix_of(kind@),
{
    let name = chars_of(kind);
    let mutant = chars_of("Mutant");
    starts_with(name.as_slice(), mutant.as_slice())
}

/// The description of a mutex that was found.
pub open spec fn mutex_message(name: Seq<char>, ioc_id: IocId) -> Seq<char> {
    "Mutex search: Found mutex "@ + name + " for IOC "@ + decimal(ioc_id as nat)
}

/// A mutex meets a request where it has a name and the name contains what
/// the request asks for.
pub open spec fn mutex_matches(request: MutexParameters, name: Seq<char>) -> bool {
    name.len() > 0 && contains_seq(name, request.data@)
}

/// The requests that the mutex `name` meets.
pub open spec fn mutex_keep(name: Seq<char>) -> spec_fn(MutexParameters) -> bool {
    |request: MutexParameters| mutex_matches(request, name)
}

/// The evidence that the mutex `name` is for a request.
pub open spec fn mutex_evidence(name: Seq<char>) -> spec_fn(MutexParameters) -> Outcome {
    |request: MutexParameters|
        Outcome::Found {
            ioc_id: request.ioc_id,
            ioc_entry_id: request.ioc_entry_id,
            description: mutex_message(name, request.ioc_id),
        }
}

/// What one mutex gives: evidence for each request that it meets, in the
/// order of the requests.
pub open spec fn mutex_hits(requests: Seq<MutexParameters>) -> spec_fn(String) -> Seq<Outcome> {
    |name: String| select(requests, mutex_keep(name@), mutex_evidence(name@))
}

/// What the mutexes give, mutex by mutex.
pub open spec fn mutex_outcomes(requests: Seq<MutexParameters>, names: Seq<String>) -> Seq<
    Outcome,
> {
    collect(names, mutex_hits(requests))
}

/// Matches the names of the mutexes that were found on the system against
/// the requests.
pub fn check_mutexes(search_parameters: Vec<MutexParameters>, mutex_names: &[String]) -> (outcomes:
    Vec<SearchOutcome>)
    ensures
        outcomes_of(outcomes@) == mutex_outcomes(search_parameters@, mutex_names@),
{
    let mut outcomes: Vec<SearchOutcome> = Vec::new();
    let ghost requests = search_parameters@;
    proof {
        lemma_collect_ends(mutex_names@, mutex_hits(requests));
        assert(outcomes_of(outcomes@) =~= Seq::<Outcome>::empty());
    }
    let mut at: usize = 0;
    while at < mutex_names.len()
        invariant
            at <= mutex_names.len(),
            requests == search_parameters@,
            outcomes_of(outcomes@) == mutex_outcomes(requests, mutex_names@.take(at as int)),
        decreases mutex_names.len() - at,
    {
        let name = chars_of(mutex_names[at].as_str());
        let ghost before = outcomes_of(outcomes@);
        let ghost keep = mutex_keep(name@);
        let ghost make = mutex_evidence(name@);
        proof {
            lemma_select_ends(requests, keep, make);
            lemma_collect_step(mutex_names@, at as int, mutex_hits(requests));
        }
        let mut k: usize = 0;
        while k < search_parameters.len()
            invariant
                k <= search_parameters.len(),
                requests == search_parameters@,
                name@ == mutex_names@[at as int]@,
                at < mutex_names.len(),
                keep == mutex_keep(name@),
                make == mutex_evidence(name@),
                outcomes_of(outcomes@) == before + select(requests.take(k as int), keep, make),
            decreases search_parameters.len() - k,
        {
            let request = &search_parameters[k];
            proof {
                lemma_select_step(requests, k as int, keep, make);
            }
            let data = chars_of(request.data.as_str());
            if name.len() > 0 && contains(name.as_slice(), data.as_slice()) {
                let mut message: Vec<char> = Vec::new();
                push_str(&mut message, "Mutex search: Found mutex ");
                push_chars(&mut message, name.as_slice());
                push_str(&mut message, " for IOC ");
                push_decimal(&mut message, request.ioc_id);
                push_outcome(
                    &mut outcomes,
                    found(request.ioc_id, request.ioc_entry_id, string_of(message.as_slice())),
                );
            }
            k += 1;
            assert(outcomes_of(outcomes@) =~= before + select(requests.take(k as int), keep, make));
        }
        at += 1;
    }
    proof {
        lemma_collect_ends(mutex_names@, mutex_hits(requests));
    }
    outcomes
}

/// Without requests the search gives nothing, whatever mutexes there are.
pub proof fn lemma_no_mutex_requests(names: Seq<String>)
    ensures
        mutex_outcomes(Seq::empty(), names) == Seq::<Outcome>::empty(),
{
    let requests = Seq::<MutexParameters>::empty();
    assert forall|j: int| 0 <= j < names.len() implies mutex_hits(requests)(#[trigger] names[j])
        == Seq::<Outcome>::empty() by {
        lemma_select_from_nothing(mutex_keep(names[j]@), mutex_evidence(names[j]@));
    }
    lemma_collect_of_nothing(names, mutex_hits(requests));
}

/// Every outcome of the search is evidence for one of the requests, tagged
/// with that request's indicator and node, and one of the mutexes meets
/// that request.
pub proof fn lemma_mutex_evidence_is_for_a_request(
    requests: Seq<MutexParameters>,
    names: Seq<String>,
    i: int,
) -> (at: (int, int))
    requires
        0 <= i < mutex_outcomes(requests, names).len(),
    ensures
        0 <= at.0 < names.len(),
        0 <= at.1 < requests.len(),
        mutex_matches(requests[at.1], names[at.0]@),
        mutex_outcomes(requests, names)[i] == (Outcome::Found {
            ioc_id: requests[at.1].ioc_id,
            ioc_entry_id: requests[at.1].ioc_entry_id,
            description: mutex_message(names[at.0]@, requests[at.1].ioc_id),
        }),
{
    let given = lemma_collected_is_given(names, mutex_hits(requests), i);
    let name = names[given.0]@;
    let j = lemma_selected_is_made(requests, mutex_keep(name), mutex_evidence(name), given.1);
    (given.0, j)
}

} // verus!
