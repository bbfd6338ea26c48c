//! Matches requested names against the subjects of the trusted root
//! certificates.

use crate::data::{IocEntryId, IocId};
use crate::ioc_evaluator::SearchOutcome;
use crate::query_result::{
    collect, found, lemma_collect_ends, lemma_collect_of_nothing, lemma_collect_step,
    lemma_collected_is_given, lemma_select_ends, lemma_select_from_nothing, lemma_select_step,
    lemma_selected_is_made, outcomes_of, push_outcome, select, Outcome,
};
use crate::text::{
    contains, contains_seq, decimal, lowercase, lowercase_chars, push_chars, push_decimal,
    push_str, string_of,
};
use vstd::prelude::*;

verus! {

/// A request to look for a name in the subjects of the root certificates.
#[derive(Debug)]
pub struct CertificateParameters {
    pub ioc_id: IocId,
    pub ioc_entry_id: IocEntryId,
    pub name: String,
}

/// The description of a certificate that was found: it names what was
/// asked for, in lower case.
pub open spec fn cert_message(name: Seq<char>, ioc_id: IocId) -> Seq<char> {
    "Certificate search: Found certificate "@ + lowercase(name) + " for IOC "@ + decimal(
        ioc_id as nat,
    )
}

/// A certificate meets a request where its subject contains the requested
/// name, the case of ASCII letters set aside.
pub open spec fn cert_matches(request: CertificateParameters, subject: Seq<char>) -> bool {
    contains_seq(lowercase(subject), lowercase(request.name@))
}

/// The requests that a certificate with this subject meets.
pub open spec fn cert_keep(subject: Seq<char>) -> spec_fn(CertificateParameters) -> bool {
    |request: CertificateParameters| cert_matches(request, subject)
}

/// The evidence for a request that a certificate meets.
pub open spec fn cert_evidence() -> spec_fn(CertificateParameters) -> Outcome {
    |request: CertificateParameters|
        Outcome::Found {
            ioc_id: request.ioc_id,
            ioc_entry_id: request.ioc_entry_id,
            description: cert_message(request.name@, request.ioc_id),
        }
}

/// What one certificate gives: evidence for each request that it meets, in
/// the order of the requests.
pub open spec fn cert_hits(requests: Seq<CertificateParameters>) -> spec_fn(String) -> Seq<
    Outcome,
> {
    |subject: String| select(requests, cert_keep(subject@), cert_evidence())
}

/// What the certificates give, certificate by certificate.
pub open spec fn cert_outcomes(requests: Seq<CertificateParameters>, subjects: Seq<String>) -> Seq<
    Outcome,
> {
    collect(subjects, cert_hits(requests))
}

/// Matches the subjects of the root certificates that the system trusts
/// against the requests.
pub fn check_certs(search_parameters: Vec<CertificateParameters>, subjects: &[String]) -> (outcomes:
    Vec<SearchOutcome>)
    ensures
        outcomes_of(outcomes@) == cert_outcomes(search_parameters@, subjects@),
{
    let mut outcomes: Vec<SearchOutcome> = Vec::new();
    let ghost requests = search_parameters@;
    let mut names: Vec<Vec<char>> = Vec::new();
    let mut k: usize = 0;
    while k < search_parameters.len()
        invariant
            k <= search_parameters.len(),
            names.len() == k,
            forall|i: int| 0 <= i < k ==> (#[trigger] names@[i])@ == lowercase(search_parameters@[i].name@),
        decreases search_parameters.len() - k,
    {
        names.push(lowercase_chars(search_parameters[k].name.as_str()));
        k += 1;
    }
    proof {
        lemma_collect_ends(subjects@, cert_hits(requests));
        assert(outcomes_of(outcomes@) =~= Seq::<Outcome>::empty());
    }
    let mut at: usize = 0;
    while at < subjects.len()
        invariant
            at <= subjects.len(),
            requests == search_parameters@,
            names.len() == search_parameters.len(),
            forall|i: int|
                0 <= i < names.len() ==> (#[trigger] names@[i])@ == lowercase(
                    search_parameters@[i].name@,
                ),
            outcomes_of(outcomes@) == cert_outcomes(requests, subjects@.take(at as int)),
        decreases subjects.len() - at,
    {
        let subject = lowercase_chars(subjects[at].as_str());
        let ghost before = outcomes_of(outcomes@);
        let ghost keep = cert_keep(subjects@[at as int]@);
        let ghost make = cert_evidence();
        proof {
            lemma_select_ends(requests, keep, make);
            lemma_collect_step(subjects@, at as int, cert_hits(requests));
        }
        let mut k: usize = 0;
        while k < search_parameters.len()
            invariant
                k <= search_parameters.len(),
                requests == search_parameters@,
                names.len() == search_parameters.len(),
                forall|i: int|
                    0 <= i < names.len() ==> (#[trigger] names@[i])@ == lowercase(
                        search_parameters@[i].name@,
                    ),
                at < subjects.len(),
                subject@ == lowercase(subjects@[at as int]@),
                keep == cert_keep(subjects@[at as int]@),
                make == cert_evidence(),
                outcomes_of(outcomes@) == before + select(requests.take(k as int), keep, make),
            decreases search_parameters.len() - k,
        {
            let request = &search_parameters[k];
            proof {
                lemma_select_step(requests, k as int, keep, make);
            }
            if contains(subject.as_slice(), names[k].as_slice()) {
                let mut message: Vec<char> = Vec::new();
                push_str(&mut message, "Certificate search: Found certificate ");
                push_chars(&mut message, names[k].as_slice());
                push_str(&mut message, " for IOC ");
                push_decimal(&mut message, request.ioc_id);
                push_outcome(
                    &mut outcomes,
                    found(request.ioc_id, request.ioc_entry_id, string_of(message.as_slice())),
                );
            }
            k += 1;
            assert(outcomes_of(outcomes@) =~= before + select(requests.take(k as int), keep, make));
        }
        at += 1;
    }
    proof {
        lemma_collect_ends(subjects@, cert_hits(requests));
    }
    outcomes
}

/// Without requests the search gives nothing, whatever certificates there
/// are.
pub proof fn lemma_no_cert_requests(subjects: Seq<String>)
    ensures
        cert_outcomes(Seq::empty(), subjects) == Seq::<Outcome>::empty(),
{
    let requests = Seq::<CertificateParameters>::empty();
    assert forall|j: int| 0 <= j < subjects.len() implies cert_hits(requests)(
        #[trigger] subjects[j],
    ) == Seq::<Outcome>::empty() by {
        lemma_select_from_nothing(cert_keep(subjects[j]@), cert_evidence());
    }
    lemma_collect_of_nothing(subjects, cert_hits(requests));
}

/// Every outcome of the search is evidence for one of the requests, tagged
/// with that request's indicator and node, and one of the certificates
/// meets that request.
pub proof fn lemma_cert_evidence_is_for_a_request(
    requests: Seq<CertificateParameters>,
    subjects: Seq<String>,
    i: int,
) -> (at: (int, int))
    requires
        0 <= i < cert_outcomes(requests, subjects).len(),
    ensures
        0 <= at.0 < subjects.len(),
        0 <= at.1 < requests.len(),
        cert_matches(requests[at.1], subjects[at.0]@),
        cert_outcomes(requests, subjects)[i] == (Outcome::Found {
            ioc_id: requests[at.1].ioc_id,
            ioc_entry_id: requests[at.1].ioc_entry_id,
            description: cert_message(requests[at.1].name@, requests[at.1].ioc_id),
        }),
{
    let given = lemma_collected_is_given(subjects, cert_hits(requests), i);
    let subject = subjects[given.0]@;
    let j = lemma_selected_is_made(requests, cert_keep(subject), cert_evidence(), given.1);
    (given.0, j)
}

} // verus!
