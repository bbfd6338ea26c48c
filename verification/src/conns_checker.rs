//! Matches requested host names against the remote ends of the open
//! connections.

use crate::data::{IocEntryId, IocId, IocSearchError, SearchType};
use crate::ioc_evaluator::SearchOutcome;
use crate::pattern::{
    can_prepare, is_pattern_error, is_prepared, prepare, regex_matches, CompiledPattern,
};
use crate::query_result::{
    collect, found, lemma_collect_ends, lemma_collect_of_nothing, lemma_collect_step,
    lemma_collected_is_given, lemma_select_ends, lemma_select_from_nothing, lemma_select_step,
    lemma_selected_is_made, outcomes_of, push_outcome, select, Outcome,
};
use crate::text::{decimal, eq_ignore_ascii_case, lowercase, push_decimal, push_str, string_of};
use vstd::prelude::*;

verus! {

/// A request to look for a remote host among the open connections.
#[derive(Debug)]
pub struct ConnectionParameters {
    pub ioc_id: IocId,
    pub ioc_entry_id: IocEntryId,
    pub search: SearchType,
    pub name: String,
}

impl Clone for ConnectionParameters {
    fn clone(&self) -> (copy: Self)
        ensures
            copy == *self,
    {
        ConnectionParameters {
            ioc_id: self.ioc_id,
            ioc_entry_id: self.ioc_entry_id,
            search: self.search,
            name: self.name.clone(),
        }
    }
}

/// A request with its pattern ready for use.
pub struct ConnectionParametersRegexed {
    pub conn_param: ConnectionParameters,
    pub regex: Option<CompiledPattern>,
}

impl ConnectionParametersRegexed {
    /// The expression is there exactly for a regex search, and it is the
    /// request's name compiled.
    pub open spec fn well_formed(self) -> bool {
        is_prepared(self.conn_param.search, self.conn_param.name@, self.regex)
    }
}

/// What preparing one request came to.
pub type PreparedConnection = Result<ConnectionParametersRegexed, IocSearchError>;

/// `prepared` is what preparing `request` gives: the request ready for use,
/// unless it asks for a regex search and its pattern does not compile; then
/// the error of that pattern.
pub open spec fn prepared_for(request: ConnectionParameters, prepared: PreparedConnection) -> bool {
    &&& prepared is Ok <==> can_prepare(request.search, request.name@)
    &&& match prepared {
        Ok(ready) => ready.conn_param == request && ready.well_formed(),
        Err(error) => is_pattern_error(error, request.ioc_id, request.ioc_entry_id),
    }
}

/// `prepared` is what preparing `requests` one by one gives.
pub open spec fn is_preparation(
    requests: Seq<ConnectionParameters>,
    prepared: Seq<PreparedConnection>,
) -> bool {
    &&& prepared.len() == requests.len()
    &&& forall|i: int| 0 <= i < requests.len() ==> prepared_for(requests[i], #[trigger] prepared[i])
}

/// The requests of a list that are ready for use are well formed.
pub open spec fn all_well_formed(prepared: Seq<PreparedConnection>) -> bool {
    forall|i: int|
        0 <= i < prepared.len() ==> ((#[trigger] prepared[i]) matches Ok(ready)
            ==> ready.well_formed())
}

/// A remote host meets a request where its name is the requested one, the
/// case of ASCII letters set aside, or where the requested expression
/// matches in it.
pub open spec fn conn_matches(request: ConnectionParameters, address_name: Seq<char>) -> bool {
    match request.search {
        SearchType::Exact => lowercase(request.name@) == lowercase(address_name),
        SearchType::Regex => regex_matches(request.name@, address_name),
    }
}

/// The description of a connection that was found.
pub open spec fn conn_message(address_name: Seq<char>, ioc_id: IocId) -> Seq<char> {
    "Connection search: Found connection "@ + address_name + " for IOC "@ + decimal(ioc_id as nat)
}

/// The evidence that the remote host `address_name` is for a request.
pub open spec fn conn_found(request: ConnectionParameters, address_name: Seq<char>) -> Outcome {
    Outcome::Found {
        ioc_id: request.ioc_id,
        ioc_entry_id: request.ioc_entry_id,
        description: conn_message(address_name, request.ioc_id),
    }
}

/// The prepared requests that are errors.
pub open spec fn conn_is_error() -> spec_fn(PreparedConnection) -> bool {
    |prepared: PreparedConnection| prepared is Err
}

/// The error of a request that could not be prepared.
pub open spec fn conn_error() -> spec_fn(PreparedConnection) -> Outcome {
    |prepared: PreparedConnection|
        Outcome::Failed { kind: prepared->Err_0.kind@, message: prepared->Err_0.message@ }
}

/// The prepared requests that the remote host `address_name` meets.
pub open spec fn conn_keep(address_name: Seq<char>) -> spec_fn(PreparedConnection) -> bool {
    |prepared: PreparedConnection|
        prepared matches Ok(ready) && conn_matches(ready.conn_param, address_name)
}

/// The evidence that the remote host `address_name` is for a prepared
/// request.
pub open spec fn conn_evidence(address_name: Seq<char>) -> spec_fn(PreparedConnection) -> Outcome {
    |prepared: PreparedConnection| conn_found(prepared->Ok_0.conn_param, address_name)
}

/// What one remote host gives: evidence for each request that it meets, in
/// the order of the requests.
pub open spec fn conn_hits(prepared: Seq<PreparedConnection>) -> spec_fn(String) -> Seq<Outcome> {
    |address_name: String| select(prepared, conn_keep(address_name@), conn_evidence(address_name@))
}

/// What the prepared requests and the remote hosts give: first the errors of
/// the requests that could not be prepared, then the evidence, host by
/// host.
pub open spec fn conn_outcomes(prepared: Seq<PreparedConnection>, address_names: Seq<String>) -> Seq<
    Outcome,
> {
    select(prepared, conn_is_error(), conn_error()) + collect(address_names, conn_hits(prepared))
}

/// Prepares the requests: compiles the pattern of each regex search.
pub fn prepare_connections(search_parameters: &Vec<ConnectionParameters>) -> (prepared: Vec<
    PreparedConnection,
>)
    ensures
        is_preparation(search_parameters@, prepared@),
{
    let mut prepared: Vec<PreparedConnection> = Vec::new();
    let mut k: usize = 0;
    while k < search_parameters.len()
        invariant
            k <= search_parameters.len(),
            prepared.len() == k,
            forall|i: int|
                0 <= i < k ==> prepared_for(search_parameters@[i], #[trigger] prepared@[i]),
        decreases search_parameters.len() - k,
    {
        let request = &search_parameters[k];
        let entry: PreparedConnection = match prepare(
            request.search,
            request.name.as_str(),
            request.ioc_id,
            request.ioc_entry_id,
        ) {
            Ok(regex) => Ok(ConnectionParametersRegexed { conn_param: request.clone(), regex }),
            Err(error) => Err(error),
        };
        prepared.push(entry);
        k += 1;
    }
    prepared
}

/// Adds the evidence that one remote host is for one request, if it meets
/// the request.
pub fn check_item(
    address_name: &String,
    sp: &ConnectionParametersRegexed,
    result: &mut Vec<SearchOutcome>,
)
    requires
        sp.well_formed(),
    ensures
        outcomes_of(final(result)@) == if conn_matches(sp.conn_param, address_name@) {
            outcomes_of(old(result)@).push(conn_found(sp.conn_param, address_name@))
        } else {
            outcomes_of(old(result)@)
        },
{
    let matches = match &sp.regex {
        None => eq_ignore_ascii_case(sp.conn_param.name.as_str(), address_name.as_str()),
        Some(regex) => regex.is_match(address_name.as_str()),
    };
    if matches {
        let mut message: Vec<char> = Vec::new();
        push_str(&mut message, "Connection search: Found connection ");
        push_str(&mut message, address_name.as_str());
        push_str(&mut message, " for IOC ");
        push_decimal(&mut message, sp.conn_param.ioc_id);
        push_outcome(
            result,
            found(
                sp.conn_param.ioc_id,
                sp.conn_param.ioc_entry_id,
                string_of(message.as_slice()),
            ),
        );
    }
}

/// Matches the names of the remote hosts against the prepared requests.
pub fn match_connections(prepared: &Vec<PreparedConnection>, address_names: &[String]) -> (outcomes:
    Vec<SearchOutcome>)
    requires
        all_well_formed(prepared@),
    ensures
        outcomes_of(outcomes@) == conn_outcomes(prepared@, address_names@),
{
    let mut outcomes: Vec<SearchOutcome> = Vec::new();
    proof {
        lemma_select_ends(prepared@, conn_is_error(), conn_error());
        assert(outcomes_of(outcomes@) =~= Seq::<Outcome>::empty());
    }
    let mut k: usize = 0;
    while k < prepared.len()
        invariant
            k <= prepared.len(),
            outcomes_of(outcomes@) == select(
                prepared@.take(k as int),
                conn_is_error(),
                conn_error(),
            ),
        decreases prepared.len() - k,
    {
        proof {
            lemma_select_step(prepared@, k as int, conn_is_error(), conn_error());
        }
        match &prepared[k] {
            Ok(_) => {},
            Err(error) => {
                push_outcome(&mut outcomes, Err(error.clone()));
            },
        }
        k += 1;
    }
    let ghost errors = outcomes_of(outcomes@);
    proof {
        lemma_select_ends(prepared@, conn_is_error(), conn_error());
        lemma_collect_ends(address_names@, conn_hits(prepared@));
        assert(outcomes_of(outcomes@) =~= errors + Seq::<Outcome>::empty());
    }
    let mut at: usize = 0;
    while at < address_names.len()
        invariant
            at <= address_names.len(),
            all_well_formed(prepared@),
            outcomes_of(outcomes@) == errors + collect(
                address_names@.take(at as int),
                conn_hits(prepared@),
            ),
        decreases address_names.len() - at,
    {
        let address_name = &address_names[at];
        let ghost before = outcomes_of(outcomes@);
        let ghost keep = conn_keep(address_name@);
        let ghost make = conn_evidence(address_name@);
        proof {
            lemma_select_ends(prepared@, keep, make);
            lemma_collect_step(address_names@, at as int, conn_hits(prepared@));
        }
        let mut k: usize = 0;
        while k < prepared.len()
            invariant
                k <= prepared.len(),
                all_well_formed(prepared@),
                keep == conn_keep(address_name@),
                make == conn_evidence(address_name@),
                outcomes_of(outcomes@) == before + select(prepared@.take(k as int), keep, make),
            decreases prepared.len() - k,
        {
            proof {
                lemma_select_step(prepared@, k as int, keep, make);
            }
            match &prepared[k] {
                Ok(ready) => {
                    check_item(address_name, ready, &mut outcomes);
                },
                Err(_) => {},
            }
            k += 1;
            assert(outcomes_of(outcomes@) =~= before + select(prepared@.take(k as int), keep, make));
        }
        at += 1;
        assert(outcomes_of(outcomes@) =~= errors + collect(
            address_names@.take(at as int),
            conn_hits(prepared@),
        ));
    }
    proof {
        lemma_collect_ends(address_names@, conn_hits(prepared@));
    }
    outcomes
}

/// Matches the names of the remote hosts of the open connections against
/// the requests. A regex request whose pattern does not compile gives an
/// error and takes no further part; the others are not affected.
pub fn check_conns(search_parameters: Vec<ConnectionParameters>, address_names: &[String]) -> (outcomes:
    Vec<SearchOutcome>)
    ensures
        exists|prepared: Seq<PreparedConnection>|
            is_preparation(search_parameters@, prepared) && outcomes_of(outcomes@)
                == #[trigger] conn_outcomes(prepared, address_names@),
{
    let prepared = prepare_connections(&search_parameters);
    match_connections(&prepared, address_names)
}

/// The remote end of a connection: the four bytes of an IPv4 address, or
/// the eight groups of an IPv6 address.
#[derive(Clone, Copy, Debug, PartialEq, Eq)]
pub enum RemoteAddress {
    V4([u8; 4]),
    V6([u16; 8]),
}

/// The address is that of this host itself: `127.x.x.x` or `::1`.
pub open spec fn is_loopback(address: RemoteAddress) -> bool {
    match address {
        RemoteAddress::V4(bytes) => bytes[0] == 127,
        RemoteAddress::V6(groups) => (forall|i: int| 0 <= i < 7 ==> groups[i] == 0) && groups[7]
            == 1,
    }
}

/// The address is the one that stands for no address: `0.0.0.0` or `::`.
pub open spec fn is_unspecified(address: RemoteAddress) -> bool {
    match address {
        RemoteAddress::V4(bytes) => forall|i: int| 0 <= i < 4 ==> bytes[i] == 0,
        RemoteAddress::V6(groups) => forall|i: int| 0 <= i < 8 ==> groups[i] == 0,
    }
}

/// Whether the remote end of a connection is looked at: not where it is
/// this host itself, and not where it is no address at all.
pub fn is_remote_end(address: &RemoteAddress) -> (remote: bool)
    ensures
        remote == (!is_loopback(*address) && !is_unspecified(*address)),
{
    match address {
        RemoteAddress::V4(bytes) => {
            if bytes[0] == 127 {
                return false;
            }
            !(bytes[0] == 0 && bytes[1] == 0 && bytes[2] == 0 && bytes[3] == 0)
        },
        RemoteAddress::V6(groups) => {
            let leading = groups[0] == 0 && groups[1] == 0 && groups[2] == 0 && groups[3] == 0
                && groups[4] == 0 && groups[5] == 0 && groups[6] == 0;
            !(leading && (groups[7] == 0 || groups[7] == 1))
        },
    }
}

/// Without requests the search gives nothing, whatever connections there
/// are.
pub proof fn lemma_no_conn_requests(prepared: Seq<PreparedConnection>, address_names: Seq<String>)
    requires
        is_preparation(Seq::empty(), prepared),
    ensures
        conn_outcomes(prepared, address_names) == Seq::<Outcome>::empty(),
{
    assert(prepared =~= Seq::<PreparedConnection>::empty());
    lemma_select_from_nothing(conn_is_error(), conn_error());
    assert forall|j: int| 0 <= j < address_names.len() implies conn_hits(prepared)(
        #[trigger] address_names[j],
    ) == Seq::<Outcome>::empty() by {
        lemma_select_from_nothing(conn_keep(address_names[j]@), conn_evidence(address_names[j]@));
    }
    lemma_collect_of_nothing(address_names, conn_hits(prepared));
}

/// Every outcome of the search belongs to one of the requests: it is the
/// error of a regex request whose pattern did not compile, tied to that
/// request, or evidence tagged with the indicator and the node of a request
/// that one of the remote hosts meets.
pub proof fn lemma_conn_outcome_is_for_a_request(
    requests: Seq<ConnectionParameters>,
    prepared: Seq<PreparedConnection>,
    address_names: Seq<String>,
    i: int,
) -> (j: int)
    requires
        is_preparation(requests, prepared),
        0 <= i < conn_outcomes(prepared, address_names).len(),
    ensures
        0 <= j < requests.len(),
        match conn_outcomes(prepared, address_names)[i] {
            Outcome::Failed { kind, message } => requests[j].search == SearchType::Regex && kind
                == crate::pattern::pattern_error_kind() && crate::query_result::scope_of(
                requests[j].ioc_id,
                requests[j].ioc_entry_id,
            ).is_prefix_of(message),
            Outcome::Found { ioc_id, ioc_entry_id, description } => ioc_id == requests[j].ioc_id
                && ioc_entry_id == requests[j].ioc_entry_id && exists|k: int|
                0 <= k < address_names.len() && conn_matches(
                    requests[j],
                    (#[trigger] address_names[k])@,
                ) && description == conn_message(address_names[k]@, ioc_id),
        },
{
    let errors = select(prepared, conn_is_error(), conn_error());
    if i < errors.len() {
        let j = lemma_selected_is_made(prepared, conn_is_error(), conn_error(), i);
        assert(prepared_for(requests[j], prepared[j]));
        j
    } else {
        let given = lemma_collected_is_given(
            address_names,
            conn_hits(prepared),
            i - errors.len(),
        );
        let name = address_names[given.0]@;
        let j = lemma_selected_is_made(prepared, conn_keep(name), conn_evidence(name), given.1);
        assert(prepared_for(requests[j], prepared[j]));
        assert(conn_matches(requests[j], address_names[given.0]@));
        j
    }
}

} // verus!
