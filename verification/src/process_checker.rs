//! Matches requested names and digests against the running processes.

use crate::data::{clone_hash, clone_text, HashType, Hashed, IocEntryId, IocId, IocSearchError, SearchType};
use crate::hasher::{names_algorithm, wants_algorithm, HashError};
use crate::ioc_evaluator::SearchOutcome;
use crate::pattern::{
    is_pattern_error, pattern_compiles, prepare, regex_matches, CompiledPattern,
};
use crate::query_result::{
    collect, found, lemma_collect_ends, lemma_collect_of_nothing, lemma_collect_step,
    lemma_select_ends, lemma_select_from_nothing, lemma_select_step,
    outcomes_of, push_outcome, scope_of, scoped_error, select, Outcome,
};
use crate::text::{decimal, eq_ignore_ascii_case, lowercase, push_decimal, push_str, string_of};
use vstd::prelude::*;

verus! {

/// A request to look for a process by name or by the digest of its
/// executable.
#[derive(Debug)]
pub struct ProcessParameters {
    pub ioc_id: IocId,
    pub ioc_entry_id: IocEntryId,
    pub search: SearchType,
    pub name: Option<String>,
    pub hash: Option<Hashed>,
}

impl Clone for ProcessParameters {
    fn clone(&self) -> (copy: Self)
        ensures
            copy == *self,
    {
        ProcessParameters {
            ioc_id: self.ioc_id,
            ioc_entry_id: self.ioc_entry_id,
            search: self.search,
            name: clone_text(&self.name),
            hash: clone_hash(&self.hash),
        }
    }
}

/// A process as it was found running: its name, and the digests of its
/// executable as far as they could be computed.
#[derive(Debug)]
pub struct RunningProcess {
    pub name: String,
    pub md5: Result<Hashed, HashError>,
    pub sha1: Result<Hashed, HashError>,
    pub sha256: Result<Hashed, HashError>,
}

impl RunningProcess {
    /// The digest of the executable by the given algorithm.
    pub open spec fn digest(self, algorithm: HashType) -> Result<Hashed, HashError> {
        match algorithm {
            HashType::Md5 => self.md5,
            HashType::Sha1 => self.sha1,
            HashType::Sha256 => self.sha256,
        }
    }
}

/// A request with its pattern ready for use.
pub struct ProcessParametersRegexed {
    pub proc_param: ProcessParameters,
    pub regex: Option<CompiledPattern>,
}

/// A request is compared by an expression where it has no digest, asks for
/// a regex search and gives a name.
pub open spec fn needs_regex(request: ProcessParameters) -> bool {
    request.hash is None && request.search == SearchType::Regex && request.name is Some
}

impl ProcessParametersRegexed {
    /// The expression is there exactly where the request is compared by
    /// one, and it is the request's name compiled.
    pub open spec fn well_formed(self) -> bool {
        if needs_regex(self.proc_param) {
            self.regex matches Some(expression) && expression.pattern()
                == self.proc_param.name->0@
        } else {
            self.regex is None
        }
    }
}

/// What preparing one request came to.
pub type PreparedProcess = Result<ProcessParametersRegexed, IocSearchError>;

/// `prepared` is what preparing `request` gives: the request ready for use,
/// unless it is compared by an expression and its name does not compile;
/// then the error of that pattern.
pub open spec fn prepared_for(request: ProcessParameters, prepared: PreparedProcess) -> bool {
    &&& prepared is Ok <==> (!needs_regex(request) || pattern_compiles(request.name->0@))
    &&& match prepared {
        Ok(ready) => ready.proc_param == request && ready.well_formed(),
        Err(error) => is_pattern_error(error, request.ioc_id, request.ioc_entry_id),
    }
}

/// `prepared` is what preparing `requests` one by one gives.
pub open spec fn is_preparation(
    requests: Seq<ProcessParameters>,
    prepared: Seq<PreparedProcess>,
) -> bool {
    &&& prepared.len() == requests.len()
    &&& forall|i: int| 0 <= i < requests.len() ==> prepared_for(requests[i], #[trigger] prepared[i])
}

/// The requests of a list that are ready for use are well formed.
pub open spec fn all_well_formed(prepared: Seq<PreparedProcess>) -> bool {
    forall|i: int|
        0 <= i < prepared.len() ==> ((#[trigger] prepared[i]) matches Ok(ready)
            ==> ready.well_formed())
}

/// What one process is for one request.
///
/// A request with a digest goes by the digest alone: evidence where the
/// executable's digest by that algorithm is the requested one, the case of
/// letters set aside; an error where that digest could not be computed. A
/// request without a digest goes by its name: evidence where the process has
/// that name, or where the expression matches in the process's name.
pub open spec fn process_outcome(request: ProcessParameters, process: RunningProcess) -> Option<
    Outcome,
> {
    match request.hash {
        Some(wanted) => match process.digest(wanted.algorithm) {
            Ok(actual) => if lowercase(actual.value@) == lowercase(wanted.value@) {
                Some(
                    Outcome::Found {
                        ioc_id: request.ioc_id,
                        ioc_entry_id: request.ioc_entry_id,
                        description: hash_message(
                            shown_name(request, process),
                            actual.value@,
                            request.ioc_id,
                        ),
                    },
                )
            } else {
                None
            },
            Err(error) => Some(
                Outcome::Failed {
                    kind: error.kind@,
                    message: scope_of(request.ioc_id, request.ioc_entry_id) + error.message@,
                },
            ),
        },
        None => match request.name {
            Some(name) => if name_matches(request.search, name@, process.name@) {
                Some(
                    Outcome::Found {
                        ioc_id: request.ioc_id,
                        ioc_entry_id: request.ioc_entry_id,
                        description: name_message(name@, request.ioc_id),
                    },
                )
            } else {
                None
            },
            None => None,
        },
    }
}

/// The name of a process is the requested one, the case of ASCII letters
/// set aside, or the requested expression matches in it.
pub open spec fn name_matches(search: SearchType, wanted: Seq<char>, actual: Seq<char>) -> bool {
    match search {
        SearchType::Exact => lowercase(wanted) == lowercase(actual),
        SearchType::Regex => regex_matches(wanted, actual),
    }
}

/// The name under which a process found by digest is described: the one
/// that the request gives, else the process's own.
pub open spec fn shown_name(request: ProcessParameters, process: RunningProcess) -> Seq<char> {
    match request.name {
        Some(name) => name@,
        None => process.name@,
    }
}

/// The description of a process that was found by name.
pub open spec fn name_message(name: Seq<char>, ioc_id: IocId) -> Seq<char> {
    "Process search: Found process "@ + name + " for IOC "@ + decimal(ioc_id as nat)
}

/// The description of a process that was found by digest.
pub open spec fn hash_message(name: Seq<char>, digest: Seq<char>, ioc_id: IocId) -> Seq<char> {
    "Process search: Found process "@ + name + " with executable hash "@ + digest + " for IOC "@
        + decimal(ioc_id as nat)
}

/// The prepared requests that are errors.
pub open spec fn process_is_error() -> spec_fn(PreparedProcess) -> bool {
    |prepared: PreparedProcess| prepared is Err
}

/// The error of a request that could not be prepared.
pub open spec fn process_error() -> spec_fn(PreparedProcess) -> Outcome {
    |prepared: PreparedProcess|
        Outcome::Failed { kind: prepared->Err_0.kind@, message: prepared->Err_0.message@ }
}

/// The prepared requests for which a process gives an outcome.
pub open spec fn process_keep(process: RunningProcess) -> spec_fn(PreparedProcess) -> bool {
    |prepared: PreparedProcess|
        prepared matches Ok(ready) && process_outcome(ready.proc_param, process) is Some
}

/// The outcome that a process gives for a prepared request.
pub open spec fn process_evidence(process: RunningProcess) -> spec_fn(PreparedProcess) -> Outcome {
    |prepared: PreparedProcess| process_outcome(prepared->Ok_0.proc_param, process)->0
}

/// What one process gives: its outcome for each request that it has one
/// for, in the order of the requests.
pub open spec fn process_hits(prepared: Seq<PreparedProcess>) -> spec_fn(RunningProcess) -> Seq<
    Outcome,
> {
    |process: RunningProcess| select(prepared, process_keep(process), process_evidence(process))
}

/// What the prepared requests and the processes give: first the errors of
/// the requests that could not be prepared, then the outcomes, process by
/// process.
pub open spec fn process_outcomes(
    prepared: Seq<PreparedProcess>,
    processes: Seq<RunningProcess>,
) -> Seq<Outcome> {
    select(prepared, process_is_error(), process_error()) + collect(
        processes,
        process_hits(prepared),
    )
}

/// Prepares the requests: compiles the pattern of each request that is
/// compared by an expression.
pub fn prepare_processes(search_parameters: &Vec<ProcessParameters>) -> (prepared: Vec<
    PreparedProcess,
>)
    ensures
        is_preparation(search_parameters@, prepared@),
{
    let mut prepared: Vec<PreparedProcess> = Vec::new();
    let mut k: usize = 0;
    while k < search_parameters.len()
        invariant
            k <= search_parameters.len(),
            prepared.len() == k,
            forall|i: int|
                0 <= i < k ==> prepared_for(search_parameters@[i], #[trigger] prepared@[i]),
        decreases search_parameters.len() - k,
    {
        let request = &search_parameters[k];
        let entry: PreparedProcess = match (&request.hash, &request.name) {
            (None, Some(name)) => match prepare(
                request.search,
                name.as_str(),
                request.ioc_id,
                request.ioc_entry_id,
            ) {
                Ok(regex) => Ok(ProcessParametersRegexed { proc_param: request.clone(), regex }),
                Err(error) => Err(error),
            },
            _ => Ok(ProcessParametersRegexed { proc_param: request.clone(), regex: None }),
        };
        prepared.push(entry);
        k += 1;
    }
    prepared
}

/// Adds what one process is for one request.
pub fn check_process(
    process: &RunningProcess,
    sp: &ProcessParametersRegexed,
    result: &mut Vec<SearchOutcome>,
)
    requires
        sp.well_formed(),
    ensures
        outcomes_of(final(result)@) == match process_outcome(sp.proc_param, *process) {
            Some(outcome) => outcomes_of(old(result)@).push(outcome),
            None => outcomes_of(old(result)@),
        },
{
    match &sp.proc_param.hash {
        Some(wanted) => {
            let executable_hash = match wanted.algorithm {
                HashType::Md5 => &process.md5,
                HashType::Sha1 => &process.sha1,
                HashType::Sha256 => &process.sha256,
            };
            match executable_hash {
                Ok(actual) => {
                    if eq_ignore_ascii_case(actual.value.as_str(), wanted.value.as_str()) {
                        let mut message: Vec<char> = Vec::new();
                        push_str(&mut message, "Process search: Found process ");
                        match &sp.proc_param.name {
                            Some(name) => push_str(&mut message, name.as_str()),
                            None => push_str(&mut message, process.name.as_str()),
                        }
                        push_str(&mut message, " with executable hash ");
                        push_str(&mut message, actual.value.as_str());
                        push_str(&mut message, " for IOC ");
                        push_decimal(&mut message, sp.proc_param.ioc_id);
                        push_outcome(
                            result,
                            found(
                                sp.proc_param.ioc_id,
                                sp.proc_param.ioc_entry_id,
                                string_of(message.as_slice()),
                            ),
                        );
                    }
                },
                Err(error) => {
                    push_outcome(
                        result,
                        Err(
                            scoped_error(
                                sp.proc_param.ioc_id,
                                sp.proc_param.ioc_entry_id,
                                error.kind.as_str(),
                                error.message.as_str(),
                            ),
                        ),
                    );
                },
            }
        },
        None => {
            match &sp.proc_param.name {
                None => {},
                Some(searched_name) => {
                    let matches = match &sp.regex {
                        None => eq_ignore_ascii_case(
                            searched_name.as_str(),
                            process.name.as_str(),
                        ),
                        Some(regex) => regex.is_match(process.name.as_str()),
                    };
                    if matches {
                        let mut message: Vec<char> = Vec::new();
                        push_str(&mut message, "Process search: Found process ");
                        push_str(&mut message, searched_name.as_str());
                        push_str(&mut message, " for IOC ");
                        push_decimal(&mut message, sp.proc_param.ioc_id);
                        push_outcome(
                            result,
                            found(
                                sp.proc_param.ioc_id,
                                sp.proc_param.ioc_entry_id,
                                string_of(message.as_slice()),
                            ),
                        );
                    }
                },
            }
        },
    }
}

/// Matches the running processes against the prepared requests.
pub fn match_processes(prepared: &Vec<PreparedProcess>, processes: &[RunningProcess]) -> (outcomes:
    Vec<SearchOutcome>)
    requires
        all_well_formed(prepared@),
    ensures
        outcomes_of(outcomes@) == process_outcomes(prepared@, processes@),
{
    let mut outcomes: Vec<SearchOutcome> = Vec::new();
    proof {
        lemma_select_ends(prepared@, process_is_error(), process_error());
        assert(outcomes_of(outcomes@) =~= Seq::<Outcome>::empty());
    }
    let mut k: usize = 0;
    while k < prepared.len()
        invariant
            k <= prepared.len(),
            outcomes_of(outcomes@) == select(
                prepared@.take(k as int),
                process_is_error(),
                process_error(),
            ),
        decreases prepared.len() - k,
    {
        proof {
            lemma_select_step(prepared@, k as int, process_is_error(), process_error());
        }
        match &prepared[k] {
            Ok(_) => {},
            Err(error) => {
                push_outcome(&mut outcomes, Err(error.clone()));
            },
        }
        k += 1;
    }
    let ghost errors = outcomes_of(outcomes@);
    proof {
        lemma_select_ends(prepared@, process_is_error(), process_error());
        lemma_collect_ends(processes@, process_hits(prepared@));
        assert(outcomes_of(outcomes@) =~= errors + Seq::<Outcome>::empty());
    }
    let mut at: usize = 0;
    while at < processes.len()
        invariant
            at <= processes.len(),
            all_well_formed(prepared@),
            outcomes_of(outcomes@) == errors + collect(
                processes@.take(at as int),
                process_hits(prepared@),
            ),
        decreases processes.len() - at,
    {
        let process = &processes[at];
        let ghost before = outcomes_of(outcomes@);
        let ghost keep = process_keep(*process);
        let ghost make = process_evidence(*process);
        proof {
            lemma_select_ends(prepared@, keep, make);
            lemma_collect_step(processes@, at as int, process_hits(prepared@));
        }
        let mut k: usize = 0;
        while k < prepared.len()
            invariant
                k <= prepared.len(),
                all_well_formed(prepared@),
                keep == process_keep(*process),
                make == process_evidence(*process),
                outcomes_of(outcomes@) == before + select(prepared@.take(k as int), keep, make),
            decreases prepared.len() - k,
        {
            proof {
                lemma_select_step(prepared@, k as int, keep, make);
            }
            match &prepared[k] {
                Ok(ready) => {
                    check_process(process, ready, &mut outcomes);
                },
                Err(_) => {},
            }
            k += 1;
            assert(outcomes_of(outcomes@) =~= before + select(prepared@.take(k as int), keep, make));
        }
        at += 1;
        assert(outcomes_of(outcomes@) =~= errors + collect(
            processes@.take(at as int),
            process_hits(prepared@),
        ));
    }
    proof {
        lemma_collect_ends(processes@, process_hits(prepared@));
    }
    outcomes
}

/// Matches the running processes against the requests. A request whose
/// pattern does not compile gives an error and takes no further part; the
/// others are not affected.
pub fn check_processes(search_parameters: Vec<ProcessParameters>, processes: &[RunningProcess]) -> (outcomes:
    Vec<SearchOutcome>)
    ensures
        exists|prepared: Seq<PreparedProcess>|
            is_preparation(search_parameters@, prepared) && outcomes_of(outcomes@)
                == #[trigger] process_outcomes(prepared, processes@),
{
    let prepared = prepare_processes(&search_parameters);
    match_processes(&prepared, processes)
}

/// The digests that the requests name, request by request.
pub open spec fn wanted_digests(requests: Seq<ProcessParameters>) -> Seq<Option<Hashed>> {
    requests.map_values(|request: ProcessParameters| request.hash)
}

/// Whether some request names a digest by the given algorithm: only then
/// is that digest of an executable of any use.
pub fn wants_digest(search_parameters: &[ProcessParameters], algorithm: HashType) -> (wanted: bool)
    ensures
        wanted == names_algorithm(wanted_digests(search_parameters@), algorithm),
{
    let mut at: usize = 0;
    while at < search_parameters.len()
        invariant
            at <= search_parameters.len(),
            forall|i: int|
                0 <= i < at ==> !((#[trigger] wanted_digests(search_parameters@)[i]) matches Some(
                    hash,
                ) && hash.algorithm == algorithm),
        decreases search_parameters.len() - at,
    {
        if wants_algorithm(&search_parameters[at].hash, algorithm) {
            assert(wanted_digests(search_parameters@)[at as int] == search_parameters@[at as int].hash);
            return true;
        }
        at += 1;
    }
    false
}

/// Without requests the search gives nothing, whatever processes run.
pub proof fn lemma_no_process_requests(prepared: Seq<PreparedProcess>, processes: Seq<RunningProcess>)
    requires
        is_preparation(Seq::empty(), prepared),
    ensures
        process_outcomes(prepared, processes) == Seq::<Outcome>::empty(),
{
    assert(prepared =~= Seq::<PreparedProcess>::empty());
    lemma_select_from_nothing(process_is_error(), process_error());
    assert forall|j: int| 0 <= j < processes.len() implies process_hits(prepared)(
        #[trigger] processes[j],
    ) == Seq::<Outcome>::empty() by {
        lemma_select_from_nothing(process_keep(processes[j]), process_evidence(processes[j]));
    }
    lemma_collect_of_nothing(processes, process_hits(prepared));
}

} // verus!
