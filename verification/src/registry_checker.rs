//! Matches requested keys and values against the registry.

use crate::data::{clone_text, IocEntryId, IocId, IocSearchError, SearchType};
use crate::ioc_evaluator::SearchOutcome;
use crate::pattern::{
    can_prepare, is_pattern_error, is_prepared, prepare, regex_matches, CompiledPattern,
};
use crate::query_result::{
    collect, found, lemma_collect_ends, lemma_collect_of_nothing, lemma_collect_step,
    lemma_select_ends, lemma_select_from_nothing, lemma_select_nothing_kept, lemma_select_step,
    outcomes_of, push_outcome, select, Outcome,
};
use crate::text::{
    chars_of, decimal, ends_with, lowercase, lowercase_chars, push_chars, push_decimal, push_str,
    same_chars, string_of,
};
use std::collections::HashSet;
use vstd::prelude::*;

verus! {

broadcast use vstd::std_specs::hash::group_hash_axioms;

/// A request to look for a value under a registry key.
#[derive(Debug)]
pub struct RegistryParameters {
    pub ioc_id: IocId,
    pub ioc_entry_id: IocEntryId,
    pub search_type: SearchType,
    pub key: String,
    pub value_name: String,
    pub value: Option<String>,
}

impl Clone for RegistryParameters {
    fn clone(&self) -> (copy: Self)
        ensures
            copy == *self,
    {
        RegistryParameters {
            ioc_id: self.ioc_id,
            ioc_entry_id: self.ioc_entry_id,
            search_type: self.search_type,
            key: self.key.clone(),
            value_name: self.value_name.clone(),
            value: clone_text(&self.value),
        }
    }
}

/// The hives that a key can hang under.
#[derive(Clone, Copy, Debug, PartialEq, Eq, Hash, Structural)]
pub enum Hive {
    ClassesRoot,
    CurrentConfig,
    CurrentUser,
    CurrentUserLocalSettings,
    DynData,
    LocalMachine,
    PerformanceData,
    PerformanceNlstext,
    PerformanceText,
    Users,
}

/// The hive that a name stands for, by its full name or by its short one.
pub open spec fn hive_named(name: Seq<char>) -> Option<Hive> {
    if name == "HKEY_CLASSES_ROOT"@ || name == "HKCR"@ {
        Some(Hive::ClassesRoot)
    } else if name == "HKEY_CURRENT_CONFIG"@ || name == "HKCC"@ {
        Some(Hive::CurrentConfig)
    } else if name == "HKEY_CURRENT_USER"@ || name == "HKCU"@ {
        Some(Hive::CurrentUser)
    } else if name == "HKEY_CURRENT_USER_LOCAL_SETTINGS"@ {
        Some(Hive::CurrentUserLocalSettings)
    } else if name == "HKEY_DYN_DATA"@ {
        Some(Hive::DynData)
    } else if name == "HKEY_LOCAL_MACHINE"@ || name == "HKLM"@ {
        Some(Hive::LocalMachine)
    } else if name == "HKEY_PERFORMANCE_DATA"@ {
        Some(Hive::PerformanceData)
    } else if name == "HKEY_PERFORMANCE_NLSTEXT"@ {
        Some(Hive::PerformanceNlstext)
    } else if name == "HKEY_PERFORMANCE_TEXT"@ {
        Some(Hive::PerformanceText)
    } else if name == "HKEY_USERS"@ || name == "HKU"@ {
        Some(Hive::Users)
    } else {
        None
    }
}

/// Whether the characters are those of the string.
fn is_text(chars: &[char], text: &str) -> (same: bool)
    ensures
        same == (chars@ == text@),
{
    let other = chars_of(text);
    same_chars(chars, other.as_slice())
}

/// The hive that a name stands for.
pub fn predef_key_by_name(name: &[char]) -> (hive: Option<Hive>)
    ensures
        hive == hive_named(name@),
{
    if is_text(name, "HKEY_CLASSES_ROOT") || is_text(name, "HKCR") {
        Some(Hive::ClassesRoot)
    } else if is_text(name, "HKEY_CURRENT_CONFIG") || is_text(name, "HKCC") {
        Some(Hive::CurrentConfig)
    } else if is_text(name, "HKEY_CURRENT_USER") || is_text(name, "HKCU") {
        Some(Hive::CurrentUser)
    } else if is_text(name, "HKEY_CURRENT_USER_LOCAL_SETTINGS") {
        Some(Hive::CurrentUserLocalSettings)
    } else if is_text(name, "HKEY_DYN_DATA") {
        Some(Hive::DynData)
    } else if is_text(name, "HKEY_LOCAL_MACHINE") || is_text(name, "HKLM") {
        Some(Hive::LocalMachine)
    } else if is_text(name, "HKEY_PERFORMANCE_DATA") {
        Some(Hive::PerformanceData)
    } else if is_text(name, "HKEY_PERFORMANCE_NLSTEXT") {
        Some(Hive::PerformanceNlstext)
    } else if is_text(name, "HKEY_PERFORMANCE_TEXT") {
        Some(Hive::PerformanceText)
    } else if is_text(name, "HKEY_USERS") || is_text(name, "HKU") {
        Some(Hive::Users)
    } else {
        None
    }
}

/// The position of the first backslash of a key; its length where it has
/// none.
pub open spec fn root_end(key: Seq<char>) -> int
    decreases key.len(),
{
    if key.len() == 0 || key.first() == '\\' {
        0
    } else {
        1 + root_end(key.drop_first())
    }
}

/// The first component of a key: what stands before its first backslash.
pub open spec fn key_root(key: Seq<char>) -> Seq<char> {
    key.take(root_end(key))
}

/// What follows the first backslash of a key, where it has one.
pub open spec fn key_path(key: Seq<char>) -> Option<Seq<char>> {
    if root_end(key) < key.len() {
        Some(key.skip(root_end(key) + 1))
    } else {
        None
    }
}

/// The first backslash of a key lies within it, or at its end if there is
/// none, and no backslash stands before it.
pub proof fn lemma_root_end(key: Seq<char>)
    ensures
        0 <= root_end(key) <= key.len(),
        root_end(key) < key.len() ==> key[root_end(key)] == '\\',
        forall|i: int| 0 <= i < root_end(key) ==> key[i] != '\\',
    decreases key.len(),
{
    if key.len() == 0 || key.first() == '\\' {
    } else {
        lemma_root_end(key.drop_first());
        assert forall|i: int| 0 <= i < root_end(key) implies key[i] != '\\' by {
            if i > 0 {
                assert(key.drop_first()[i - 1] == key[i]);
            }
        }
    }
}

/// A position with a backslash, and none before it, is the first one.
pub proof fn lemma_root_end_is(key: Seq<char>, at: int)
    requires
        0 <= at <= key.len(),
        at < key.len() ==> key[at] == '\\',
        forall|i: int| 0 <= i < at ==> key[i] != '\\',
    ensures
        root_end(key) == at,
    decreases key.len(),
{
    if key.len() == 0 || key.first() == '\\' {
    } else {
        assert forall|i: int| 0 <= i < at - 1 implies key.drop_first()[i] != '\\' by {
            assert(key.drop_first()[i] == key[i + 1]);
        }
        lemma_root_end_is(key.drop_first(), at - 1);
    }
}

/// Where a key lies: its hive, and the path below the hive if it has one.
#[derive(Debug)]
pub struct RegistryLocation {
    pub hive: Hive,
    pub path: Option<String>,
}

/// The message of a key whose first component names no hive.
pub open spec fn cannot_open(root: Seq<char>) -> Seq<char> {
    "Registry search: Cannot open "@ + root
}

/// Reads a key: the hive that its first component names, and what follows
/// the first backslash. A first component that names no hive is an error.
pub fn open_registry(key: &str) -> (location: Result<RegistryLocation, IocSearchError>)
    ensures
        match location {
            Ok(place) => hive_named(key_root(key@)) == Some(place.hive) && place.path.deep_view()
                == key_path(key@),
            Err(error) => hive_named(key_root(key@)) is None && error.kind@ == "Registry error"@
                && error.message@ == cannot_open(key_root(key@)),
        },
{
    let chars = chars_of(key);
    let mut end: usize = 0;
    while end < chars.len() && chars[end] != '\\'
        invariant
            end <= chars.len(),
            forall|i: int| 0 <= i < end ==> chars@[i] != '\\',
        decreases chars.len() - end,
    {
        end += 1;
    }
    proof {
        lemma_root_end_is(chars@, end as int);
    }
    let mut root: Vec<char> = Vec::new();
    let mut at: usize = 0;
    while at < end
        invariant
            at <= end <= chars.len(),
            root@ == chars@.take(at as int),
        decreases end - at,
    {
        root.push(chars[at]);
        at += 1;
        assert(root@ =~= chars@.take(at as int));
    }
    match predef_key_by_name(root.as_slice()) {
        None => {
            let mut message: Vec<char> = Vec::new();
            push_str(&mut message, "Registry search: Cannot open ");
            push_chars(&mut message, root.as_slice());
            Err(
                IocSearchError {
                    kind: "Registry error".to_string(),
                    message: string_of(message.as_slice()),
                },
            )
        },
        Some(hive) => {
            if end < chars.len() {
                let mut path: Vec<char> = Vec::new();
                let mut at: usize = end + 1;
                while at < chars.len()
                    invariant
                        end + 1 <= at <= chars.len(),
                        path@ == chars@.subrange(end + 1, at as int),
                    decreases chars.len() - at,
                {
                    path.push(chars[at]);
                    at += 1;
                    assert(path@ =~= chars@.subrange(end + 1, at as int));
                }
                assert(path@ =~= chars@.skip(end + 1));
                Ok(RegistryLocation { hive, path: Some(string_of(path.as_slice())) })
            } else {
                Ok(RegistryLocation { hive, path: None })
            }
        },
    }
}

/// The name under which the deep search walks a hive.
pub open spec fn hive_label(hive: Hive) -> Seq<char> {
    match hive {
        Hive::CurrentUser => "HKEY_CURRENT_USER"@,
        Hive::LocalMachine => "HKEY_LOCAL_MACHINE"@,
        Hive::ClassesRoot => "HKEY_CLASSES_ROOT"@,
        Hive::CurrentConfig => "HKEY_CURRENT_CONFIG"@,
        Hive::CurrentUserLocalSettings => "HKEY_CURRENT_USER_LOCAL_SETTINGS"@,
        Hive::DynData => "HKEY_DYN_DATA"@,
        Hive::PerformanceData => "HKEY_PERFORMANCE_DATA"@,
        Hive::PerformanceText => "HKEY_PERFORMANCE_TEXT"@,
        Hive::PerformanceNlstext => "HKEY_PERFORMANCE_NLSTEXT"@,
        Hive::Users => "HKEY_USERS"@,
    }
}

/// The hives in the order in which the deep search walks them.
pub open spec fn deep_search_order() -> Seq<Hive> {
    seq![
        Hive::CurrentUser,
        Hive::LocalMachine,
        Hive::ClassesRoot,
        Hive::CurrentConfig,
        Hive::CurrentUserLocalSettings,
        Hive::DynData,
        Hive::PerformanceData,
        Hive::PerformanceText,
        Hive::PerformanceNlstext,
        Hive::Users,
    ]
}

/// The name under which the deep search walks a hive.
pub fn hive_name(hive: Hive) -> (name: String)
    ensures
        name@ == hive_label(hive),
{
    match hive {
        Hive::CurrentUser => "HKEY_CURRENT_USER".to_string(),
        Hive::LocalMachine => "HKEY_LOCAL_MACHINE".to_string(),
        Hive::ClassesRoot => "HKEY_CLASSES_ROOT".to_string(),
        Hive::CurrentConfig => "HKEY_CURRENT_CONFIG".to_string(),
        Hive::CurrentUserLocalSettings => "HKEY_CURRENT_USER_LOCAL_SETTINGS".to_string(),
        Hive::DynData => "HKEY_DYN_DATA".to_string(),
        Hive::PerformanceData => "HKEY_PERFORMANCE_DATA".to_string(),
        Hive::PerformanceText => "HKEY_PERFORMANCE_TEXT".to_string(),
        Hive::PerformanceNlstext => "HKEY_PERFORMANCE_NLSTEXT".to_string(),
        Hive::Users => "HKEY_USERS".to_string(),
    }
}

/// The hives in the order in which the deep search walks them.
pub fn deep_search_hives() -> (hives: Vec<Hive>)
    ensures
        hives@ == deep_search_order(),
{
    let mut hives: Vec<Hive> = Vec::new();
    hives.push(Hive::CurrentUser);
    hives.push(Hive::LocalMachine);
    hives.push(Hive::ClassesRoot);
    hives.push(Hive::CurrentConfig);
    hives.push(Hive::CurrentUserLocalSettings);
    hives.push(Hive::DynData);
    hives.push(Hive::PerformanceData);
    hives.push(Hive::PerformanceText);
    hives.push(Hive::PerformanceNlstext);
    hives.push(Hive::Users);
    assert(hives@ =~= deep_search_order());
    hives
}

/// The full path of a key below another: the two with a backslash between
/// them.
pub fn sub_key_path(full_key_path: &str, sub_key_name: &str) -> (path: String)
    ensures
        path@ == full_key_path@ + seq!['\\'] + sub_key_name@,
{
    let mut out: Vec<char> = Vec::new();
    push_str(&mut out, full_key_path);
    out.push('\\');
    push_str(&mut out, sub_key_name);
    string_of(out.as_slice())
}

/// A value of a key, in each of the forms in which it could be read: as
/// text, as a number of 32 bits, as a number of 64 bits.
#[derive(Debug)]
pub struct RegistryValue {
    pub name: String,
    pub text: Option<String>,
    pub dword: Option<u32>,
    pub qword: Option<u64>,
}

/// The value as the text that it is compared by: the text where it could
/// be read as text, else the number of 32 bits in decimal, else the number
/// of 64 bits in decimal, else nothing.
pub open spec fn coerced(value: RegistryValue) -> Seq<char> {
    match value.text {
        Some(text) => text@,
        None => match value.dword {
            Some(number) => decimal(number as nat),
            None => match value.qword {
                Some(number) => decimal(number as nat),
                None => Seq::empty(),
            },
        },
    }
}

/// The value as the text that it is compared by.
pub fn coerce(value: &RegistryValue) -> (text: Vec<char>)
    ensures
        text@ == coerced(*value),
{
    let mut text: Vec<char> = Vec::new();
    match &value.text {
        Some(read) => push_str(&mut text, read.as_str()),
        None => match value.dword {
            Some(number) => push_decimal(&mut text, number as u64),
            None => match value.qword {
                Some(number) => push_decimal(&mut text, number),
                None => {},
            },
        },
    }
    text
}

/// A key as it was found: its own name, its full path from the hive down,
/// and its values.
#[derive(Debug)]
pub struct RegistryKey {
    pub name: String,
    pub full_path: String,
    pub values: Vec<RegistryValue>,
}

/// The text of the first value with the given name, compared letter for
/// letter; empty where there is none.
pub open spec fn value_text(values: Seq<RegistryValue>, name: Seq<char>) -> Seq<char>
    decreases values.len(),
{
    if values.len() == 0 {
        Seq::empty()
    } else if values.first().name@ == name {
        coerced(values.first())
    } else {
        value_text(values.drop_first(), name)
    }
}

/// The text of the value of a key with the given name.
pub fn read_value(key: &RegistryKey, name: &str) -> (text: Vec<char>)
    ensures
        text@ == value_text(key.values@, name@),
{
    let wanted = chars_of(name);
    let mut at: usize = 0;
    assert(key.values@.skip(0) =~= key.values@);
    while at < key.values.len()
        invariant
            at <= key.values.len(),
            wanted@ == name@,
            value_text(key.values@, name@) == value_text(key.values@.skip(at as int), name@),
        decreases key.values.len() - at,
    {
        let candidate = chars_of(key.values[at].name.as_str());
        assert(key.values@.skip(at as int).first() == key.values@[at as int]);
        if same_chars(candidate.as_slice(), wanted.as_slice()) {
            return coerce(&key.values[at]);
        }
        assert(key.values@.skip(at as int).drop_first() =~= key.values@.skip(at + 1));
        at += 1;
    }
    Vec::new()
}

/// The description of a key that was found, for a request that names no
/// value to compare with.
pub open spec fn key_message(request: RegistryParameters) -> Seq<char> {
    "Registry search: Found reg key "@ + request.key@ + seq!['\\'] + request.value_name@
        + " for IOC "@ + decimal(request.ioc_id as nat)
}

/// The description of a key whose value is the requested one.
pub open spec fn value_message(request: RegistryParameters) -> Seq<char> {
    "Registry search: Found reg key "@ + request.key@ + seq!['\\'] + request.value_name@ + " = "@
        + request.value->0@ + " for IOC "@ + decimal(request.ioc_id as nat)
}

/// What a key that fits is for a request: evidence where the request names
/// no value to compare with, or where the key's value of the requested name
/// has the requested text.
pub open spec fn value_outcome(request: RegistryParameters, key: RegistryKey) -> Option<Outcome> {
    match request.value {
        None => Some(
            Outcome::Found {
                ioc_id: request.ioc_id,
                ioc_entry_id: request.ioc_entry_id,
                description: key_message(request),
            },
        ),
        Some(wanted) => if wanted@ == value_text(key.values@, request.value_name@) {
            Some(
                Outcome::Found {
                    ioc_id: request.ioc_id,
                    ioc_entry_id: request.ioc_entry_id,
                    description: value_message(request),
                },
            )
        } else {
            None
        },
    }
}

/// A request with its pattern ready for use.
pub struct RegistryParametersRegexed {
    pub reg_param: RegistryParameters,
    pub regex: Option<CompiledPattern>,
}

impl RegistryParametersRegexed {
    /// The expression is there exactly for a regex search, and it is the
    /// request's key compiled.
    pub open spec fn well_formed(self) -> bool {
        is_prepared(self.reg_param.search_type, self.reg_param.key@, self.regex)
    }
}

/// What preparing one request came to.
pub type PreparedRegistry = Result<RegistryParametersRegexed, IocSearchError>;

/// `prepared` is what preparing `request` gives: the request ready for use,
/// unless it asks for a regex search and its key does not compile; then the
/// error of that pattern.
pub open spec fn prepared_for(request: RegistryParameters, prepared: PreparedRegistry) -> bool {
    &&& prepared is Ok <==> can_prepare(request.search_type, request.key@)
    &&& match prepared {
        Ok(ready) => ready.reg_param == request && ready.well_formed(),
        Err(error) => is_pattern_error(error, request.ioc_id, request.ioc_entry_id),
    }
}

/// `prepared` is what preparing `requests` one by one gives.
pub open spec fn is_preparation(
    requests: Seq<RegistryParameters>,
    prepared: Seq<PreparedRegistry>,
) -> bool {
    &&& prepared.len() == requests.len()
    &&& forall|i: int| 0 <= i < requests.len() ==> prepared_for(requests[i], #[trigger] prepared[i])
}

/// The requests of a list that are ready for use are well formed.
pub open spec fn all_well_formed(prepared: Seq<PreparedRegistry>) -> bool {
    forall|i: int|
        0 <= i < prepared.len() ==> ((#[trigger] prepared[i]) matches Ok(ready)
            ==> ready.well_formed())
}

/// Prepares the requests: compiles the key of each regex search.
pub fn prepare_registry(search_parameters: &Vec<RegistryParameters>) -> (prepared: Vec<
    PreparedRegistry,
>)
    ensures
        is_preparation(search_parameters@, prepared@),
{
    let mut prepared: Vec<PreparedRegistry> = Vec::new();
    let mut k: usize = 0;
    while k < search_parameters.len()
        invariant
            k <= search_parameters.len(),
            prepared.len() == k,
            forall|i: int|
                0 <= i < k ==> prepared_for(search_parameters@[i], #[trigger] prepared@[i]),
        decreases search_parameters.len() - k,
    {
        let request = &search_parameters[k];
        let entry: PreparedRegistry = match prepare(
            request.search_type,
            request.key.as_str(),
            request.ioc_id,
            request.ioc_entry_id,
        ) {
            Ok(regex) => Ok(RegistryParametersRegexed { reg_param: request.clone(), regex }),
            Err(error) => Err(error),
        };
        prepared.push(entry);
        k += 1;
    }
    prepared
}

/// A key that the deep search came upon fits a request: for an exact
/// search the requested key ends with the key's name, the case of ASCII
/// letters set aside; for a regex search the expression matches in the
/// key's full path.
pub open spec fn key_fits(request: RegistryParameters, key: RegistryKey) -> bool {
    match request.search_type {
        SearchType::Exact => lowercase(key.name@).is_suffix_of(lowercase(request.key@)),
        SearchType::Regex => regex_matches(request.key@, key.full_path@),
    }
}

/// What a key that the deep search came upon is for a request.
pub open spec fn key_outcome(request: RegistryParameters, key: RegistryKey) -> Option<Outcome> {
    if key_fits(request, key) {
        value_outcome(request, key)
    } else {
        None
    }
}

/// What opening its key is for a request: nothing for a regex search, and
/// nothing where the key could not be opened.
pub open spec fn direct_outcome(prepared: PreparedRegistry, probe: Option<RegistryKey>) -> Option<
    Outcome,
> {
    match (prepared, probe) {
        (Ok(ready), Some(key)) if ready.reg_param.search_type == SearchType::Exact => value_outcome(
            ready.reg_param,
            key,
        ),
        _ => None,
    }
}

/// The key that was opened for the request `i`; none where the list is too
/// short.
pub open spec fn probe_at(probes: Seq<Option<RegistryKey>>, i: int) -> Option<RegistryKey> {
    if 0 <= i < probes.len() {
        probes[i]
    } else {
        None
    }
}

/// The numbers from zero up to `n`, without `n`.
pub open spec fn indices(n: nat) -> Seq<int> {
    Seq::new(n, |i: int| i)
}

/// The prepared requests that are errors.
pub open spec fn registry_is_error() -> spec_fn(PreparedRegistry) -> bool {
    |prepared: PreparedRegistry| prepared is Err
}

/// The error of a request that could not be prepared.
pub open spec fn registry_error() -> spec_fn(PreparedRegistry) -> Outcome {
    |prepared: PreparedRegistry|
        Outcome::Failed { kind: prepared->Err_0.kind@, message: prepared->Err_0.message@ }
}

/// The requests, by number, for which opening the key gives an outcome.
pub open spec fn direct_keep(
    prepared: Seq<PreparedRegistry>,
    probes: Seq<Option<RegistryKey>>,
) -> spec_fn(int) -> bool {
    |i: int| 0 <= i < prepared.len() && direct_outcome(prepared[i], probe_at(probes, i)) is Some
}

/// The outcome of opening the key of the request `i`.
pub open spec fn direct_make(
    prepared: Seq<PreparedRegistry>,
    probes: Seq<Option<RegistryKey>>,
) -> spec_fn(int) -> Outcome {
    |i: int| direct_outcome(prepared[i], probe_at(probes, i))->0
}

/// The request `i` is ready for use and opening its key gave no evidence.
pub open spec fn open_after_probe(
    prepared: Seq<PreparedRegistry>,
    probes: Seq<Option<RegistryKey>>,
    i: int,
) -> bool {
    0 <= i < prepared.len() && prepared[i] is Ok && direct_outcome(
        prepared[i],
        probe_at(probes, i),
    ) is None
}

/// One of the first `upto` keys is evidence for the request.
pub open spec fn settled(request: RegistryParameters, keys: Seq<RegistryKey>, upto: int) -> bool {
    exists|j: int|
        0 <= j < upto && j < keys.len() && (#[trigger] key_outcome(request, keys[j])) is Some
}

/// The prepared request stands for a regex search: it is ready for use and
/// asks for one, or it is the error of a pattern, which only a regex search
/// has.
pub open spec fn asks_for_regex(prepared: PreparedRegistry) -> bool {
    match prepared {
        Ok(ready) => ready.reg_param.search_type == SearchType::Regex,
        Err(_) => true,
    }
}

/// Some request asks for a regex search.
pub open spec fn any_regex(prepared: Seq<PreparedRegistry>) -> bool {
    exists|i: int| 0 <= i < prepared.len() && asks_for_regex(#[trigger] prepared[i])
}

/// The requests, by number, for which the key `j` gives evidence in the
/// deep search: those still open when the key is come upon.
pub open spec fn deep_keep(
    prepared: Seq<PreparedRegistry>,
    probes: Seq<Option<RegistryKey>>,
    keys: Seq<RegistryKey>,
    j: int,
) -> spec_fn(int) -> bool {
    |i: int|
        open_after_probe(prepared, probes, i) && !settled(prepared[i]->Ok_0.reg_param, keys, j)
            && key_outcome(prepared[i]->Ok_0.reg_param, keys[j]) is Some
}

/// The evidence that the key `j` is for the request `i`.
pub open spec fn deep_make(prepared: Seq<PreparedRegistry>, keys: Seq<RegistryKey>, j: int) -> spec_fn(
    int,
) -> Outcome {
    |i: int| key_outcome(prepared[i]->Ok_0.reg_param, keys[j])->0
}

/// What one key of the deep search gives, in the order of the requests.
pub open spec fn deep_hits(
    prepared: Seq<PreparedRegistry>,
    probes: Seq<Option<RegistryKey>>,
    keys: Seq<RegistryKey>,
) -> spec_fn(int) -> Seq<Outcome> {
    |j: int|
        select(
            indices(prepared.len()),
            deep_keep(prepared, probes, keys, j),
            deep_make(prepared, keys, j),
        )
}

/// Whether the deep search takes place: it is switched on, and some
/// request asks for a regex search.
pub open spec fn walks_deep(prepared: Seq<PreparedRegistry>, deep_search_enabled: bool) -> bool {
    deep_search_enabled && any_regex(prepared)
}

/// What the registry search gives: first the errors of the requests that
/// could not be prepared; then what opening the requested keys gives,
/// request by request; then, where the deep search takes place, what the
/// keys that were come upon give, key by key, each for the requests that
/// no evidence was found for until then.
pub open spec fn registry_outcomes(
    prepared: Seq<PreparedRegistry>,
    deep_search_enabled: bool,
    probes: Seq<Option<RegistryKey>>,
    keys: Seq<RegistryKey>,
) -> Seq<Outcome> {
    select(prepared, registry_is_error(), registry_error()) + select(
        indices(prepared.len()),
        direct_keep(prepared, probes),
        direct_make(prepared, probes),
    ) + if walks_deep(prepared, deep_search_enabled) {
        collect(indices(keys.len()), deep_hits(prepared, probes, keys))
    } else {
        Seq::empty()
    }
}

/// What a key that fits is for a request; evidence is added to `result`.
pub fn check_by_value(
    search_parameter: &RegistryParameters,
    reg_entry: &RegistryKey,
    result: &mut Vec<SearchOutcome>,
) -> (is_evidence: bool)
    ensures
        outcomes_of(final(result)@) == match value_outcome(*search_parameter, *reg_entry) {
            Some(outcome) => outcomes_of(old(result)@).push(outcome),
            None => outcomes_of(old(result)@),
        },
        is_evidence == value_outcome(*search_parameter, *reg_entry) is Some,
{
    let mut message: Vec<char> = Vec::new();
    push_str(&mut message, "Registry search: Found reg key ");
    push_str(&mut message, search_parameter.key.as_str());
    message.push('\\');
    push_str(&mut message, search_parameter.value_name.as_str());
    match &search_parameter.value {
        None => {},
        Some(search_value) => {
            let reg_value = read_value(reg_entry, search_parameter.value_name.as_str());
            let wanted = chars_of(search_value.as_str());
            if !same_chars(wanted.as_slice(), reg_value.as_slice()) {
                return false;
            }
            push_str(&mut message, " = ");
            push_chars(&mut message, wanted.as_slice());
        },
    }
    push_str(&mut message, " for IOC ");
    push_decimal(&mut message, search_parameter.ioc_id);
    proof {
        if search_parameter.value is Some {
            assert(message@ =~= value_message(*search_parameter));
        } else {
            assert(message@ =~= key_message(*search_parameter));
        }
    }
    push_outcome(
        result,
        found(
            search_parameter.ioc_id,
            search_parameter.ioc_entry_id,
            string_of(message.as_slice()),
        ),
    );
    true
}

/// Whether the requested key ends with the name of a key.
pub fn check_by_name(search_parameter: &RegistryParameters, reg_entry: &RegistryKey) -> (fits: bool)
    requires
        search_parameter.search_type == SearchType::Exact,
    ensures
        fits == key_fits(*search_parameter, *reg_entry),
{
    let key = lowercase_chars(search_parameter.key.as_str());
    let name = lowercase_chars(reg_entry.name.as_str());
    ends_with(key.as_slice(), name.as_slice())
}

/// Whether the expression of a request matches in the full path of a key.
pub fn check_by_name_regex(ready: &RegistryParametersRegexed, reg_entry: &RegistryKey) -> (fits:
    bool)
    requires
        ready.reg_param.search_type == SearchType::Regex,
        ready.well_formed(),
    ensures
        fits == key_fits(ready.reg_param, *reg_entry),
{
    match &ready.regex {
        Some(regex) => regex.is_match(reg_entry.full_path.as_str()),
        None => false,
    }
}

/// Evidence among one key more settles a request if it was settled before
/// or that key is evidence for it.
pub proof fn lemma_settled_step(request: RegistryParameters, keys: Seq<RegistryKey>, upto: int)
    requires
        0 <= upto < keys.len(),
    ensures
        settled(request, keys, upto + 1) <==> settled(request, keys, upto) || key_outcome(
            request,
            keys[upto],
        ) is Some,
        !settled(request, keys, 0),
{
    if settled(request, keys, upto + 1) {
        let j = choose|j: int|
            0 <= j < upto + 1 && j < keys.len() && (#[trigger] key_outcome(request, keys[j])) is Some;
        if j < upto {
            assert(settled(request, keys, upto));
        }
    }
    if settled(request, keys, upto) {
        let j = choose|j: int|
            0 <= j < upto && j < keys.len() && (#[trigger] key_outcome(request, keys[j])) is Some;
        assert(0 <= j < upto + 1);
    }
}

/// Whether some request asks for a regex search.
pub fn has_regex_request(prepared: &Vec<PreparedRegistry>) -> (any: bool)
    ensures
        any == any_regex(prepared@),
{
    let mut k: usize = 0;
    while k < prepared.len()
        invariant
            k <= prepared.len(),
            forall|i: int|
                0 <= i < k ==> ((#[trigger] prepared@[i]) matches Ok(ready)
                    && ready.reg_param.search_type != SearchType::Regex),
        decreases prepared.len() - k,
    {
        match &prepared[k] {
            Err(_) => {
                return true;
            },
            Ok(ready) => match ready.reg_param.search_type {
                SearchType::Regex => {
                    return true;
                },
                SearchType::Exact => {},
            },
        }
        k += 1;
    }
    false
}

/// Matches the registry against the prepared requests. `probes` holds,
/// request by request, the key that the request names, if it could be
/// opened; `keys` holds the keys that the deep search came upon, in its
/// order.
pub fn match_registry(
    prepared: &Vec<PreparedRegistry>,
    deep_search_enabled: bool,
    probes: &[Option<RegistryKey>],
    keys: &[RegistryKey],
) -> (outcomes: Vec<SearchOutcome>)
    requires
        all_well_formed(prepared@),
    ensures
        outcomes_of(outcomes@) == registry_outcomes(prepared@, deep_search_enabled, probes@, keys@),
{
    let mut outcomes: Vec<SearchOutcome> = Vec::new();
    let ghost numbers = indices(prepared@.len());
    proof {
        lemma_select_ends(prepared@, registry_is_error(), registry_error());
        assert(outcomes_of(outcomes@) =~= Seq::<Outcome>::empty());
    }
    let mut k: usize = 0;
    while k < prepared.len()
        invariant
            k <= prepared.len(),
            outcomes_of(outcomes@) == select(
                prepared@.take(k as int),
                registry_is_error(),
                registry_error(),
            ),
        decreases prepared.len() - k,
    {
        proof {
            lemma_select_step(prepared@, k as int, registry_is_error(), registry_error());
        }
        match &prepared[k] {
            Ok(_) => {},
            Err(error) => {
                push_outcome(&mut outcomes, Err(error.clone()));
            },
        }
        k += 1;
    }
    let ghost errors = outcomes_of(outcomes@);
    let ghost keep = direct_keep(prepared@, probes@);
    let ghost make = direct_make(prepared@, probes@);
    proof {
        lemma_select_ends(prepared@, registry_is_error(), registry_error());
        lemma_select_ends(numbers, keep, make);
        assert(outcomes_of(outcomes@) =~= errors + Seq::<Outcome>::empty());
    }
    let mut closed: HashSet<usize> = HashSet::new();
    let mut k: usize = 0;
    while k < prepared.len()
        invariant
            k <= prepared.len(),
            all_well_formed(prepared@),
            numbers == indices(prepared@.len()),
            keep == direct_keep(prepared@, probes@),
            make == direct_make(prepared@, probes@),
            forall|i: usize| #[trigger] closed@.contains(i) ==> i < k,
            forall|i: usize|
                i < k ==> (#[trigger] closed@.contains(i)) != open_after_probe(
                    prepared@,
                    probes@,
                    i as int,
                ),
            outcomes_of(outcomes@) == errors + select(numbers.take(k as int), keep, make),
        decreases prepared.len() - k,
    {
        proof {
            lemma_select_step(numbers, k as int, keep, make);
            assert(numbers[k as int] == k);
        }
        let open = match &prepared[k] {
            Err(_) => false,
            Ok(ready) => match ready.reg_param.search_type {
                SearchType::Regex => true,
                SearchType::Exact => if k < probes.len() {
                    match &probes[k] {
                        Some(key) => !check_by_value(&ready.reg_param, key, &mut outcomes),
                        None => true,
                    }
                } else {
                    true
                },
            },
        };
        if !open {
            closed.insert(k);
        }
        k += 1;
        assert(outcomes_of(outcomes@) =~= errors + select(numbers.take(k as int), keep, make));
    }
    let ghost base = outcomes_of(outcomes@);
    proof {
        lemma_select_ends(numbers, keep, make);
    }
    if !deep_search_enabled || !has_regex_request(prepared) {
        assert(outcomes_of(outcomes@) =~= base + Seq::<Outcome>::empty());
        return outcomes;
    }
    let ghost key_numbers = indices(keys@.len());
    let ghost per_key = deep_hits(prepared@, probes@, keys@);
    proof {
        lemma_collect_ends(key_numbers, per_key);
        assert(outcomes_of(outcomes@) =~= base + Seq::<Outcome>::empty());
    }
    let mut at: usize = 0;
    while at < keys.len()
        invariant
            at <= keys.len(),
            all_well_formed(prepared@),
            numbers == indices(prepared@.len()),
            key_numbers == indices(keys@.len()),
            per_key == deep_hits(prepared@, probes@, keys@),
            forall|i: usize|
                i < prepared@.len() ==> (#[trigger] closed@.contains(i)) != (open_after_probe(
                    prepared@,
                    probes@,
                    i as int,
                ) && !settled(prepared@[i as int]->Ok_0.reg_param, keys@, at as int)),
            outcomes_of(outcomes@) == base + collect(key_numbers.take(at as int), per_key),
        decreases keys.len() - at,
    {
        let key = &keys[at];
        let ghost before = outcomes_of(outcomes@);
        let ghost keep = deep_keep(prepared@, probes@, keys@, at as int);
        let ghost make = deep_make(prepared@, keys@, at as int);
        proof {
            lemma_select_ends(numbers, keep, make);
            lemma_collect_step(key_numbers, at as int, per_key);
            assert(key_numbers[at as int] == at);
        }
        let mut k: usize = 0;
        while k < prepared.len()
            invariant
                k <= prepared.len(),
                at < keys.len(),
                *key == keys@[at as int],
                all_well_formed(prepared@),
                numbers == indices(prepared@.len()),
                keep == deep_keep(prepared@, probes@, keys@, at as int),
                make == deep_make(prepared@, keys@, at as int),
                    forall|i: usize|
                    i < k ==> (#[trigger] closed@.contains(i)) != (open_after_probe(
                        prepared@,
                        probes@,
                        i as int,
                    ) && !settled(prepared@[i as int]->Ok_0.reg_param, keys@, at + 1)),
                forall|i: usize|
                    k <= i < prepared@.len() ==> (#[trigger] closed@.contains(i)) != (
                    open_after_probe(prepared@, probes@, i as int) && !settled(prepared@[i as int]->Ok_0.reg_param, keys@, at as int)),
                outcomes_of(outcomes@) == before + select(numbers.take(k as int), keep, make),
            decreases prepared.len() - k,
        {
            proof {
                lemma_select_step(numbers, k as int, keep, make);
                assert(numbers[k as int] == k);
                if prepared@[k as int] is Ok {
                    lemma_settled_step(prepared@[k as int]->Ok_0.reg_param, keys@, at as int);
                }
            }
            if !closed.contains(&k) {
                match &prepared[k] {
                    Ok(ready) => {
                        let fits = match ready.reg_param.search_type {
                            SearchType::Exact => check_by_name(&ready.reg_param, key),
                            SearchType::Regex => check_by_name_regex(ready, key),
                        };
                        if fits {
                            if check_by_value(&ready.reg_param, key, &mut outcomes) {
                                closed.insert(k);
                            }
                        }
                    },
                    Err(_) => {},
                }
            }
            k += 1;
            assert(outcomes_of(outcomes@) =~= before + select(numbers.take(k as int), keep, make));
        }
        at += 1;
        assert(outcomes_of(outcomes@) =~= base + collect(key_numbers.take(at as int), per_key));
    }
    proof {
        lemma_collect_ends(key_numbers, per_key);
    }
    outcomes
}

/// Matches the registry against the requests: opens the requested keys
/// first and, where the deep search is on and some request asks for a
/// regex search, goes through the keys that were come upon for the
/// requests that are still open. A regex request whose pattern does not
/// compile gives an error and takes no further part; the others are not
/// affected.
pub fn check_registry(
    search_parameters: Vec<RegistryParameters>,
    deep_search_enabled: bool,
    probes: &[Option<RegistryKey>],
    keys: &[RegistryKey],
) -> (outcomes: Vec<SearchOutcome>)
    ensures
        exists|prepared: Seq<PreparedRegistry>|
            is_preparation(search_parameters@, prepared) && outcomes_of(outcomes@)
                == #[trigger] registry_outcomes(prepared, deep_search_enabled, probes@, keys@),
{
    let prepared = prepare_registry(&search_parameters);
    match_registry(&prepared, deep_search_enabled, probes, keys)
}

/// Without requests the search gives nothing, whatever the registry holds.
pub proof fn lemma_no_registry_requests(
    prepared: Seq<PreparedRegistry>,
    deep_search_enabled: bool,
    probes: Seq<Option<RegistryKey>>,
    keys: Seq<RegistryKey>,
)
    requires
        is_preparation(Seq::empty(), prepared),
    ensures
        registry_outcomes(prepared, deep_search_enabled, probes, keys) == Seq::<Outcome>::empty(),
{
    assert(prepared =~= Seq::<PreparedRegistry>::empty());
    assert(indices(0) =~= Seq::<int>::empty());
    lemma_select_from_nothing(registry_is_error(), registry_error());
    lemma_select_from_nothing(direct_keep(prepared, probes), direct_make(prepared, probes));
    let numbers = indices(keys.len());
    assert forall|j: int| 0 <= j < numbers.len() implies deep_hits(prepared, probes, keys)(
        #[trigger] numbers[j],
    ) == Seq::<Outcome>::empty() by {
        lemma_select_from_nothing(
            deep_keep(prepared, probes, keys, numbers[j]),
            deep_make(prepared, keys, numbers[j]),
        );
    }
    lemma_collect_of_nothing(numbers, deep_hits(prepared, probes, keys));
}

/// Some request is ready for use and opening its key gave no evidence for
/// it.
pub open spec fn any_open(
    prepared: Seq<PreparedRegistry>,
    probes: Seq<Option<RegistryKey>>,
) -> bool {
    exists|i: int| #[trigger] open_after_probe(prepared, probes, i)
}

/// Whether the hives have to be gone through: the deep search takes place,
/// and some request is still open after the requested keys were opened.
pub fn wants_walk(
    prepared: &Vec<PreparedRegistry>,
    deep_search_enabled: bool,
    probes: &[Option<RegistryKey>],
) -> (wanted: bool)
    requires
        all_well_formed(prepared@),
    ensures
        wanted == (walks_deep(prepared@, deep_search_enabled) && any_open(prepared@, probes@)),
{
    if !deep_search_enabled || !has_regex_request(prepared) {
        return false;
    }
    let mut scratch: Vec<SearchOutcome> = Vec::new();
    let mut k: usize = 0;
    while k < prepared.len()
        invariant
            k <= prepared.len(),
            walks_deep(prepared@, deep_search_enabled),
            forall|i: int| 0 <= i < k ==> !open_after_probe(prepared@, probes@, i),
        decreases prepared.len() - k,
    {
        match &prepared[k] {
            Err(_) => {},
            Ok(ready) => {
                let found = match ready.reg_param.search_type {
                    SearchType::Regex => false,
                    SearchType::Exact => if k < probes.len() {
                        match &probes[k] {
                            Some(key) => check_by_value(&ready.reg_param, key, &mut scratch),
                            None => false,
                        }
                    } else {
                        false
                    },
                };
                if !found {
                    assert(open_after_probe(prepared@, probes@, k as int));
                    return true;
                }
            },
        }
        k += 1;
    }
    false
}

/// Where the deep search does not take place or no request is open after
/// the requested keys were opened, the keys that a walk would come upon
/// add nothing: the walk can be left out.
pub proof fn lemma_walk_adds_nothing(
    prepared: Seq<PreparedRegistry>,
    deep_search_enabled: bool,
    probes: Seq<Option<RegistryKey>>,
    keys: Seq<RegistryKey>,
)
    requires
        !(walks_deep(prepared, deep_search_enabled) && any_open(prepared, probes)),
    ensures
        registry_outcomes(prepared, deep_search_enabled, probes, keys) == registry_outcomes(
            prepared,
            deep_search_enabled,
            probes,
            Seq::empty(),
        ),
{
    let none = Seq::<RegistryKey>::empty();
    if walks_deep(prepared, deep_search_enabled) {
        let numbers = indices(keys.len());
        assert forall|j: int| 0 <= j < numbers.len() implies deep_hits(prepared, probes, keys)(
            #[trigger] numbers[j],
        ) == Seq::<Outcome>::empty() by {
            let keep = deep_keep(prepared, probes, keys, numbers[j]);
            let make = deep_make(prepared, keys, numbers[j]);
            let requests = indices(prepared.len());
            assert forall|i: int| 0 <= i < requests.len() implies !keep(
                #[trigger] requests[i],
            ) by {
                assert(!open_after_probe(prepared, probes, requests[i]));
            }
            lemma_select_nothing_kept(requests, keep, make);
        }
        lemma_collect_of_nothing(numbers, deep_hits(prepared, probes, keys));
        assert(indices(none.len()) =~= Seq::<int>::empty());
        lemma_collect_of_nothing(indices(none.len()), deep_hits(prepared, probes, none));
    }
}

} // verus!
