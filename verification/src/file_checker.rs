//! Matches requested paths, names and digests against the files of the
//! host.

use crate::data::{
    clone_hash, clone_text, HashType, Hashed, IocEntryId, IocId, IocSearchError, SearchType,
};
use crate::dir_resolver::{is_separator, resolve, resolved, KnownFolders};
use crate::hasher::{names_algorithm, wants_algorithm, HashError};
use crate::ioc_evaluator::SearchOutcome;
use crate::pattern::{
    can_prepare, is_pattern_error, is_prepared, prepare, regex_matches, CompiledPattern,
};
use crate::query_result::{
    collect, found, lemma_collect_ends, lemma_collect_of_nothing, lemma_collect_step,
    lemma_select_ends, lemma_select_from_nothing, lemma_select_nothing_kept, lemma_select_step,
    outcomes_of, push_outcome, scope_of, scoped_error, select, Outcome,
};
use crate::text::{
    chars_of, decimal, lowercase, lowercase_chars, push_decimal, push_str, same_chars,
    string_of, texts,
};
use std::collections::HashSet;
use vstd::prelude::*;

verus! {

broadcast use vstd::std_specs::hash::group_hash_axioms;

/// A request to look for a file by path, by name or by digest.
#[derive(Debug)]
pub struct FileParameters {
    pub ioc_id: IocId,
    pub ioc_entry_id: IocEntryId,
    pub search_type: SearchType,
    pub file_path_or_name: Option<String>,
    pub hash: Option<Hashed>,
}

impl Clone for FileParameters {
    fn clone(&self) -> (copy: Self)
        ensures
            copy == *self,
    {
        FileParameters {
            ioc_id: self.ioc_id,
            ioc_entry_id: self.ioc_entry_id,
            search_type: self.search_type,
            file_path_or_name: clone_text(&self.file_path_or_name),
            hash: clone_hash(&self.hash),
        }
    }
}

/// The type that the system gives to a drive that is fixed in the machine.
pub const FIXED_DRIVE: u32 = 3;

/// The numbers of the drive letters, `A` being the first, that the bit field
/// of the system can name.
pub open spec fn drive_numbers() -> Seq<u32> {
    Seq::new(32, |i: int| i as u32)
}

/// The drives that are searched: those whose bit is set and whose type is
/// that of a fixed drive.
pub open spec fn drive_searched(bitfield: u32, drive_types: Seq<u32>) -> spec_fn(u32) -> bool {
    |number: u32|
        number < 32 && (bitfield >> number) & 1 == 1 && number < drive_types.len()
            && drive_types[number as int] == FIXED_DRIVE
}

/// The root directory of a drive by its number.
pub open spec fn drive_root() -> spec_fn(u32) -> Seq<char> {
    |number: u32| seq![(('A' as u8) + number) as char, ':', '\\']
}

/// The root directories of the drives that are searched, in the order of
/// their letters.
pub open spec fn fixed_drives(bitfield: u32, drive_types: Seq<u32>) -> Seq<Seq<char>> {
    select(drive_numbers(), drive_searched(bitfield, drive_types), drive_root())
}

/// The root directories under which files are searched: one for each fixed
/// drive. `bitfield` has a bit for each drive letter that is in use, the
/// lowest for `A`, and `drive_types` holds the type of each drive by its
/// number; a drive whose type is not given is not searched.
pub fn all_drives(bitfield: u32, drive_types: &[u32]) -> (logical_drives: Vec<String>)
    ensures
        texts(logical_drives@) == fixed_drives(bitfield, drive_types@),
{
    let mut logical_drives: Vec<String> = Vec::new();
    let ghost keep = drive_searched(bitfield, drive_types@);
    let ghost make = drive_root();
    proof {
        lemma_select_ends(drive_numbers(), keep, make);
        assert(texts(logical_drives@) =~= Seq::<Seq<char>>::empty());
    }
    let mut number: u32 = 0;
    while number < 32
        invariant
            number <= 32,
            keep == drive_searched(bitfield, drive_types@),
            make == drive_root(),
            texts(logical_drives@) == select(drive_numbers().take(number as int), keep, make),
        decreases 32 - number,
    {
        let ghost before = texts(logical_drives@);
        proof {
            lemma_select_step(drive_numbers(), number as int, keep, make);
            assert(drive_numbers()[number as int] == number);
        }
        let index = number as usize;
        if (bitfield >> number) & 1 == 1 && index < drive_types.len() && drive_types[index]
            == FIXED_DRIVE {
            let mut root: Vec<char> = Vec::new();
            root.push((('A' as u8) + (number as u8)) as char);
            root.push(':');
            root.push('\\');
            assert(root@ =~= make(number));
            logical_drives.push(string_of(root.as_slice()));
            assert(texts(logical_drives@) =~= before.push(root@));
        }
        number += 1;
    }
    proof {
        lemma_select_ends(drive_numbers(), keep, make);
    }
    logical_drives
}

/// A file as it was found: its full path, and the digests of its content
/// as far as they could be computed.
#[derive(Debug)]
pub struct FoundFile {
    pub path: String,
    pub md5: Result<Hashed, HashError>,
    pub sha1: Result<Hashed, HashError>,
    pub sha256: Result<Hashed, HashError>,
}

impl FoundFile {
    /// The digest of the content by the given algorithm.
    pub open spec fn digest(self, algorithm: HashType) -> Result<Hashed, HashError> {
        match algorithm {
            HashType::Md5 => self.md5,
            HashType::Sha1 => self.sha1,
            HashType::Sha256 => self.sha256,
        }
    }
}

/// A request ready for use: the tokens in its path replaced, the path split
/// into directory and name, the pattern of a regex search compiled.
pub struct FileParametersPrepared {
    pub file_param: FileParameters,
    pub searched_parent: Option<String>,
    pub searched_name: String,
    pub regex: Option<CompiledPattern>,
}

/// Where the name of the file begins in a path: behind the last separator,
/// at the start where the path has none.
pub open spec fn name_start(path: Seq<char>) -> int
    decreases path.len(),
{
    if path.len() == 0 {
        0
    } else if is_separator(path.last()) {
        path.len() as int
    } else {
        name_start(path.drop_last())
    }
}

/// The name of the file that a path leads to: what follows its last
/// separator, the whole path where it has none.
pub open spec fn name_of(path: Seq<char>) -> Seq<char> {
    path.skip(name_start(path))
}

/// The directory that a path names: what stands before its last separator;
/// none where the path has no separator.
pub open spec fn parent_of(path: Seq<char>) -> Option<Seq<char>> {
    if name_start(path) == 0 {
        None
    } else {
        Some(path.take(name_start(path) - 1))
    }
}

/// The name of the file begins within the path.
pub proof fn lemma_name_start_within(path: Seq<char>)
    ensures
        0 <= name_start(path) <= path.len(),
    decreases path.len(),
{
    if path.len() > 0 && !is_separator(path.last()) {
        lemma_name_start_within(path.drop_last());
    }
}

/// Divides a path into the directory and the name of the file.
pub fn split_path(path: &[char]) -> (parts: (Option<Vec<char>>, Vec<char>))
    ensures
        parts.0.deep_view() == parent_of(path@),
        parts.1@ == name_of(path@),
{
    let mut start: usize = path.len();
    assert(path@.take(start as int) =~= path@);
    while start > 0 && !(path[start - 1] == '\\' || path[start - 1] == '/')
        invariant
            start <= path.len(),
            name_start(path@) == name_start(path@.take(start as int)),
        decreases start,
    {
        assert(path@.take(start as int).drop_last() =~= path@.take(start - 1));
        start -= 1;
    }
    assert(name_start(path@) == start);
    let mut name: Vec<char> = Vec::new();
    let mut at: usize = start;
    while at < path.len()
        invariant
            start <= at <= path.len(),
            name@ == path@.subrange(start as int, at as int),
        decreases path.len() - at,
    {
        name.push(path[at]);
        at += 1;
        assert(name@ =~= path@.subrange(start as int, at as int));
    }
    assert(name@ =~= path@.skip(start as int));
    if start == 0 {
        return (None, name);
    }
    let mut parent: Vec<char> = Vec::new();
    let mut at: usize = 0;
    while at < start - 1
        invariant
            at <= start - 1 < path.len(),
            parent@ == path@.take(at as int),
        decreases start - 1 - at,
    {
        parent.push(path[at]);
        at += 1;
        assert(parent@ =~= path@.take(at as int));
    }
    let parts = (Some(parent), name);
    assert(parts.0.deep_view() =~= parent_of(path@)) by {
        assert(parent.deep_view() =~= parent@);
    }
    parts
}

/// The path or pattern that a request gives; empty where it gives none.
pub open spec fn searched_path(request: FileParameters) -> Seq<char> {
    match request.file_path_or_name {
        Some(path) => path@,
        None => Seq::empty(),
    }
}

impl FileParametersPrepared {
    /// The expression is there exactly for a regex search, and it is the
    /// request's pattern compiled; the directory and the name are those of
    /// the request's path.
    pub open spec fn well_formed(self) -> bool {
        &&& is_prepared(self.file_param.search_type, searched_path(self.file_param), self.regex)
        &&& self.searched_parent.deep_view() == parent_of(searched_path(self.file_param))
        &&& self.searched_name@ == name_of(searched_path(self.file_param))
    }
}

/// What preparing one request came to.
pub type PreparedFile = Result<FileParametersPrepared, IocSearchError>;

/// The path of a request once the tokens at its start are replaced; the
/// pattern of a regex search stays as it is.
pub open spec fn resolved_path(request: FileParameters, folders: KnownFolders) -> Option<Seq<char>> {
    match request.file_path_or_name {
        Some(path) => match request.search_type {
            SearchType::Exact => Some(resolved(path@, folders)),
            SearchType::Regex => Some(path@),
        },
        None => None,
    }
}

/// `prepared` is what preparing `request` gives: the request ready for use,
/// unless it asks for a regex search and its pattern does not compile; then
/// the error of that pattern.
pub open spec fn prepared_for(
    request: FileParameters,
    folders: KnownFolders,
    prepared: PreparedFile,
) -> bool {
    &&& prepared is Ok <==> can_prepare(request.search_type, searched_path(request))
    &&& match prepared {
        Ok(ready) => {
            &&& ready.file_param.ioc_id == request.ioc_id
            &&& ready.file_param.ioc_entry_id == request.ioc_entry_id
            &&& ready.file_param.search_type == request.search_type
            &&& ready.file_param.hash == request.hash
            &&& ready.file_param.file_path_or_name.deep_view() == resolved_path(request, folders)
            &&& ready.well_formed()
        },
        Err(error) => is_pattern_error(error, request.ioc_id, request.ioc_entry_id),
    }
}

/// `prepared` is what preparing `requests` one by one gives.
pub open spec fn is_preparation(
    requests: Seq<FileParameters>,
    folders: KnownFolders,
    prepared: Seq<PreparedFile>,
) -> bool {
    &&& prepared.len() == requests.len()
    &&& forall|i: int|
        0 <= i < requests.len() ==> prepared_for(requests[i], folders, #[trigger] prepared[i])
}

/// The requests of a list that are ready for use are well formed.
pub open spec fn all_well_formed(prepared: Seq<PreparedFile>) -> bool {
    forall|i: int|
        0 <= i < prepared.len() ==> ((#[trigger] prepared[i]) matches Ok(ready)
            ==> ready.well_formed())
}

/// Prepares one request.
pub fn prepare_file(request: &FileParameters, folders: &KnownFolders) -> (prepared: PreparedFile)
    ensures
        prepared_for(*request, *folders, prepared),
{
    let path: Option<String> = match &request.file_path_or_name {
        None => None,
        Some(path) => match request.search_type {
            SearchType::Exact => Some(resolve(path.clone(), folders)),
            SearchType::Regex => Some(path.clone()),
        },
    };
    let regex = match &path {
        Some(pattern) => prepare(
            request.search_type,
            pattern.as_str(),
            request.ioc_id,
            request.ioc_entry_id,
        ),
        None => prepare(request.search_type, "", request.ioc_id, request.ioc_entry_id),
    };
    proof {
        reveal_strlit("");
        assert(""@ =~= Seq::<char>::empty());
    }
    match regex {
        Err(error) => Err(error),
        Ok(regex) => {
            let chars = match &path {
                Some(path) => chars_of(path.as_str()),
                None => Vec::new(),
            };
            let (parent, name) = split_path(chars.as_slice());
            let searched_parent = match &parent {
                Some(directory) => {
                    assert(directory.deep_view() =~= directory@);
                    Some(string_of(directory.as_slice()))
                },
                None => None,
            };
            let searched_name = string_of(name.as_slice());
            assert(searched_parent.deep_view() == parent_of(chars@));
            assert(searched_name@ == name_of(chars@));
            Ok(
                FileParametersPrepared {
                    file_param: FileParameters {
                        ioc_id: request.ioc_id,
                        ioc_entry_id: request.ioc_entry_id,
                        search_type: request.search_type,
                        file_path_or_name: path,
                        hash: clone_hash(&request.hash),
                    },
                    searched_parent,
                    searched_name,
                    regex,
                },
            )
        },
    }
}

/// Prepares the requests.
pub fn prepare_files(search_parameters: &Vec<FileParameters>, folders: &KnownFolders) -> (prepared:
    Vec<PreparedFile>)
    ensures
        is_preparation(search_parameters@, *folders, prepared@),
{
    let mut prepared: Vec<PreparedFile> = Vec::new();
    let mut k: usize = 0;
    while k < search_parameters.len()
        invariant
            k <= search_parameters.len(),
            prepared.len() == k,
            forall|i: int|
                0 <= i < k ==> prepared_for(
                    search_parameters@[i],
                    *folders,
                    #[trigger] prepared@[i],
                ),
        decreases search_parameters.len() - k,
    {
        prepared.push(prepare_file(&search_parameters[k], folders));
        k += 1;
    }
    prepared
}

/// A request is looked up directly where it asks for an exact search and
/// gives a path.
pub open spec fn probed_directly(ready: FileParametersPrepared) -> bool {
    ready.file_param.search_type == SearchType::Exact && searched_path(ready.file_param).len() > 0
}

/// The path at which a prepared request is looked up directly, if it is.
pub open spec fn path_to_probe(prepared: PreparedFile) -> Option<Seq<char>> {
    match prepared {
        Ok(ready) if probed_directly(ready) => Some(searched_path(ready.file_param)),
        _ => None,
    }
}

/// The paths at which to look directly, request by request; none for a
/// request that is not looked up directly.
pub fn paths_to_probe(prepared: &Vec<PreparedFile>) -> (paths: Vec<Option<String>>)
    ensures
        paths.len() == prepared.len(),
        forall|i: int|
            0 <= i < prepared.len() ==> (#[trigger] paths@[i]).deep_view() == path_to_probe(
                prepared@[i],
            ),
{
    let mut paths: Vec<Option<String>> = Vec::new();
    let mut k: usize = 0;
    while k < prepared.len()
        invariant
            k <= prepared.len(),
            paths.len() == k,
            forall|i: int|
                0 <= i < k ==> (#[trigger] paths@[i]).deep_view() == path_to_probe(prepared@[i]),
        decreases prepared.len() - k,
    {
        let path: Option<String> = match &prepared[k] {
            Ok(ready) => match (&ready.file_param.search_type, &ready.file_param.file_path_or_name) {
                (SearchType::Exact, Some(path)) => if path.as_str().is_empty() {
                    None
                } else {
                    Some(path.clone())
                },
                _ => None,
            },
            Err(_) => None,
        };
        paths.push(path);
        k += 1;
    }
    paths
}

/// The description of a file that was found.
pub open spec fn file_message(path: Seq<char>, ioc_id: IocId) -> Seq<char> {
    "File search: Found "@ + path + " for IOC "@ + decimal(ioc_id as nat)
}

/// What a file whose name or path fits is for a request: evidence where the
/// request has no digest, or where the file's digest by the requested
/// algorithm is the requested one; an error where that digest could not be
/// computed.
pub open spec fn hash_outcome(request: FileParameters, file: FoundFile) -> Option<Outcome> {
    let evidence = Outcome::Found {
        ioc_id: request.ioc_id,
        ioc_entry_id: request.ioc_entry_id,
        description: file_message(file.path@, request.ioc_id),
    };
    match request.hash {
        None => Some(evidence),
        Some(wanted) => match file.digest(wanted.algorithm) {
            Ok(actual) => if actual.same_digest(wanted) {
                Some(evidence)
            } else {
                None
            },
            Err(error) => Some(
                Outcome::Failed {
                    kind: error.kind@,
                    message: scope_of(request.ioc_id, request.ioc_entry_id) + error.message@,
                },
            ),
        },
    }
}

/// The directory of a file is the requested one, the case of ASCII letters
/// set aside; a request that names no directory is met by every directory.
pub open spec fn directory_fits(wanted: Option<Seq<char>>, actual: Option<Seq<char>>) -> bool {
    match wanted {
        None => true,
        Some(directory) => actual matches Some(found) && lowercase(found) == lowercase(directory),
    }
}

/// The name or the path of a file fits a request.
///
/// A request without a path fits every file. Else, for an exact search the
/// file's name is the name that the requested path ends with, and the
/// file's directory is the directory that the requested path names where it
/// names one, the case of ASCII letters set aside in both; for a regex
/// search the expression matches in the file's name or in its path.
pub open spec fn name_fits(ready: FileParametersPrepared, file: FoundFile) -> bool {
    let wanted = searched_path(ready.file_param);
    wanted.len() == 0 || match ready.file_param.search_type {
        SearchType::Exact => directory_fits(parent_of(wanted), parent_of(file.path@)) && lowercase(
            name_of(wanted),
        ) == lowercase(name_of(file.path@)),
        SearchType::Regex => regex_matches(wanted, name_of(file.path@)) || regex_matches(
            wanted,
            file.path@,
        ),
    }
}

/// What a file that was come upon is for a request.
pub open spec fn file_outcome(ready: FileParametersPrepared, file: FoundFile) -> Option<Outcome> {
    if name_fits(ready, file) {
        hash_outcome(ready.file_param, file)
    } else {
        None
    }
}

/// What looking directly at its path is for a request: nothing where the
/// request is not looked up directly or no file is there.
pub open spec fn direct_outcome(prepared: PreparedFile, probe: Option<FoundFile>) -> Option<
    Outcome,
> {
    match (prepared, probe) {
        (Ok(ready), Some(file)) if probed_directly(ready) => hash_outcome(ready.file_param, file),
        _ => None,
    }
}

/// What was found at the path of the request `i`; nothing where the list is
/// too short.
pub open spec fn probe_at(probes: Seq<Option<FoundFile>>, i: int) -> Option<FoundFile> {
    if 0 <= i < probes.len() {
        probes[i]
    } else {
        None
    }
}

/// The numbers from zero up to `n`, without `n`.
pub open spec fn indices(n: nat) -> Seq<int> {
    Seq::new(n, |i: int| i)
}

/// The prepared requests that are errors.
pub open spec fn file_is_error() -> spec_fn(PreparedFile) -> bool {
    |prepared: PreparedFile| prepared is Err
}

/// The error of a request that could not be prepared.
pub open spec fn file_error() -> spec_fn(PreparedFile) -> Outcome {
    |prepared: PreparedFile|
        Outcome::Failed { kind: prepared->Err_0.kind@, message: prepared->Err_0.message@ }
}

/// The requests, by number, for which looking directly gives an outcome.
pub open spec fn direct_keep(prepared: Seq<PreparedFile>, probes: Seq<Option<FoundFile>>) -> spec_fn(
    int,
) -> bool {
    |i: int| 0 <= i < prepared.len() && direct_outcome(prepared[i], probe_at(probes, i)) is Some
}

/// The outcome of looking directly for the request `i`.
pub open spec fn direct_make(prepared: Seq<PreparedFile>, probes: Seq<Option<FoundFile>>) -> spec_fn(
    int,
) -> Outcome {
    |i: int| direct_outcome(prepared[i], probe_at(probes, i))->0
}

/// The request `i` is ready for use and looking directly gave no evidence
/// for it.
pub open spec fn open_after_probe(
    prepared: Seq<PreparedFile>,
    probes: Seq<Option<FoundFile>>,
    i: int,
) -> bool {
    0 <= i < prepared.len() && prepared[i] is Ok && !(direct_outcome(
        prepared[i],
        probe_at(probes, i),
    ) matches Some(Outcome::Found { .. }))
}

/// One of the first `upto` files is evidence for the request.
pub open spec fn settled(ready: FileParametersPrepared, files: Seq<FoundFile>, upto: int) -> bool {
    exists|j: int|
        0 <= j < upto && j < files.len() && (#[trigger] file_outcome(ready, files[j])) matches Some(
            Outcome::Found { .. },
        )
}

/// The requests, by number, for which the file `j` gives an outcome in the
/// deep search: those still open when the file is come upon.
pub open spec fn deep_keep(
    prepared: Seq<PreparedFile>,
    probes: Seq<Option<FoundFile>>,
    files: Seq<FoundFile>,
    j: int,
) -> spec_fn(int) -> bool {
    |i: int|
        open_after_probe(prepared, probes, i) && !settled(prepared[i]->Ok_0, files, j)
            && file_outcome(prepared[i]->Ok_0, files[j]) is Some
}

/// The outcome that the file `j` gives for the request `i`.
pub open spec fn deep_make(prepared: Seq<PreparedFile>, files: Seq<FoundFile>, j: int) -> spec_fn(
    int,
) -> Outcome {
    |i: int| file_outcome(prepared[i]->Ok_0, files[j])->0
}

/// What one file of the deep search gives, in the order of the requests.
pub open spec fn deep_hits(
    prepared: Seq<PreparedFile>,
    probes: Seq<Option<FoundFile>>,
    files: Seq<FoundFile>,
) -> spec_fn(int) -> Seq<Outcome> {
    |j: int|
        select(
            indices(prepared.len()),
            deep_keep(prepared, probes, files, j),
            deep_make(prepared, files, j),
        )
}

/// What the file search gives: first the errors of the requests that could
/// not be prepared; then what looking directly at the requested paths
/// gives, request by request; then, where the deep search is on, what the
/// files that were come upon give, file by file, each for the requests
/// that no evidence was found for until then.
pub open spec fn file_outcomes(
    prepared: Seq<PreparedFile>,
    deep_search_enabled: bool,
    probes: Seq<Option<FoundFile>>,
    files: Seq<FoundFile>,
) -> Seq<Outcome> {
    select(prepared, file_is_error(), file_error()) + select(
        indices(prepared.len()),
        direct_keep(prepared, probes),
        direct_make(prepared, probes),
    ) + if deep_search_enabled {
        collect(indices(files.len()), deep_hits(prepared, probes, files))
    } else {
        Seq::empty()
    }
}

/// What a file whose name or path fits is for a request; evidence is added
/// to `result`, and so is the error of a digest that could not be
/// computed.
pub fn check_file_by_hash(request: &FileParameters, file: &FoundFile, result: &mut Vec<SearchOutcome>) -> (is_evidence:
    bool)
    ensures
        outcomes_of(final(result)@) == match hash_outcome(*request, *file) {
            Some(outcome) => outcomes_of(old(result)@).push(outcome),
            None => outcomes_of(old(result)@),
        },
        is_evidence == (hash_outcome(*request, *file) matches Some(Outcome::Found { .. })),
{
    let matches = match &request.hash {
        None => true,
        Some(wanted) => {
            let file_hash = match wanted.algorithm {
                HashType::Md5 => &file.md5,
                HashType::Sha1 => &file.sha1,
                HashType::Sha256 => &file.sha256,
            };
            match file_hash {
                Ok(actual) => *actual == *wanted,
                Err(error) => {
                    push_outcome(
                        result,
                        Err(
                            scoped_error(
                                request.ioc_id,
                                request.ioc_entry_id,
                                error.kind.as_str(),
                                error.message.as_str(),
                            ),
                        ),
                    );
                    return false;
                },
            }
        },
    };
    if matches {
        let mut message: Vec<char> = Vec::new();
        push_str(&mut message, "File search: Found ");
        push_str(&mut message, file.path.as_str());
        push_str(&mut message, " for IOC ");
        push_decimal(&mut message, request.ioc_id);
        push_outcome(
            result,
            found(request.ioc_id, request.ioc_entry_id, string_of(message.as_slice())),
        );
    }
    matches
}

/// The characters in lower case.
fn lower(chars: &[char]) -> (lowered: Vec<char>)
    ensures
        lowered@ == lowercase(chars@),
{
    let text = string_of(chars);
    lowercase_chars(text.as_str())
}

/// Whether the name and the directory of a file are those of the requested
/// path.
pub fn check_file_by_name(ready: &FileParametersPrepared, file: &FoundFile) -> (fits: bool)
    requires
        ready.file_param.search_type == SearchType::Exact,
        ready.well_formed(),
    ensures
        fits == name_fits(*ready, *file),
{
    let is_empty = match &ready.file_param.file_path_or_name {
        Some(path) => path.as_str().is_empty(),
        None => true,
    };
    if is_empty {
        return true;
    }
    let path = chars_of(file.path.as_str());
    let (parent, name) = split_path(path.as_slice());
    match &ready.searched_parent {
        None => {},
        Some(directory) => {
            let wanted = lowercase_chars(directory.as_str());
            let same = match &parent {
                Some(found) => {
                    let actual = lower(found.as_slice());
                    assert(found.deep_view() =~= found@);
                    same_chars(actual.as_slice(), wanted.as_slice())
                },
                None => false,
            };
            if !same {
                return false;
            }
        },
    }
    let wanted = lowercase_chars(ready.searched_name.as_str());
    let actual = lower(name.as_slice());
    same_chars(actual.as_slice(), wanted.as_slice())
}

/// Whether the expression of a request matches in the name or in the path
/// of a file.
pub fn check_file_by_regex(ready: &FileParametersPrepared, file: &FoundFile) -> (fits: bool)
    requires
        ready.file_param.search_type == SearchType::Regex,
        ready.well_formed(),
    ensures
        fits == name_fits(*ready, *file),
{
    let is_empty = match &ready.file_param.file_path_or_name {
        Some(path) => path.as_str().is_empty(),
        None => true,
    };
    if is_empty {
        return true;
    }
    let path = chars_of(file.path.as_str());
    let (_, name) = split_path(path.as_slice());
    let file_name = string_of(name.as_slice());
    match &ready.regex {
        Some(regex) => regex.is_match(file_name.as_str()) || regex.is_match(file.path.as_str()),
        None => false,
    }
}

/// Whether the name or the path of a file fits a request.
pub fn file_fits(ready: &FileParametersPrepared, file: &FoundFile) -> (fits: bool)
    requires
        ready.well_formed(),
    ensures
        fits == name_fits(*ready, *file),
{
    match ready.file_param.search_type {
        SearchType::Exact => check_file_by_name(ready, file),
        SearchType::Regex => check_file_by_regex(ready, file),
    }
}

/// Evidence among one file more settles a request if it was settled before
/// or that file is evidence for it.
pub proof fn lemma_settled_step(ready: FileParametersPrepared, files: Seq<FoundFile>, upto: int)
    requires
        0 <= upto < files.len(),
    ensures
        settled(ready, files, upto + 1) <==> settled(ready, files, upto) || (file_outcome(
            ready,
            files[upto],
        ) matches Some(Outcome::Found { .. })),
        !settled(ready, files, 0),
{
    if settled(ready, files, upto + 1) {
        let j = choose|j: int|
            0 <= j < upto + 1 && j < files.len() && (#[trigger] file_outcome(
                ready,
                files[j],
            )) matches Some(Outcome::Found { .. });
        if j < upto {
            assert(settled(ready, files, upto));
        }
    }
    if settled(ready, files, upto) {
        let j = choose|j: int|
            0 <= j < upto && j < files.len() && (#[trigger] file_outcome(
                ready,
                files[j],
            )) matches Some(Outcome::Found { .. });
        assert(0 <= j < upto + 1);
    }
}

/// Matches the files of the host against the prepared requests. `probes`
/// holds, request by request, the file that stands at the requested path, if
/// one does; `files` holds the files that the deep search came upon, in its
/// order.
pub fn match_files(
    prepared: &Vec<PreparedFile>,
    deep_search_enabled: bool,
    probes: &[Option<FoundFile>],
    files: &[FoundFile],
) -> (outcomes: Vec<SearchOutcome>)
    requires
        all_well_formed(prepared@),
    ensures
        outcomes_of(outcomes@) == file_outcomes(prepared@, deep_search_enabled, probes@, files@),
{
    let mut outcomes: Vec<SearchOutcome> = Vec::new();
    let ghost numbers = indices(prepared@.len());
    proof {
        lemma_select_ends(prepared@, file_is_error(), file_error());
        assert(outcomes_of(outcomes@) =~= Seq::<Outcome>::empty());
    }
    let mut k: usize = 0;
    while k < prepared.len()
        invariant
            k <= prepared.len(),
            outcomes_of(outcomes@) == select(prepared@.take(k as int), file_is_error(), file_error()),
        decreases prepared.len() - k,
    {
        proof {
            lemma_select_step(prepared@, k as int, file_is_error(), file_error());
        }
        match &prepared[k] {
            Ok(_) => {},
            Err(error) => {
                push_outcome(&mut outcomes, Err(error.clone()));
            },
        }
        k += 1;
    }
    let ghost errors = outcomes_of(outcomes@);
    let ghost keep = direct_keep(prepared@, probes@);
    let ghost make = direct_make(prepared@, probes@);
    proof {
        lemma_select_ends(prepared@, file_is_error(), file_error());
        lemma_select_ends(numbers, keep, make);
        assert(outcomes_of(outcomes@) =~= errors + Seq::<Outcome>::empty());
    }
    let mut closed: HashSet<usize> = HashSet::new();
    let mut k: usize = 0;
    while k < prepared.len()
        invariant
            k <= prepared.len(),
            all_well_formed(prepared@),
            numbers == indices(prepared@.len()),
            keep == direct_keep(prepared@, probes@),
            make == direct_make(prepared@, probes@),
            forall|i: usize| #[trigger] closed@.contains(i) ==> i < k,
            forall|i: usize|
                i < k ==> (#[trigger] closed@.contains(i)) != open_after_probe(
                    prepared@,
                    probes@,
                    i as int,
                ),
            outcomes_of(outcomes@) == errors + select(numbers.take(k as int), keep, make),
        decreases prepared.len() - k,
    {
        let ghost before = outcomes_of(outcomes@);
        proof {
            lemma_select_step(numbers, k as int, keep, make);
            assert(numbers[k as int] == k);
        }
        let open = match &prepared[k] {
            Err(_) => false,
            Ok(ready) => {
                let looked_up = match (&ready.file_param.search_type, &ready.file_param.file_path_or_name) {
                    (SearchType::Exact, Some(path)) => !path.as_str().is_empty(),
                    _ => false,
                };
                if looked_up && k < probes.len() {
                    match &probes[k] {
                        Some(file) => !check_file_by_hash(&ready.file_param, file, &mut outcomes),
                        None => true,
                    }
                } else {
                    true
                }
            },
        };
        if !open {
            closed.insert(k);
        }
        k += 1;
        assert(outcomes_of(outcomes@) =~= errors + select(numbers.take(k as int), keep, make));
    }
    let ghost base = outcomes_of(outcomes@);
    proof {
        lemma_select_ends(numbers, keep, make);
    }
    if !deep_search_enabled {
        assert(outcomes_of(outcomes@) =~= base + Seq::<Outcome>::empty());
        return outcomes;
    }
    let ghost file_numbers = indices(files@.len());
    let ghost per_file = deep_hits(prepared@, probes@, files@);
    proof {
        lemma_collect_ends(file_numbers, per_file);
        assert(outcomes_of(outcomes@) =~= base + Seq::<Outcome>::empty());
        assert forall|i: int| 0 <= i < prepared@.len() && prepared@[i] is Ok implies !settled(
            prepared@[i]->Ok_0,
            files@,
            0,
        ) by {}
    }
    let mut at: usize = 0;
    while at < files.len()
        invariant
            at <= files.len(),
            all_well_formed(prepared@),
            numbers == indices(prepared@.len()),
            file_numbers == indices(files@.len()),
            per_file == deep_hits(prepared@, probes@, files@),
            forall|i: usize|
                i < prepared@.len() ==> (#[trigger] closed@.contains(i)) != (open_after_probe(
                    prepared@,
                    probes@,
                    i as int,
                ) && !settled(prepared@[i as int]->Ok_0, files@, at as int)),
            outcomes_of(outcomes@) == base + collect(file_numbers.take(at as int), per_file),
        decreases files.len() - at,
    {
        let file = &files[at];
        let ghost before = outcomes_of(outcomes@);
        let ghost keep = deep_keep(prepared@, probes@, files@, at as int);
        let ghost make = deep_make(prepared@, files@, at as int);
        proof {
            lemma_select_ends(numbers, keep, make);
            lemma_collect_step(file_numbers, at as int, per_file);
            assert(file_numbers[at as int] == at);
        }
        let mut k: usize = 0;
        while k < prepared.len()
            invariant
                k <= prepared.len(),
                at < files.len(),
                *file == files@[at as int],
                all_well_formed(prepared@),
                numbers == indices(prepared@.len()),
                keep == deep_keep(prepared@, probes@, files@, at as int),
                make == deep_make(prepared@, files@, at as int),
                    forall|i: usize|
                    i < k ==> (#[trigger] closed@.contains(i)) != (open_after_probe(
                        prepared@,
                        probes@,
                        i as int,
                    ) && !settled(prepared@[i as int]->Ok_0, files@, at + 1)),
                forall|i: usize|
                    k <= i < prepared@.len() ==> (#[trigger] closed@.contains(i)) != (
                    open_after_probe(prepared@, probes@, i as int) && !settled(prepared@[i as int]->Ok_0, files@, at as int)),
                outcomes_of(outcomes@) == before + select(numbers.take(k as int), keep, make),
            decreases prepared.len() - k,
        {
            proof {
                lemma_select_step(numbers, k as int, keep, make);
                assert(numbers[k as int] == k);
                if prepared@[k as int] is Ok {
                    lemma_settled_step(prepared@[k as int]->Ok_0, files@, at as int);
                }
            }
            if !closed.contains(&k) {
                match &prepared[k] {
                    Ok(ready) => {
                        if file_fits(ready, file) {
                            if check_file_by_hash(&ready.file_param, file, &mut outcomes) {
                                closed.insert(k);
                            }
                        }
                    },
                    Err(_) => {},
                }
            }
            k += 1;
            assert(outcomes_of(outcomes@) =~= before + select(numbers.take(k as int), keep, make));
        }
        at += 1;
        assert(outcomes_of(outcomes@) =~= base + collect(file_numbers.take(at as int), per_file));
    }
    proof {
        lemma_collect_ends(file_numbers, per_file);
    }
    outcomes
}

/// Matches the files of the host against the requests: looks at the
/// requested paths first and, where the deep search is on, goes through
/// the files that were come upon for the requests that are still open. A
/// regex request whose pattern does not compile gives an error and takes
/// no further part; the others are not affected.
pub fn check_files(
    search_parameters: Vec<FileParameters>,
    deep_search_enabled: bool,
    folders: &KnownFolders,
    probes: &[Option<FoundFile>],
    files: &[FoundFile],
) -> (outcomes: Vec<SearchOutcome>)
    ensures
        exists|prepared: Seq<PreparedFile>|
            is_preparation(search_parameters@, *folders, prepared) && outcomes_of(outcomes@)
                == #[trigger] file_outcomes(prepared, deep_search_enabled, probes@, files@),
{
    let prepared = prepare_files(&search_parameters, folders);
    match_files(&prepared, deep_search_enabled, probes, files)
}

/// The digests that the requests name, request by request.
pub open spec fn wanted_digests(requests: Seq<FileParameters>) -> Seq<Option<Hashed>> {
    requests.map_values(|request: FileParameters| request.hash)
}

/// Whether some request names a digest by the given algorithm: only then
/// is that digest of a file of any use.
pub fn wants_digest(search_parameters: &[FileParameters], algorithm: HashType) -> (wanted: bool)
    ensures
        wanted == names_algorithm(wanted_digests(search_parameters@), algorithm),
{
    let mut at: usize = 0;
    while at < search_parameters.len()
        invariant
            at <= search_parameters.len(),
            forall|i: int|
                0 <= i < at ==> !((#[trigger] wanted_digests(search_parameters@)[i]) matches Some(
                    hash,
                ) && hash.algorithm == algorithm),
        decreases search_parameters.len() - at,
    {
        if wants_algorithm(&search_parameters[at].hash, algorithm) {
            assert(wanted_digests(search_parameters@)[at as int] == search_parameters@[at as int].hash);
            return true;
        }
        at += 1;
    }
    false
}

/// Without requests the search gives nothing, whatever files there are.
pub proof fn lemma_no_file_requests(
    prepared: Seq<PreparedFile>,
    folders: KnownFolders,
    deep_search_enabled: bool,
    probes: Seq<Option<FoundFile>>,
    files: Seq<FoundFile>,
)
    requires
        is_preparation(Seq::empty(), folders, prepared),
    ensures
        file_outcomes(prepared, deep_search_enabled, probes, files) == Seq::<Outcome>::empty(),
{
    assert(prepared =~= Seq::<PreparedFile>::empty());
    assert(indices(0) =~= Seq::<int>::empty());
    lemma_select_from_nothing(file_is_error(), file_error());
    lemma_select_from_nothing(direct_keep(prepared, probes), direct_make(prepared, probes));
    let numbers = indices(files.len());
    assert forall|j: int| 0 <= j < numbers.len() implies deep_hits(prepared, probes, files)(
        #[trigger] numbers[j],
    ) == Seq::<Outcome>::empty() by {
        lemma_select_from_nothing(
            deep_keep(prepared, probes, files, numbers[j]),
            deep_make(prepared, files, numbers[j]),
        );
    }
    lemma_collect_of_nothing(numbers, deep_hits(prepared, probes, files));
}

/// Some request is ready for use and looking directly gave no evidence for
/// it.
pub open spec fn any_open(prepared: Seq<PreparedFile>, probes: Seq<Option<FoundFile>>) -> bool {
    exists|i: int| #[trigger] open_after_probe(prepared, probes, i)
}

/// Whether the files of the host have to be gone through: the deep search
/// is on, and some request is still open after the look at the requested
/// paths.
pub fn wants_walk(
    prepared: &Vec<PreparedFile>,
    deep_search_enabled: bool,
    probes: &[Option<FoundFile>],
) -> (wanted: bool)
    requires
        all_well_formed(prepared@),
    ensures
        wanted == (deep_search_enabled && any_open(prepared@, probes@)),
{
    if !deep_search_enabled {
        return false;
    }
    let mut scratch: Vec<SearchOutcome> = Vec::new();
    let mut k: usize = 0;
    while k < prepared.len()
        invariant
            k <= prepared.len(),
            deep_search_enabled,
            forall|i: int| 0 <= i < k ==> !open_after_probe(prepared@, probes@, i),
        decreases prepared.len() - k,
    {
        match &prepared[k] {
            Err(_) => {},
            Ok(ready) => {
                let looked_up = match (&ready.file_param.search_type, &ready.file_param.file_path_or_name) {
                    (SearchType::Exact, Some(path)) => !path.as_str().is_empty(),
                    _ => false,
                };
                let found = if looked_up && k < probes.len() {
                    match &probes[k] {
                        Some(file) => check_file_by_hash(&ready.file_param, file, &mut scratch),
                        None => false,
                    }
                } else {
                    false
                };
                if !found {
                    assert(open_after_probe(prepared@, probes@, k as int));
                    return true;
                }
            },
        }
        k += 1;
    }
    false
}

/// Where no request is open after the look at the requested paths, the
/// files that a walk would come upon add nothing: the walk can be left
/// out.
pub proof fn lemma_walk_adds_nothing(
    prepared: Seq<PreparedFile>,
    deep_search_enabled: bool,
    probes: Seq<Option<FoundFile>>,
    files: Seq<FoundFile>,
)
    requires
        !(deep_search_enabled && any_open(prepared, probes)),
    ensures
        file_outcomes(prepared, deep_search_enabled, probes, files) == file_outcomes(
            prepared,
            deep_search_enabled,
            probes,
            Seq::empty(),
        ),
{
    let none = Seq::<FoundFile>::empty();
    if deep_search_enabled {
        let numbers = indices(files.len());
        assert forall|j: int| 0 <= j < numbers.len() implies deep_hits(prepared, probes, files)(
            #[trigger] numbers[j],
        ) == Seq::<Outcome>::empty() by {
            let keep = deep_keep(prepared, probes, files, numbers[j]);
            let make = deep_make(prepared, files, numbers[j]);
            let requests = indices(prepared.len());
            assert forall|i: int| 0 <= i < requests.len() implies !keep(
                #[trigger] requests[i],
            ) by {
                assert(!open_after_probe(prepared, probes, requests[i]));
            }
            lemma_select_nothing_kept(requests, keep, make);
        }
        lemma_collect_of_nothing(numbers, deep_hits(prepared, probes, files));
        assert(indices(none.len()) =~= Seq::<int>::empty());
        lemma_collect_of_nothing(indices(none.len()), deep_hits(prepared, probes, none));
    }
}

} // verus!
