//! The indicator definitions as they arrive, and the records that a scan
//! hands on.

use crate::text::{eq_ignore_ascii_case, lowercase, push_str, string_of};
use std::cmp::Ordering;
use vstd::prelude::*;

verus! {

/// Identifies a top-level indicator.
pub type IocId = u64;

/// Identifies one node of one indicator's definition tree within a run.
pub type IocEntryId = u64;

/// The digest algorithms in which a hash constraint can be given.
#[derive(Clone, Copy, Debug, PartialEq, Eq, Hash, Structural)]
pub enum HashType {
    Md5,
    Sha1,
    Sha256,
}

impl HashType {
    /// The algorithm's name as it is shown in messages.
    pub open spec fn name(self) -> Seq<char> {
        match self {
            HashType::Md5 => "Md5"@,
            HashType::Sha1 => "Sha1"@,
            HashType::Sha256 => "Sha256"@,
        }
    }

    /// The algorithm's name as it is shown in messages.
    pub fn to_string(&self) -> (name: String)
        ensures
            name@ == self.name(),
    {
        match self {
            HashType::Md5 => "Md5".to_string(),
            HashType::Sha1 => "Sha1".to_string(),
            HashType::Sha256 => "Sha256".to_string(),
        }
    }
}

/// How the pattern of a request is compared with what is found.
#[derive(Clone, Copy, Debug, PartialEq, Eq, Hash, Structural)]
pub enum SearchType {
    Exact,
    Regex,
}

impl SearchType {
    /// The search type of a check that names none.
    pub fn default() -> (search: SearchType)
        ensures
            search == SearchType::Exact,
    {
        SearchType::Exact
    }
}

/// How a node combines verdicts: every one of them, or at least one.
#[derive(Clone, Copy, Debug, PartialEq, Eq, Hash, Structural)]
pub enum EvaluationPolicy {
    All,
    One,
}

impl EvaluationPolicy {
    /// The policy of a definition that names none.
    pub fn default() -> (policy: EvaluationPolicy)
        ensures
            policy == EvaluationPolicy::One,
    {
        EvaluationPolicy::One
    }
}

/// Why one search request, or one item looked at for it, gave no answer.
#[derive(Debug, Hash)]
pub struct IocSearchError {
    pub kind: String,
    pub message: String,
}

impl Clone for IocSearchError {
    fn clone(&self) -> (copy: Self)
        ensures
            copy == *self,
    {
        IocSearchError { kind: self.kind.clone(), message: self.message.clone() }
    }
}

impl IocSearchError {
    /// The error as one line of text.
    pub open spec fn text(self) -> Seq<char> {
        "IocError(kind: "@ + self.kind@ + ", message: "@ + self.message@ + ")"@
    }

    /// The error as one line of text.
    pub fn to_string(&self) -> (line: String)
        ensures
            line@ == self.text(),
    {
        let mut out: Vec<char> = Vec::new();
        push_str(&mut out, "IocError(kind: ");
        push_str(&mut out, self.kind.as_str());
        push_str(&mut out, ", message: ");
        push_str(&mut out, self.message.as_str());
        push_str(&mut out, ")");
        string_of(out.as_slice())
    }
}

/// A digest of some content: the algorithm, and the value in hexadecimal.
#[derive(Debug, Hash, Eq)]
pub struct Hashed {
    pub algorithm: HashType,
    pub value: String,
}

impl Hashed {
    /// The two digests are by the same algorithm, and their values differ at
    /// most in the case of their letters.
    pub open spec fn same_digest(self, other: Hashed) -> bool {
        self.algorithm == other.algorithm && lowercase(self.value@) == lowercase(other.value@)
    }
}

impl Clone for Hashed {
    fn clone(&self) -> (copy: Self)
        ensures
            copy == *self,
    {
        Hashed { algorithm: self.algorithm, value: self.value.clone() }
    }
}

impl PartialEq for Hashed {
    /// Two digests are equal where the algorithm is the same and the values
    /// differ at most in the case of their letters.
    fn eq(&self, other: &Self) -> (same: bool) {
        match (self.algorithm, other.algorithm) {
            (HashType::Md5, HashType::Md5) => {},
            (HashType::Sha1, HashType::Sha1) => {},
            (HashType::Sha256, HashType::Sha256) => {},
            _ => {
                return false;
            },
        }
        eq_ignore_ascii_case(self.value.as_str(), other.value.as_str())
    }
}

impl vstd::std_specs::cmp::PartialEqSpecImpl for Hashed {
    open spec fn obeys_eq_spec() -> bool {
        true
    }

    open spec fn eq_spec(&self, other: &Self) -> bool {
        self.same_digest(*other)
    }
}

/// A registry check: a value under a key, and what it should hold.
#[derive(Debug, Hash, PartialEq, Eq)]
pub struct RegistryInfo {
    pub search: SearchType,
    pub key: String,
    pub value_name: String,
    pub value: Option<String>,
}

/// A file check: a name or path, a digest, or both.
#[derive(Debug, Hash, PartialEq, Eq)]
pub struct FileInfo {
    pub search: SearchType,
    pub name: Option<String>,
    pub hash: Option<Hashed>,
}

/// A check of the resolver cache for a host name.
#[derive(Debug, Hash, PartialEq, Eq)]
pub struct DnsInfo {
    pub name: String,
}

/// A check of the trusted root certificates for a subject.
#[derive(Debug, Hash, PartialEq, Eq)]
pub struct CertsInfo {
    pub name: String,
}

/// A check of the named mutexes.
#[derive(Debug, Hash, PartialEq, Eq)]
pub struct MutexInfo {
    pub name: String,
}

/// A check of the open connections for a remote host name.
#[derive(Debug, Hash, PartialEq, Eq)]
pub struct ConnectionsInfo {
    pub search: SearchType,
    pub name: String,
}

/// A check of the running processes: a name, a digest of the executable, or
/// both.
#[derive(Debug, Hash, PartialEq, Eq)]
pub struct ProcessInfo {
    pub search: SearchType,
    pub hash: Option<Hashed>,
    pub name: Option<String>,
}

/// A copy of an optional string.
pub fn clone_text(text: &Option<String>) -> (copy: Option<String>)
    ensures
        copy == *text,
{
    match text {
        Some(s) => Some(s.clone()),
        None => None,
    }
}

/// A copy of an optional digest.
pub fn clone_hash(hash: &Option<Hashed>) -> (copy: Option<Hashed>)
    ensures
        copy == *hash,
{
    match hash {
        Some(h) => Some(h.clone()),
        None => None,
    }
}

impl Clone for RegistryInfo {
    fn clone(&self) -> (copy: Self)
        ensures
            copy == *self,
    {
        RegistryInfo {
            search: self.search,
            key: self.key.clone(),
            value_name: self.value_name.clone(),
            value: clone_text(&self.value),
        }
    }
}

impl Clone for FileInfo {
    fn clone(&self) -> (copy: Self)
        ensures
            copy == *self,
    {
        FileInfo { search: self.search, name: clone_text(&self.name), hash: clone_hash(&self.hash) }
    }
}

impl Clone for DnsInfo {
    fn clone(&self) -> (copy: Self)
        ensures
            copy == *self,
    {
        DnsInfo { name: self.name.clone() }
    }
}

impl Clone for CertsInfo {
    fn clone(&self) -> (copy: Self)
        ensures
            copy == *self,
    {
        CertsInfo { name: self.name.clone() }
    }
}

impl Clone for MutexInfo {
    fn clone(&self) -> (copy: Self)
        ensures
            copy == *self,
    {
        MutexInfo { name: self.name.clone() }
    }
}

impl Clone for ConnectionsInfo {
    fn clone(&self) -> (copy: Self)
        ensures
            copy == *self,
    {
        ConnectionsInfo { search: self.search, name: self.name.clone() }
    }
}

impl Clone for ProcessInfo {
    fn clone(&self) -> (copy: Self)
        ensures
            copy == *self,
    {
        ProcessInfo { search: self.search, hash: clone_hash(&self.hash), name: clone_text(&self.name) }
    }
}

/// One node of a definition tree: two policies, any of the seven checks, and
/// the nodes below it.
#[derive(Debug, Hash, PartialEq, Eq)]
pub struct IocEntry {
    pub eval_policy: EvaluationPolicy,
    pub name: Option<String>,
    pub child_eval_policy: EvaluationPolicy,
    pub offspring: Option<Vec<IocEntry>>,
    pub registry_check: Option<RegistryInfo>,
    pub file_check: Option<FileInfo>,
    pub mutex_check: Option<MutexInfo>,
    pub process_check: Option<ProcessInfo>,
    pub dns_check: Option<DnsInfo>,
    pub conns_check: Option<ConnectionsInfo>,
    pub certs_check: Option<CertsInfo>,
}

impl IocEntry {
    /// The nodes directly below this one, in order; none for a leaf.
    pub open spec fn children(self) -> Seq<IocEntry> {
        match self.offspring {
            Some(nodes) => nodes@,
            None => Seq::empty(),
        }
    }
}

/// A node directly below another is smaller than it: what recursion over a
/// tree goes by.
pub proof fn lemma_child_is_smaller(entry: IocEntry, k: int)
    requires
        0 <= k < entry.children().len(),
    ensures
        decreases_to!(entry => entry.children()[k]),
{
    assert(decreases_to!(entry => entry.offspring));
    assert(decreases_to!(entry.offspring => entry.offspring->0));
    assert(decreases_to!(entry.offspring->0 => entry.offspring->0@));
    assert(decreases_to!(entry.offspring->0@ => entry.offspring->0@[k]));
}

/// Two trees are alike: node by node the same policies, names and checks.
pub open spec fn same_tree(a: IocEntry, b: IocEntry) -> bool
    decreases a,
{
    &&& a.eval_policy == b.eval_policy
    &&& a.name == b.name
    &&& a.child_eval_policy == b.child_eval_policy
    &&& a.offspring is Some == b.offspring is Some
    &&& a.registry_check == b.registry_check
    &&& a.file_check == b.file_check
    &&& a.mutex_check == b.mutex_check
    &&& a.process_check == b.process_check
    &&& a.dns_check == b.dns_check
    &&& a.conns_check == b.conns_check
    &&& a.certs_check == b.certs_check
    &&& a.children().len() == b.children().len()
    &&& forall|i: int|
        0 <= i < a.children().len() ==> same_tree(#[trigger] a.children()[i], b.children()[i])
}

/// A copy of a tree.
pub fn clone_entry(entry: &IocEntry) -> (copy: IocEntry)
    ensures
        same_tree(*entry, copy),
    decreases entry,
{
    let offspring = match &entry.offspring {
        None => None,
        Some(nodes) => {
            let mut copies: Vec<IocEntry> = Vec::new();
            let mut at: usize = 0;
            while at < nodes.len()
                invariant
                    at <= nodes.len(),
                    entry.offspring == Some(*nodes),
                    copies.len() == at,
                    forall|i: int| 0 <= i < at ==> same_tree(#[trigger] nodes@[i], copies@[i]),
                decreases nodes.len() - at,
            {
                proof {
                    assert(entry.children() == nodes@);
                    lemma_child_is_smaller(*entry, at as int);
                }
                let copy = clone_entry(&nodes[at]);
                copies.push(copy);
                at += 1;
            }
            Some(copies)
        },
    };
    IocEntry {
        eval_policy: entry.eval_policy,
        name: clone_text(&entry.name),
        child_eval_policy: entry.child_eval_policy,
        offspring,
        registry_check: match &entry.registry_check {
            Some(check) => Some(check.clone()),
            None => None,
        },
        file_check: match &entry.file_check {
            Some(check) => Some(check.clone()),
            None => None,
        },
        mutex_check: match &entry.mutex_check {
            Some(check) => Some(check.clone()),
            None => None,
        },
        process_check: match &entry.process_check {
            Some(check) => Some(check.clone()),
            None => None,
        },
        dns_check: match &entry.dns_check {
            Some(check) => Some(check.clone()),
            None => None,
        },
        conns_check: match &entry.conns_check {
            Some(check) => Some(check.clone()),
            None => None,
        },
        certs_check: match &entry.certs_check {
            Some(check) => Some(check.clone()),
            None => None,
        },
    }
}

impl Clone for IocEntry {
    fn clone(&self) -> (copy: Self)
        ensures
            same_tree(*self, copy),
    {
        clone_entry(self)
    }
}

/// A top-level indicator: its id, a display name, and its definition tree.
#[derive(Debug, Hash)]
pub struct Ioc {
    pub id: IocId,
    pub name: Option<String>,
    pub definition: IocEntry,
}

impl Clone for Ioc {
    fn clone(&self) -> (copy: Self)
        ensures
            copy.id == self.id,
            copy.name == self.name,
            same_tree(self.definition, copy.definition),
    {
        Ioc { id: self.id, name: clone_text(&self.name), definition: clone_entry(&self.definition) }
    }
}

impl PartialEq for Ioc {
    /// Two indicators are the same where their ids are.
    fn eq(&self, other: &Self) -> (same: bool) {
        self.id == other.id
    }
}

impl vstd::std_specs::cmp::PartialEqSpecImpl for Ioc {
    open spec fn obeys_eq_spec() -> bool {
        true
    }

    open spec fn eq_spec(&self, other: &Self) -> bool {
        self.id == other.id
    }
}

impl Eq for Ioc {

}

impl PartialOrd for Ioc {
    /// Indicators are ordered by their ids.
    fn partial_cmp(&self, other: &Self) -> (order: Option<Ordering>) {
        if self.id < other.id {
            Some(Ordering::Less)
        } else if self.id == other.id {
            Some(Ordering::Equal)
        } else {
            Some(Ordering::Greater)
        }
    }
}

impl vstd::std_specs::cmp::PartialOrdSpecImpl for Ioc {
    open spec fn obeys_partial_cmp_spec() -> bool {
        true
    }

    open spec fn partial_cmp_spec(&self, other: &Self) -> Option<Ordering> {
        if self.id < other.id {
            Some(Ordering::Less)
        } else if self.id == other.id {
            Some(Ordering::Equal)
        } else {
            Some(Ordering::Greater)
        }
    }
}

/// A moment in UTC: whole seconds since 1970-01-01T00:00:00Z, and the
/// nanoseconds into that second.
#[derive(Clone, Copy, Debug, PartialEq, Eq, Hash, Structural)]
pub struct Timestamp {
    pub seconds: i64,
    pub nanos: u32,
}

/// What a source of definitions hands over.
#[derive(Debug)]
pub struct GetIocResponse {
    pub release_datetime: Option<Timestamp>,
    pub iocs: Vec<Ioc>,
    pub total_iocs: usize,
}

/// The evidence found for one indicator, as text.
#[derive(Debug, Hash)]
pub struct IocSearchResult {
    pub ioc_id: IocId,
    pub data: Vec<String>,
}

/// The report of one scan.
#[derive(Debug)]
pub struct ReportUploadRequest {
    pub datetime: Timestamp,
    pub found_iocs: Vec<IocId>,
    pub ioc_results: Vec<IocSearchResult>,
    pub ioc_errors: Vec<IocSearchError>,
}

} // verus!
