//! Turns the definition trees into flat tables: an entry id for every node,
//! the shape of each tree by entry id, and one list of search requests per
//! kind of check.

use crate::arg_parser::ParsedArgs;
use crate::cert_checker::CertificateParameters;
use crate::conns_checker::ConnectionParameters;
use crate::data::{
    clone_hash, clone_text, lemma_child_is_smaller, Ioc, IocEntry, IocEntryId, IocId,
};
use crate::dns_checker::DnsParameters;
use crate::file_checker::FileParameters;
use crate::ioc_evaluator::{nodes_of, IocEntryItem, Node};
use crate::mutant_checker::MutexParameters;
use crate::process_checker::ProcessParameters;
use crate::registry_checker::RegistryParameters;
use std::collections::HashMap;
use vstd::prelude::*;

verus! {

broadcast use vstd::std_specs::hash::group_hash_axioms;

/// The flat tables of a batch of indicators.
#[derive(Debug)]
pub struct SearchPlan {
    pub root_ioc_entries: HashMap<IocId, IocEntryId>,
    pub ioc_entries: HashMap<IocEntryId, IocEntryItem>,
    pub file_parameters: Vec<FileParameters>,
    pub dns_parameters: Vec<DnsParameters>,
    pub mutex_parameters: Vec<MutexParameters>,
    pub registry_parameters: Vec<RegistryParameters>,
    pub conns_parameters: Vec<ConnectionParameters>,
    pub process_parameters: Vec<ProcessParameters>,
    pub cert_parameters: Vec<CertificateParameters>,
}

/// What a search plan holds.
pub ghost struct Plan {
    pub roots: Map<IocId, IocEntryId>,
    pub nodes: Map<IocEntryId, Node>,
    pub files: Seq<FileParameters>,
    pub dns: Seq<DnsParameters>,
    pub mutexes: Seq<MutexParameters>,
    pub registry: Seq<RegistryParameters>,
    pub conns: Seq<ConnectionParameters>,
    pub processes: Seq<ProcessParameters>,
    pub certs: Seq<CertificateParameters>,
}

impl View for SearchPlan {
    type V = Plan;

    open spec fn view(&self) -> Plan {
        Plan {
            roots: self.root_ioc_entries@,
            nodes: nodes_of(self.ioc_entries@),
            files: self.file_parameters@,
            dns: self.dns_parameters@,
            mutexes: self.mutex_parameters@,
            registry: self.registry_parameters@,
            conns: self.conns_parameters@,
            processes: self.process_parameters@,
            certs: self.cert_parameters@,
        }
    }
}

/// The plan of an empty batch.
pub open spec fn empty_plan() -> Plan {
    Plan {
        roots: Map::empty(),
        nodes: Map::empty(),
        files: Seq::empty(),
        dns: Seq::empty(),
        mutexes: Seq::empty(),
        registry: Seq::empty(),
        conns: Seq::empty(),
        processes: Seq::empty(),
        certs: Seq::empty(),
    }
}

/// The entry id of the first node of a batch. The ids below it stand for
/// "no id".
pub const FIRST_ENTRY_ID: u64 = 2;

/// One if the condition holds, else zero.
pub open spec fn one_if(condition: bool) -> nat {
    if condition {
        1
    } else {
        0
    }
}

/// How many checks a node has among those that are switched on.
pub open spec fn checks_specified(args: ParsedArgs, entry: IocEntry) -> nat {
    one_if(entry.certs_check is Some && args.cert_check) + one_if(
        entry.file_check is Some && args.file_check,
    ) + one_if(entry.registry_check is Some && args.registry_check) + one_if(
        entry.dns_check is Some && args.dns_check,
    ) + one_if(entry.process_check is Some && args.process_check) + one_if(
        entry.mutex_check is Some && args.mutex_check,
    ) + one_if(entry.conns_check is Some && args.conn_check)
}

/// The number of nodes of a tree.
pub open spec fn size(entry: IocEntry) -> nat
    decreases entry, 1nat, 0nat,
{
    1 + sizes(entry, entry.children().len())
}

/// The number of nodes in the trees of the first `upto` children of a node.
pub open spec fn sizes(entry: IocEntry, upto: nat) -> nat
    decreases entry, 0nat, upto,
{
    if upto == 0 || upto > entry.children().len() {
        0
    } else {
        sizes(entry, (upto - 1) as nat) + size(entry.children()[upto - 1])
    }
}

/// The entry id of a node's child `k`, where the node has the id `id`: ids
/// go in pre-order, so the earlier children's trees come first.
pub open spec fn child_id(entry: IocEntry, k: nat, id: nat) -> nat {
    id + 1 + sizes(entry, k)
}

/// The entry ids of a node's children.
pub open spec fn child_ids(entry: IocEntry, id: nat) -> Seq<IocEntryId> {
    Seq::new(entry.children().len(), |k: int| child_id(entry, k as nat, id) as u64)
}

/// The plan with the node's certificate request, where it has one and the
/// check is switched on.
pub open spec fn with_cert_request(
    plan: Plan,
    args: ParsedArgs,
    entry: IocEntry,
    ioc_id: IocId,
    id: IocEntryId,
) -> Plan {
    if entry.certs_check is Some && args.cert_check {
        Plan {
            certs: plan.certs.push(
                CertificateParameters { ioc_id, ioc_entry_id: id, name: entry.certs_check->0.name },
            ),
            ..plan
        }
    } else {
        plan
    }
}

/// The plan with the node's file request, where it has one and the check is
/// switched on.
pub open spec fn with_file_request(
    plan: Plan,
    args: ParsedArgs,
    entry: IocEntry,
    ioc_id: IocId,
    id: IocEntryId,
) -> Plan {
    if entry.file_check is Some && args.file_check {
        Plan {
            files: plan.files.push(
                FileParameters {
                    ioc_id,
                    ioc_entry_id: id,
                    search_type: entry.file_check->0.search,
                    file_path_or_name: entry.file_check->0.name,
                    hash: entry.file_check->0.hash,
                },
            ),
            ..plan
        }
    } else {
        plan
    }
}

/// The plan with the node's registry request, where it has one and the
/// check is switched on.
pub open spec fn with_registry_request(
    plan: Plan,
    args: ParsedArgs,
    entry: IocEntry,
    ioc_id: IocId,
    id: IocEntryId,
) -> Plan {
    if entry.registry_check is Some && args.registry_check {
        Plan {
            registry: plan.registry.push(
                RegistryParameters {
                    ioc_id,
                    ioc_entry_id: id,
                    search_type: entry.registry_check->0.search,
                    key: entry.registry_check->0.key,
                    value_name: entry.registry_check->0.value_name,
                    value: entry.registry_check->0.value,
                },
            ),
            ..plan
        }
    } else {
        plan
    }
}

/// The plan with the node's resolver request, where it has one and the
/// check is switched on.
pub open spec fn with_dns_request(
    plan: Plan,
    args: ParsedArgs,
    entry: IocEntry,
    ioc_id: IocId,
    id: IocEntryId,
) -> Plan {
    if entry.dns_check is Some && args.dns_check {
        Plan {
            dns: plan.dns.push(
                DnsParameters { ioc_id, ioc_entry_id: id, name: entry.dns_check->0.name },
            ),
            ..plan
        }
    } else {
        plan
    }
}

/// The plan with the node's process request, where it has one and the check
/// is switched on.
pub open spec fn with_process_request(
    plan: Plan,
    args: ParsedArgs,
    entry: IocEntry,
    ioc_id: IocId,
    id: IocEntryId,
) -> Plan {
    if entry.process_check is Some && args.process_check {
        Plan {
            processes: plan.processes.push(
                ProcessParameters {
                    ioc_id,
                    ioc_entry_id: id,
                    search: entry.process_check->0.search,
                    name: entry.process_check->0.name,
                    hash: entry.process_check->0.hash,
                },
            ),
            ..plan
        }
    } else {
        plan
    }
}

/// The plan with the node's mutex request, where it has one and the check
/// is switched on.
pub open spec fn with_mutex_request(
    plan: Plan,
    args: ParsedArgs,
    entry: IocEntry,
    ioc_id: IocId,
    id: IocEntryId,
) -> Plan {
    if entry.mutex_check is Some && args.mutex_check {
        Plan {
            mutexes: plan.mutexes.push(
                MutexParameters { ioc_entry_id: id, ioc_id, data: entry.mutex_check->0.name },
            ),
            ..plan
        }
    } else {
        plan
    }
}

/// The plan with the node's connection request, where it has one and the
/// check is switched on.
pub open spec fn with_conns_request(
    plan: Plan,
    args: ParsedArgs,
    entry: IocEntry,
    ioc_id: IocId,
    id: IocEntryId,
) -> Plan {
    if entry.conns_check is Some && args.conn_check {
        Plan {
            conns: plan.conns.push(
                ConnectionParameters {
                    ioc_id,
                    ioc_entry_id: id,
                    search: entry.conns_check->0.search,
                    name: entry.conns_check->0.name,
                },
            ),
            ..plan
        }
    } else {
        plan
    }
}

/// The plan with one more request for each check of the node that is
/// switched on, each tagged with the indicator and with the node's id.
pub open spec fn with_requests(
    plan: Plan,
    args: ParsedArgs,
    entry: IocEntry,
    ioc_id: IocId,
    id: IocEntryId,
) -> Plan {
    let certs = with_cert_request(plan, args, entry, ioc_id, id);
    let files = with_file_request(certs, args, entry, ioc_id, id);
    let registry = with_registry_request(files, args, entry, ioc_id, id);
    let dns = with_dns_request(registry, args, entry, ioc_id, id);
    let processes = with_process_request(dns, args, entry, ioc_id, id);
    let mutexes = with_mutex_request(processes, args, entry, ioc_id, id);
    with_conns_request(mutexes, args, entry, ioc_id, id)
}

/// The node that stands for `entry` in the tables, where it has the id `id`.
pub open spec fn node_of(args: ParsedArgs, entry: IocEntry, ioc_id: IocId, id: nat) -> Node {
    Node {
        ioc_entry_id: id as u64,
        ioc_id,
        eval_policy: entry.eval_policy,
        child_eval: entry.child_eval_policy,
        children: if entry.offspring is Some {
            Some(child_ids(entry, id))
        } else {
            None
        },
        checks_specified: checks_specified(args, entry) as u32,
    }
}

/// The plan after the tree `entry` of the indicator `ioc_id` was added, its
/// root under the id `id` and the nodes below it under the ids that follow,
/// in pre-order.
pub open spec fn walk_entry(
    plan: Plan,
    args: ParsedArgs,
    entry: IocEntry,
    ioc_id: IocId,
    id: nat,
) -> Plan
    decreases entry, 1nat, 0nat,
{
    let below = walk_children(
        with_requests(plan, args, entry, ioc_id, id as u64),
        args,
        entry,
        entry.children().len(),
        ioc_id,
        id,
    );
    Plan { nodes: below.nodes.insert(id as u64, node_of(args, entry, ioc_id, id)), ..below }
}

/// The plan after the trees of the first `upto` children of `entry` were
/// added.
pub open spec fn walk_children(
    plan: Plan,
    args: ParsedArgs,
    entry: IocEntry,
    upto: nat,
    ioc_id: IocId,
    id: nat,
) -> Plan
    decreases entry, 0nat, upto,
{
    if upto == 0 || upto > entry.children().len() {
        plan
    } else {
        walk_entry(
            walk_children(plan, args, entry, (upto - 1) as nat, ioc_id, id),
            args,
            entry.children()[upto - 1],
            ioc_id,
            child_id(entry, (upto - 1) as nat, id),
        )
    }
}

/// The entry id of the root of the indicator `k` of a batch: the trees of
/// the indicators before it come first.
pub open spec fn root_id(iocs: Seq<Ioc>, k: nat) -> nat
    decreases k,
{
    if k == 0 || k > iocs.len() {
        FIRST_ENTRY_ID as nat
    } else {
        root_id(iocs, (k - 1) as nat) + size(iocs[k - 1].definition)
    }
}

/// The plan of the first `upto` indicators of a batch.
pub open spec fn walk_all(args: ParsedArgs, iocs: Seq<Ioc>, upto: nat) -> Plan
    decreases upto,
{
    if upto == 0 || upto > iocs.len() {
        empty_plan()
    } else {
        let before = walk_all(args, iocs, (upto - 1) as nat);
        let ioc = iocs[upto - 1];
        let id = root_id(iocs, (upto - 1) as nat);
        walk_entry(
            Plan { roots: before.roots.insert(ioc.id, id as u64), ..before },
            args,
            ioc.definition,
            ioc.id,
            id,
        )
    }
}

/// The plan of a batch: every node of every tree under an id of its own,
/// counted up from `FIRST_ENTRY_ID` in the order of the batch.
pub open spec fn flattened(args: ParsedArgs, iocs: Seq<Ioc>) -> Plan {
    walk_all(args, iocs, iocs.len())
}

/// Adds the node's certificate request, if it has one and the check is switched
/// on; says whether it did.
fn push_cert_request(
    args: &ParsedArgs,
    ioc_entry: &IocEntry,
    ioc_root_id: IocId,
    id: IocEntryId,
    plan: &mut SearchPlan,
) -> (added: bool)
    ensures
        final(plan)@ == with_cert_request(old(plan)@, *args, *ioc_entry, ioc_root_id, id),
        final(plan).ioc_entries == old(plan).ioc_entries,
        added == (ioc_entry.certs_check is Some && args.cert_check),
{
    if args.cert_check {
        if let Some(cert_info) = &ioc_entry.certs_check {
            plan.cert_parameters.push(
                CertificateParameters {
                    ioc_id: ioc_root_id,
                    ioc_entry_id: id,
                    name: cert_info.name.clone(),
                },
            );
            return true;
        }
    }
    false
}

/// Adds the node's file request, if it has one and the check is switched
/// on; says whether it did.
fn push_file_request(
    args: &ParsedArgs,
    ioc_entry: &IocEntry,
    ioc_root_id: IocId,
    id: IocEntryId,
    plan: &mut SearchPlan,
) -> (added: bool)
    ensures
        final(plan)@ == with_file_request(old(plan)@, *args, *ioc_entry, ioc_root_id, id),
        final(plan).ioc_entries == old(plan).ioc_entries,
        added == (ioc_entry.file_check is Some && args.file_check),
{
    if args.file_check {
        if let Some(file_info) = &ioc_entry.file_check {
            plan.file_parameters.push(
                FileParameters {
                    ioc_id: ioc_root_id,
                    ioc_entry_id: id,
                    search_type: file_info.search,
                    file_path_or_name: clone_text(&file_info.name),
                    hash: clone_hash(&file_info.hash),
                },
            );
            return true;
        }
    }
    false
}

/// Adds the node's registry request, if it has one and the check is switched
/// on; says whether it did.
fn push_registry_request(
    args: &ParsedArgs,
    ioc_entry: &IocEntry,
    ioc_root_id: IocId,
    id: IocEntryId,
    plan: &mut SearchPlan,
) -> (added: bool)
    ensures
        final(plan)@ == with_registry_request(old(plan)@, *args, *ioc_entry, ioc_root_id, id),
        final(plan).ioc_entries == old(plan).ioc_entries,
        added == (ioc_entry.registry_check is Some && args.registry_check),
{
    if args.registry_check {
        if let Some(registry_info) = &ioc_entry.registry_check {
            plan.registry_parameters.push(
                RegistryParameters {
                    ioc_id: ioc_root_id,
                    ioc_entry_id: id,
                    search_type: registry_info.search,
                    key: registry_info.key.clone(),
                    value_name: registry_info.value_name.clone(),
                    value: clone_text(&registry_info.value),
                },
            );
            return true;
        }
    }
    false
}

/// Adds the node's resolver request, if it has one and the check is switched
/// on; says whether it did.
fn push_dns_request(
    args: &ParsedArgs,
    ioc_entry: &IocEntry,
    ioc_root_id: IocId,
    id: IocEntryId,
    plan: &mut SearchPlan,
) -> (added: bool)
    ensures
        final(plan)@ == with_dns_request(old(plan)@, *args, *ioc_entry, ioc_root_id, id),
        final(plan).ioc_entries == old(plan).ioc_entries,
        added == (ioc_entry.dns_check is Some && args.dns_check),
{
    if args.dns_check {
        if let Some(dns_info) = &ioc_entry.dns_check {
            plan.dns_parameters.push(
                DnsParameters {
                    ioc_id: ioc_root_id,
                    ioc_entry_id: id,
                    name: dns_info.name.clone(),
                },
            );
            return true;
        }
    }
    false
}

/// Adds the node's process request, if it has one and the check is switched
/// on; says whether it did.
fn push_process_request(
    args: &ParsedArgs,
    ioc_entry: &IocEntry,
    ioc_root_id: IocId,
    id: IocEntryId,
    plan: &mut SearchPlan,
) -> (added: bool)
    ensures
        final(plan)@ == with_process_request(old(plan)@, *args, *ioc_entry, ioc_root_id, id),
        final(plan).ioc_entries == old(plan).ioc_entries,
        added == (ioc_entry.process_check is Some && args.process_check),
{
    if args.process_check {
        if let Some(proc_info) = &ioc_entry.process_check {
            plan.process_parameters.push(
                ProcessParameters {
                    ioc_id: ioc_root_id,
                    ioc_entry_id: id,
                    search: proc_info.search,
                    name: clone_text(&proc_info.name),
                    hash: clone_hash(&proc_info.hash),
                },
            );
            return true;
        }
    }
    false
}

/// Adds the node's mutex request, if it has one and the check is switched
/// on; says whether it did.
fn push_mutex_request(
    args: &ParsedArgs,
    ioc_entry: &IocEntry,
    ioc_root_id: IocId,
    id: IocEntryId,
    plan: &mut SearchPlan,
) -> (added: bool)
    ensures
        final(plan)@ == with_mutex_request(old(plan)@, *args, *ioc_entry, ioc_root_id, id),
        final(plan).ioc_entries == old(plan).ioc_entries,
        added == (ioc_entry.mutex_check is Some && args.mutex_check),
{
    if args.mutex_check {
        if let Some(mutex_info) = &ioc_entry.mutex_check {
            plan.mutex_parameters.push(
                MutexParameters {
                    ioc_entry_id: id,
                    ioc_id: ioc_root_id,
                    data: mutex_info.name.clone(),
                },
            );
            return true;
        }
    }
    false
}

/// Adds the node's connection request, if it has one and the check is switched
/// on; says whether it did.
fn push_conns_request(
    args: &ParsedArgs,
    ioc_entry: &IocEntry,
    ioc_root_id: IocId,
    id: IocEntryId,
    plan: &mut SearchPlan,
) -> (added: bool)
    ensures
        final(plan)@ == with_conns_request(old(plan)@, *args, *ioc_entry, ioc_root_id, id),
        final(plan).ioc_entries == old(plan).ioc_entries,
        added == (ioc_entry.conns_check is Some && args.conn_check),
{
    if args.conn_check {
        if let Some(conns_info) = &ioc_entry.conns_check {
            plan.conns_parameters.push(
                ConnectionParameters {
                    ioc_id: ioc_root_id,
                    ioc_entry_id: id,
                    search: conns_info.search,
                    name: conns_info.name.clone(),
                },
            );
            return true;
        }
    }
    false
}

/// Adds to the plan the requests of one node, tagged with `id`, and counts
/// them.
fn push_requests(
    args: &ParsedArgs,
    ioc_entry: &IocEntry,
    ioc_root_id: IocId,
    id: IocEntryId,
    plan: &mut SearchPlan,
) -> (checks: u32)
    ensures
        final(plan)@ == with_requests(old(plan)@, *args, *ioc_entry, ioc_root_id, id),
        final(plan).ioc_entries == old(plan).ioc_entries,
        checks == checks_specified(*args, *ioc_entry),
{
    let mut checks: u32 = 0;
    if push_cert_request(args, ioc_entry, ioc_root_id, id, plan) {
        checks += 1;
    }
    if push_file_request(args, ioc_entry, ioc_root_id, id, plan) {
        checks += 1;
    }
    if push_registry_request(args, ioc_entry, ioc_root_id, id, plan) {
        checks += 1;
    }
    if push_dns_request(args, ioc_entry, ioc_root_id, id, plan) {
        checks += 1;
    }
    if push_process_request(args, ioc_entry, ioc_root_id, id, plan) {
        checks += 1;
    }
    if push_mutex_request(args, ioc_entry, ioc_root_id, id, plan) {
        checks += 1;
    }
    if push_conns_request(args, ioc_entry, ioc_root_id, id, plan) {
        checks += 1;
    }
    checks
}

/// Adds one tree to the plan. `id_gen` holds the id of the tree's root and
/// is left at the last id that was given out.
pub fn walk_ioc_entries(
    args: &ParsedArgs,
    ioc_entry: &IocEntry,
    ioc_root_id: IocId,
    plan: &mut SearchPlan,
    id_gen: &mut IocEntryId,
)
    requires
        *old(id_gen) + size(*ioc_entry) - 1 <= u64::MAX,
    ensures
        final(plan)@ == walk_entry(
            old(plan)@,
            *args,
            *ioc_entry,
            ioc_root_id,
            *old(id_gen) as nat,
        ),
        *final(id_gen) == *old(id_gen) + size(*ioc_entry) - 1,
    decreases ioc_entry,
{
    let id: IocEntryId = *id_gen;
    let checks_specified = push_requests(args, ioc_entry, ioc_root_id, id, plan);
    let ghost started = plan@;
    let children = match &ioc_entry.offspring {
        None => None,
        Some(nodes) => {
            let mut ids: Vec<IocEntryId> = Vec::new();
            let mut at: usize = 0;
            while at < nodes.len()
                invariant
                    at <= nodes.len(),
                    ioc_entry.offspring == Some(*nodes),
                    id + size(*ioc_entry) - 1 <= u64::MAX,
                    *id_gen == id + sizes(*ioc_entry, at as nat),
                    plan@ == walk_children(started, *args, *ioc_entry, at as nat, ioc_root_id, id as nat),
                    ids@ == child_ids(*ioc_entry, id as nat).take(at as int),
                decreases nodes.len() - at,
            {
                proof {
                    assert(ioc_entry.children() == nodes@);
                    lemma_sizes_grow(*ioc_entry, (at + 1) as nat, nodes@.len());
                    assert(sizes(*ioc_entry, (at + 1) as nat) == sizes(*ioc_entry, at as nat) + size(
                        nodes@[at as int],
                    ));
                    assert(size(nodes@[at as int]) >= 1);
                    assert(size(*ioc_entry) == 1 + sizes(*ioc_entry, nodes@.len()));
                    lemma_child_is_smaller(*ioc_entry, at as int);
                }
                *id_gen = *id_gen + 1;
                let this_child_id: IocEntryId = *id_gen;
                walk_ioc_entries(args, &nodes[at], ioc_root_id, plan, id_gen);
                ids.push(this_child_id);
                at += 1;
                assert(ids@ =~= child_ids(*ioc_entry, id as nat).take(at as int));
            }
            assert(ids@ =~= child_ids(*ioc_entry, id as nat));
            Some(ids)
        },
    };
    proof {
        if ioc_entry.offspring is None {
            assert(ioc_entry.children().len() == 0);
        }
    }
    let ghost items = plan.ioc_entries@;
    let entry_item = IocEntryItem {
        ioc_entry_id: id,
        ioc_id: ioc_root_id,
        eval_policy: ioc_entry.eval_policy,
        child_eval: ioc_entry.child_eval_policy,
        children,
        checks_specified,
    };
    assert(entry_item@ == node_of(*args, *ioc_entry, ioc_root_id, id as nat));
    plan.ioc_entries.insert(id, entry_item);
    assert(nodes_of(plan.ioc_entries@) =~= nodes_of(items).insert(id, entry_item@));
}

/// The trees of more children hold no fewer nodes.
pub proof fn lemma_sizes_grow(entry: IocEntry, fewer: nat, more: nat)
    requires
        fewer <= more <= entry.children().len(),
    ensures
        sizes(entry, fewer) <= sizes(entry, more),
    decreases more,
{
    if fewer < more {
        lemma_sizes_grow(entry, fewer, (more - 1) as nat);
    }
}

/// Why a batch was not flattened.
#[derive(Clone, Copy, Debug, PartialEq, Eq, Structural)]
pub enum FlattenError {
    /// A tree is deeper than the limit allows.
    TooDeep,
    /// The batch has more nodes than there are entry ids.
    IdsExhausted,
}

/// The number of levels of a tree; one for a leaf.
pub open spec fn height(entry: IocEntry) -> nat
    decreases entry, 1nat, 0nat,
{
    1 + heights(entry, entry.children().len())
}

/// The greatest height among the first `upto` children of a node.
pub open spec fn heights(entry: IocEntry, upto: nat) -> nat
    decreases entry, 0nat, upto,
{
    if upto == 0 || upto > entry.children().len() {
        0
    } else {
        let before = heights(entry, (upto - 1) as nat);
        let this = height(entry.children()[upto - 1]);
        if this > before {
            this
        } else {
            before
        }
    }
}

/// Some tree of the batch has more than `max_depth` levels.
pub open spec fn too_deep(iocs: Seq<Ioc>, max_depth: nat) -> bool {
    exists|k: int| 0 <= k < iocs.len() && height((#[trigger] iocs[k]).definition) > max_depth
}

/// The nodes of the batch can all have an entry id.
pub open spec fn ids_suffice(iocs: Seq<Ioc>) -> bool {
    root_id(iocs, iocs.len()) <= u64::MAX + 1
}

/// Whether a tree has at most `limit` levels.
pub fn within_depth(ioc_entry: &IocEntry, limit: usize) -> (within: bool)
    ensures
        within == (height(*ioc_entry) <= limit),
    decreases ioc_entry,
{
    if limit == 0 {
        return false;
    }
    match &ioc_entry.offspring {
        None => {
            assert(ioc_entry.children().len() == 0);
            true
        },
        Some(nodes) => {
            let mut at: usize = 0;
            while at < nodes.len()
                invariant
                    at <= nodes.len(),
                    limit > 0,
                    ioc_entry.offspring == Some(*nodes),
                    heights(*ioc_entry, at as nat) <= limit - 1,
                decreases nodes.len() - at,
            {
                proof {
                    assert(ioc_entry.children() == nodes@);
                    lemma_heights_grow(*ioc_entry, (at + 1) as nat, nodes@.len());
                    lemma_child_is_smaller(*ioc_entry, at as int);
                }
                if !within_depth(&nodes[at], limit - 1) {
                    return false;
                }
                at += 1;
            }
            assert(ioc_entry.children() == nodes@);
            true
        },
    }
}

/// The number of nodes of a tree, if it fits.
pub fn count_nodes(ioc_entry: &IocEntry) -> (count: Option<u64>)
    ensures
        match count {
            Some(n) => n == size(*ioc_entry),
            None => size(*ioc_entry) > u64::MAX,
        },
    decreases ioc_entry,
{
    let mut count: u64 = 1;
    match &ioc_entry.offspring {
        None => {
            assert(ioc_entry.children().len() == 0);
        },
        Some(nodes) => {
            let mut at: usize = 0;
            while at < nodes.len()
                invariant
                    at <= nodes.len(),
                    ioc_entry.offspring == Some(*nodes),
                    count == 1 + sizes(*ioc_entry, at as nat),
                decreases nodes.len() - at,
            {
                proof {
                    assert(ioc_entry.children() == nodes@);
                    lemma_sizes_grow(*ioc_entry, (at + 1) as nat, nodes@.len());
                    lemma_child_is_smaller(*ioc_entry, at as int);
                }
                let below = match count_nodes(&nodes[at]) {
                    Some(n) => n,
                    None => {
                        return None;
                    },
                };
                count = match count.checked_add(below) {
                    Some(sum) => sum,
                    None => {
                        return None;
                    },
                };
                at += 1;
            }
            assert(ioc_entry.children() == nodes@);
        },
    }
    Some(count)
}

/// Flattens a batch of indicators: the first node gets the id
/// `FIRST_ENTRY_ID`, every further node the next one, tree after tree and
/// in each tree the parent before its children. A check that is switched off
/// in `args` is left out as if the node had not named it.
///
/// The batch is refused as a whole where a tree has more than `max_depth`
/// levels, or where the ids would run out.
pub fn walk_iocs(args: &ParsedArgs, iocs: &Vec<Ioc>, max_depth: usize) -> (result: Result<
    SearchPlan,
    FlattenError,
>)
    ensures
        result == Err::<SearchPlan, FlattenError>(FlattenError::TooDeep) <==> too_deep(
            iocs@,
            max_depth as nat,
        ),
        result == Err::<SearchPlan, FlattenError>(FlattenError::IdsExhausted) <==> !too_deep(
            iocs@,
            max_depth as nat,
        ) && !ids_suffice(iocs@),
        result matches Ok(plan) ==> plan@ == flattened(*args, iocs@),
{
    let mut at: usize = 0;
    while at < iocs.len()
        invariant
            at <= iocs.len(),
            forall|k: int| 0 <= k < at ==> height((#[trigger] iocs@[k]).definition) <= max_depth,
        decreases iocs.len() - at,
    {
        if !within_depth(&iocs[at].definition, max_depth) {
            return Err(FlattenError::TooDeep);
        }
        at += 1;
    }
    let mut plan = SearchPlan {
        root_ioc_entries: HashMap::new(),
        ioc_entries: HashMap::new(),
        file_parameters: Vec::new(),
        dns_parameters: Vec::new(),
        mutex_parameters: Vec::new(),
        registry_parameters: Vec::new(),
        conns_parameters: Vec::new(),
        process_parameters: Vec::new(),
        cert_parameters: Vec::new(),
    };
    assert(plan@.nodes =~= Map::empty());
    let mut id_gen: IocEntryId = FIRST_ENTRY_ID - 1;
    let mut at: usize = 0;
    while at < iocs.len()
        invariant
            at <= iocs.len(),
            !too_deep(iocs@, max_depth as nat),
            id_gen == root_id(iocs@, at as nat) - 1,
            plan@ == walk_all(*args, iocs@, at as nat),
        decreases iocs.len() - at,
    {
        let ioc = &iocs[at];
        proof {
            lemma_root_id_grows(iocs@, (at + 1) as nat, iocs@.len());
        }
        let fits = match count_nodes(&ioc.definition) {
            None => false,
            Some(count) => count <= u64::MAX - id_gen,
        };
        if !fits {
            return Err(FlattenError::IdsExhausted);
        }
        id_gen = id_gen + 1;
        let ghost before = plan@;
        plan.root_ioc_entries.insert(ioc.id, id_gen);
        assert(plan@ == Plan { roots: before.roots.insert(ioc.id, id_gen), ..before });
        walk_ioc_entries(args, &ioc.definition, ioc.id, &mut plan, &mut id_gen);
        at += 1;
    }
    Ok(plan)
}

/// More children are no lower than fewer.
pub proof fn lemma_heights_grow(entry: IocEntry, fewer: nat, more: nat)
    requires
        fewer <= more <= entry.children().len(),
    ensures
        heights(entry, fewer) <= heights(entry, more),
    decreases more,
{
    if fewer < more {
        lemma_heights_grow(entry, fewer, (more - 1) as nat);
    }
}

/// The root ids of a batch go up.
pub proof fn lemma_root_id_grows(iocs: Seq<Ioc>, earlier: nat, later: nat)
    requires
        earlier <= later <= iocs.len(),
    ensures
        root_id(iocs, earlier) <= root_id(iocs, later),
    decreases later,
{
    if earlier < later {
        lemma_root_id_grows(iocs, earlier, (later - 1) as nat);
    }
}

} // verus!
