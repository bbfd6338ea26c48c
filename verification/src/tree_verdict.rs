//! What the verdicts mean on the definition trees themselves, and that
//! flattening a batch and evaluating the tables gives exactly that.

use crate::arg_parser::ParsedArgs;
use crate::data::{EvaluationPolicy, Ioc, IocEntry, IocEntryId, IocId};
use crate::flattener::{
    child_id, child_ids, checks_specified, flattened, height, heights, ids_suffice, node_of,
    one_if, root_id, size, sizes, walk_all, walk_children, walk_entry, with_requests, Plan,
};
use crate::ioc_evaluator::{
    children_confirmed, confirmed_count, entry_confirmed, id_confirmed, ioc_confirmed,
    policy_holds, self_confirmed, Node, SearchOutcome,
};
use vstd::prelude::*;
use vstd::set_lib::{lemma_int_range, lemma_len_subset, lemma_map_size, set_int_range};

verus! {

/// The verdict of a tree whose root has the entry id `id`, read off the
/// tree itself: the root's own checks by the hits for `id`, and the trees
/// below it by the ids that pre-order numbering gives them.
pub open spec fn tree_confirmed(
    args: ParsedArgs,
    entry: IocEntry,
    ioc_id: IocId,
    id: nat,
    outcomes: Seq<SearchOutcome>,
) -> bool
    decreases entry, 1nat, 0nat,
{
    let own = self_confirmed(node_of(args, entry, ioc_id, id), outcomes);
    let count = entry.children().len();
    let confirmed = confirmed_children(args, entry, ioc_id, id, outcomes, count);
    let with_children = policy_holds(entry.child_eval_policy, count, confirmed);
    match entry.eval_policy {
        EvaluationPolicy::One => own || (count > 0 && with_children),
        EvaluationPolicy::All => if own {
            count == 0 || with_children
        } else {
            checks_specified(args, entry) == 0 && count > 0 && with_children
        },
    }
}

/// How many of the first `upto` children of a node are confirmed.
pub open spec fn confirmed_children(
    args: ParsedArgs,
    entry: IocEntry,
    ioc_id: IocId,
    id: nat,
    outcomes: Seq<SearchOutcome>,
    upto: nat,
) -> nat
    decreases entry, 0nat, upto,
{
    if upto == 0 || upto > entry.children().len() {
        0
    } else {
        confirmed_children(args, entry, ioc_id, id, outcomes, (upto - 1) as nat) + one_if(
            tree_confirmed(
                args,
                entry.children()[upto - 1],
                ioc_id,
                child_id(entry, (upto - 1) as nat, id),
                outcomes,
            ),
        )
    }
}

/// The table holds the tree: the node of its root under `id`, and the
/// trees below it under the ids that pre-order numbering gives them.
pub open spec fn holds_tree(
    table: Map<IocEntryId, Node>,
    args: ParsedArgs,
    entry: IocEntry,
    ioc_id: IocId,
    id: nat,
) -> bool
    decreases entry,
{
    &&& table.contains_key(id as u64)
    &&& table[id as u64] == node_of(args, entry, ioc_id, id)
    &&& forall|k: int|
        0 <= k < entry.children().len() ==> holds_tree(
            table,
            args,
            #[trigger] entry.children()[k],
            ioc_id,
            child_id(entry, k as nat, id),
        )
}

/// No child is higher than the highest of the children.
pub proof fn lemma_child_height(entry: IocEntry, k: int, upto: nat)
    requires
        0 <= k < upto <= entry.children().len(),
    ensures
        height(entry.children()[k]) <= heights(entry, upto),
    decreases upto,
{
    if k < upto - 1 {
        lemma_child_height(entry, k, (upto - 1) as nat);
    }
}

/// A node of a tree that has a check counts its checks right: there are
/// seven kinds of check.
pub proof fn lemma_checks_fit(args: ParsedArgs, entry: IocEntry)
    ensures
        checks_specified(args, entry) <= 7,
{
}

/// On a table that holds a tree, the evaluator's verdict for the root's id
/// is the verdict of the tree, as soon as it may look as deep as the tree
/// is high.
pub proof fn lemma_table_verdict_is_tree_verdict(
    table: Map<IocEntryId, Node>,
    args: ParsedArgs,
    entry: IocEntry,
    ioc_id: IocId,
    id: nat,
    outcomes: Seq<SearchOutcome>,
    depth: nat,
)
    requires
        holds_tree(table, args, entry, ioc_id, id),
        depth >= height(entry),
    ensures
        id_confirmed(table, outcomes, id as u64, depth) == tree_confirmed(
            args,
            entry,
            ioc_id,
            id,
            outcomes,
        ),
    decreases entry, 1nat, 0nat,
{
    let node = node_of(args, entry, ioc_id, id);
    let count = entry.children().len();
    let below = (depth - 1) as nat;
    lemma_children_counted(table, args, entry, ioc_id, id, outcomes, below, count);
    let ids = node.child_ids();
    if entry.offspring is Some {
        assert(ids == child_ids(entry, id));
        assert(ids.take(count as int) =~= ids);
    } else {
        assert(count == 0);
        assert(ids.len() == 0);
    }
    assert(ids.len() == count);
    if count > 0 {
        assert(child_ids(entry, id).take(count as int) =~= ids);
    }
    assert(children_confirmed(table, outcomes, node, true, below) == (count == 0 || policy_holds(
        entry.child_eval_policy,
        count,
        confirmed_children(args, entry, ioc_id, id, outcomes, count),
    )));
    assert(children_confirmed(table, outcomes, node, false, below) == (count > 0 && policy_holds(
        entry.child_eval_policy,
        count,
        confirmed_children(args, entry, ioc_id, id, outcomes, count),
    )));
    lemma_checks_fit(args, entry);
    assert(entry_confirmed(table, outcomes, node, below) == tree_confirmed(
        args,
        entry,
        ioc_id,
        id,
        outcomes,
    ));
}

/// On a table that holds a tree, the evaluator counts among the first
/// `upto` children of the root those whose trees are confirmed.
pub proof fn lemma_children_counted(
    table: Map<IocEntryId, Node>,
    args: ParsedArgs,
    entry: IocEntry,
    ioc_id: IocId,
    id: nat,
    outcomes: Seq<SearchOutcome>,
    depth: nat,
    upto: nat,
)
    requires
        holds_tree(table, args, entry, ioc_id, id),
        depth >= heights(entry, entry.children().len()),
        upto <= entry.children().len(),
    ensures
        confirmed_count(table, outcomes, child_ids(entry, id).take(upto as int), depth)
            == confirmed_children(args, entry, ioc_id, id, outcomes, upto),
    decreases entry, 0nat, upto,
{
    let ids = child_ids(entry, id).take(upto as int);
    if upto > 0 {
        let k = upto - 1;
        let child = entry.children()[k];
        lemma_children_counted(table, args, entry, ioc_id, id, outcomes, depth, k as nat);
        lemma_child_height(entry, k, entry.children().len());
        assert(holds_tree(table, args, child, ioc_id, child_id(entry, k as nat, id)));
        lemma_table_verdict_is_tree_verdict(
            table,
            args,
            child,
            ioc_id,
            child_id(entry, k as nat, id),
            outcomes,
            depth,
        );
        assert(ids.drop_last() =~= child_ids(entry, id).take(k));
        assert(ids.last() == child_id(entry, k as nat, id) as u64);
    }
}

/// The entry ids from `first` on, `count` of them.
pub open spec fn id_range(first: nat, count: nat) -> Set<IocEntryId> {
    Set::new(|k: IocEntryId| first <= k < first + count)
}

/// The ids of the tree of a child lie within the ids of its parent's tree,
/// behind the parent's own id and behind the trees of the children before
/// it.
pub proof fn lemma_child_range(entry: IocEntry, k: int, id: nat)
    requires
        0 <= k < entry.children().len(),
    ensures
        child_id(entry, k as nat, id) == id + 1 + sizes(entry, k as nat),
        child_id(entry, k as nat, id) + size(entry.children()[k]) == id + 1 + sizes(
            entry,
            (k + 1) as nat,
        ),
        child_id(entry, k as nat, id) + size(entry.children()[k]) <= id + size(entry),
        size(entry.children()[k]) >= 1,
{
    crate::flattener::lemma_sizes_grow(entry, (k + 1) as nat, entry.children().len());
}

/// A table that agrees with another on the ids of a tree holds the tree if
/// the other does.
pub proof fn lemma_holds_tree_framed(
    first: Map<IocEntryId, Node>,
    second: Map<IocEntryId, Node>,
    args: ParsedArgs,
    entry: IocEntry,
    ioc_id: IocId,
    id: nat,
)
    requires
        holds_tree(first, args, entry, ioc_id, id),
        id + size(entry) <= u64::MAX + 1,
        forall|k: IocEntryId|
            id_range(id, size(entry)).contains(k) && first.contains_key(k)
                ==> #[trigger] second.contains_key(k) && second[k] == first[k],
    ensures
        holds_tree(second, args, entry, ioc_id, id),
    decreases entry,
{
    let root = id as u64;
    assert(id_range(id, size(entry)).contains(root));
    assert(first.contains_key(root));
    assert(second.contains_key(root) && second[root] == first[root]);
    assert forall|k: int| 0 <= k < entry.children().len() implies holds_tree(
        second,
        args,
        #[trigger] entry.children()[k],
        ioc_id,
        child_id(entry, k as nat, id),
    ) by {
        let child = entry.children()[k];
        let cid = child_id(entry, k as nat, id);
        lemma_child_range(entry, k, id);
        assert forall|key: IocEntryId|
            id_range(cid, size(child)).contains(key) && first.contains_key(
                key,
            ) implies #[trigger] second.contains_key(key) && second[key] == first[key] by {
            assert(id_range(id, size(entry)).contains(key));
        }
        lemma_holds_tree_framed(first, second, args, child, ioc_id, cid);
    }
}

/// What adding a tree does to a plan: the nodes of the tree come to stand
/// under the ids from `id` on, one id for each node; whatever stood under
/// other ids stays; and the roots stay.
pub proof fn lemma_walk_entry(plan: Plan, args: ParsedArgs, entry: IocEntry, ioc_id: IocId, id: nat)
    requires
        id + size(entry) <= u64::MAX + 1,
    ensures
        walk_entry(plan, args, entry, ioc_id, id).roots == plan.roots,
        walk_entry(plan, args, entry, ioc_id, id).nodes.dom() == plan.nodes.dom().union(
            id_range(id, size(entry)),
        ),
        forall|k: IocEntryId|
            !id_range(id, size(entry)).contains(k) && plan.nodes.contains_key(k)
                ==> #[trigger] walk_entry(plan, args, entry, ioc_id, id).nodes[k] == plan.nodes[k],
        holds_tree(walk_entry(plan, args, entry, ioc_id, id).nodes, args, entry, ioc_id, id),
    decreases entry, 1nat, 0nat,
{
    let count = entry.children().len();
    let started = with_requests(plan, args, entry, ioc_id, id as u64);
    let below = walk_children(started, args, entry, count, ioc_id, id);
    let after = walk_entry(plan, args, entry, ioc_id, id);
    let node = node_of(args, entry, ioc_id, id);
    assert(started.nodes == plan.nodes && started.roots == plan.roots);
    lemma_walk_children(started, args, entry, ioc_id, id, count);
    assert(after.nodes == below.nodes.insert(id as u64, node));
    assert(after.nodes.dom() =~= plan.nodes.dom().union(id_range(id, size(entry))));
    assert forall|k: int| 0 <= k < count implies holds_tree(
        after.nodes,
        args,
        #[trigger] entry.children()[k],
        ioc_id,
        child_id(entry, k as nat, id),
    ) by {
        let child = entry.children()[k];
        let cid = child_id(entry, k as nat, id);
        lemma_child_range(entry, k, id);
        lemma_holds_tree_framed(below.nodes, after.nodes, args, child, ioc_id, cid);
    }
}

/// What adding the trees of the first `upto` children of a node does to a
/// plan.
pub proof fn lemma_walk_children(
    plan: Plan,
    args: ParsedArgs,
    entry: IocEntry,
    ioc_id: IocId,
    id: nat,
    upto: nat,
)
    requires
        id + size(entry) <= u64::MAX + 1,
        upto <= entry.children().len(),
    ensures
        walk_children(plan, args, entry, upto, ioc_id, id).roots == plan.roots,
        walk_children(plan, args, entry, upto, ioc_id, id).nodes.dom() == plan.nodes.dom().union(
            id_range(id + 1, sizes(entry, upto)),
        ),
        forall|k: IocEntryId|
            !id_range(id + 1, sizes(entry, upto)).contains(k) && plan.nodes.contains_key(k)
                ==> #[trigger] walk_children(plan, args, entry, upto, ioc_id, id).nodes[k]
                == plan.nodes[k],
        forall|j: int|
            0 <= j < upto ==> holds_tree(
                walk_children(plan, args, entry, upto, ioc_id, id).nodes,
                args,
                #[trigger] entry.children()[j],
                ioc_id,
                child_id(entry, j as nat, id),
            ),
    decreases entry, 0nat, upto,
{
    let after = walk_children(plan, args, entry, upto, ioc_id, id);
    if upto == 0 {
        assert(after.nodes.dom() =~= plan.nodes.dom().union(id_range(id + 1, 0)));
    } else {
        let k = upto - 1;
        let child = entry.children()[k];
        let cid = child_id(entry, k as nat, id);
        let before = walk_children(plan, args, entry, k as nat, ioc_id, id);
        lemma_child_range(entry, k, id);
        lemma_walk_children(plan, args, entry, ioc_id, id, k as nat);
        lemma_walk_entry(before, args, child, ioc_id, cid);
        assert(after == walk_entry(before, args, child, ioc_id, cid));
        assert(after.nodes.dom() =~= plan.nodes.dom().union(id_range(id + 1, sizes(entry, upto))));
        assert forall|key: IocEntryId|
            !id_range(id + 1, sizes(entry, upto)).contains(key) && plan.nodes.contains_key(
                key,
            ) implies #[trigger] after.nodes[key] == plan.nodes[key] by {
            assert(!id_range(cid, size(child)).contains(key));
            assert(!id_range(id + 1, sizes(entry, k as nat)).contains(key));
            assert(before.nodes.contains_key(key));
            assert(before.nodes[key] == plan.nodes[key]);
        }
        assert forall|j: int| 0 <= j < upto implies holds_tree(
            after.nodes,
            args,
            #[trigger] entry.children()[j],
            ioc_id,
            child_id(entry, j as nat, id),
        ) by {
            if j < k {
                let other = entry.children()[j];
                let oid = child_id(entry, j as nat, id);
                lemma_child_range(entry, j, id);
                crate::flattener::lemma_sizes_grow(entry, (j + 1) as nat, k as nat);
                assert forall|key: IocEntryId|
                    id_range(oid, size(other)).contains(key) && before.nodes.contains_key(
                        key,
                    ) implies #[trigger] after.nodes.contains_key(key) && after.nodes[key]
                    == before.nodes[key] by {
                    assert(!id_range(cid, size(child)).contains(key));
                    assert(after.nodes.dom().contains(key));
                }
                lemma_holds_tree_framed(before.nodes, after.nodes, args, other, ioc_id, oid);
            }
        }
    }
}

/// No two indicators of the batch have the same id.
pub open spec fn distinct_ids(iocs: Seq<Ioc>) -> bool {
    forall|i: int, j: int| 0 <= i < j < iocs.len() ==> iocs[i].id != iocs[j].id
}

/// A run of entry ids has as many ids as it is long.
pub proof fn lemma_id_range_len(first: nat, count: nat)
    requires
        first + count <= u64::MAX + 1,
    ensures
        id_range(first, count).finite(),
        id_range(first, count).len() == count,
{
    let numbers = set_int_range(first as int, (first + count) as int);
    let as_id = |i: int| i as u64;
    lemma_int_range(first as int, (first + count) as int);
    assert(numbers.map(as_id) =~= id_range(first, count)) by {
        assert forall|k: u64| id_range(first, count).contains(k) implies numbers.map(
            as_id,
        ).contains(k) by {
            assert(numbers.contains(k as int) && as_id(k as int) == k);
        }
    }
    assert(vstd::relations::injective_on(as_id, numbers));
    lemma_map_size(numbers, id_range(first, count), as_id);
}

/// A tree has at least as many nodes as it has levels.
pub proof fn lemma_size_at_least_height(entry: IocEntry)
    ensures
        height(entry) <= size(entry),
    decreases entry, 1nat, 0nat,
{
    lemma_sizes_at_least_heights(entry, entry.children().len());
}

/// The trees of the first `upto` children of a node have together at least
/// as many nodes as the highest of them has levels.
pub proof fn lemma_sizes_at_least_heights(entry: IocEntry, upto: nat)
    requires
        upto <= entry.children().len(),
    ensures
        heights(entry, upto) <= sizes(entry, upto),
    decreases entry, 0nat, upto,
{
    if upto > 0 {
        lemma_sizes_at_least_heights(entry, (upto - 1) as nat);
        lemma_size_at_least_height(entry.children()[upto - 1]);
    }
}

/// An id behind the id of a node and within the trees of its first `upto`
/// children lies within the tree of one of them.
pub proof fn lemma_child_holds_id(entry: IocEntry, id: nat, k: IocEntryId, upto: nat) -> (j: int)
    requires
        upto <= entry.children().len(),
        id + 1 <= k < id + 1 + sizes(entry, upto),
    ensures
        0 <= j < upto,
        id_range(child_id(entry, j as nat, id), size(entry.children()[j])).contains(k),
    decreases upto,
{
    let last = upto - 1;
    if k >= id + 1 + sizes(entry, last as nat) {
        last
    } else {
        lemma_child_holds_id(entry, id, k, last as nat)
    }
}

/// A table that holds a tree has a node under every id of the tree.
pub proof fn lemma_tree_ids_are_keys(
    table: Map<IocEntryId, Node>,
    args: ParsedArgs,
    entry: IocEntry,
    ioc_id: IocId,
    id: nat,
    k: IocEntryId,
)
    requires
        holds_tree(table, args, entry, ioc_id, id),
        id_range(id, size(entry)).contains(k),
    ensures
        table.contains_key(k),
    decreases entry,
{
    if k != id {
        let j = lemma_child_holds_id(entry, id, k, entry.children().len());
        lemma_tree_ids_are_keys(
            table,
            args,
            entry.children()[j],
            ioc_id,
            child_id(entry, j as nat, id),
            k,
        );
    }
}

/// A table that holds a tree has at least as many nodes as the tree has
/// levels: looking as deep as the table is large is deep enough.
pub proof fn lemma_table_is_deep_enough(
    table: Map<IocEntryId, Node>,
    args: ParsedArgs,
    entry: IocEntry,
    ioc_id: IocId,
    id: nat,
)
    requires
        holds_tree(table, args, entry, ioc_id, id),
        table.dom().finite(),
        id + size(entry) <= u64::MAX + 1,
    ensures
        height(entry) <= table.len(),
{
    let ids = id_range(id, size(entry));
    lemma_id_range_len(id, size(entry));
    assert forall|k: IocEntryId| ids.contains(k) implies table.dom().contains(k) by {
        lemma_tree_ids_are_keys(table, args, entry, ioc_id, id, k);
    }
    lemma_len_subset(ids, table.dom());
    lemma_size_at_least_height(entry);
}

/// On any table that holds the tree of an indicator and leads the
/// indicator to the tree's root, the indicator is confirmed exactly if its
/// tree is.
pub proof fn lemma_held_tree_is_evaluated(
    roots: Map<IocId, IocEntryId>,
    table: Map<IocEntryId, Node>,
    args: ParsedArgs,
    ioc: Ioc,
    id: nat,
    outcomes: Seq<SearchOutcome>,
)
    requires
        holds_tree(table, args, ioc.definition, ioc.id, id),
        table.dom().finite(),
        id + size(ioc.definition) <= u64::MAX + 1,
        roots.contains_key(ioc.id),
        roots[ioc.id] == id,
    ensures
        ioc_confirmed(roots, table, outcomes, ioc.id) == tree_confirmed(
            args,
            ioc.definition,
            ioc.id,
            id,
            outcomes,
        ),
{
    lemma_table_is_deep_enough(table, args, ioc.definition, ioc.id, id);
    lemma_table_verdict_is_tree_verdict(
        table,
        args,
        ioc.definition,
        ioc.id,
        id,
        outcomes,
        table.len(),
    );
}

/// What flattening the first `upto` indicators of a batch gives: the nodes
/// stand under the ids from `FIRST_ENTRY_ID` on without a gap, each
/// indicator is led to the id of its root, and the table holds every tree.
pub proof fn lemma_walk_all(args: ParsedArgs, iocs: Seq<Ioc>, upto: nat)
    requires
        upto <= iocs.len(),
        root_id(iocs, upto) <= u64::MAX + 1,
        distinct_ids(iocs),
    ensures
        root_id(iocs, upto) >= 2,
        walk_all(args, iocs, upto).nodes.dom() == id_range(2, (root_id(iocs, upto) - 2) as nat),
        forall|x: IocId|
            #[trigger] walk_all(args, iocs, upto).roots.contains_key(x) <==> exists|k: int|
                0 <= k < upto && (#[trigger] iocs[k]).id == x,
        forall|k: int|
            0 <= k < upto ==> walk_all(args, iocs, upto).roots[(#[trigger] iocs[k]).id] == root_id(
                iocs,
                k as nat,
            ) as u64,
        forall|k: int|
            0 <= k < upto ==> holds_tree(
                walk_all(args, iocs, upto).nodes,
                args,
                (#[trigger] iocs[k]).definition,
                iocs[k].id,
                root_id(iocs, k as nat),
            ),
    decreases upto,
{
    let plan = walk_all(args, iocs, upto);
    if upto == 0 {
        assert(plan.nodes.dom() =~= id_range(2, 0));
    } else {
        let last = upto - 1;
        let ioc = iocs[last];
        let id = root_id(iocs, last as nat);
        let before = walk_all(args, iocs, last as nat);
        let rooted = Plan { roots: before.roots.insert(ioc.id, id as u64), ..before };
        crate::flattener::lemma_root_id_grows(iocs, last as nat, upto);
        lemma_walk_all(args, iocs, last as nat);
        lemma_walk_entry(rooted, args, ioc.definition, ioc.id, id);
        assert(plan == walk_entry(rooted, args, ioc.definition, ioc.id, id));
        assert(plan.roots == before.roots.insert(ioc.id, id as u64));
        assert(plan.nodes.dom() =~= id_range(2, (root_id(iocs, upto) - 2) as nat));
        assert forall|x: IocId| #[trigger] plan.roots.contains_key(x) <==> exists|k: int|
            0 <= k < upto && (#[trigger] iocs[k]).id == x by {
            if plan.roots.contains_key(x) {
                if x == ioc.id {
                    assert(iocs[last].id == x);
                } else {
                    assert(before.roots.contains_key(x));
                    let k = choose|k: int| 0 <= k < last && (#[trigger] iocs[k]).id == x;
                    assert(0 <= k < upto && iocs[k].id == x);
                }
            }
            if exists|k: int| 0 <= k < upto && (#[trigger] iocs[k]).id == x {
                let k = choose|k: int| 0 <= k < upto && (#[trigger] iocs[k]).id == x;
                if k < last {
                    assert(before.roots.contains_key(x));
                }
            }
        }
        assert forall|k: int| 0 <= k < upto implies plan.roots[(#[trigger] iocs[k]).id] == root_id(
            iocs,
            k as nat,
        ) as u64 by {
            if k < last {
                assert(iocs[k].id != iocs[last].id);
            }
        }
        assert forall|k: int| 0 <= k < upto implies holds_tree(
            plan.nodes,
            args,
            (#[trigger] iocs[k]).definition,
            iocs[k].id,
            root_id(iocs, k as nat),
        ) by {
            if k < last {
                let other = iocs[k];
                let oid = root_id(iocs, k as nat);
                crate::flattener::lemma_root_id_grows(iocs, (k + 1) as nat, last as nat);
                assert forall|key: IocEntryId|
                    id_range(oid, size(other.definition)).contains(key)
                        && before.nodes.contains_key(key) implies #[trigger] plan.nodes.contains_key(
                    key,
                ) && plan.nodes[key] == before.nodes[key] by {
                    assert(!id_range(id, size(ioc.definition)).contains(key));
                    assert(plan.nodes.dom().contains(key));
                }
                lemma_holds_tree_framed(
                    before.nodes,
                    plan.nodes,
                    args,
                    other.definition,
                    other.id,
                    oid,
                );
            }
        }
    }
}

/// Flattening and evaluating agree with the trees: an indicator of a batch
/// is confirmed on the flattened tables exactly if its definition tree is
/// confirmed, and nothing else is confirmed.
pub proof fn lemma_flattened_verdicts(
    args: ParsedArgs,
    iocs: Seq<Ioc>,
    outcomes: Seq<SearchOutcome>,
)
    requires
        ids_suffice(iocs),
        distinct_ids(iocs),
    ensures
        forall|k: int|
            0 <= k < iocs.len() ==> ioc_confirmed(
                flattened(args, iocs).roots,
                flattened(args, iocs).nodes,
                outcomes,
                (#[trigger] iocs[k]).id,
            ) == tree_confirmed(
                args,
                iocs[k].definition,
                iocs[k].id,
                root_id(iocs, k as nat),
                outcomes,
            ),
        forall|x: IocId|
            #[trigger] ioc_confirmed(
                flattened(args, iocs).roots,
                flattened(args, iocs).nodes,
                outcomes,
                x,
            ) ==> exists|k: int| 0 <= k < iocs.len() && (#[trigger] iocs[k]).id == x,
{
    let plan = flattened(args, iocs);
    let count = iocs.len();
    lemma_walk_all(args, iocs, count);
    let nodes = (root_id(iocs, count) - 2) as nat;
    lemma_id_range_len(2, nodes);
    assert(plan.nodes.len() == nodes);
    assert forall|k: int| 0 <= k < iocs.len() implies ioc_confirmed(
        plan.roots,
        plan.nodes,
        outcomes,
        (#[trigger] iocs[k]).id,
    ) == tree_confirmed(args, iocs[k].definition, iocs[k].id, root_id(iocs, k as nat), outcomes) by {
        let ioc = iocs[k];
        let id = root_id(iocs, k as nat);
        crate::flattener::lemma_root_id_grows(iocs, (k + 1) as nat, count);
        crate::flattener::lemma_root_id_grows(iocs, 0, k as nat);
        lemma_size_at_least_height(ioc.definition);
        assert(plan.roots.contains_key(ioc.id));
        assert(plan.roots[ioc.id] == id as u64);
        lemma_table_verdict_is_tree_verdict(
            plan.nodes,
            args,
            ioc.definition,
            ioc.id,
            id,
            outcomes,
            plan.nodes.len(),
        );
    }
}

} // verus!
