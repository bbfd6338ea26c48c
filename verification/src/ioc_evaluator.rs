//! Decides which indicators are confirmed, from the flattened definition
//! trees and the outcomes of the searches.

use crate::data::{EvaluationPolicy, IocEntryId, IocId, IocSearchError};
use crate::utils::{insert_ascending, lemma_ascending_lists_agree, strictly_ascending};
use std::collections::HashMap;
use vstd::prelude::*;
use vstd::std_specs::iter::IteratorSpec;

verus! {

broadcast use vstd::std_specs::hash::group_hash_axioms;

/// One node of a definition tree as the evaluator reads it.
#[derive(Debug)]
pub struct IocEntryItem {
    pub ioc_entry_id: IocEntryId,
    pub ioc_id: IocId,
    pub eval_policy: EvaluationPolicy,
    pub child_eval: EvaluationPolicy,
    pub children: Option<Vec<IocEntryId>>,
    pub checks_specified: u32,
}

/// What a node holds, its list of children as a sequence.
pub ghost struct Node {
    pub ioc_entry_id: IocEntryId,
    pub ioc_id: IocId,
    pub eval_policy: EvaluationPolicy,
    pub child_eval: EvaluationPolicy,
    pub children: Option<Seq<IocEntryId>>,
    pub checks_specified: u32,
}

impl Node {
    /// The entry ids of the node's children, in order; none for a leaf.
    pub open spec fn child_ids(self) -> Seq<IocEntryId> {
        match self.children {
            Some(ids) => ids,
            None => Seq::empty(),
        }
    }
}

impl View for IocEntryItem {
    type V = Node;

    open spec fn view(&self) -> Node {
        Node {
            ioc_entry_id: self.ioc_entry_id,
            ioc_id: self.ioc_id,
            eval_policy: self.eval_policy,
            child_eval: self.child_eval,
            children: match self.children {
                Some(ids) => Some(ids@),
                None => None,
            },
            checks_specified: self.checks_specified,
        }
    }
}

/// The nodes that a table of items holds.
pub open spec fn nodes_of(items: Map<IocEntryId, IocEntryItem>) -> Map<IocEntryId, Node> {
    items.map_values(|item: IocEntryItem| item@)
}

impl Clone for IocEntryItem {
    fn clone(&self) -> (copy: Self)
        ensures
            copy@ == self@,
    {
        let children = match &self.children {
            Some(ids) => Some(ids.clone()),
            None => None,
        };
        proof {
            if self.children is Some {
                assert(children->0@ =~= self.children->0@);
            }
        }
        IocEntryItem {
            ioc_entry_id: self.ioc_entry_id,
            ioc_id: self.ioc_id,
            eval_policy: self.eval_policy,
            child_eval: self.child_eval,
            children,
            checks_specified: self.checks_specified,
        }
    }
}

/// Evidence that one search request was met on the host.
#[derive(Debug)]
pub struct IocEntrySearchResult {
    pub ioc_id: IocId,
    pub ioc_entry_id: IocEntryId,
    pub description: String,
}

impl Clone for IocEntrySearchResult {
    fn clone(&self) -> (copy: Self)
        ensures
            copy == *self,
    {
        IocEntrySearchResult {
            ioc_id: self.ioc_id,
            ioc_entry_id: self.ioc_entry_id,
            description: self.description.clone(),
        }
    }
}

/// What one search request, or one item looked at for it, came to.
pub type SearchOutcome = Result<IocEntrySearchResult, IocSearchError>;

/// The outcome is evidence for the node `id`.
pub open spec fn is_hit(outcome: SearchOutcome, id: IocEntryId) -> bool {
    outcome matches Ok(found) && found.ioc_entry_id == id
}

/// How many of the outcomes are evidence for the node `id`. Errors count
/// for nothing.
pub open spec fn hit_count(outcomes: Seq<SearchOutcome>, id: IocEntryId) -> nat {
    outcomes.filter(|outcome: SearchOutcome| is_hit(outcome, id)).len()
}

/// `All` asks that every one of `required` things holds, `One` that some does;
/// `actual` is how many hold.
pub open spec fn policy_holds(policy: EvaluationPolicy, required: nat, actual: nat) -> bool {
    match policy {
        EvaluationPolicy::All => actual == required,
        EvaluationPolicy::One => actual > 0,
    }
}

/// The verdict of a node on its own checks: never confirmed where it has
/// none, else by its policy over the number of hits.
pub open spec fn self_confirmed(entry: Node, outcomes: Seq<SearchOutcome>) -> bool {
    entry.checks_specified != 0 && policy_holds(
        entry.eval_policy,
        entry.checks_specified as nat,
        hit_count(outcomes, entry.ioc_entry_id),
    )
}

/// The node has checks, and one of them was met.
pub open spec fn met_some_check(entry: Node, outcomes: Seq<SearchOutcome>) -> bool {
    entry.checks_specified > 0 && hit_count(outcomes, entry.ioc_entry_id) > 0
}

/// The hits of the node are as many as its checks.
pub open spec fn met_every_check(entry: Node, outcomes: Seq<SearchOutcome>) -> bool {
    hit_count(outcomes, entry.ioc_entry_id) == entry.checks_specified
}

/// The verdict of the node stored under `id`, looking at most `depth` levels
/// down from it. An id that the table lacks is unconfirmed, and so is
/// whatever lies deeper than `depth`.
pub open spec fn id_confirmed(
    table: Map<IocEntryId, Node>,
    outcomes: Seq<SearchOutcome>,
    id: IocEntryId,
    depth: nat,
) -> bool
    decreases depth, 0nat, 0nat,
{
    depth > 0 && table.contains_key(id) && entry_confirmed(
        table,
        outcomes,
        table[id],
        (depth - 1) as nat,
    )
}

/// The verdict of a node, given `depth` levels below it.
///
/// Under `One` the node's own verdict is enough, and the children are asked
/// only where it fails. Under `All` a node whose own checks hold needs its
/// children too; one with no checks at all goes by its children; one whose
/// checks fail is unconfirmed.
pub open spec fn entry_confirmed(
    table: Map<IocEntryId, Node>,
    outcomes: Seq<SearchOutcome>,
    entry: Node,
    depth: nat,
) -> bool
    decreases depth, 3nat, 0nat,
{
    let own = self_confirmed(entry, outcomes);
    match entry.eval_policy {
        EvaluationPolicy::One => own || children_confirmed(table, outcomes, entry, false, depth),
        EvaluationPolicy::All => if own {
            children_confirmed(table, outcomes, entry, true, depth)
        } else if entry.checks_specified == 0 {
            children_confirmed(table, outcomes, entry, false, depth)
        } else {
            false
        },
    }
}

/// The combined verdict of a node's children by its child policy; `fallback`
/// where it has none.
pub open spec fn children_confirmed(
    table: Map<IocEntryId, Node>,
    outcomes: Seq<SearchOutcome>,
    entry: Node,
    fallback: bool,
    depth: nat,
) -> bool
    decreases depth, 2nat, 0nat,
{
    let ids = entry.child_ids();
    if ids.len() == 0 {
        fallback
    } else {
        policy_holds(entry.child_eval, ids.len(), confirmed_count(table, outcomes, ids, depth))
    }
}

/// How many of `ids` are confirmed, an id counted as often as it occurs.
pub open spec fn confirmed_count(
    table: Map<IocEntryId, Node>,
    outcomes: Seq<SearchOutcome>,
    ids: Seq<IocEntryId>,
    depth: nat,
) -> nat
    decreases depth, 1nat, ids.len(),
{
    if ids.len() == 0 {
        0
    } else {
        confirmed_count(table, outcomes, ids.drop_last(), depth) + if id_confirmed(
            table,
            outcomes,
            ids.last(),
            depth,
        ) {
            1nat
        } else {
            0nat
        }
    }
}

/// The indicator `ioc_id` is confirmed: it has a root node, and that node's
/// verdict is true. The table's size bounds the depth, since no chain of
/// distinct nodes is longer.
pub open spec fn ioc_confirmed(
    roots: Map<IocId, IocEntryId>,
    table: Map<IocEntryId, Node>,
    outcomes: Seq<SearchOutcome>,
    ioc_id: IocId,
) -> bool {
    roots.contains_key(ioc_id) && id_confirmed(table, outcomes, roots[ioc_id], table.len())
}

/// `confirmed` is the list of the confirmed indicators: ascending, each once.
pub open spec fn is_confirmed_list(
    roots: Map<IocId, IocEntryId>,
    table: Map<IocEntryId, Node>,
    outcomes: Seq<SearchOutcome>,
    confirmed: Seq<IocId>,
) -> bool {
    &&& strictly_ascending(confirmed)
    &&& forall|ioc_id: IocId| #[trigger]
        confirmed.contains(ioc_id) <==> ioc_confirmed(roots, table, outcomes, ioc_id)
}

/// The number that a counter holds for `id`; zero where it holds none.
pub open spec fn counted(counts: Map<IocEntryId, usize>, id: IocEntryId) -> nat {
    if counts.contains_key(id) {
        counts[id] as nat
    } else {
        0
    }
}

/// Holds the flattened trees and the number of hits of each node.
pub struct IocEvaluator {
    root_ioc_ids: HashMap<IocId, IocEntryId>,
    id_ioc_entries: HashMap<IocEntryId, IocEntryItem>,
    id_successful_founds_count: HashMap<IocEntryId, usize>,
    founds: Ghost<Seq<SearchOutcome>>,
}

impl IocEvaluator {
    #[verifier::type_invariant]
    spec fn counts_agree(self) -> bool {
        forall|id: IocEntryId|
            counted(self.id_successful_founds_count@, id) == #[trigger] hit_count(self.founds@, id)
    }

    /// The root node of each indicator.
    pub closed spec fn roots(self) -> Map<IocId, IocEntryId> {
        self.root_ioc_ids@
    }

    /// The nodes by entry id.
    pub closed spec fn table(self) -> Map<IocEntryId, Node> {
        nodes_of(self.id_ioc_entries@)
    }

    /// The outcomes that the evaluator was made with.
    pub closed spec fn outcomes(self) -> Seq<SearchOutcome> {
        self.founds@
    }

    /// Takes the flattened trees and folds the outcomes into the number of
    /// hits per node.
    pub fn new(
        root_ioc_ids: HashMap<IocId, IocEntryId>,
        id_ioc_entries: HashMap<IocEntryId, IocEntryItem>,
        founds: &[SearchOutcome],
    ) -> (evaluator: Self)
        ensures
            evaluator.roots() == root_ioc_ids@,
            evaluator.table() == nodes_of(id_ioc_entries@),
            evaluator.outcomes() == founds@,
    {
        let mut counts: HashMap<IocEntryId, usize> = HashMap::new();
        let mut at: usize = 0;
        while at < founds.len()
            invariant
                at <= founds.len(),
                forall|id: IocEntryId|
                    counted(counts@, id) == #[trigger] hit_count(founds@.take(at as int), id),
            decreases founds.len() - at,
        {
            let ghost seen = founds@.take(at as int);
            proof {
                assert(founds@.take(at + 1) =~= seen.push(founds@[at as int]));
                assert forall|id: IocEntryId|
                    hit_count(seen.push(founds@[at as int]), id) == hit_count(seen, id) + (if is_hit(
                        founds@[at as int],
                        id,
                    ) {
                        1nat
                    } else {
                        0nat
                    }) by {
                    seen.lemma_filter_len_push(
                        |outcome: SearchOutcome| is_hit(outcome, id),
                        founds@[at as int],
                    );
                }
            }
            match &founds[at] {
                Ok(found) => {
                    let entry_id = found.ioc_entry_id;
                    let so_far: usize = match counts.get(&entry_id) {
                        Some(count) => *count,
                        None => 0,
                    };
                    proof {
                        assert(so_far == hit_count(seen, entry_id));
                        seen.lemma_filter_len(|outcome: SearchOutcome| is_hit(outcome, entry_id));
                    }
                    counts.insert(entry_id, so_far + 1);
                },
                Err(_) => {},
            }
            at += 1;
        }
        assert(founds@.take(at as int) =~= founds@);
        IocEvaluator {
            root_ioc_ids,
            id_ioc_entries,
            id_successful_founds_count: counts,
            founds: Ghost(founds@),
        }
    }

    /// The confirmed indicators, ascending and without repetition.
    pub fn evaluate(&self) -> (confirmed: Vec<IocId>)
        ensures
            is_confirmed_list(self.roots(), self.table(), self.outcomes(), confirmed@),
    {
        let depth = self.id_ioc_entries.len();
        assert(self.table().dom() =~= self.id_ioc_entries@.dom());
        let mut confirmed: Vec<IocId> = Vec::new();
        let keys = self.root_ioc_ids.keys();
        let ghost all = keys.remaining().unref();
        for ioc_id in it: keys
            invariant
                it.seq().unref() == all,
                all.to_set() == self.root_ioc_ids@.dom(),
                depth == self.table().len(),
                strictly_ascending(confirmed@),
                forall|x: IocId| #[trigger]
                    confirmed@.contains(x) <==> all.take(it.index() as int).contains(x)
                        && ioc_confirmed(self.roots(), self.table(), self.outcomes(), x),
        {
            let ghost done = all.take(it.index() as int);
            assert(all.take(it.index() + 1) =~= done.push(*ioc_id));
            assert(all.contains(*ioc_id)) by {
                assert(all[it.index() as int] == *ioc_id);
            }
            assert(self.root_ioc_ids@.dom().contains(*ioc_id));
            let root = self.root_ioc_ids.get(ioc_id);
            let holds = match root {
                Some(entry_id) => self.evaluate_id(*entry_id, depth),
                None => false,
            };
            if holds {
                insert_ascending(&mut confirmed, *ioc_id);
            }
            assert forall|x: IocId| #[trigger]
                confirmed@.contains(x) <==> done.push(*ioc_id).contains(x) && ioc_confirmed(
                    self.roots(),
                    self.table(),
                    self.outcomes(),
                    x,
                ) by {
                vstd::seq_lib::lemma_seq_contains_after_push(done, *ioc_id, x);
            }
        }
        proof {
            assert(all.take(all.len() as int) =~= all);
            assert forall|x: IocId| #[trigger]
                confirmed@.contains(x) <==> ioc_confirmed(
                    self.roots(),
                    self.table(),
                    self.outcomes(),
                    x,
                ) by {
                if ioc_confirmed(self.roots(), self.table(), self.outcomes(), x) {
                    assert(self.root_ioc_ids@.dom().contains(x));
                    assert(all.to_set().contains(x));
                }
            }
        }
        confirmed
    }

    /// The verdict of the node stored under `id`, looking at most `depth`
    /// levels down from it.
    pub fn evaluate_id(&self, id: IocEntryId, depth: usize) -> (confirmed: bool)
        ensures
            confirmed == id_confirmed(self.table(), self.outcomes(), id, depth as nat),
        decreases depth, 0nat, 0nat,
    {
        if depth == 0 {
            return false;
        }
        match self.id_ioc_entries.get(&id) {
            None => false,
            Some(entry) => self.evaluate_one(entry, depth - 1),
        }
    }

    /// The verdict of one node, its children included, looking at most
    /// `depth` levels below it.
    ///
    /// A node without checks and without children is unconfirmed. Under
    /// `One` a node is confirmed exactly if one of its checks was met or its
    /// children's combined verdict holds. Under `All` a node with checks is
    /// confirmed exactly if the hits are as many as the checks and its
    /// children's combined verdict holds, which it does where there are no
    /// children.
    pub fn evaluate_one(&self, ioc_entry: &IocEntryItem, depth: usize) -> (confirmed: bool)
        ensures
            confirmed == entry_confirmed(self.table(), self.outcomes(), ioc_entry@, depth as nat),
            ioc_entry.checks_specified == 0 && ioc_entry@.child_ids().len() == 0 ==> !confirmed,
            ioc_entry.eval_policy == EvaluationPolicy::One ==> confirmed == (met_some_check(
                ioc_entry@,
                self.outcomes(),
            ) || children_confirmed(
                self.table(),
                self.outcomes(),
                ioc_entry@,
                false,
                depth as nat,
            )),
            ioc_entry.eval_policy == EvaluationPolicy::All && ioc_entry.checks_specified > 0
                ==> confirmed == (met_every_check(ioc_entry@, self.outcomes())
                && children_confirmed(
                self.table(),
                self.outcomes(),
                ioc_entry@,
                true,
                depth as nat,
            )),
        decreases depth, 3nat, 0nat,
    {
        let evaluated_self = self.evaluate_without_offspring(ioc_entry);
        match ioc_entry.eval_policy {
            EvaluationPolicy::One => if evaluated_self {
                true
            } else {
                self.evaluate_children(ioc_entry, false, depth)
            },
            EvaluationPolicy::All => if evaluated_self {
                self.evaluate_children(ioc_entry, true, depth)
            } else if ioc_entry.checks_specified == 0 {
                self.evaluate_children(ioc_entry, false, depth)
            } else {
                false
            },
        }
    }

    /// The verdict of one node on its own checks.
    pub fn evaluate_without_offspring(&self, ioc_entry: &IocEntryItem) -> (confirmed: bool)
        ensures
            confirmed == self_confirmed(ioc_entry@, self.outcomes()),
    {
        proof {
            use_type_invariant(self);
            assert(counted(self.id_successful_founds_count@, ioc_entry.ioc_entry_id) == hit_count(
                self.founds@,
                ioc_entry.ioc_entry_id,
            ));
        }
        if ioc_entry.checks_specified == 0 {
            return false;
        }
        let successful_founds_count: usize = match self.id_successful_founds_count.get(
            &ioc_entry.ioc_entry_id,
        ) {
            Some(count) => *count,
            None => 0,
        };
        match ioc_entry.eval_policy {
            EvaluationPolicy::All => successful_founds_count as u128
                == ioc_entry.checks_specified as u128,
            EvaluationPolicy::One => successful_founds_count > 0,
        }
    }

    /// The combined verdict of the children of a node.
    pub fn evaluate_children(
        &self,
        parent_ioc_entry: &IocEntryItem,
        empty_children_evaluation_result: bool,
        depth: usize,
    ) -> (confirmed: bool)
        ensures
            confirmed == children_confirmed(
                self.table(),
                self.outcomes(),
                parent_ioc_entry@,
                empty_children_evaluation_result,
                depth as nat,
            ),
        decreases depth, 2nat, 0nat,
    {
        match &parent_ioc_entry.children {
            None => empty_children_evaluation_result,
            Some(children) => {
                if children.len() == 0 {
                    empty_children_evaluation_result
                } else {
                    let found_children = self.evaluate_non_empty_vector(children, depth);
                    match parent_ioc_entry.child_eval {
                        EvaluationPolicy::All => found_children == children.len(),
                        EvaluationPolicy::One => found_children > 0,
                    }
                }
            },
        }
    }

    /// How many of the given nodes are confirmed.
    pub fn evaluate_non_empty_vector(&self, ioc_entry_ids: &Vec<IocEntryId>, depth: usize) -> (found_count:
        usize)
        ensures
            found_count == confirmed_count(
                self.table(),
                self.outcomes(),
                ioc_entry_ids@,
                depth as nat,
            ),
        decreases depth, 1nat, ioc_entry_ids@.len(),
    {
        let mut found_count: usize = 0;
        let mut at: usize = 0;
        while at < ioc_entry_ids.len()
            invariant
                at <= ioc_entry_ids.len(),
                found_count <= at,
                found_count == confirmed_count(
                    self.table(),
                    self.outcomes(),
                    ioc_entry_ids@.take(at as int),
                    depth as nat,
                ),
            decreases ioc_entry_ids.len() - at,
        {
            let holds = self.evaluate_id(ioc_entry_ids[at], depth);
            proof {
                let next = ioc_entry_ids@.take(at + 1);
                assert(next.drop_last() =~= ioc_entry_ids@.take(at as int));
                assert(next.last() == ioc_entry_ids@[at as int]);
            }
            if holds {
                found_count += 1;
            }
            at += 1;
        }
        assert(ioc_entry_ids@.take(at as int) =~= ioc_entry_ids@);
        found_count
    }
}

/// A node without checks and without children is never confirmed, whatever
/// its policies and whatever the outcomes.
pub proof fn lemma_bare_node_unconfirmed(
    table: Map<IocEntryId, Node>,
    outcomes: Seq<SearchOutcome>,
    entry: Node,
    depth: nat,
)
    requires
        entry.checks_specified == 0,
        entry.child_ids().len() == 0,
    ensures
        !entry_confirmed(table, outcomes, entry, depth),
{
}

/// Under `One` a node is confirmed exactly if one of its checks was met or,
/// failing that, its children's combined verdict holds; a node without
/// children has no such verdict to fall back on.
pub proof fn lemma_one_policy_verdict(
    table: Map<IocEntryId, Node>,
    outcomes: Seq<SearchOutcome>,
    entry: Node,
    depth: nat,
)
    requires
        entry.eval_policy == EvaluationPolicy::One,
    ensures
        entry_confirmed(table, outcomes, entry, depth) == (met_some_check(entry, outcomes)
            || children_confirmed(table, outcomes, entry, false, depth)),
{
}

/// Under `All` a node with checks is confirmed exactly if the number of hits
/// equals the number of its checks and its children's combined verdict holds;
/// for a node without children that verdict is true.
pub proof fn lemma_all_policy_verdict(
    table: Map<IocEntryId, Node>,
    outcomes: Seq<SearchOutcome>,
    entry: Node,
    depth: nat,
)
    requires
        entry.eval_policy == EvaluationPolicy::All,
        entry.checks_specified > 0,
    ensures
        entry_confirmed(table, outcomes, entry, depth) == (met_every_check(entry, outcomes)
            && children_confirmed(table, outcomes, entry, true, depth)),
{
}

/// Evaluating twice gives the same list: the trees and the outcomes admit
/// one list of confirmed indicators only.
pub proof fn lemma_evaluation_repeatable(
    roots: Map<IocId, IocEntryId>,
    table: Map<IocEntryId, Node>,
    outcomes: Seq<SearchOutcome>,
    first: Seq<IocId>,
    second: Seq<IocId>,
)
    requires
        is_confirmed_list(roots, table, outcomes, first),
        is_confirmed_list(roots, table, outcomes, second),
    ensures
        first == second,
{
    assert forall|x: IocId| first.contains(x) <==> second.contains(x) by {
        assert(first.contains(x) <==> ioc_confirmed(roots, table, outcomes, x));
        assert(second.contains(x) <==> ioc_confirmed(roots, table, outcomes, x));
    }
    lemma_ascending_lists_agree(first, second);
}

/// The two lists of outcomes give every node the same number of hits.
pub open spec fn same_hits(first: Seq<SearchOutcome>, second: Seq<SearchOutcome>) -> bool {
    forall|id: IocEntryId| hit_count(first, id) == #[trigger] hit_count(second, id)
}

/// Taking one outcome out of a list takes one hit from the node that it is
/// evidence for, and none from any other.
pub proof fn lemma_hits_without(outcomes: Seq<SearchOutcome>, at: int, id: IocEntryId)
    requires
        0 <= at < outcomes.len(),
    ensures
        hit_count(outcomes, id) == hit_count(outcomes.remove(at), id) + if is_hit(
            outcomes[at],
            id,
        ) {
            1nat
        } else {
            0nat
        },
{
    let hits = |outcome: SearchOutcome| is_hit(outcome, id);
    let head = outcomes.take(at);
    let tail = outcomes.skip(at + 1);
    assert(outcomes =~= head.push(outcomes[at]) + tail);
    assert(outcomes.remove(at) =~= head + tail);
    Seq::filter_distributes_over_add(head.push(outcomes[at]), tail, hits);
    Seq::filter_distributes_over_add(head, tail, hits);
    head.lemma_filter_len_push(hits, outcomes[at]);
}

/// Lists that hold the same outcomes, in whatever order, give every node
/// the same number of hits.
pub proof fn lemma_hits_of_reordered(first: Seq<SearchOutcome>, second: Seq<SearchOutcome>)
    requires
        first.to_multiset() == second.to_multiset(),
    ensures
        same_hits(first, second),
    decreases first.len(),
{
    first.to_multiset_ensures();
    second.to_multiset_ensures();
    assert(first.len() == second.len());
    if first.len() == 0 {
        assert(first =~= second);
    } else {
        let last = first.len() - 1;
        let outcome = first[last];
        assert(first.contains(outcome));
        assert(second.to_multiset().count(outcome) > 0);
        assert(second.contains(outcome));
        let at = choose|at: int| 0 <= at < second.len() && second[at] == outcome;
        vstd::seq_lib::to_multiset_remove(first, last);
        vstd::seq_lib::to_multiset_remove(second, at);
        assert(first.remove(last).to_multiset() == second.remove(at).to_multiset());
        lemma_hits_of_reordered(first.remove(last), second.remove(at));
        assert forall|id: IocEntryId| hit_count(first, id) == #[trigger] hit_count(
            second,
            id,
        ) by {
            lemma_hits_without(first, last, id);
            lemma_hits_without(second, at, id);
            assert(hit_count(first.remove(last), id) == hit_count(second.remove(at), id));
        }
    }
}

/// The verdicts go by the number of hits of each node alone.
pub proof fn lemma_verdict_goes_by_hits(
    table: Map<IocEntryId, Node>,
    first: Seq<SearchOutcome>,
    second: Seq<SearchOutcome>,
    id: IocEntryId,
    depth: nat,
)
    requires
        same_hits(first, second),
    ensures
        id_confirmed(table, first, id, depth) == id_confirmed(table, second, id, depth),
    decreases depth, 0nat, 0nat,
{
    if depth > 0 && table.contains_key(id) {
        lemma_entry_verdict_goes_by_hits(table, first, second, table[id], (depth - 1) as nat);
    }
}

/// The verdict of a node goes by the number of hits of each node alone.
pub proof fn lemma_entry_verdict_goes_by_hits(
    table: Map<IocEntryId, Node>,
    first: Seq<SearchOutcome>,
    second: Seq<SearchOutcome>,
    entry: Node,
    depth: nat,
)
    requires
        same_hits(first, second),
    ensures
        entry_confirmed(table, first, entry, depth) == entry_confirmed(
            table,
            second,
            entry,
            depth,
        ),
    decreases depth, 3nat, 0nat,
{
    assert(hit_count(first, entry.ioc_entry_id) == hit_count(second, entry.ioc_entry_id));
    lemma_count_goes_by_hits(table, first, second, entry.child_ids(), depth);
}

/// The number of confirmed nodes goes by the number of hits of each node
/// alone.
pub proof fn lemma_count_goes_by_hits(
    table: Map<IocEntryId, Node>,
    first: Seq<SearchOutcome>,
    second: Seq<SearchOutcome>,
    ids: Seq<IocEntryId>,
    depth: nat,
)
    requires
        same_hits(first, second),
    ensures
        confirmed_count(table, first, ids, depth) == confirmed_count(table, second, ids, depth),
    decreases depth, 1nat, ids.len(),
{
    if ids.len() > 0 {
        lemma_count_goes_by_hits(table, first, second, ids.drop_last(), depth);
        lemma_verdict_goes_by_hits(table, first, second, ids.last(), depth);
    }
}

/// The order of the outcomes is of no account: lists that hold the same
/// outcomes confirm the same indicators.
pub proof fn lemma_outcome_order_irrelevant(
    roots: Map<IocId, IocEntryId>,
    table: Map<IocEntryId, Node>,
    first: Seq<SearchOutcome>,
    second: Seq<SearchOutcome>,
    confirmed: Seq<IocId>,
)
    requires
        first.to_multiset() == second.to_multiset(),
        is_confirmed_list(roots, table, first, confirmed),
    ensures
        is_confirmed_list(roots, table, second, confirmed),
{
    lemma_hits_of_reordered(first, second);
    assert forall|ioc_id: IocId| #[trigger]
        confirmed.contains(ioc_id) <==> ioc_confirmed(roots, table, second, ioc_id) by {
        assert(confirmed.contains(ioc_id) <==> ioc_confirmed(roots, table, first, ioc_id));
        if roots.contains_key(ioc_id) {
            lemma_verdict_goes_by_hits(table, first, second, roots[ioc_id], table.len());
        }
    }
}

} // verus!
