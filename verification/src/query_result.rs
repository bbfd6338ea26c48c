//! The outcomes of the searches as plain values, and how lists of them grow.

use crate::data::{IocEntryId, IocId, IocSearchError};
use crate::ioc_evaluator::{IocEntrySearchResult, SearchOutcome};
use crate::text::{decimal, push_decimal, push_str, string_of};
use vstd::prelude::*;

verus! {

/// What an outcome holds: the evidence with its description, or the error.
pub ghost enum Outcome {
    Found { ioc_id: IocId, ioc_entry_id: IocEntryId, description: Seq<char> },
    Failed { kind: Seq<char>, message: Seq<char> },
}

/// What one outcome holds.
pub open spec fn outcome_of(outcome: SearchOutcome) -> Outcome {
    match outcome {
        Ok(found) => Outcome::Found {
            ioc_id: found.ioc_id,
            ioc_entry_id: found.ioc_entry_id,
            description: found.description@,
        },
        Err(error) => Outcome::Failed { kind: error.kind@, message: error.message@ },
    }
}

/// What a list of outcomes holds.
pub open spec fn outcomes_of(outcomes: Seq<SearchOutcome>) -> Seq<Outcome> {
    outcomes.map_values(|outcome: SearchOutcome| outcome_of(outcome))
}

/// Evidence for the node `ioc_entry_id` of the indicator `ioc_id`.
pub fn found(ioc_id: IocId, ioc_entry_id: IocEntryId, description: String) -> (outcome:
    SearchOutcome)
    ensures
        outcome_of(outcome) == (Outcome::Found {
            ioc_id,
            ioc_entry_id,
            description: description@,
        }),
{
    Ok(IocEntrySearchResult { ioc_id, ioc_entry_id, description })
}

/// The words that tie the message of an error to the request that it came
/// up for.
pub open spec fn scope_of(ioc_id: IocId, ioc_entry_id: IocEntryId) -> Seq<char> {
    "IOC "@ + decimal(ioc_id as nat) + ", entry "@ + decimal(ioc_entry_id as nat) + ": "@
}

/// An error that came up for the request of the node `ioc_entry_id` of the
/// indicator `ioc_id`: its message names the two.
pub fn scoped_error(ioc_id: IocId, ioc_entry_id: IocEntryId, kind: &str, detail: &str) -> (error:
    IocSearchError)
    ensures
        error.kind@ == kind@,
        error.message@ == scope_of(ioc_id, ioc_entry_id) + detail@,
{
    let mut message: Vec<char> = Vec::new();
    push_str(&mut message, "IOC ");
    push_decimal(&mut message, ioc_id);
    push_str(&mut message, ", entry ");
    push_decimal(&mut message, ioc_entry_id);
    push_str(&mut message, ": ");
    push_str(&mut message, detail);
    IocSearchError { kind: kind.to_string(), message: string_of(message.as_slice()) }
}

/// Appends an outcome.
pub fn push_outcome(outcomes: &mut Vec<SearchOutcome>, outcome: SearchOutcome)
    ensures
        final(outcomes)@ == old(outcomes)@.push(outcome),
        outcomes_of(final(outcomes)@) == outcomes_of(old(outcomes)@).push(outcome_of(outcome)),
{
    outcomes.push(outcome);
    assert(outcomes_of(outcomes@) =~= outcomes_of(old(outcomes)@).push(outcome_of(outcome)));
}

/// Those of `items` that meet `keep`, each turned into a value by `make`.
pub open spec fn select<A, B>(items: Seq<A>, keep: spec_fn(A) -> bool, make: spec_fn(A) -> B) -> Seq<B> {
    items.filter(keep).map_values(make)
}

/// Selecting from one item more adds that item's value if it is kept.
pub proof fn lemma_select_step<A, B>(
    items: Seq<A>,
    upto: int,
    keep: spec_fn(A) -> bool,
    make: spec_fn(A) -> B,
)
    requires
        0 <= upto < items.len(),
    ensures
        select(items.take(upto + 1), keep, make) == if keep(items[upto]) {
            select(items.take(upto), keep, make).push(make(items[upto]))
        } else {
            select(items.take(upto), keep, make)
        },
{
    let before = items.take(upto);
    assert(items.take(upto + 1) =~= before.push(items[upto]));
    before.lemma_filter_push(items[upto], keep);
    if keep(items[upto]) {
        before.filter(keep).lemma_push_map_commute(make, items[upto]);
    }
}

/// Nothing is selected from nothing, and all of a list is the list.
pub proof fn lemma_select_ends<A, B>(items: Seq<A>, keep: spec_fn(A) -> bool, make: spec_fn(A) -> B)
    ensures
        select(items.take(0), keep, make) == Seq::<B>::empty(),
        items.take(items.len() as int) == items,
{
    reveal(Seq::filter);
    assert(items.take(0).filter(keep) =~= Seq::<A>::empty());
    assert(select(items.take(0), keep, make) =~= Seq::<B>::empty());
    assert(items.take(items.len() as int) =~= items);
}

/// For each of `facts` in turn, what `per_fact` gives for it, end to end.
pub open spec fn collect<F, B>(facts: Seq<F>, per_fact: spec_fn(F) -> Seq<B>) -> Seq<B> {
    facts.flat_map(per_fact)
}

/// Collecting over one fact more appends what that fact gives.
pub proof fn lemma_collect_step<F, B>(facts: Seq<F>, upto: int, per_fact: spec_fn(F) -> Seq<B>)
    requires
        0 <= upto < facts.len(),
    ensures
        collect(facts.take(upto + 1), per_fact) == collect(facts.take(upto), per_fact) + per_fact(
            facts[upto],
        ),
{
    assert(facts.take(upto + 1) =~= facts.take(upto).push(facts[upto]));
    facts.take(upto).lemma_flat_map_push(per_fact, facts[upto]);
}

/// Nothing is collected from no facts, and all of a list is the list.
pub proof fn lemma_collect_ends<F, B>(facts: Seq<F>, per_fact: spec_fn(F) -> Seq<B>)
    ensures
        collect(facts.take(0), per_fact) == Seq::<B>::empty(),
        facts.take(facts.len() as int) == facts,
{
    assert(facts.take(0).map_values(per_fact) =~= Seq::<Seq<B>>::empty());
    assert(collect(facts.take(0), per_fact) =~= Seq::<B>::empty()) by {
        reveal_with_fuel(Seq::flatten, 2);
    }
    assert(facts.take(facts.len() as int) =~= facts);
}

/// Nothing is selected from an empty list.
pub proof fn lemma_select_from_nothing<A, B>(keep: spec_fn(A) -> bool, make: spec_fn(A) -> B)
    ensures
        select(Seq::<A>::empty(), keep, make) == Seq::<B>::empty(),
{
    reveal(Seq::filter);
    assert(Seq::<A>::empty().filter(keep) =~= Seq::<A>::empty());
    assert(select(Seq::<A>::empty(), keep, make) =~= Seq::<B>::empty());
}

/// Nothing is collected where no fact gives anything.
pub proof fn lemma_collect_of_nothing<F, B>(facts: Seq<F>, per_fact: spec_fn(F) -> Seq<B>)
    requires
        forall|j: int| 0 <= j < facts.len() ==> per_fact(#[trigger] facts[j]) == Seq::<B>::empty(),
    ensures
        collect(facts, per_fact) == Seq::<B>::empty(),
    decreases facts.len(),
{
    if facts.len() == 0 {
        lemma_collect_ends(facts, per_fact);
        assert(facts.take(0) =~= facts);
    } else {
        let last = facts.len() - 1;
        lemma_collect_of_nothing(facts.take(last), per_fact);
        lemma_collect_step(facts, last, per_fact);
        assert(facts.take(last + 1) =~= facts);
        assert(facts[last] == facts[last]);
    }
}

/// Whatever is selected was made from an item that was kept.
pub proof fn lemma_selected_is_made<A, B>(
    items: Seq<A>,
    keep: spec_fn(A) -> bool,
    make: spec_fn(A) -> B,
    i: int,
) -> (j: int)
    requires
        0 <= i < select(items, keep, make).len(),
    ensures
        0 <= j < items.len(),
        keep(items[j]),
        select(items, keep, make)[i] == make(items[j]),
{
    let kept = items.filter(keep);
    items.lemma_filter_pred(keep, i);
    assert(keep(kept[i]));
    assert(items.contains(kept[i])) by {
        lemma_filtered_is_contained(items, keep, i);
    }
    choose|j: int| 0 <= j < items.len() && items[j] == kept[i]
}

/// What a filter keeps comes from the list.
proof fn lemma_filtered_is_contained<A>(items: Seq<A>, keep: spec_fn(A) -> bool, i: int)
    requires
        0 <= i < items.filter(keep).len(),
    ensures
        items.contains(items.filter(keep)[i]),
    decreases items.len(),
{
    reveal(Seq::filter);
    if items.len() > 0 {
        let before = items.drop_last().filter(keep);
        if i < before.len() {
            lemma_filtered_is_contained(items.drop_last(), keep, i);
            let j = choose|j: int|
                0 <= j < items.drop_last().len() && items.drop_last()[j] == before[i];
            assert(items[j] == before[i]);
        } else {
            assert(items[items.len() - 1] == items.last());
        }
    }
}

/// Whatever is collected was given by one of the facts.
pub proof fn lemma_collected_is_given<F, B>(
    facts: Seq<F>,
    per_fact: spec_fn(F) -> Seq<B>,
    i: int,
) -> (at: (int, int))
    requires
        0 <= i < collect(facts, per_fact).len(),
    ensures
        0 <= at.0 < facts.len(),
        0 <= at.1 < per_fact(facts[at.0]).len(),
        collect(facts, per_fact)[i] == per_fact(facts[at.0])[at.1],
    decreases facts.len(),
{
    if facts.len() == 0 {
        lemma_collect_ends(facts, per_fact);
        assert(facts.take(0) =~= facts);
        (0, 0)
    } else {
        let last = facts.len() - 1;
        lemma_collect_step(facts, last, per_fact);
        assert(facts.take(last + 1) =~= facts);
        let before = collect(facts.take(last), per_fact);
        if i < before.len() {
            let at = lemma_collected_is_given(facts.take(last), per_fact, i);
            assert(facts.take(last)[at.0] == facts[at.0]);
            at
        } else {
            (last, i - before.len())
        }
    }
}

/// Nothing is selected where no item is kept.
pub proof fn lemma_select_nothing_kept<A, B>(
    items: Seq<A>,
    keep: spec_fn(A) -> bool,
    make: spec_fn(A) -> B,
)
    requires
        forall|i: int| 0 <= i < items.len() ==> !keep(#[trigger] items[i]),
    ensures
        select(items, keep, make) == Seq::<B>::empty(),
{
    if select(items, keep, make).len() > 0 {
        let j = lemma_selected_is_made(items, keep, make, 0);
        assert(!keep(items[j]));
    }
    assert(select(items, keep, make) =~= Seq::<B>::empty());
}

} // verus!
