//! Matches requested host names against the resolver cache.

use crate::data::{IocEntryId, IocId};
use crate::ioc_evaluator::SearchOutcome;
use crate::query_result::{
    found, lemma_select_ends, lemma_select_from_nothing, lemma_select_step,
    lemma_selected_is_made, outcomes_of, push_outcome, select, Outcome,
};
use crate::text::{
    chars_of, decimal, lines_of, push_decimal, push_str, rows, same_chars, split_lines,
    starts_with, string_of, trim, trimmed,
};
use vstd::prelude::*;

verus! {

/// A request to look for a host name in the resolver cache.
#[derive(Debug)]
pub struct DnsParameters {
    pub ioc_id: IocId,
    pub ioc_entry_id: IocEntryId,
    pub name: String,
}

/// A line of the listing that underlines the name above it: ten hyphens or
/// more, white space around them set aside.
pub open spec fn is_separator(line: Seq<char>) -> bool {
    "----------"@.is_prefix_of(trimmed(line))
}

/// The line `i` is a separator and the line before it holds `name`.
pub open spec fn named_at(lines: Seq<Seq<char>>, i: int, name: Seq<char>) -> bool {
    1 <= i < lines.len() && is_separator(lines[i]) && trimmed(lines[i - 1]) == name
}

/// The listing of the resolver cache has an entry for `name`: a line that
/// holds the name, white space around it set aside, and a separator right
/// below it.
pub open spec fn name_cached(listing: Seq<char>, name: Seq<char>) -> bool {
    exists|i: int| named_at(lines_of(listing), i, name)
}

/// The description of a cached name that was found.
pub open spec fn dns_message(name: Seq<char>, ioc_id: IocId) -> Seq<char> {
    "DNS search: Found DNS "@ + name + " for IOC "@ + decimal(ioc_id as nat)
}

/// The requests whose name the listing has an entry for.
pub open spec fn dns_keep(listing: Seq<char>) -> spec_fn(DnsParameters) -> bool {
    |request: DnsParameters| name_cached(listing, request.name@)
}

/// The evidence for a request whose name is cached.
pub open spec fn dns_evidence() -> spec_fn(DnsParameters) -> Outcome {
    |request: DnsParameters|
        Outcome::Found {
            ioc_id: request.ioc_id,
            ioc_entry_id: request.ioc_entry_id,
            description: dns_message(request.name@, request.ioc_id),
        }
}

/// What the listing gives: evidence for each request whose name it has, in
/// the order of the requests.
pub open spec fn dns_outcomes(requests: Seq<DnsParameters>, listing: Seq<char>) -> Seq<Outcome> {
    select(requests, dns_keep(listing), dns_evidence())
}

/// The numbers of the lines that are separators with a line above them.
pub open spec fn underlines(lines: Seq<Seq<char>>) -> spec_fn(int) -> bool {
    |i: int| 1 <= i < lines.len() && is_separator(lines[i])
}

/// What stands in the line above the line `i`, white space around it set
/// aside.
pub open spec fn line_above(lines: Seq<Seq<char>>) -> spec_fn(int) -> Seq<char> {
    |i: int| trimmed(lines[i - 1])
}

/// The names that the listing has entries for, in its order: what stands
/// above each separator.
pub open spec fn entry_names(listing: Seq<char>) -> Seq<Seq<char>> {
    let lines = lines_of(listing);
    select(Seq::new(lines.len(), |i: int| i), underlines(lines), line_above(lines))
}

/// The listing has an entry for a name exactly if the name is among its
/// entry names.
pub proof fn lemma_entry_names_are_cached(listing: Seq<char>, name: Seq<char>)
    ensures
        entry_names(listing).contains(name) <==> name_cached(listing, name),
{
    let lines = lines_of(listing);
    let numbers = Seq::new(lines.len(), |i: int| i);
    let keep = underlines(lines);
    let make = line_above(lines);
    if entry_names(listing).contains(name) {
        let at = choose|at: int| 0 <= at < entry_names(listing).len() && entry_names(listing)[at]
            == name;
        let j = lemma_selected_is_made(numbers, keep, make, at);
        assert(named_at(lines, numbers[j], name));
    }
    if name_cached(listing, name) {
        let i = choose|i: int| named_at(lines_of(listing), i, name);
        assert(numbers[i] == i);
        assert(keep(numbers[i]));
        numbers.lemma_filter_contains(keep, i);
        let kept = numbers.filter(keep);
        let at = choose|at: int| 0 <= at < kept.len() && kept[at] == i;
        assert(kept.map_values(make)[at] == name);
    }
}

/// The names that the listing of the resolver cache has entries for.
pub fn cached_names(listing: &str) -> (names: Vec<Vec<char>>)
    ensures
        rows(names@) == entry_names(listing@),
        forall|name: Seq<char>| #[trigger]
            rows(names@).contains(name) <==> name_cached(listing@, name),
{
    let text = chars_of(listing);
    let lines = split_lines(text.as_slice());
    let ghost all = lines_of(listing@);
    let ghost numbers = Seq::new(all.len(), |i: int| i);
    let ghost keep = underlines(all);
    let ghost make = line_above(all);
    let mut names: Vec<Vec<char>> = Vec::new();
    proof {
        lemma_select_ends(numbers, keep, make);
        assert(rows(names@) =~= Seq::<Seq<char>>::empty());
        lemma_select_step(numbers, 0, keep, make);
    }
    let mut at: usize = 1;
    while at < lines.len()
        invariant
            1 <= at,
            at <= lines.len() || lines.len() == 0,
            rows(lines@) == all,
            numbers == Seq::new(all.len(), |i: int| i),
            keep == underlines(all),
            make == line_above(all),
            rows(names@) == select(numbers.take(at as int), keep, make),
        decreases lines.len() - at,
    {
        let ghost before = rows(names@);
        let line = trim(lines[at].as_slice());
        let dashes = chars_of("----------");
        proof {
            assert(lines@[at as int]@ == all[at as int]);
            assert(lines@[at - 1]@ == all[at - 1]);
            lemma_select_step(numbers, at as int, keep, make);
            assert(numbers[at as int] == at);
        }
        if starts_with(line.as_slice(), dashes.as_slice()) {
            let name = trim(lines[at - 1].as_slice());
            names.push(name);
            assert(rows(names@) =~= before.push(trimmed(all[at - 1])));
        }
        at += 1;
    }
    proof {
        lemma_select_ends(numbers, keep, make);
        assert(numbers.take(at as int) =~= numbers) by {
            assert(all.len() >= 1) by {
                lemma_lines_exist(listing@);
            }
        }
        assert forall|name: Seq<char>| #[trigger]
            rows(names@).contains(name) <==> name_cached(listing@, name) by {
            lemma_entry_names_are_cached(listing@, name);
        }
    }
    names
}

/// A text has at least one line.
pub proof fn lemma_lines_exist(text: Seq<char>)
    ensures
        lines_of(text).len() >= 1,
    decreases text.len(),
{
    if text.len() > 0 {
        lemma_lines_exist(text.drop_last());
    }
}

/// Whether `name` is among `names`.
pub fn has_name(names: &Vec<Vec<char>>, name: &[char]) -> (found: bool)
    ensures
        found == rows(names@).contains(name@),
{
    let mut at: usize = 0;
    while at < names.len()
        invariant
            at <= names.len(),
            forall|i: int| 0 <= i < at ==> rows(names@)[i] != name@,
        decreases names.len() - at,
    {
        if same_chars(names[at].as_slice(), name) {
            assert(rows(names@)[at as int] == name@);
            return true;
        }
        at += 1;
    }
    false
}

/// Matches the listing of the resolver cache, as the system prints it,
/// against the requests. Names are compared letter for letter.
pub fn check_dns(search_parameters: Vec<DnsParameters>, listing: &str) -> (outcomes: Vec<
    SearchOutcome,
>)
    ensures
        outcomes_of(outcomes@) == dns_outcomes(search_parameters@, listing@),
{
    let mut outcomes: Vec<SearchOutcome> = Vec::new();
    if search_parameters.len() == 0 {
        proof {
            lemma_select_ends(search_parameters@, dns_keep(listing@), dns_evidence());
            assert(search_parameters@ =~= search_parameters@.take(0));
            assert(outcomes_of(outcomes@) =~= Seq::<Outcome>::empty());
        }
        return outcomes;
    }
    let names = cached_names(listing);
    let ghost keep = dns_keep(listing@);
    let ghost make = dns_evidence();
    proof {
        lemma_select_ends(search_parameters@, keep, make);
        assert(outcomes_of(outcomes@) =~= Seq::<Outcome>::empty());
    }
    let mut k: usize = 0;
    while k < search_parameters.len()
        invariant
            k <= search_parameters.len(),
            keep == dns_keep(listing@),
            make == dns_evidence(),
            forall|name: Seq<char>| #[trigger]
                rows(names@).contains(name) <==> name_cached(listing@, name),
            outcomes_of(outcomes@) == select(search_parameters@.take(k as int), keep, make),
        decreases search_parameters.len() - k,
    {
        let request = &search_parameters[k];
        proof {
            lemma_select_step(search_parameters@, k as int, keep, make);
        }
        let name = chars_of(request.name.as_str());
        if has_name(&names, name.as_slice()) {
            let mut message: Vec<char> = Vec::new();
            push_str(&mut message, "DNS search: Found DNS ");
            push_str(&mut message, request.name.as_str());
            push_str(&mut message, " for IOC ");
            push_decimal(&mut message, request.ioc_id);
            push_outcome(
                &mut outcomes,
                found(request.ioc_id, request.ioc_entry_id, string_of(message.as_slice())),
            );
        }
        k += 1;
    }
    proof {
        lemma_select_ends(search_parameters@, keep, make);
    }
    outcomes
}

/// Without requests the search gives nothing.
pub proof fn lemma_no_dns_requests(listing: Seq<char>)
    ensures
        dns_outcomes(Seq::empty(), listing) == Seq::<Outcome>::empty(),
{
    lemma_select_from_nothing(dns_keep(listing), dns_evidence());
}

/// Every outcome of the search is evidence for one of the requests, tagged
/// with that request's indicator and node, and the listing has an entry for
/// that request's name.
pub proof fn lemma_dns_evidence_is_for_a_request(
    requests: Seq<DnsParameters>,
    listing: Seq<char>,
    i: int,
) -> (j: int)
    requires
        0 <= i < dns_outcomes(requests, listing).len(),
    ensures
        0 <= j < requests.len(),
        name_cached(listing, requests[j].name@),
        dns_outcomes(requests, listing)[i] == (Outcome::Found {
            ioc_id: requests[j].ioc_id,
            ioc_entry_id: requests[j].ioc_entry_id,
            description: dns_message(requests[j].name@, requests[j].ioc_id),
        }),
{
    lemma_selected_is_made(requests, dns_keep(listing), dns_evidence(), i)
}

} // verus!
