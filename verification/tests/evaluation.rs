use ioc_probe::arg_parser::parsed_args;
use ioc_probe::data::{
    DnsInfo, EvaluationPolicy, FileInfo, Ioc, IocEntry, IocSearchError, RegistryInfo, SearchType,
};
use ioc_probe::flattener::{walk_iocs, FlattenError, SearchPlan};
use ioc_probe::ioc_evaluator::{IocEntryItem, IocEntrySearchResult, IocEvaluator, SearchOutcome};
use std::collections::HashMap;

fn node(eval_policy: EvaluationPolicy, child_eval_policy: EvaluationPolicy) -> IocEntry {
    IocEntry {
        eval_policy,
        name: None,
        child_eval_policy,
        offspring: None,
        registry_check: None,
        file_check: None,
        mutex_check: None,
        process_check: None,
        dns_check: None,
        conns_check: None,
        certs_check: None,
    }
}

fn file_check(name: &str) -> Option<FileInfo> {
    Some(FileInfo { search: SearchType::Exact, name: Some(name.to_string()), hash: None })
}

fn registry_check(key: &str) -> Option<RegistryInfo> {
    Some(RegistryInfo {
        search: SearchType::Exact,
        key: key.to_string(),
        value_name: "v".to_string(),
        value: None,
    })
}

fn dns_check(name: &str) -> Option<DnsInfo> {
    Some(DnsInfo { name: name.to_string() })
}

fn ioc(id: u64, definition: IocEntry) -> Ioc {
    Ioc { id, name: None, definition }
}

fn hit(ioc_id: u64, ioc_entry_id: u64) -> SearchOutcome {
    Ok(IocEntrySearchResult { ioc_id, ioc_entry_id, description: "found".to_string() })
}

fn miss() -> SearchOutcome {
    Err(IocSearchError { kind: "IO Error".to_string(), message: "unreadable".to_string() })
}

fn flatten(iocs: &Vec<Ioc>) -> SearchPlan {
    walk_iocs(&parsed_args(&[]), iocs, 64).unwrap()
}

fn evaluate(plan: SearchPlan, outcomes: &[SearchOutcome]) -> Vec<u64> {
    IocEvaluator::new(plan.root_ioc_entries, plan.ioc_entries, outcomes).evaluate()
}

#[test]
fn single_node_with_one_check_met_is_confirmed() {
    let mut definition = node(EvaluationPolicy::One, EvaluationPolicy::One);
    definition.file_check = file_check("evil.exe");
    let plan = flatten(&vec![ioc(1, definition)]);
    let root = plan.root_ioc_entries[&1];
    assert_eq!(plan.ioc_entries[&root].checks_specified, 1);
    assert_eq!(evaluate(plan, &[hit(1, root)]), vec![1]);
}

#[test]
fn all_policy_with_one_of_two_checks_met_is_unconfirmed() {
    let mut definition = node(EvaluationPolicy::All, EvaluationPolicy::One);
    definition.file_check = file_check("evil.exe");
    definition.registry_check = registry_check("HKLM\\Software\\Evil");
    let plan = flatten(&vec![ioc(2, definition)]);
    let root = plan.root_ioc_entries[&2];
    assert_eq!(plan.ioc_entries[&root].checks_specified, 2);
    assert_eq!(evaluate(plan, &[hit(2, root)]), Vec::<u64>::new());
}

#[test]
fn all_policy_with_both_checks_met_is_confirmed() {
    let mut definition = node(EvaluationPolicy::All, EvaluationPolicy::One);
    definition.file_check = file_check("evil.exe");
    definition.registry_check = registry_check("HKLM\\Software\\Evil");
    let plan = flatten(&vec![ioc(2, definition)]);
    let root = plan.root_ioc_entries[&2];
    assert_eq!(evaluate(plan, &[hit(2, root), hit(2, root)]), vec![2]);
}

fn two_children(
    eval_policy: EvaluationPolicy,
    child_eval_policy: EvaluationPolicy,
) -> IocEntry {
    let mut first = node(EvaluationPolicy::One, EvaluationPolicy::One);
    first.dns_check = dns_check("a.example");
    let mut second = node(EvaluationPolicy::One, EvaluationPolicy::One);
    second.dns_check = dns_check("b.example");
    let mut root = node(eval_policy, child_eval_policy);
    root.offspring = Some(vec![first, second]);
    root
}

#[test]
fn one_child_of_two_confirms_a_root_under_one() {
    let plan = flatten(&vec![ioc(3, two_children(EvaluationPolicy::One, EvaluationPolicy::One))]);
    let root = plan.root_ioc_entries[&3];
    let children = plan.ioc_entries[&root].children.clone().unwrap();
    assert_eq!(children.len(), 2);
    assert_eq!(evaluate(plan, &[hit(3, children[0])]), vec![3]);
}

#[test]
fn one_child_of_two_does_not_confirm_a_root_under_all() {
    let plan = flatten(&vec![ioc(4, two_children(EvaluationPolicy::All, EvaluationPolicy::All))]);
    let root = plan.root_ioc_entries[&4];
    let children = plan.ioc_entries[&root].children.clone().unwrap();
    let confirmed = evaluate(plan, &[hit(4, children[1])]);
    assert!(!confirmed.contains(&4));
    assert_eq!(confirmed, Vec::<u64>::new());
}

#[test]
fn both_children_confirm_a_root_under_all() {
    let plan = flatten(&vec![ioc(4, two_children(EvaluationPolicy::All, EvaluationPolicy::All))]);
    let root = plan.root_ioc_entries[&4];
    let children = plan.ioc_entries[&root].children.clone().unwrap();
    assert_eq!(evaluate(plan, &[hit(4, children[0]), hit(4, children[1])]), vec![4]);
}

#[test]
fn two_trees_are_reported_ascending_and_once() {
    let mut first = node(EvaluationPolicy::One, EvaluationPolicy::One);
    first.file_check = file_check("one.exe");
    let mut second = node(EvaluationPolicy::One, EvaluationPolicy::One);
    second.file_check = file_check("two.exe");
    let plan = flatten(&vec![ioc(9, first), ioc(5, second)]);
    let nine = plan.root_ioc_entries[&9];
    let five = plan.root_ioc_entries[&5];
    assert_ne!(nine, five);
    let outcomes = [hit(9, nine), hit(5, five), hit(9, nine), hit(5, five), hit(5, five)];
    assert_eq!(evaluate(plan, &outcomes), vec![5, 9]);
}

#[test]
fn a_bare_node_is_never_confirmed() {
    for eval_policy in [EvaluationPolicy::All, EvaluationPolicy::One] {
        for child_eval_policy in [EvaluationPolicy::All, EvaluationPolicy::One] {
            let plan = flatten(&vec![ioc(7, node(eval_policy, child_eval_policy))]);
            let root = plan.root_ioc_entries[&7];
            assert_eq!(evaluate(plan, &[hit(7, root)]), Vec::<u64>::new());
        }
    }
}

#[test]
fn errors_count_for_nothing() {
    let mut definition = node(EvaluationPolicy::One, EvaluationPolicy::One);
    definition.file_check = file_check("evil.exe");
    let plan = flatten(&vec![ioc(1, definition)]);
    assert_eq!(evaluate(plan, &[miss(), miss()]), Vec::<u64>::new());
}

#[test]
fn evaluating_twice_gives_the_same_list() {
    let plan = flatten(&vec![ioc(3, two_children(EvaluationPolicy::One, EvaluationPolicy::One))]);
    let root = plan.root_ioc_entries[&3];
    let children = plan.ioc_entries[&root].children.clone().unwrap();
    let evaluator =
        IocEvaluator::new(plan.root_ioc_entries, plan.ioc_entries, &[hit(3, children[1])]);
    assert_eq!(evaluator.evaluate(), evaluator.evaluate());
    assert_eq!(evaluator.evaluate(), vec![3]);
}

#[test]
fn a_root_that_the_table_lacks_is_unconfirmed() {
    let mut roots = HashMap::new();
    roots.insert(1u64, 2u64);
    let table: HashMap<u64, IocEntryItem> = HashMap::new();
    assert_eq!(IocEvaluator::new(roots, table, &[hit(1, 2)]).evaluate(), Vec::<u64>::new());
}

#[test]
fn a_table_with_a_cycle_is_evaluated_to_an_end() {
    let mut roots = HashMap::new();
    roots.insert(1u64, 2u64);
    let mut table: HashMap<u64, IocEntryItem> = HashMap::new();
    table.insert(
        2,
        IocEntryItem {
            ioc_entry_id: 2,
            ioc_id: 1,
            eval_policy: EvaluationPolicy::One,
            child_eval: EvaluationPolicy::One,
            children: Some(vec![2]),
            checks_specified: 0,
        },
    );
    assert_eq!(IocEvaluator::new(roots, table, &[]).evaluate(), Vec::<u64>::new());
}

#[test]
fn entry_ids_count_up_from_two_in_pre_order() {
    let first = two_children(EvaluationPolicy::One, EvaluationPolicy::One);
    let mut second = node(EvaluationPolicy::One, EvaluationPolicy::One);
    second.file_check = file_check("x");
    let plan = flatten(&vec![ioc(10, first), ioc(11, second)]);
    assert_eq!(plan.root_ioc_entries[&10], 2);
    assert_eq!(plan.ioc_entries[&2].children, Some(vec![3, 4]));
    assert_eq!(plan.ioc_entries[&3].children, None);
    assert_eq!(plan.root_ioc_entries[&11], 5);
    assert_eq!(plan.ioc_entries.len(), 4);
    assert_eq!(plan.dns_parameters.len(), 2);
    assert_eq!(plan.dns_parameters[0].ioc_entry_id, 3);
    assert_eq!(plan.dns_parameters[1].ioc_entry_id, 4);
    assert_eq!(plan.dns_parameters[1].ioc_id, 10);
    assert_eq!(plan.dns_parameters[1].name, "b.example");
    assert_eq!(plan.file_parameters.len(), 1);
    assert_eq!(plan.file_parameters[0].ioc_entry_id, 5);
    assert_eq!(plan.file_parameters[0].ioc_id, 11);
}

#[test]
fn a_check_that_is_switched_off_is_left_out() {
    let mut definition = node(EvaluationPolicy::All, EvaluationPolicy::One);
    definition.file_check = file_check("evil.exe");
    definition.registry_check = registry_check("HKLM\\Software\\Evil");
    let args = parsed_args(&["--dis-reg".to_string()]);
    let plan = walk_iocs(&args, &vec![ioc(2, definition)], 64).unwrap();
    assert_eq!(plan.ioc_entries[&2].checks_specified, 1);
    assert!(plan.registry_parameters.is_empty());
    assert_eq!(evaluate(plan, &[hit(2, 2)]), vec![2]);
}

#[test]
fn a_tree_deeper_than_the_limit_is_refused() {
    let tree = two_children(EvaluationPolicy::One, EvaluationPolicy::One);
    let args = parsed_args(&[]);
    assert_eq!(walk_iocs(&args, &vec![ioc(1, tree.clone())], 1).err(), Some(FlattenError::TooDeep));
    assert!(walk_iocs(&args, &vec![ioc(1, tree)], 2).is_ok());
}

fn item(
    ioc_entry_id: u64,
    eval_policy: EvaluationPolicy,
    child_eval: EvaluationPolicy,
    children: Option<Vec<u64>>,
    checks_specified: u32,
) -> IocEntryItem {
    IocEntryItem { ioc_entry_id, ioc_id: 1, eval_policy, child_eval, children, checks_specified }
}

#[test]
fn the_verdict_of_one_node_goes_by_its_policy() {
    let (all, one) = (EvaluationPolicy::All, EvaluationPolicy::One);
    let mut table: HashMap<u64, IocEntryItem> = HashMap::new();
    table.insert(3, item(3, one, one, None, 1));
    table.insert(4, item(4, one, one, None, 1));
    let evaluator = IocEvaluator::new(HashMap::new(), table, &[hit(1, 2), hit(1, 2), hit(1, 3)]);
    for policy in [all, one] {
        for child_policy in [all, one] {
            for children in [None, Some(vec![])] {
                let bare = item(2, policy, child_policy, children, 0);
                assert!(!evaluator.evaluate_one(&bare, 5));
            }
        }
    }
    assert!(evaluator.evaluate_one(&item(2, one, all, Some(vec![3, 4]), 3), 5));
    assert!(evaluator.evaluate_one(&item(9, one, one, Some(vec![3, 4]), 3), 5));
    assert!(!evaluator.evaluate_one(&item(9, one, all, Some(vec![3, 4]), 3), 5));
    assert!(!evaluator.evaluate_one(&item(9, one, one, None, 3), 5));
    assert!(evaluator.evaluate_one(&item(2, all, one, Some(vec![3, 4]), 2), 5));
    assert!(!evaluator.evaluate_one(&item(2, all, all, Some(vec![3, 4]), 2), 5));
    assert!(!evaluator.evaluate_one(&item(2, all, one, Some(vec![3, 4]), 3), 5));
    assert!(evaluator.evaluate_one(&item(2, all, all, None, 2), 5));
    assert!(!evaluator.evaluate_one(&item(2, all, one, Some(vec![3, 4]), 2), 0));
    assert!(evaluator.evaluate_without_offspring(&item(3, all, all, None, 1)));
    assert!(!evaluator.evaluate_without_offspring(&item(2, all, all, None, 1)));
    assert!(evaluator.evaluate_children(&item(2, all, one, Some(vec![3, 4]), 0), false, 1));
    assert!(!evaluator.evaluate_children(&item(2, all, all, Some(vec![3, 4]), 0), true, 1));
    assert!(evaluator.evaluate_children(&item(2, all, all, Some(vec![]), 0), true, 1));
    assert_eq!(evaluator.evaluate_non_empty_vector(&vec![3, 4, 3, 8], 1), 2);
    assert!(evaluator.evaluate_id(3, 1) && !evaluator.evaluate_id(3, 0) && !evaluator.evaluate_id(8, 1));
}
