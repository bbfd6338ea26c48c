use ioc_probe::arg_parser::parsed_args;
use ioc_probe::data::{
    CertsInfo, DnsInfo, EvaluationPolicy, Ioc, IocEntry, MutexInfo,
};
use ioc_probe::flattener::{count_nodes, walk_iocs, within_depth};
use ioc_probe::ioc_evaluator::{IocEntrySearchResult, IocEvaluator, SearchOutcome};

struct Dice(u64);

impl Dice {
    fn roll(&mut self, sides: u64) -> u64 {
        self.0 = self.0.wrapping_mul(6364136223846793005).wrapping_add(1442695040888963407);
        (self.0 >> 33) % sides
    }
}

fn policy(dice: &mut Dice) -> EvaluationPolicy {
    if dice.roll(2) == 0 {
        EvaluationPolicy::All
    } else {
        EvaluationPolicy::One
    }
}

fn tree(dice: &mut Dice, levels: u64) -> IocEntry {
    let children = if levels == 0 { 0 } else { dice.roll(4) };
    let checks = dice.roll(4);
    IocEntry {
        eval_policy: policy(dice),
        name: None,
        child_eval_policy: policy(dice),
        offspring: match children {
            0 if dice.roll(2) == 0 => None,
            n => Some((0..n).map(|_| tree(dice, levels - 1)).collect()),
        },
        registry_check: None,
        file_check: None,
        mutex_check: (checks >= 1).then_some(MutexInfo { name: "m".to_string() }),
        process_check: None,
        dns_check: (checks >= 2).then_some(DnsInfo { name: "d".to_string() }),
        conns_check: None,
        certs_check: (checks >= 3).then_some(CertsInfo { name: "c".to_string() }),
    }
}

fn checks(entry: &IocEntry) -> u64 {
    entry.mutex_check.is_some() as u64
        + entry.dns_check.is_some() as u64
        + entry.certs_check.is_some() as u64
}

/// Walks a tree as the ids are given out, rolls the number of hits of each
/// node, and says what the verdict of the tree has to be.
fn expected(entry: &IocEntry, next_id: &mut u64, dice: &mut Dice, hits: &mut Vec<u64>) -> bool {
    let id = *next_id;
    *next_id += 1;
    let specified = checks(entry);
    let mine = dice.roll(specified + 1);
    for _ in 0..mine {
        hits.push(id);
    }
    let own = specified != 0
        && match entry.eval_policy {
            EvaluationPolicy::One => mine > 0,
            EvaluationPolicy::All => mine == specified,
        };
    let children: &[IocEntry] = entry.offspring.as_deref().unwrap_or(&[]);
    let mut confirmed = 0;
    for child in children {
        if expected(child, next_id, dice, hits) {
            confirmed += 1;
        }
    }
    let below = |fallback: bool| {
        if children.is_empty() {
            fallback
        } else {
            match entry.child_eval_policy {
                EvaluationPolicy::All => confirmed == children.len(),
                EvaluationPolicy::One => confirmed > 0,
            }
        }
    };
    match (own, entry.eval_policy) {
        (true, EvaluationPolicy::One) => true,
        (true, EvaluationPolicy::All) => below(true),
        (false, EvaluationPolicy::One) => below(false),
        (false, EvaluationPolicy::All) => specified == 0 && below(false),
    }
}

fn hit(ioc_id: u64, ioc_entry_id: u64) -> SearchOutcome {
    Ok(IocEntrySearchResult { ioc_id, ioc_entry_id, description: String::new() })
}

#[test]
fn the_tables_give_the_verdicts_of_the_trees() {
    let mut dice = Dice(7);
    for round in 0..200u64 {
        let count = 1 + dice.roll(4);
        let iocs: Vec<Ioc> = (0..count)
            .map(|k| Ioc { id: 100 * round + 10 * (count - k), name: None, definition: tree(&mut dice, 3) })
            .collect();
        let mut next_id = 2;
        let mut hits = Vec::new();
        let mut wanted: Vec<u64> = iocs
            .iter()
            .filter(|ioc| expected(&ioc.definition, &mut next_id, &mut dice, &mut hits))
            .map(|ioc| ioc.id)
            .collect();
        wanted.sort();
        let plan = walk_iocs(&parsed_args(&[]), &iocs, 4).unwrap();
        assert_eq!(plan.ioc_entries.len() as u64, next_id - 2);
        let forward: Vec<SearchOutcome> = hits.iter().map(|id| hit(0, *id)).collect();
        let backward: Vec<SearchOutcome> = hits.iter().rev().map(|id| hit(1, *id)).collect();
        let roots = plan.root_ioc_entries.clone();
        let table = plan.ioc_entries.clone();
        assert_eq!(IocEvaluator::new(roots, table, &forward).evaluate(), wanted, "{}", round);
        let again = IocEvaluator::new(plan.root_ioc_entries, plan.ioc_entries, &backward);
        assert_eq!(again.evaluate(), wanted, "{}", round);
    }
}

#[test]
fn trees_are_measured() {
    let mut dice = Dice(3);
    for _ in 0..50 {
        let t = tree(&mut dice, 3);
        fn size(entry: &IocEntry) -> u64 {
            1 + entry.offspring.as_deref().unwrap_or(&[]).iter().map(size).sum::<u64>()
        }
        fn height(entry: &IocEntry) -> usize {
            1 + entry.offspring.as_deref().unwrap_or(&[]).iter().map(height).max().unwrap_or(0)
        }
        assert_eq!(count_nodes(&t), Some(size(&t)));
        for limit in 0..6 {
            assert_eq!(within_depth(&t, limit), height(&t) <= limit);
        }
    }
}
