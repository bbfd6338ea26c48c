//! Puts the result of a scan into the form in which it is reported.

use crate::data::{
    Ioc, IocId, IocSearchError, IocSearchResult, ReportUploadRequest, Timestamp,
};
use crate::ioc_evaluator::SearchOutcome;
use crate::query_result::{lemma_select_ends, lemma_select_step, select};
use crate::text::texts;
use vstd::prelude::*;

verus! {

/// The outcomes that are evidence for the indicator `ioc_id`.
pub open spec fn evidence_of(ioc_id: IocId) -> spec_fn(SearchOutcome) -> bool {
    |outcome: SearchOutcome| outcome matches Ok(found) && found.ioc_id == ioc_id
}

/// The description that an outcome carries.
pub open spec fn description_of() -> spec_fn(SearchOutcome) -> Seq<char> {
    |outcome: SearchOutcome| outcome->Ok_0.description@
}

/// The descriptions of the evidence for the indicator `ioc_id`, in the
/// order of the outcomes.
pub open spec fn descriptions(outcomes: Seq<SearchOutcome>, ioc_id: IocId) -> Seq<Seq<char>> {
    select(outcomes, evidence_of(ioc_id), description_of())
}

/// The descriptions of the evidence for one indicator.
pub fn evidence_for(outcomes: &[SearchOutcome], ioc_id: IocId) -> (data: Vec<String>)
    ensures
        texts(data@) == descriptions(outcomes@, ioc_id),
{
    let mut data: Vec<String> = Vec::new();
    let ghost keep = evidence_of(ioc_id);
    let ghost make = description_of();
    proof {
        lemma_select_ends(outcomes@, keep, make);
        assert(texts(data@) =~= Seq::<Seq<char>>::empty());
    }
    let mut at: usize = 0;
    while at < outcomes.len()
        invariant
            at <= outcomes.len(),
            keep == evidence_of(ioc_id),
            make == description_of(),
            texts(data@) == select(outcomes@.take(at as int), keep, make),
        decreases outcomes.len() - at,
    {
        let ghost before = texts(data@);
        proof {
            lemma_select_step(outcomes@, at as int, keep, make);
        }
        match &outcomes[at] {
            Ok(found) => {
                if found.ioc_id == ioc_id {
                    data.push(found.description.clone());
                    assert(texts(data@) =~= before.push(found.description@));
                }
            },
            Err(_) => {},
        }
        at += 1;
    }
    proof {
        lemma_select_ends(outcomes@, keep, make);
    }
    data
}

/// What a group of evidence holds: the indicator and the descriptions.
pub open spec fn group_of(result: IocSearchResult) -> (IocId, Seq<Seq<char>>) {
    (result.ioc_id, texts(result.data@))
}

/// What a list of groups holds.
pub open spec fn groups_of(results: Seq<IocSearchResult>) -> Seq<(IocId, Seq<Seq<char>>)> {
    results.map_values(|result: IocSearchResult| group_of(result))
}

/// The indicators that there is evidence for.
pub open spec fn has_evidence(outcomes: Seq<SearchOutcome>) -> spec_fn(IocId) -> bool {
    |ioc_id: IocId| descriptions(outcomes, ioc_id).len() > 0
}

/// An indicator with the descriptions of its evidence.
pub open spec fn grouped(outcomes: Seq<SearchOutcome>) -> spec_fn(IocId) -> (IocId, Seq<Seq<char>>) {
    |ioc_id: IocId| (ioc_id, descriptions(outcomes, ioc_id))
}

/// The outcomes that are errors.
pub open spec fn is_error() -> spec_fn(SearchOutcome) -> bool {
    |outcome: SearchOutcome| outcome is Err
}

/// The error that an outcome carries.
pub open spec fn error_of() -> spec_fn(SearchOutcome) -> IocSearchError {
    |outcome: SearchOutcome| outcome->Err_0
}

impl ReportUploadRequest {
    /// The report of a scan at the given moment that names the confirmed
    /// indicators and nothing else.
    pub fn new(found_iocs: Vec<IocId>, datetime: Timestamp) -> (report: Self)
        ensures
            report.datetime == datetime,
            report.found_iocs@ == found_iocs@,
            report.ioc_results@.len() == 0,
            report.ioc_errors@.len() == 0,
    {
        ReportUploadRequest {
            datetime,
            found_iocs,
            ioc_results: Vec::new(),
            ioc_errors: Vec::new(),
        }
    }

    /// The report of a scan at the given moment: the confirmed indicators
    /// as they are; for each of them that has evidence its descriptions, in
    /// the order of the indicators; and every error, in the order of the
    /// outcomes.
    pub fn assemble(found_iocs: Vec<IocId>, outcomes: &[SearchOutcome], datetime: Timestamp) -> (report:
        Self)
        ensures
            report.datetime == datetime,
            report.found_iocs@ == found_iocs@,
            groups_of(report.ioc_results@) == select(
                found_iocs@,
                has_evidence(outcomes@),
                grouped(outcomes@),
            ),
            report.ioc_errors@ == select(outcomes@, is_error(), error_of()),
    {
        let mut ioc_results: Vec<IocSearchResult> = Vec::new();
        let ghost keep = has_evidence(outcomes@);
        let ghost make = grouped(outcomes@);
        proof {
            lemma_select_ends(found_iocs@, keep, make);
            assert(groups_of(ioc_results@) =~= Seq::<(IocId, Seq<Seq<char>>)>::empty());
        }
        let mut at: usize = 0;
        while at < found_iocs.len()
            invariant
                at <= found_iocs.len(),
                keep == has_evidence(outcomes@),
                make == grouped(outcomes@),
                groups_of(ioc_results@) == select(found_iocs@.take(at as int), keep, make),
            decreases found_iocs.len() - at,
        {
            let ghost before = groups_of(ioc_results@);
            proof {
                lemma_select_step(found_iocs@, at as int, keep, make);
            }
            let ioc_id = found_iocs[at];
            let data = evidence_for(outcomes, ioc_id);
            if data.len() > 0 {
                let group = IocSearchResult { ioc_id, data };
                ioc_results.push(group);
                assert(groups_of(ioc_results@) =~= before.push(group_of(group)));
            }
            at += 1;
        }
        let mut ioc_errors: Vec<IocSearchError> = Vec::new();
        proof {
            lemma_select_ends(found_iocs@, keep, make);
            lemma_select_ends(outcomes@, is_error(), error_of());
            assert(ioc_errors@ =~= Seq::<IocSearchError>::empty());
        }
        let mut at: usize = 0;
        while at < outcomes.len()
            invariant
                at <= outcomes.len(),
                ioc_errors@ == select(outcomes@.take(at as int), is_error(), error_of()),
            decreases outcomes.len() - at,
        {
            proof {
                lemma_select_step(outcomes@, at as int, is_error(), error_of());
            }
            match &outcomes[at] {
                Ok(_) => {},
                Err(error) => {
                    ioc_errors.push(error.clone());
                },
            }
            at += 1;
        }
        proof {
            lemma_select_ends(outcomes@, is_error(), error_of());
        }
        ReportUploadRequest { datetime, found_iocs, ioc_results, ioc_errors }
    }
}

/// One confirmed indicator for reading: its id, its name, and the
/// descriptions of the evidence for it.
#[derive(Debug)]
pub struct PrettyReport {
    pub ioc_id: IocId,
    pub name: String,
    pub search_reports: Vec<String>,
}

/// The confirmed indicators for reading.
#[derive(Debug)]
pub struct PrettyReportList {
    pub found_iocs: Vec<PrettyReport>,
}

/// What an entry for reading holds.
pub ghost struct PrettyEntry {
    pub ioc_id: IocId,
    pub name: Seq<char>,
    pub search_reports: Seq<Seq<char>>,
}

/// What one entry for reading holds.
pub open spec fn entry_of(report: PrettyReport) -> PrettyEntry {
    PrettyEntry {
        ioc_id: report.ioc_id,
        name: report.name@,
        search_reports: texts(report.search_reports@),
    }
}

/// What a list of entries for reading holds.
pub open spec fn entries_of(reports: Seq<PrettyReport>) -> Seq<PrettyEntry> {
    reports.map_values(|report: PrettyReport| entry_of(report))
}

/// The name under which an indicator is shown: that of the first indicator
/// of the batch with this id, and `UNKNOWN` where that one has no name or
/// there is none.
pub open spec fn shown_name(all_iocs: Seq<Ioc>, ioc_id: IocId) -> Seq<char>
    decreases all_iocs.len(),
{
    if all_iocs.len() == 0 {
        "UNKNOWN"@
    } else if all_iocs.first().id == ioc_id {
        match all_iocs.first().name {
            Some(name) => name@,
            None => "UNKNOWN"@,
        }
    } else {
        shown_name(all_iocs.drop_first(), ioc_id)
    }
}

/// The name under which an indicator is shown.
pub fn display_name(all_iocs: &[Ioc], ioc_id: IocId) -> (name: String)
    ensures
        name@ == shown_name(all_iocs@, ioc_id),
{
    let mut at: usize = 0;
    assert(all_iocs@.skip(0) =~= all_iocs@);
    while at < all_iocs.len()
        invariant
            at <= all_iocs.len(),
            shown_name(all_iocs@, ioc_id) == shown_name(all_iocs@.skip(at as int), ioc_id),
        decreases all_iocs.len() - at,
    {
        assert(all_iocs@.skip(at as int).first() == all_iocs@[at as int]);
        if all_iocs[at].id == ioc_id {
            return match &all_iocs[at].name {
                Some(name) => name.clone(),
                None => "UNKNOWN".to_string(),
            };
        }
        assert(all_iocs@.skip(at as int).drop_first() =~= all_iocs@.skip(at + 1));
        at += 1;
    }
    "UNKNOWN".to_string()
}

/// An indicator as it is shown for reading.
pub open spec fn shown(all_iocs: Seq<Ioc>, outcomes: Seq<SearchOutcome>) -> spec_fn(
    IocId,
) -> PrettyEntry {
    |ioc_id: IocId|
        PrettyEntry {
            ioc_id,
            name: shown_name(all_iocs, ioc_id),
            search_reports: descriptions(outcomes, ioc_id),
        }
}

/// The confirmed indicators for reading: each one that has evidence, in the
/// order given, with its name and the descriptions of its evidence.
pub fn pretty_report(evaluated_iocs: &[IocId], all_iocs: &[Ioc], results: &[SearchOutcome]) -> (list:
    PrettyReportList)
    ensures
        entries_of(list.found_iocs@) == select(
            evaluated_iocs@,
            has_evidence(results@),
            shown(all_iocs@, results@),
        ),
{
    let mut pretty_reports: Vec<PrettyReport> = Vec::new();
    let ghost keep = has_evidence(results@);
    let ghost make = shown(all_iocs@, results@);
    proof {
        lemma_select_ends(evaluated_iocs@, keep, make);
        assert(entries_of(pretty_reports@) =~= Seq::<PrettyEntry>::empty());
    }
    let mut at: usize = 0;
    while at < evaluated_iocs.len()
        invariant
            at <= evaluated_iocs.len(),
            keep == has_evidence(results@),
            make == shown(all_iocs@, results@),
            entries_of(pretty_reports@) == select(evaluated_iocs@.take(at as int), keep, make),
        decreases evaluated_iocs.len() - at,
    {
        let ghost before = entries_of(pretty_reports@);
        proof {
            lemma_select_step(evaluated_iocs@, at as int, keep, make);
        }
        let ioc_id = evaluated_iocs[at];
        let report = evidence_for(results, ioc_id);
        if report.len() > 0 {
            let entry = PrettyReport {
                ioc_id,
                name: display_name(all_iocs, ioc_id),
                search_reports: report,
            };
            pretty_reports.push(entry);
            assert(entries_of(pretty_reports@) =~= before.push(entry_of(entry)));
        }
        at += 1;
    }
    proof {
        lemma_select_ends(evaluated_iocs@, keep, make);
    }
    PrettyReportList { found_iocs: pretty_reports }
}

} // verus!
