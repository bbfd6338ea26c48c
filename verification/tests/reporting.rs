use ioc_probe::arg_parser::{names_switch, parsed_args, switch_given};
use ioc_probe::conns_checker::{is_remote_end, RemoteAddress};
use ioc_probe::conversion::{display_name, evidence_for, pretty_report};
use ioc_probe::data::{
    clone_entry, EvaluationPolicy, Ioc, IocEntry, IocSearchError, ReportUploadRequest, SearchType,
    Timestamp,
};
use ioc_probe::ioc_evaluator::{IocEntrySearchResult, SearchOutcome};
use ioc_probe::ioc_service::{
    merge_responses, pretty_report_file_name, report_file_name, stamp_pattern, FileIocService,
    HttpIocService, IocServiceError, PagedDownload,
};
use ioc_probe::properties::{default_properties, default_properties_lines, properties_filename};
use ioc_probe::data::GetIocResponse;

fn strings(items: &[&str]) -> Vec<String> {
    items.iter().map(|item| item.to_string()).collect()
}

fn leaf() -> IocEntry {
    IocEntry {
        eval_policy: EvaluationPolicy::One,
        name: None,
        child_eval_policy: EvaluationPolicy::One,
        offspring: None,
        registry_check: None,
        file_check: None,
        mutex_check: None,
        process_check: None,
        dns_check: None,
        conns_check: None,
        certs_check: None,
    }
}

fn ioc(id: u64, name: Option<&str>) -> Ioc {
    Ioc { id, name: name.map(|n| n.to_string()), definition: leaf() }
}

fn hit(ioc_id: u64, ioc_entry_id: u64, description: &str) -> SearchOutcome {
    Ok(IocEntrySearchResult { ioc_id, ioc_entry_id, description: description.to_string() })
}

fn failure(kind: &str) -> SearchOutcome {
    Err(IocSearchError { kind: kind.to_string(), message: "m".to_string() })
}

#[test]
fn switches_and_files_are_told_apart() {
    let args = strings(&["a.json", "--local", "--dis-dns", "b.json", "--dis-proc", "-x"]);
    let parsed = parsed_args(&args);
    assert_eq!(parsed.ioc_definitions, strings(&["a.json", "b.json", "-x"]));
    assert!(parsed.local_mode);
    assert!(!parsed.raw_console_mode);
    assert!(parsed.cert_check && parsed.conn_check && parsed.file_check);
    assert!(parsed.mutex_check && parsed.registry_check);
    assert!(!parsed.dns_check && !parsed.process_check);
    let short = parsed_args(&strings(&["-l", "-r", "--dis-cert", "--dis-conn", "--dis-file"]));
    assert!(short.local_mode && short.raw_console_mode && short.ioc_definitions.is_empty());
    assert!(!short.cert_check && !short.conn_check && !short.file_check);
    let other = parsed_args(&strings(&["--raw", "--dis-mutex", "--dis-reg"]));
    assert!(other.raw_console_mode && !other.mutex_check && !other.registry_check);
    let none = parsed_args(&[]);
    assert!(!none.local_mode && none.dns_check && none.ioc_definitions.is_empty());
    assert!(names_switch("--dis-reg") && !names_switch("--dis-regs") && !names_switch(""));
    assert!(switch_given(&args, "--local") && !switch_given(&args, "-l"));
}

#[test]
fn the_default_settings() {
    let properties = default_properties();
    assert_eq!(properties.server, "http://localhost:8080/");
    assert_eq!(properties.auth_probe_name, "TESTING");
    assert_eq!(properties.auth_key, "TESTING");
    assert!(!properties.deep_search);
    assert_eq!(properties.max_iocs, 5000);
    assert_eq!(properties_filename(), "settings.toml");
    assert_eq!(
        default_properties_lines().concat(),
        "server = \"http://localhost:8080/\"\nauth_probe_name = \"TESTING\"\nauth_key = \
         \"TESTING\"\ndeep_search = false\nmax_iocs = 5000"
    );
}

#[test]
fn the_probe_presents_its_credentials_in_base64() {
    let service = HttpIocService::new(
        "http://server:8080".to_string(),
        "TESTING".to_string(),
        "TESTING".to_string(),
        3,
    );
    assert_eq!(service.authorization_header(), "Basic VEVTVElORzpURVNUSU5H");
    assert_eq!(
        service.authenticate_header(),
        "Basic REALM=\"IOC Server Probes\", charset=UTF-8"
    );
    assert_eq!(service.get_url(0), "http://server:8080/api/probe/auth/get/ioc/0");
    assert_eq!(service.get_url(12), "http://server:8080/api/probe/auth/get/ioc/12");
    assert_eq!(service.post_url(), "http://server:8080/api/probe/auth/post/ioc/result");
    let other =
        HttpIocService::new("u".to_string(), "probe".to_string(), "k\u{e9}y".to_string(), -1);
    assert_eq!(other.authorization_header(), "Basic cHJvYmU6a8OpeQ==");
}

#[test]
fn pages_are_asked_for_until_one_is_empty_or_the_limit_is_reached() {
    let limited = HttpIocService::new("u".to_string(), "p".to_string(), "k".to_string(), 3);
    let download = PagedDownload::new();
    assert_eq!(download.page(), 0);
    let (download, more) = download.take_page(&limited, vec![ioc(1, None), ioc(2, None)]);
    assert!(more);
    assert_eq!(download.page(), 1);
    let (download, more) = download.take_page(&limited, vec![ioc(3, None), ioc(4, None)]);
    assert!(!more);
    assert_eq!(download.page(), 2);
    let response = download.finish();
    assert_eq!(response.total_iocs, 4);
    assert_eq!(response.iocs.iter().map(|i| i.id).collect::<Vec<_>>(), vec![1, 2, 3, 4]);
    assert_eq!(response.release_datetime, None);

    let unlimited = HttpIocService::new("u".to_string(), "p".to_string(), "k".to_string(), -1);
    let (download, more) = PagedDownload::new().take_page(&unlimited, vec![ioc(1, None)]);
    assert!(more);
    let (download, more) = download.take_page(&unlimited, vec![]);
    assert!(!more);
    assert_eq!(download.page(), 1);
    assert_eq!(download.finish().iocs.len(), 1);
    assert!(unlimited.wants_more(false, 1_000_000));
    assert!(!unlimited.wants_more(true, 0));
    assert!(limited.wants_more(false, 2) && !limited.wants_more(false, 3));
    let zero = HttpIocService::new("u".to_string(), "p".to_string(), "k".to_string(), 0);
    assert!(!zero.wants_more(false, 0));
}

#[test]
fn the_definitions_of_several_files_are_put_together() {
    let first = GetIocResponse {
        release_datetime: Some(Timestamp { seconds: 1, nanos: 2 }),
        iocs: vec![ioc(5, None), ioc(1, None)],
        total_iocs: 2,
    };
    let second = GetIocResponse { release_datetime: None, iocs: vec![], total_iocs: 0 };
    let third = GetIocResponse { release_datetime: None, iocs: vec![ioc(3, None)], total_iocs: 9 };
    let merged = merge_responses(vec![first, second, third]);
    assert_eq!(merged.iocs.iter().map(|i| i.id).collect::<Vec<_>>(), vec![5, 1, 3]);
    assert_eq!(merged.total_iocs, 3);
    assert_eq!(merged.release_datetime, None);
    assert_eq!(merge_responses(vec![]).total_iocs, 0);
    let service = FileIocService::new(strings(&["a.json", "b.json"]));
    assert_eq!(service.ioc_file_paths(), &strings(&["a.json", "b.json"]));
}

#[test]
fn reports_are_named_by_their_time() {
    assert_eq!(report_file_name("_2020-01-02_03-04-05"), "Report-_2020-01-02_03-04-05.json");
    assert_eq!(pretty_report_file_name("_x"), "PrettyReport-_x.json");
    assert_eq!(stamp_pattern(), "_%Y-%m-%d_%H-%M-%S");
    let moment = chrono::DateTime::from_timestamp(1_577_934_245, 0).unwrap();
    let stamp = moment.format(&stamp_pattern()).to_string();
    assert_eq!(report_file_name(&stamp), "Report-_2020-01-02_03-04-05.json");
}

#[test]
fn errors_as_text() {
    assert_eq!(
        IocServiceError::http("refused".to_string()).to_string(),
        "IocServiceError(kind: HTTP Error, message: refused)"
    );
    assert_eq!(IocServiceError::file_io("x".to_string()).kind, "File IO error");
    assert_eq!(IocServiceError::json("x".to_string()).kind, "Json parsing error");
    let error = IocSearchError { kind: "k".to_string(), message: "m".to_string() };
    assert_eq!(error.to_string(), "IocError(kind: k, message: m)");
    assert_eq!(error.clone().message, "m");
}

#[test]
fn a_report_carries_the_confirmed_indicators_their_evidence_and_the_errors() {
    let outcomes = vec![
        hit(7, 2, "first"),
        failure("Regex error"),
        hit(3, 5, "second"),
        hit(7, 4, "third"),
        failure("IO Error"),
        hit(9, 6, "unconfirmed"),
    ];
    let moment = Timestamp { seconds: 1_600_000_000, nanos: 5 };
    let report = ReportUploadRequest::assemble(vec![3, 7, 8], &outcomes, moment);
    assert_eq!(report.datetime, moment);
    assert_eq!(report.found_iocs, vec![3, 7, 8]);
    assert_eq!(report.ioc_results.len(), 2);
    assert_eq!(report.ioc_results[0].ioc_id, 3);
    assert_eq!(report.ioc_results[0].data, strings(&["second"]));
    assert_eq!(report.ioc_results[1].ioc_id, 7);
    assert_eq!(report.ioc_results[1].data, strings(&["first", "third"]));
    assert_eq!(
        report.ioc_errors.iter().map(|e| e.kind.clone()).collect::<Vec<_>>(),
        strings(&["Regex error", "IO Error"])
    );
    let bare = ReportUploadRequest::new(vec![4, 2], moment);
    assert_eq!(bare.found_iocs, vec![4, 2]);
    assert!(bare.ioc_results.is_empty() && bare.ioc_errors.is_empty());
    assert_eq!(bare.datetime, moment);
    assert_eq!(evidence_for(&outcomes, 9), strings(&["unconfirmed"]));
    assert!(evidence_for(&outcomes, 8).is_empty());
}

#[test]
fn the_report_for_reading_names_the_indicators() {
    let iocs = vec![ioc(3, Some("Dropper")), ioc(7, None), ioc(3, Some("Later"))];
    let outcomes = vec![hit(7, 2, "a"), hit(3, 5, "b"), hit(1, 4, "c"), hit(3, 6, "d")];
    let list = pretty_report(&[1, 3, 5, 7], &iocs, &outcomes);
    let shown: Vec<(u64, String, Vec<String>)> = list
        .found_iocs
        .into_iter()
        .map(|entry| (entry.ioc_id, entry.name, entry.search_reports))
        .collect();
    assert_eq!(
        shown,
        vec![
            (1, "UNKNOWN".to_string(), strings(&["c"])),
            (3, "Dropper".to_string(), strings(&["b", "d"])),
            (7, "UNKNOWN".to_string(), strings(&["a"])),
        ]
    );
    assert_eq!(display_name(&iocs, 3), "Dropper");
    assert_eq!(display_name(&[], 3), "UNKNOWN");
}

#[test]
fn this_host_and_no_address_are_no_remote_ends() {
    assert!(!is_remote_end(&RemoteAddress::V4([127, 0, 0, 1])));
    assert!(!is_remote_end(&RemoteAddress::V4([127, 9, 9, 9])));
    assert!(!is_remote_end(&RemoteAddress::V4([0, 0, 0, 0])));
    assert!(is_remote_end(&RemoteAddress::V4([0, 0, 0, 1])));
    assert!(is_remote_end(&RemoteAddress::V4([10, 0, 0, 127])));
    assert!(!is_remote_end(&RemoteAddress::V6([0, 0, 0, 0, 0, 0, 0, 0])));
    assert!(!is_remote_end(&RemoteAddress::V6([0, 0, 0, 0, 0, 0, 0, 1])));
    assert!(is_remote_end(&RemoteAddress::V6([0, 0, 0, 0, 0, 0, 0, 2])));
    assert!(is_remote_end(&RemoteAddress::V6([0, 0, 0, 0, 0, 0xffff, 0x7f00, 1])));
    assert!(is_remote_end(&RemoteAddress::V6([1, 0, 0, 0, 0, 0, 0, 1])));
}

#[test]
fn indicators_are_the_same_and_ordered_by_their_ids() {
    assert!(ioc(3, Some("a")) == ioc(3, None));
    assert!(ioc(3, None) != ioc(4, None));
    assert!(ioc(3, None) < ioc(4, None));
    assert!(ioc(5, None) > ioc(4, None));
    assert!(!(ioc(4, Some("x")) < ioc(4, None)));
    assert_eq!(SearchType::default(), SearchType::Exact);
    assert_eq!(EvaluationPolicy::default(), EvaluationPolicy::One);
    let mut tree = leaf();
    tree.name = Some("root".to_string());
    tree.offspring = Some(vec![leaf(), leaf()]);
    assert_eq!(clone_entry(&tree), tree);
    assert_eq!(tree.clone(), tree);
    assert_eq!(ioc(3, Some("a")).clone().name, Some("a".to_string()));
}

#[test]
fn the_confirmed_indicators_survive_being_written_and_read_as_json() {
    let found: Vec<u64> = vec![9, 3, u64::MAX, 0, 1 << 60];
    let report =
        ReportUploadRequest::assemble(found.clone(), &[], Timestamp { seconds: 0, nanos: 0 });
    let mut document = serde_json::Map::new();
    document.insert("datetime".to_string(), serde_json::Value::from("1970-01-01T00:00:00Z"));
    document.insert("foundIocs".to_string(), serde_json::Value::from(report.found_iocs.clone()));
    let written = serde_json::to_string(&serde_json::Value::Object(document)).unwrap();
    let read: serde_json::Value = serde_json::from_str(&written).unwrap();
    let mut read_back: Vec<u64> =
        read["foundIocs"].as_array().unwrap().iter().map(|id| id.as_u64().unwrap()).collect();
    let mut expected = found;
    read_back.sort();
    expected.sort();
    assert_eq!(read_back, expected);
}
