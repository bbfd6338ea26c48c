use ioc_probe::cert_checker::{check_certs, CertificateParameters};
use ioc_probe::conns_checker::{check_conns, prepare_connections, ConnectionParameters};
use ioc_probe::data::{HashType, Hashed, SearchType};
use ioc_probe::dns_checker::{cached_names, check_dns, DnsParameters};
use ioc_probe::hasher::{HashError, Hasher};
use ioc_probe::ioc_evaluator::SearchOutcome;
use ioc_probe::mutant_checker::{check_mutexes, is_mutex_type, MutexParameters};
use ioc_probe::pattern::compile_pattern;
use ioc_probe::process_checker::{check_processes, ProcessParameters, RunningProcess};

fn descriptions(outcomes: &[SearchOutcome]) -> Vec<String> {
    outcomes
        .iter()
        .map(|outcome| match outcome {
            Ok(found) => format!("{}/{}: {}", found.ioc_id, found.ioc_entry_id, found.description),
            Err(error) => format!("error {}: {}", error.kind, error.message),
        })
        .collect()
}

fn strings(items: &[&str]) -> Vec<String> {
    items.iter().map(|item| item.to_string()).collect()
}

#[test]
fn mutexes_are_matched_by_a_part_of_their_names() {
    let requests = vec![
        MutexParameters { ioc_entry_id: 2, ioc_id: 1, data: "EvilMutex".to_string() },
        MutexParameters { ioc_entry_id: 3, ioc_id: 11, data: "\\Sessions".to_string() },
        MutexParameters { ioc_entry_id: 4, ioc_id: 12, data: "".to_string() },
        MutexParameters { ioc_entry_id: 5, ioc_id: 13, data: "evilmutex".to_string() },
    ];
    let names =
        strings(&["\\Sessions\\1\\BaseNamedObjects\\EvilMutex", "", "Good", "EvilMute"]);
    assert_eq!(
        descriptions(&check_mutexes(requests, &names)),
        strings(&[
            "1/2: Mutex search: Found mutex \\Sessions\\1\\BaseNamedObjects\\EvilMutex for IOC 1",
            "11/3: Mutex search: Found mutex \\Sessions\\1\\BaseNamedObjects\\EvilMutex for IOC 11",
            "12/4: Mutex search: Found mutex \\Sessions\\1\\BaseNamedObjects\\EvilMutex for IOC 12",
            "12/4: Mutex search: Found mutex Good for IOC 12",
            "12/4: Mutex search: Found mutex EvilMute for IOC 12",
        ])
    );
    let one = vec![MutexParameters { ioc_entry_id: 2, ioc_id: 1, data: "EvilMutex".to_string() }];
    let found = check_mutexes(one, &strings(&["\\Sessions\\1\\BaseNamedObjects\\EvilMutex"]));
    assert_eq!(found.len(), 1);
    assert_eq!(found[0].as_ref().unwrap().ioc_id, 1);
    assert_eq!(found[0].as_ref().unwrap().ioc_entry_id, 2);
}

#[test]
fn no_requests_give_no_outcomes() {
    assert!(check_mutexes(vec![], &strings(&["a"])).is_empty());
    assert!(check_certs(vec![], &strings(&["a"])).is_empty());
    assert!(check_dns(vec![], "a\n----------\n").is_empty());
    assert!(check_conns(vec![], &strings(&["a"])).is_empty());
    assert!(check_processes(vec![], &[]).is_empty());
}

#[test]
fn certificates_are_matched_by_a_part_of_their_subject_in_any_case() {
    let requests = vec![
        CertificateParameters { ioc_id: 1, ioc_entry_id: 2, name: "Evil CA".to_string() },
        CertificateParameters { ioc_id: 3, ioc_entry_id: 4, name: "absent".to_string() },
    ];
    let subjects = strings(&["CN=Good Root", "O=Acme, CN=EVIL ca 2"]);
    assert_eq!(
        descriptions(&check_certs(requests, &subjects)),
        strings(&["1/2: Certificate search: Found certificate evil ca for IOC 1"])
    );
}

const LISTING: &str = "\r\nWindows IP Configuration\r\n\r\n    evil.example\r\n    \
                       ----------------------------------------\r\n    Record Name . . . . . : \
                       evil.example\r\n\r\n    Good.Example\r\n    ----------\r\n    No records\r\n";

#[test]
fn the_entries_of_the_resolver_cache_are_the_lines_above_the_separators() {
    let names: Vec<String> =
        cached_names(LISTING).into_iter().map(|name| name.into_iter().collect()).collect();
    assert_eq!(names, strings(&["evil.example", "Good.Example"]));
    assert!(cached_names("----------\nfirst line is no entry").is_empty());
    assert!(cached_names("").is_empty());
    assert_eq!(cached_names("a\n---------\nb\n -----------x").len(), 1);
}

#[test]
fn cached_names_are_matched_letter_for_letter() {
    let requests = vec![
        DnsParameters { ioc_id: 5, ioc_entry_id: 6, name: "good.example".to_string() },
        DnsParameters { ioc_id: 7, ioc_entry_id: 8, name: "evil.example".to_string() },
        DnsParameters { ioc_id: 9, ioc_entry_id: 10, name: "Good.Example".to_string() },
    ];
    assert_eq!(
        descriptions(&check_dns(requests, LISTING)),
        strings(&[
            "7/8: DNS search: Found DNS evil.example for IOC 7",
            "9/10: DNS search: Found DNS Good.Example for IOC 9",
        ])
    );
}

#[test]
fn connections_are_matched_by_name_or_by_expression() {
    let requests = vec![
        ConnectionParameters {
            ioc_id: 1,
            ioc_entry_id: 2,
            search: SearchType::Exact,
            name: "c2.evil.example".to_string(),
        },
        ConnectionParameters {
            ioc_id: 3,
            ioc_entry_id: 4,
            search: SearchType::Regex,
            name: "^.*\\.evil\\.example$".to_string(),
        },
        ConnectionParameters {
            ioc_id: 5,
            ioc_entry_id: 6,
            search: SearchType::Regex,
            name: "(unclosed".to_string(),
        },
        ConnectionParameters {
            ioc_id: 7,
            ioc_entry_id: 8,
            search: SearchType::Exact,
            name: "^.*$".to_string(),
        },
    ];
    let names = strings(&["good.example", "c2.evil.example", "x.evil.example"]);
    assert_eq!(
        descriptions(&check_conns(requests, &names)),
        vec![
            format!("error Regex error: IOC 5, entry 6: {}", compiler_message("(unclosed")),
            "1/2: Connection search: Found connection c2.evil.example for IOC 1".to_string(),
            "3/4: Connection search: Found connection c2.evil.example for IOC 3".to_string(),
            "3/4: Connection search: Found connection x.evil.example for IOC 3".to_string(),
        ]
    );
}

fn compiler_message(pattern: &str) -> String {
    regex::Regex::new(pattern).unwrap_err().to_string()
}

fn process(name: &str, content: &[u8]) -> RunningProcess {
    RunningProcess {
        name: name.to_string(),
        md5: Ok(Hasher::new(HashType::Md5).hash(content)),
        sha1: Ok(Hasher::new(HashType::Sha1).hash(content)),
        sha256: Err(HashError::cannot_open("/proc/x", "denied")),
    }
}

#[test]
fn processes_are_matched_by_name_by_expression_or_by_digest() {
    let requests = vec![
        ProcessParameters {
            ioc_id: 1,
            ioc_entry_id: 2,
            search: SearchType::Exact,
            name: Some("evil.exe".to_string()),
            hash: None,
        },
        ProcessParameters {
            ioc_id: 3,
            ioc_entry_id: 4,
            search: SearchType::Regex,
            name: Some("^ev.l".to_string()),
            hash: None,
        },
        ProcessParameters {
            ioc_id: 5,
            ioc_entry_id: 6,
            search: SearchType::Exact,
            name: Some("dropper".to_string()),
            hash: Some(Hashed {
                algorithm: HashType::Md5,
                value: "5EB63BBBE01EEED093CB22BB8F5ACDC3".to_string(),
            }),
        },
        ProcessParameters {
            ioc_id: 7,
            ioc_entry_id: 8,
            search: SearchType::Exact,
            name: None,
            hash: Some(Hashed {
                algorithm: HashType::Sha1,
                value: "2aae6c35c94fcfb415dbe95f408b9ce91ee846ed".to_string(),
            }),
        },
        ProcessParameters {
            ioc_id: 9,
            ioc_entry_id: 10,
            search: SearchType::Regex,
            name: Some("[".to_string()),
            hash: None,
        },
        ProcessParameters {
            ioc_id: 11,
            ioc_entry_id: 12,
            search: SearchType::Regex,
            name: None,
            hash: None,
        },
    ];
    let processes = vec![process("evil.exe", b"other"), process("svchost.exe", b"hello world")];
    assert_eq!(
        descriptions(&check_processes(requests, &processes)),
        vec![
            format!("error Regex error: IOC 9, entry 10: {}", compiler_message("[")),
            "1/2: Process search: Found process evil.exe for IOC 1".to_string(),
            "3/4: Process search: Found process ^ev.l for IOC 3".to_string(),
            "5/6: Process search: Found process dropper with executable hash \
             5eb63bbbe01eeed093cb22bb8f5acdc3 for IOC 5"
                .to_string(),
            "7/8: Process search: Found process svchost.exe with executable hash \
             2aae6c35c94fcfb415dbe95f408b9ce91ee846ed for IOC 7"
                .to_string(),
        ]
    );
}

#[test]
fn a_digest_that_could_not_be_computed_is_an_error_of_its_own() {
    let requests = vec![ProcessParameters {
        ioc_id: 1,
        ioc_entry_id: 2,
        search: SearchType::Exact,
        name: Some("x".to_string()),
        hash: Some(Hashed { algorithm: HashType::Sha256, value: "00".to_string() }),
    }];
    let outcomes = check_processes(requests, &[process("a", b"a"), process("b", b"b")]);
    let message = "error IO Error: IOC 1, entry 2: Cannot open file \"/proc/x\": denied";
    assert_eq!(descriptions(&outcomes), strings(&[message, message]));
}

#[test]
fn exact_searches_set_the_case_of_letters_aside() {
    let conn = vec![ConnectionParameters {
        ioc_id: 1,
        ioc_entry_id: 2,
        search: SearchType::Exact,
        name: "C2.Evil.Example".to_string(),
    }];
    assert_eq!(
        descriptions(&check_conns(conn, &strings(&["c2.evil.EXAMPLE", "c2-evil.example"]))),
        strings(&["1/2: Connection search: Found connection c2.evil.EXAMPLE for IOC 1"])
    );
    let by_name = vec![ProcessParameters {
        ioc_id: 3,
        ioc_entry_id: 4,
        search: SearchType::Exact,
        name: Some("EVIL.exe".to_string()),
        hash: None,
    }];
    assert_eq!(
        descriptions(&check_processes(by_name, &[process("Evil.EXE", b"x"), process("evil", b"x")])),
        strings(&["3/4: Process search: Found process EVIL.exe for IOC 3"])
    );
    let by_expression = vec![ProcessParameters {
        ioc_id: 5,
        ioc_entry_id: 6,
        search: SearchType::Regex,
        name: Some("^evil".to_string()),
        hash: None,
    }];
    assert!(check_processes(by_expression, &[process("Evil.EXE", b"x")]).is_empty());
}

#[test]
fn a_pattern_that_compiles_is_never_refused() {
    let request = |name: &str| ConnectionParameters {
        ioc_id: 1,
        ioc_entry_id: 2,
        search: SearchType::Regex,
        name: name.to_string(),
    };
    let prepared = prepare_connections(&vec![
        request("^a.*z$"),
        request("(a|b)+"),
        request(""),
        request("a{2,1}"),
        request("\\"),
    ]);
    let ready: Vec<bool> = prepared.iter().map(|entry| entry.is_ok()).collect();
    assert_eq!(ready, vec![true, true, true, false, false]);
    assert!(compile_pattern("[a-z]+").is_ok());
    let error = compile_pattern("[a-").err().unwrap();
    assert_eq!(error.kind, "Regex error");
    assert_eq!(error.message, compiler_message("[a-"));
}

#[test]
fn mutexes_are_known_by_the_name_of_their_type() {
    assert!(is_mutex_type("Mutant"));
    assert!(is_mutex_type("Mutant\u{0}"));
    assert!(!is_mutex_type("Mutan"));
    assert!(!is_mutex_type("mutant"));
    assert!(!is_mutex_type("Event"));
    assert!(!is_mutex_type(""));
}
