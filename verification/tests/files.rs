use ioc_probe::data::{HashType, Hashed, SearchType};
use ioc_probe::dir_resolver::{known_folders, resolve, resolve_one, KnownFolders};
use ioc_probe::file_checker::{
    all_drives, check_files, paths_to_probe, prepare_files, split_path, FileParameters, FoundFile,
};
use ioc_probe::hasher::{HashError, Hasher};
use ioc_probe::ioc_evaluator::SearchOutcome;

#[test]
fn test_all_drives() {
    let drives = all_drives(0, &[]);
    drives.iter().for_each(|drive| println!("[Test] Found drive {}", drive));
}

#[test]
fn fixed_drives_are_listed_by_letter() {
    let mut types = vec![0u32; 26];
    types[0] = 2;
    types[2] = 3;
    types[3] = 3;
    types[4] = 5;
    assert_eq!(all_drives(0b11101, &types), vec!["C:\\".to_string(), "D:\\".to_string()]);
    assert_eq!(all_drives(0b00101, &types), vec!["C:\\".to_string()]);
    assert_eq!(all_drives(0b01100, &types[..3]), vec!["C:\\".to_string()]);
    assert_eq!(all_drives(0, &types), Vec::<String>::new());
}

fn folders() -> KnownFolders {
    KnownFolders {
        data_dir: Some("C:\\Users\\a\\AppData\\Roaming".to_string()),
        data_local_dir: None,
        home_dir: Some("C:\\Users\\a\\".to_string()),
        temp_dir: Some("T:".to_string()),
    }
}

#[test]
fn a_token_at_the_start_of_a_path_is_replaced() {
    let f = folders();
    assert_eq!(
        resolve("%APPDATA%\\evil\\a.exe".to_string(), &f),
        "C:\\Users\\a\\AppData\\Roaming\\evil\\a.exe"
    );
    assert_eq!(resolve("%AppData%/x".to_string(), &f), "C:\\Users\\a\\AppData\\Roaming\\x");
    assert_eq!(resolve("%USERPROFILE%\\x".to_string(), &f), "C:\\Users\\a\\x");
    assert_eq!(resolve("%TEMP%".to_string(), &f), "T:");
    assert_eq!(resolve("%SystemRoot%\\system32".to_string(), &f), "C:/Windows\\system32");
    assert_eq!(resolve("%Public%\\x.bin".to_string(), &f), "C:/Users/Public\\x.bin");
    assert_eq!(resolve("%PUBLIC%\\x".to_string(), &f), "C:/Users/Public\\x");
}

#[test]
fn a_path_without_a_known_token_stays_as_it_is() {
    let f = folders();
    assert_eq!(resolve("%LOCALAPPDATA%\\x".to_string(), &f), "%LOCALAPPDATA%\\x");
    assert_eq!(resolve("%APPDATA%x\\y".to_string(), &f), "%APPDATA%x\\y");
    assert_eq!(resolve("C:\\%APPDATA%\\y".to_string(), &f), "C:\\%APPDATA%\\y");
    assert_eq!(resolve("".to_string(), &f), "");
    assert_eq!(resolve_one("%X%\\y".to_string(), "%X%", &None), "%X%\\y");
    assert_eq!(resolve_one("%X%\\y".to_string(), "%X%", &Some("D:".to_string())), "D:\\y");
    assert_eq!(known_folders(Some("/tmp".to_string())).temp_dir, Some("/tmp".to_string()));
}

fn file(path: &str, content: &[u8]) -> FoundFile {
    FoundFile {
        path: path.to_string(),
        md5: Ok(Hasher::new(HashType::Md5).hash(content)),
        sha1: Err(HashError::io("unreadable".to_string())),
        sha256: Ok(Hasher::new(HashType::Sha256).hash(content)),
    }
}

fn request(
    ioc_id: u64,
    ioc_entry_id: u64,
    search_type: SearchType,
    path: Option<&str>,
    hash: Option<Hashed>,
) -> FileParameters {
    FileParameters {
        ioc_id,
        ioc_entry_id,
        search_type,
        file_path_or_name: path.map(|p| p.to_string()),
        hash,
    }
}

fn descriptions(outcomes: &[SearchOutcome]) -> Vec<String> {
    outcomes
        .iter()
        .map(|outcome| match outcome {
            Ok(found) => format!("{}/{}: {}", found.ioc_id, found.ioc_entry_id, found.description),
            Err(error) => format!("error {}: {}", error.kind, error.message),
        })
        .collect()
}

fn md5(content: &[u8]) -> Option<Hashed> {
    Some(Hasher::new(HashType::Md5).hash(content))
}

#[test]
fn requests_are_prepared_for_probing() {
    let requests = vec![
        request(1, 2, SearchType::Exact, Some("%TEMP%/evil.bin"), None),
        request(3, 4, SearchType::Regex, Some("evil"), None),
        request(5, 6, SearchType::Exact, None, md5(b"x")),
        request(7, 8, SearchType::Exact, Some(""), None),
        request(9, 10, SearchType::Regex, Some("("), None),
    ];
    let prepared = prepare_files(&requests, &folders());
    assert_eq!(prepared.len(), 5);
    assert!(prepared[4].is_err());
    assert_eq!(
        paths_to_probe(&prepared),
        vec![Some("T:\\evil.bin".to_string()), None, None, None, None]
    );
}

#[test]
fn a_file_at_the_requested_path_is_found_without_a_deep_search() {
    let requests = vec![
        request(1, 2, SearchType::Exact, Some("/opt/evil.bin"), None),
        request(3, 4, SearchType::Exact, Some("/opt/other.bin"), md5(b"payload")),
        request(5, 6, SearchType::Exact, Some("/opt/third.bin"), md5(b"else")),
        request(7, 8, SearchType::Exact, Some("/opt/absent.bin"), None),
    ];
    let probes = vec![
        Some(file("/opt/evil.bin", b"a")),
        Some(file("/opt/other.bin", b"payload")),
        Some(file("/opt/third.bin", b"payload")),
        None,
    ];
    let walked = vec![file("/srv/absent.bin", b"a")];
    assert_eq!(
        descriptions(&check_files(requests, false, &folders(), &probes, &walked)),
        vec![
            "1/2: File search: Found /opt/evil.bin for IOC 1".to_string(),
            "3/4: File search: Found /opt/other.bin for IOC 3".to_string(),
        ]
    );
}

#[test]
fn the_deep_search_looks_for_what_is_still_open() {
    let requests = vec![
        request(1, 2, SearchType::Exact, Some("/opt/evil.bin"), None),
        request(3, 4, SearchType::Exact, Some("dropper.bin"), None),
        request(5, 6, SearchType::Regex, Some("^/srv/.*\\.bin$"), None),
        request(7, 8, SearchType::Exact, None, md5(b"payload")),
        request(9, 10, SearchType::Regex, Some("(("), None),
        request(
            11,
            12,
            SearchType::Exact,
            Some("locked.bin"),
            Some(Hashed { algorithm: HashType::Sha1, value: "00".to_string() }),
        ),
    ];
    let probes = vec![Some(file("/opt/evil.bin", b"a")), None];
    let walked = vec![
        file("/opt/evil.bin", b"a"),
        file("/srv/a.bin", b"a"),
        file("/srv/dropper.bin", b"payload"),
        file("/home/dropper.bin", b"payload"),
        file("/home/locked.bin", b"b"),
    ];
    assert_eq!(
        descriptions(&check_files(requests, true, &folders(), &probes, &walked)),
        vec![
            "error Regex error: IOC 9, entry 10: ".to_string() + &regex_message("(("),
            "1/2: File search: Found /opt/evil.bin for IOC 1".to_string(),
            "5/6: File search: Found /srv/a.bin for IOC 5".to_string(),
            "3/4: File search: Found /srv/dropper.bin for IOC 3".to_string(),
            "7/8: File search: Found /srv/dropper.bin for IOC 7".to_string(),
            "error IO Error: IOC 11, entry 12: unreadable".to_string(),
        ]
    );
}

fn regex_message(pattern: &str) -> String {
    regex::Regex::new(pattern).unwrap_err().to_string()
}

#[test]
fn a_requested_directory_must_be_the_directory_of_the_file() {
    let requests = vec![request(1, 2, SearchType::Exact, Some("/opt/evil.bin"), None)];
    let walked = vec![
        file("/srv/evil.bin", b"a"),
        file("/opt/evil.bin", b"a"),
        file("/opt/evil.bin", b"a"),
    ];
    assert_eq!(
        descriptions(&check_files(requests, true, &folders(), &[None], &walked)),
        vec!["1/2: File search: Found /opt/evil.bin for IOC 1".to_string()]
    );
}

#[test]
fn requested_names_are_compared_without_regard_to_case() {
    let requests = vec![request(1, 2, SearchType::Exact, Some("/Opt/EVIL.bin"), None)];
    let walked = vec![
        file("/srv/evil.bin", b"a"),
        file("/opt/Evil.BIN", b"a"),
    ];
    assert_eq!(
        descriptions(&check_files(requests, true, &folders(), &[None], &walked)),
        vec!["1/2: File search: Found /opt/Evil.BIN for IOC 1".to_string()]
    );
}

#[test]
fn a_path_is_divided_at_its_last_separator() {
    let parts = |path: &str| -> (Option<String>, String) {
        let chars: Vec<char> = path.chars().collect();
        let (parent, name) = split_path(&chars);
        (parent.map(|p| p.into_iter().collect()), name.into_iter().collect())
    };
    assert_eq!(parts("C:\\dir\\evil.exe"), (Some("C:\\dir".to_string()), "evil.exe".to_string()));
    assert_eq!(parts("/opt/x/evil"), (Some("/opt/x".to_string()), "evil".to_string()));
    assert_eq!(parts("a/b\\c"), (Some("a/b".to_string()), "c".to_string()));
    assert_eq!(parts("evil.exe"), (None, "evil.exe".to_string()));
    assert_eq!(parts("/evil"), (Some("".to_string()), "evil".to_string()));
    assert_eq!(parts("dir/"), (Some("dir".to_string()), "".to_string()));
    assert_eq!(parts(""), (None, "".to_string()));
}

#[test]
fn a_file_in_the_root_is_not_taken_for_one_elsewhere() {
    let requests = vec![
        request(1, 2, SearchType::Exact, Some("/evil.bin"), None),
        request(3, 4, SearchType::Exact, Some("evil.bin"), None),
        request(5, 6, SearchType::Regex, Some("^evil"), None),
    ];
    let walked = vec![file("/opt/evil.bin", b"a"), file("/evil.bin", b"a")];
    assert_eq!(
        descriptions(&check_files(requests, true, &folders(), &[], &walked)),
        vec![
            "3/4: File search: Found /opt/evil.bin for IOC 3".to_string(),
            "5/6: File search: Found /opt/evil.bin for IOC 5".to_string(),
            "1/2: File search: Found /evil.bin for IOC 1".to_string(),
        ]
    );
}
