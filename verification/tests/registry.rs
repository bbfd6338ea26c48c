use ioc_probe::data::SearchType;
use ioc_probe::ioc_evaluator::SearchOutcome;
use ioc_probe::registry_checker::{
    check_registry, coerce, deep_search_hives, hive_name, open_registry, predef_key_by_name,
    prepare_registry, read_value, sub_key_path, Hive, RegistryKey, RegistryParameters,
    RegistryValue,
};

fn chars(text: &str) -> Vec<char> {
    text.chars().collect()
}

#[test]
fn hives_are_known_by_their_full_and_short_names() {
    assert_eq!(predef_key_by_name(&chars("HKEY_LOCAL_MACHINE")), Some(Hive::LocalMachine));
    assert_eq!(predef_key_by_name(&chars("HKLM")), Some(Hive::LocalMachine));
    assert_eq!(predef_key_by_name(&chars("HKCR")), Some(Hive::ClassesRoot));
    assert_eq!(predef_key_by_name(&chars("HKCC")), Some(Hive::CurrentConfig));
    assert_eq!(predef_key_by_name(&chars("HKCU")), Some(Hive::CurrentUser));
    assert_eq!(predef_key_by_name(&chars("HKU")), Some(Hive::Users));
    assert_eq!(predef_key_by_name(&chars("HKEY_DYN_DATA")), Some(Hive::DynData));
    assert_eq!(
        predef_key_by_name(&chars("HKEY_PERFORMANCE_TEXT")),
        Some(Hive::PerformanceText)
    );
    assert_eq!(predef_key_by_name(&chars("hklm")), None);
    assert_eq!(predef_key_by_name(&chars("")), None);
}

#[test]
fn a_key_is_split_at_its_first_backslash() {
    let place = open_registry("HKLM\\Software\\Evil\\Run").unwrap();
    assert_eq!(place.hive, Hive::LocalMachine);
    assert_eq!(place.path, Some("Software\\Evil\\Run".to_string()));
    let root = open_registry("HKEY_USERS").unwrap();
    assert_eq!(root.hive, Hive::Users);
    assert_eq!(root.path, None);
    assert_eq!(open_registry("HKCU\\").unwrap().path, Some("".to_string()));
    let error = open_registry("HKXX\\Software").unwrap_err();
    assert_eq!(error.kind, "Registry error");
    assert_eq!(error.message, "Registry search: Cannot open HKXX");
    assert_eq!(open_registry("").unwrap_err().message, "Registry search: Cannot open ");
}

#[test]
fn the_deep_search_walks_ten_hives() {
    let hives = deep_search_hives();
    assert_eq!(hives.len(), 10);
    assert_eq!(hives[0], Hive::CurrentUser);
    assert_eq!(hives[9], Hive::Users);
    assert_eq!(hive_name(hives[1]), "HKEY_LOCAL_MACHINE");
    assert_eq!(hive_name(Hive::PerformanceText), "HKEY_PERFORMANCE_TEXT");
    for hive in deep_search_hives() {
        let name: Vec<char> = hive_name(hive).chars().collect();
        assert_eq!(predef_key_by_name(&name), Some(hive));
    }
    assert_eq!(sub_key_path("HKEY_USERS", "S-1-5"), "HKEY_USERS\\S-1-5");
}

fn key(name: &str, full_path: &str, values: &[(&str, &str)]) -> RegistryKey {
    RegistryKey {
        name: name.to_string(),
        full_path: full_path.to_string(),
        values: values
            .iter()
            .map(|(name, text)| RegistryValue {
                name: name.to_string(),
                text: Some(text.to_string()),
                dword: None,
                qword: None,
            })
            .collect(),
    }
}

#[test]
fn a_value_is_compared_as_text_or_else_as_a_number() {
    let value = |text: Option<&str>, dword, qword| RegistryValue {
        name: "v".to_string(),
        text: text.map(|t| t.to_string()),
        dword,
        qword,
    };
    assert_eq!(coerce(&value(Some("abc"), Some(1), Some(2))), chars("abc"));
    assert_eq!(coerce(&value(None, Some(4294967295), Some(2))), chars("4294967295"));
    assert_eq!(coerce(&value(None, None, Some(18446744073709551615))), chars("18446744073709551615"));
    assert_eq!(coerce(&value(None, None, None)), chars(""));
    let mut k = key("Run", "HKLM\\Run", &[]);
    k.values.push(value(None, Some(7), None));
    let requests = vec![request(1, 2, SearchType::Exact, "HKLM\\Run", "v", Some("7"))];
    assert_eq!(check_registry(requests, false, &[Some(k)], &[]).len(), 1);
}

#[test]
fn the_first_value_of_a_name_is_read() {
    let k = key("Run", "HKLM\\Run", &[("a", "1"), ("b", "2"), ("a", "3")]);
    assert_eq!(read_value(&k, "a"), chars("1"));
    assert_eq!(read_value(&k, "b"), chars("2"));
    assert_eq!(read_value(&k, "A"), chars(""));
    assert_eq!(read_value(&k, "c"), chars(""));
}

fn request(
    ioc_id: u64,
    ioc_entry_id: u64,
    search_type: SearchType,
    key: &str,
    value_name: &str,
    value: Option<&str>,
) -> RegistryParameters {
    RegistryParameters {
        ioc_id,
        ioc_entry_id,
        search_type,
        key: key.to_string(),
        value_name: value_name.to_string(),
        value: value.map(|v| v.to_string()),
    }
}

fn descriptions(outcomes: &[SearchOutcome]) -> Vec<String> {
    outcomes
        .iter()
        .map(|outcome| match outcome {
            Ok(found) => format!("{}/{}: {}", found.ioc_id, found.ioc_entry_id, found.description),
            Err(error) => format!("error {}", error.kind),
        })
        .collect()
}

#[test]
fn requested_keys_are_opened_and_their_values_compared() {
    let requests = vec![
        request(1, 2, SearchType::Exact, "HKLM\\Software\\Evil", "Version", None),
        request(3, 4, SearchType::Exact, "HKLM\\Software\\Evil", "Version", Some("7")),
        request(5, 6, SearchType::Exact, "HKLM\\Software\\Evil", "Version", Some("8")),
        request(7, 8, SearchType::Exact, "HKLM\\Software\\Gone", "Version", None),
        request(9, 10, SearchType::Exact, "HKLM\\Software\\Evil", "Missing", Some("")),
    ];
    let evil = || Some(key("Evil", "HKLM\\Software\\Evil", &[("Version", "7")]));
    let probes = vec![evil(), evil(), evil(), None, evil()];
    let walked = vec![key("Gone", "HKEY_LOCAL_MACHINE\\Software\\Gone", &[])];
    assert_eq!(
        descriptions(&check_registry(requests, true, &probes, &walked)),
        vec![
            "1/2: Registry search: Found reg key HKLM\\Software\\Evil\\Version for IOC 1",
            "3/4: Registry search: Found reg key HKLM\\Software\\Evil\\Version = 7 for IOC 3",
            "9/10: Registry search: Found reg key HKLM\\Software\\Evil\\Missing =  for IOC 9",
        ]
    );
}

#[test]
fn the_deep_search_takes_place_only_with_a_regex_request() {
    let exact = || request(1, 2, SearchType::Exact, "HKLM\\Software\\Evil", "v", None);
    let regex = || request(3, 4, SearchType::Regex, "Software\\\\Ev.l$", "v", Some("1"));
    let broken = || request(5, 6, SearchType::Regex, "(", "v", None);
    let walked = vec![
        key("Software", "HKEY_LOCAL_MACHINE\\Software", &[]),
        key("Evil", "HKEY_LOCAL_MACHINE\\Software\\Evil", &[("v", "0")]),
        key("Evil", "HKEY_USERS\\Software\\Evil", &[("v", "1")]),
        key("Evil", "HKEY_USERS\\More\\Software\\Evil", &[("v", "1")]),
    ];
    assert!(check_registry(vec![exact()], true, &[None], &walked).is_empty());
    assert!(check_registry(vec![exact(), regex()], false, &[None], &walked).is_empty());
    assert_eq!(
        descriptions(&check_registry(vec![exact(), regex()], true, &[], &walked)),
        vec![
            "1/2: Registry search: Found reg key HKLM\\Software\\Evil\\v for IOC 1",
            "3/4: Registry search: Found reg key Software\\\\Ev.l$\\v = 1 for IOC 3",
        ]
    );
    assert_eq!(
        descriptions(&check_registry(vec![broken(), exact()], true, &[], &walked)),
        vec![
            "error Regex error",
            "1/2: Registry search: Found reg key HKLM\\Software\\Evil\\v for IOC 1",
        ]
    );
    let prepared = prepare_registry(&vec![broken(), exact(), regex()]);
    assert!(prepared[0].is_err() && prepared[1].is_ok() && prepared[2].is_ok());
}

#[test]
fn requested_keys_are_compared_without_regard_to_case() {
    let requests = vec![
        request(1, 2, SearchType::Exact, "hklm\\software\\EVIL", "v", None),
        request(3, 4, SearchType::Regex, "x", "v", None),
    ];
    let walked = vec![
        key("Evi", "HKEY_LOCAL_MACHINE\\Software\\Evi", &[]),
        key("Evil", "HKEY_LOCAL_MACHINE\\Software\\Evil", &[]),
    ];
    assert_eq!(
        descriptions(&check_registry(requests, true, &[], &walked)),
        vec!["1/2: Registry search: Found reg key hklm\\software\\EVIL\\v for IOC 1"]
    );
}
