use paastel::auth::{AuthUsers, SecretRecord};
use paastel::secrets::{list_outcome, list_params, AuthKubeSecretPort, MemorySecrets};

fn record(username: Option<&str>, password: Option<&str>) -> SecretRecord {
    SecretRecord {
        username: username.map(|s| s.to_string()),
        password: password.map(|s| s.to_string()),
    }
}

#[test]
fn duplicate_username_keeps_exactly_one_entry_and_the_last_wins() {
    let records = vec![
        record(Some("alice"), Some("first")),
        record(Some("bob"), Some("pw-b")),
        record(Some("alice"), Some("second")),
    ];
    let users = AuthUsers::from_records(&records);
    assert_eq!(users.len(), 2);
    assert_eq!(users.get("alice").unwrap().password, "second");
    assert_eq!(users.get("bob").unwrap().password, "pw-b");
}

#[test]
fn record_missing_a_required_field_is_excluded_without_failure() {
    let records = vec![
        record(Some("alice"), Some("pw-a")),
        record(Some("ghost"), None),
        record(None, Some("pw-x")),
    ];
    let users = AuthUsers::from_records(&records);
    assert_eq!(users.len(), 1);
    assert!(users.contains("alice"));
    assert!(!users.contains("ghost"));
}

#[test]
fn three_records_one_missing_username_yield_two_entries() {
    let records = vec![
        record(Some("alice"), Some("pw-a")),
        record(None, Some("pw-b")),
        record(Some("carol"), Some("pw-c")),
    ];
    let users = AuthUsers::from_records(&records);
    assert_eq!(users.len(), 2);
    assert!(users.contains("alice"));
    assert!(users.contains("carol"));
}

#[test]
fn store_failure_yields_one_directory_error_and_no_partial_result() {
    let r = list_outcome(Err("timed out after the fixed bound".to_string()));
    let e = match r {
        Ok(_) => panic!("a failed listing must not yield a directory"),
        Err(e) => e,
    };
    assert_eq!(e.cause, "timed out after the fixed bound");
}

#[test]
fn successful_listing_yields_the_records_directory() {
    let records = vec![record(Some("alice"), Some("pw-a"))];
    let users = list_outcome(Ok(records)).unwrap();
    assert_eq!(users.len(), 1);
    let alice = users.get("alice").unwrap();
    assert_eq!(alice.username, "alice");
    assert_eq!(alice.password, "pw-a");
}

#[test]
fn listing_query_is_fixed() {
    let q = list_params();
    assert!(q.match_any);
    assert_eq!(q.timeout_seconds, 60);
    assert_eq!(q.label_selector, "kubernetes.io/lifecycle=spot");
}

#[test]
fn memory_store_implements_the_port() {
    let store = MemorySecrets {
        records: vec![
            record(Some("alice"), Some("pw-a")),
            record(Some("alice"), Some("pw-b")),
        ],
    };
    let users = store.list().unwrap();
    assert_eq!(users.len(), 1);
    assert_eq!(users.get("alice").unwrap().password, "pw-b");
}

#[test]
fn lookups_in_an_empty_directory() {
    let users = AuthUsers::new();
    assert_eq!(users.len(), 0);
    assert!(users.get("anyone").is_none());
    assert!(!users.contains("anyone"));
}
