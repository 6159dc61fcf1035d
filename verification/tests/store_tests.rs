use totp_cli::store::CredentialStore;
use totp_cli::store::Login;

#[test]
fn new_store_is_empty() {
    let s = CredentialStore::new();
    assert_eq!(s.len(), 0);
    assert!(s.lookup(&"alice".to_string()).is_none());
}

#[test]
fn add_then_lookup() {
    let mut s = CredentialStore::new();
    s.add("alice".to_string(), "JBSWY3DPEHPK3PXP".to_string());
    assert_eq!(s.len(), 1);
    assert_eq!(s.lookup(&"alice".to_string()), Some(&"JBSWY3DPEHPK3PXP".to_string()));
    assert!(s.lookup(&"bob".to_string()).is_none());
}

#[test]
fn add_replaces_existing_name() {
    let mut s = CredentialStore::new();
    s.add("alice".to_string(), "AAAA".to_string());
    s.add("alice".to_string(), "BBBB".to_string());
    assert_eq!(s.len(), 1);
    assert_eq!(s.lookup(&"alice".to_string()), Some(&"BBBB".to_string()));
}

#[test]
fn add_is_idempotent() {
    let mut s = CredentialStore::new();
    s.add("bob".to_string(), "CCCC".to_string());
    s.add("alice".to_string(), "AAAA".to_string());
    s.add("alice".to_string(), "AAAA".to_string());
    assert_eq!(s.len(), 2);
    assert_eq!(s.lookup(&"alice".to_string()), Some(&"AAAA".to_string()));
    assert_eq!(s.lookup(&"bob".to_string()), Some(&"CCCC".to_string()));
}

#[test]
fn add_then_remove_restores_mapping() {
    let mut s = CredentialStore::new();
    s.add("bob".to_string(), "CCCC".to_string());
    s.add("alice".to_string(), "AAAA".to_string());
    s.remove(&"alice".to_string());
    assert_eq!(s.len(), 1);
    assert!(s.lookup(&"alice".to_string()).is_none());
    assert_eq!(s.lookup(&"bob".to_string()), Some(&"CCCC".to_string()));
}

#[test]
fn remove_absent_is_noop() {
    let mut s = CredentialStore::new();
    s.add("alice".to_string(), "AAAA".to_string());
    s.remove(&"carol".to_string());
    assert_eq!(s.len(), 1);
    assert_eq!(s.lookup(&"alice".to_string()), Some(&"AAAA".to_string()));
}

#[test]
fn from_logins_builds_the_mapping() {
    let logins = vec![
        Login { name: "alice".to_string(), key: "AAAA".to_string() },
        Login { name: "bob".to_string(), key: "BBBB".to_string() },
    ];
    let s = CredentialStore::from_logins(logins);
    assert_eq!(s.len(), 2);
    assert_eq!(s.lookup(&"alice".to_string()), Some(&"AAAA".to_string()));
    assert_eq!(s.lookup(&"bob".to_string()), Some(&"BBBB".to_string()));
}

#[test]
fn from_logins_last_duplicate_wins() {
    let logins = vec![
        Login { name: "alice".to_string(), key: "AAAA".to_string() },
        Login { name: "alice".to_string(), key: "BBBB".to_string() },
    ];
    let s = CredentialStore::from_logins(logins);
    assert_eq!(s.len(), 1);
    assert_eq!(s.lookup(&"alice".to_string()), Some(&"BBBB".to_string()));
}

#[test]
fn logins_reports_entries_in_order() {
    let mut s = CredentialStore::new();
    s.add("alice".to_string(), "AAAA".to_string());
    s.add("bob".to_string(), "BBBB".to_string());
    let entries = s.logins();
    assert_eq!(entries.len(), 2);
    assert_eq!(entries[0].name, "alice");
    assert_eq!(entries[0].key, "AAAA");
    assert_eq!(entries[1].name, "bob");
    assert_eq!(entries[1].key, "BBBB");
}
