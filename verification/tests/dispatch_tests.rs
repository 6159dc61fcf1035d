use totp_cli::dispatch::Command;
use totp_cli::dispatch::GetOutcome;
use totp_cli::dispatch::Outcome;
use totp_cli::dispatch::dispatch;
use totp_cli::dispatch::get_code;
use totp_cli::dispatch::list_codes;
use totp_cli::errors::Error;
use totp_cli::store::CredentialStore;

#[test]
fn get_absent_name_is_not_found() {
    let mut s = CredentialStore::new();
    s.add("bob".to_string(), "JBSWY3DPEHPK3PXP".to_string());
    let r = get_code(&s, &"alice".to_string(), 5);
    assert_eq!(r, Ok(GetOutcome::NotFound));
    // the store is untouched
    assert_eq!(s.len(), 1);
    assert_eq!(s.lookup(&"bob".to_string()), Some(&"JBSWY3DPEHPK3PXP".to_string()));
}

#[test]
fn get_present_name_yields_a_code() {
    let mut s = CredentialStore::new();
    s.add("alice".to_string(), "JBSWY3DPEHPK3PXP".to_string());
    match get_code(&s, &"alice".to_string(), 0) {
        Ok(GetOutcome::Code(sel)) => {
            assert!(sel.slot.code < 1000000);
            assert!(!sel.warned);
            assert_eq!(sel.slot.offset, 0);
        },
        other => panic!("expected a code, got {:?}", other),
    }
}

#[test]
fn get_undecodable_secret_fails() {
    let mut s = CredentialStore::new();
    s.add("alice".to_string(), "not base32!".to_string());
    let r = get_code(&s, &"alice".to_string(), 5);
    assert_eq!(r, Err(Error::SecretDecode));
}

#[test]
fn list_empty_store_has_no_lines_and_no_notice() {
    let s = CredentialStore::new();
    let l = list_codes(&s, 5).unwrap();
    assert!(l.lines.is_empty());
    assert!(l.notice.is_none());
}

#[test]
fn list_reports_every_name_once() {
    let mut s = CredentialStore::new();
    s.add("alice".to_string(), "JBSWY3DPEHPK3PXP".to_string());
    s.add("bob".to_string(), "JBSWY3DPEHPK3PXQ".to_string());
    let l = list_codes(&s, 0).unwrap();
    assert_eq!(l.lines.len(), 2);
    assert_eq!(l.lines[0].0, "alice");
    assert_eq!(l.lines[1].0, "bob");
    assert!(l.lines[0].1 < 1000000);
    assert!(l.lines[1].1 < 1000000);
    let notice = l.notice.unwrap();
    assert!(!notice.warned);
    assert_eq!(notice.offset, 0);
}

#[test]
fn list_aborts_on_first_undecodable_secret() {
    let mut s = CredentialStore::new();
    s.add("alice".to_string(), "JBSWY3DPEHPK3PXP".to_string());
    s.add("bob".to_string(), "bad secret".to_string());
    assert_eq!(list_codes(&s, 5).map(|_| ()), Err(Error::SecretDecode));
}

#[test]
fn forced_lookahead_marks_the_whole_listing() {
    let mut s = CredentialStore::new();
    s.add("alice".to_string(), "JBSWY3DPEHPK3PXP".to_string());
    let l = list_codes(&s, 31).unwrap();
    let notice = l.notice.unwrap();
    assert!(notice.warned);
    assert_eq!(notice.offset, 1);
    assert!(notice.expires_in >= 31 && notice.expires_in <= 60);
}

#[test]
fn dispatch_routes_and_persists() {
    let mut s = CredentialStore::new();

    // add: mutates and asks to persist
    let r = dispatch(
        &mut s,
        Command::Add { name: "alice".to_string(), key: "JBSWY3DPEHPK3PXP".to_string() },
        5,
    );
    match r {
        Ok((Outcome::Stored, persist)) => assert!(persist),
        other => panic!("expected a store, got persist flag {:?}", other.map(|_| ())),
    }

    // get: reads, never persists
    match dispatch(&mut s, Command::Get { name: "alice".to_string() }, 0) {
        Ok((Outcome::Code(sel), persist)) => {
            assert!(!persist);
            assert!(sel.slot.code < 1000000);
        },
        other => panic!("expected a code, got {:?}", other.map(|_| ())),
    }

    // list: reads, never persists
    match dispatch(&mut s, Command::List, 0) {
        Ok((Outcome::Listing(l), persist)) => {
            assert!(!persist);
            assert_eq!(l.lines.len(), 1);
            assert_eq!(l.lines[0].0, "alice");
        },
        other => panic!("expected a listing, got {:?}", other.map(|_| ())),
    }

    // rm: mutates and asks to persist, even when nothing was removed
    match dispatch(&mut s, Command::Rm { name: "alice".to_string() }, 5) {
        Ok((Outcome::Stored, persist)) => assert!(persist),
        other => panic!("expected a store, got {:?}", other.map(|_| ())),
    }
    match dispatch(&mut s, Command::Rm { name: "carol".to_string() }, 5) {
        Ok((Outcome::Stored, persist)) => assert!(persist),
        other => panic!("expected a store, got {:?}", other.map(|_| ())),
    }
}

#[test]
fn end_to_end_add_list_rm_get() {
    // starting from no stored configuration at all
    let mut s = CredentialStore::new();

    dispatch(
        &mut s,
        Command::Add { name: "alice".to_string(), key: "JBSWY3DPEHPK3PXP".to_string() },
        5,
    )
    .unwrap();

    match dispatch(&mut s, Command::List, 5) {
        Ok((Outcome::Listing(l), _)) => {
            assert_eq!(l.lines.len(), 1);
            assert_eq!(l.lines[0].0, "alice");
            assert!(l.lines[0].1 < 1000000);
            assert!(l.notice.is_some());
        },
        other => panic!("expected a listing, got {:?}", other.map(|_| ())),
    }

    dispatch(&mut s, Command::Rm { name: "alice".to_string() }, 5).unwrap();

    match dispatch(&mut s, Command::Get { name: "alice".to_string() }, 5) {
        Ok((Outcome::NotFound, persist)) => assert!(!persist),
        other => panic!("expected not found, got {:?}", other.map(|_| ())),
    }
}

#[test]
fn error_messages_name_the_failure() {
    assert!(Error::ConfigRead.message().contains("read"));
    assert!(Error::ConfigParse.message().contains("parse"));
    assert!(Error::ConfigWrite.message().contains("write"));
    assert!(Error::SecretDecode.message().contains("BASE32"));
}
