use apiary::host::{
    auth_mode, default_home, headless_unlock_path, initial_passphrase, origin_of,
    stored_passphrase, unlock, AuthMode, OPEN_WARNING,
};

#[test]
fn an_unknown_auth_mode_fails_closed() {
    assert_eq!(auth_mode("nip98"), Ok(AuthMode::Nip98));
    assert_eq!(auth_mode("open"), Ok(AuthMode::Open));
    assert_eq!(
        auth_mode("Open").unwrap_err(),
        "error: unknown --auth 'Open' (expected: open | nip98)"
    );
    assert!(OPEN_WARNING.ends_with("use --auth nip98 beyond localhost dev"));
}

#[test]
fn state_lives_below_home() {
    assert_eq!(default_home(&Some("/home/me".to_string())), "/home/me/.apiary");
    assert_eq!(default_home(&None), "./.apiary");
    assert_eq!(headless_unlock_path("/h"), "/h/headless-unlock");
}

#[test]
fn a_stored_passphrase_loses_only_its_newlines() {
    assert_eq!(stored_passphrase("pass word \n\n").as_deref(), Some("pass word "));
    assert_eq!(stored_passphrase("a\r\n").as_deref(), Some("a\r"));
    assert_eq!(stored_passphrase("\n\n"), None);
    assert_eq!(stored_passphrase(""), None);
}

#[test]
fn a_passphrase_that_no_longer_opens_stays_locked() {
    let ok = unlock("/h/headless-unlock", "p".to_string(), &None);
    assert_eq!(ok.passphrase.as_deref(), Some("p"));
    assert_eq!(ok.line, "headless unlock: workspace unlocked from /h/headless-unlock");
    let no = unlock("/h/headless-unlock", "p".to_string(), &Some("wrong key".to_string()));
    assert_eq!(no.passphrase, None);
    assert_eq!(
        no.line,
        "headless unlock: /h/headless-unlock no longer opens the keystore (wrong key) — staying locked; unlock in the cockpit and re-tick \"remember on this host\""
    );
}

#[test]
fn what_is_named_wins() {
    let a = Some("a".to_string());
    let b = Some("b".to_string());
    assert_eq!(initial_passphrase(&a, &b), a);
    assert_eq!(initial_passphrase(&None, &b), b);
    assert_eq!(origin_of(&None, "127.0.0.1:7777"), "http://127.0.0.1:7777");
    assert_eq!(origin_of(&Some("https://x".to_string()), "b"), "https://x");
}
