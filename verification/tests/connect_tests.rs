use rftp::connect::{
    answer_is_affirmative, check_host_trust, choose_fingerprint, confirm_host_trust,
    parse_home_dir_output, parse_port, trim_str, AuthState, CheckResult, HostTrustDecision,
    TrustStore,
};
use rftp::utils::ErrorKind;

#[test]
fn test_parse_port() {
    assert_eq!(parse_port("22").unwrap(), 22);
    assert_eq!(parse_port("2222").unwrap(), 2222);
    assert_eq!(parse_port("+80").unwrap(), 80);
    assert_eq!(parse_port("0").unwrap(), 0);
    assert_eq!(parse_port("65535").unwrap(), 65535);
    assert!(matches!(parse_port("65536"), Err(ErrorKind::InvalidPortNumber)));
    assert!(matches!(parse_port(""), Err(ErrorKind::InvalidPortNumber)));
    assert!(matches!(parse_port("+"), Err(ErrorKind::InvalidPortNumber)));
    assert!(matches!(parse_port("2x2"), Err(ErrorKind::InvalidPortNumber)));
    assert!(matches!(parse_port("-22"), Err(ErrorKind::InvalidPortNumber)));
    assert!(matches!(parse_port("port"), Err(ErrorKind::InvalidPortNumber)));
}

#[test]
fn test_trim_and_affirmative() {
    assert_eq!(trim_str("  hello \n"), "hello".to_string());
    assert_eq!(trim_str("\t"), "".to_string());
    assert_eq!(trim_str("x"), "x".to_string());
    assert!(answer_is_affirmative("y"));
    assert!(answer_is_affirmative("Y"));
    assert!(answer_is_affirmative("yes"));
    assert!(answer_is_affirmative("Yes"));
    assert!(answer_is_affirmative("YES"));
    assert!(answer_is_affirmative("yEs"));
    assert!(answer_is_affirmative(" yes \n"));
    assert!(!answer_is_affirmative("no"));
    assert!(!answer_is_affirmative("yeah"));
    assert!(!answer_is_affirmative(""));
    assert!(!answer_is_affirmative("n"));
}

#[test]
fn test_fingerprint_formatting() {
    // Standard base64 of [0, 0, 0] is "AAAA"; of [255] it is "/w==".
    let s = choose_fingerprint(Some(vec![0, 0, 0]), None).unwrap();
    assert_eq!(s, "SHA256:AAAA".to_string());
    let s = choose_fingerprint(None, Some(vec![255])).unwrap();
    assert_eq!(s, "SHA128:/w==".to_string());
    let s = choose_fingerprint(Some(vec![1, 2]), Some(vec![3])).unwrap();
    assert!(s.starts_with("SHA256:"));
    assert!(matches!(
        choose_fingerprint(None, None),
        Err(ErrorKind::HostFingerprintNotFound)
    ));
}

#[test]
fn test_host_trust() {
    let mut store = TrustStore::new();
    let fp = vec![1u8, 2, 3, 4];

    // First contact: the endpoint has no record, so the user is asked.
    assert!(matches!(
        check_host_trust(&store, "example.com", 22, &fp),
        HostTrustDecision::NeedConfirmation
    ));

    // Declining persists nothing and refuses the host.
    let r = confirm_host_trust(&mut store, "example.com", 22, fp.clone(), "no");
    match r {
        Err(ErrorKind::HostAuthenticationError(h, p)) => {
            assert_eq!(h, "example.com".to_string());
            assert_eq!(p, 22);
        }
        _ => panic!("expected the host authentication error"),
    }
    assert_eq!(store.num_records(), 0);

    // Accepting creates the record.
    assert!(confirm_host_trust(&mut store, "example.com", 22, fp.clone(), "yes").is_ok());
    assert_eq!(store.num_records(), 1);

    // The record short-circuits the prompt for an unchanged key.
    assert!(matches!(
        check_host_trust(&store, "example.com", 22, &fp),
        HostTrustDecision::Trusted
    ));

    // A changed key on a later call is a hard mismatch, never a prompt.
    let other = vec![9u8, 9, 9];
    assert!(matches!(
        check_host_trust(&store, "example.com", 22, &other),
        HostTrustDecision::RefusedMismatch
    ));

    // Another endpoint is unaffected.
    assert!(matches!(
        check_host_trust(&store, "example.com", 2222, &fp),
        HostTrustDecision::NeedConfirmation
    ));
    assert!(matches!(
        check_host_trust(&store, "other.org", 22, &fp),
        HostTrustDecision::NeedConfirmation
    ));
}

#[test]
fn test_store_check() {
    let mut store = TrustStore::new();
    store.add("h".to_string(), 22, vec![7u8]);
    assert!(matches!(store.check("h", 22, &vec![7u8]), CheckResult::Match));
    assert!(matches!(store.check("h", 22, &vec![8u8]), CheckResult::Mismatch));
    assert!(matches!(store.check("h", 23, &vec![7u8]), CheckResult::NotFound));
    assert_eq!(store.record_at(0).port, 22);
}

#[test]
fn test_auth_rounds() {
    let mut auth = AuthState::new();
    // Three rounds, then exhaustion.
    assert!(auth.begin_round());
    let plan = auth.plan_round(true, true);
    assert!(plan.try_agent);
    assert!(plan.prompt_password);
    auth.mark_password_entered();
    // The password prompt phase is spent after one round.
    let plan = auth.plan_round(true, true);
    assert!(plan.try_agent);
    assert!(!plan.prompt_password);
    // A server not offering public keys never triggers the agent.
    let plan = auth.plan_round(false, true);
    assert!(!plan.try_agent);
    assert!(auth.begin_round());
    assert!(auth.begin_round());
    assert!(!auth.begin_round());
    // Exhausted and unauthenticated: the authentication failure.
    match auth.conclude(false, "alice") {
        Err(ErrorKind::UserAuthenticationError(u)) => assert_eq!(u, "alice".to_string()),
        _ => panic!("expected the user authentication error"),
    }
    assert!(auth.conclude(true, "alice").is_ok());
}

#[test]
fn test_home_dir_output() {
    let r = parse_home_dir_output("/home/alice\n", 0).unwrap();
    assert_eq!(r, "/home/alice".to_string());
    assert!(matches!(
        parse_home_dir_output("", 127),
        Err(ErrorKind::Ssh2ChannelClosed(127))
    ));
}
