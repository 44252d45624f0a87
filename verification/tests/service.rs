use apiary::lease::{Claim, Lease, LeaseKeeper};
use apiary::service::{MentionService, ServiceAct, ServiceEvent, ServiceTurn, Serving};

fn begin(relays: usize) -> (MentionService, ServiceTurn) {
    MentionService::begin(LeaseKeeper::new("h1".to_string(), 30, 90), relays)
}

fn go(s: &mut MentionService, event: ServiceEvent) -> ServiceTurn {
    assert!(s.accepts(&event), "{event:?}");
    s.step(event)
}

/// A service that listens, under the lease number 5.
fn listening() -> MentionService {
    let (mut s, _) = begin(1);
    go(&mut s, ServiceEvent::Claimed { claim: Claim::Held { seq: 5 } });
    assert!(matches!(go(&mut s, ServiceEvent::Connected).act, ServiceAct::Listen));
    s
}

fn by(host: &str, seq: u64) -> Option<Lease> {
    Some(Lease { host: host.to_string(), seq })
}

#[test]
fn a_service_claims_before_it_connects() {
    let (mut s, turn) = begin(2);
    assert!(matches!(turn.act, ServiceAct::Claim { expiry_secs: 90 }));
    let turn = go(&mut s, ServiceEvent::Claimed { claim: Claim::Held { seq: 5 } });
    assert_eq!(turn.lines, vec!["lease claimed (host h1, seq 5)"]);
    assert!(matches!(turn.act, ServiceAct::Connect));
    let (mut s, turn) = begin(0);
    assert!(turn.lines[0].ends_with("WITHOUT cross-host coordination"));
    assert!(matches!(turn.act, ServiceAct::Connect));
    assert!(matches!(go(&mut s, ServiceEvent::Connected).act, ServiceAct::Listen));
    let turn = go(&mut s, ServiceEvent::Ended { error: None });
    assert!(matches!(turn.act, ServiceAct::Return { error: None }), "no lease, no release");
}

#[test]
fn a_contested_claim_ends_the_service() {
    let (mut s, _) = begin(1);
    let lease = by("h2", 7).unwrap();
    match go(&mut s, ServiceEvent::Claimed { claim: Claim::Contested { lease } }).act {
        ServiceAct::Return { error: Some(error) } => {
            assert!(error.starts_with("lease held by host h2 (seq 7)"))
        }
        other => panic!("expected the end, got {other:?}"),
    }
    assert!(matches!(s.phase, Serving::Over));
    assert!(!s.accepts(&ServiceEvent::Connected));
    let (mut s, _) = begin(1);
    let turn = go(&mut s, ServiceEvent::ClaimFailed { error: "no relay".to_string() });
    assert!(matches!(turn.act, ServiceAct::Return { error: Some(e) } if e == "no relay"));
}

#[test]
fn a_failed_connection_leaves_the_lease_to_expire() {
    let (mut s, _) = begin(1);
    go(&mut s, ServiceEvent::Claimed { claim: Claim::Held { seq: 5 } });
    let turn = go(&mut s, ServiceEvent::ConnectFailed { error: "refused".to_string() });
    assert!(matches!(turn.act, ServiceAct::Return { error: Some(e) } if e == "refused"));
}

#[test]
fn the_lease_is_looked_after_while_listening() {
    let mut s = listening();
    assert!(matches!(go(&mut s, ServiceEvent::Ticked { secs: 29 }).act, ServiceAct::GoOn));
    assert!(matches!(go(&mut s, ServiceEvent::Ticked { secs: 30 }).act, ServiceAct::Fetch));
    assert!(!s.accepts(&ServiceEvent::Fetched { found: None, now: u64::MAX }));
    let turn = go(&mut s, ServiceEvent::Fetched { found: by("h1", 5), now: 1_000 });
    assert!(matches!(turn.act, ServiceAct::Publish { seq: 5, until: 1_090 }));
}

#[test]
fn the_release_follows_an_error_too() {
    for error in [None, Some("log: disk".to_string())] {
        let mut s = listening();
        let turn = go(&mut s, ServiceEvent::Ended { error: error.clone() });
        assert!(matches!(turn.act, ServiceAct::Release { seq: 5 }));
        let turn = go(&mut s, ServiceEvent::ReleaseFailed { error: "timeout".to_string() });
        assert_eq!(turn.lines, vec!["lease release failed (timeout) — expires naturally"]);
        assert!(matches!(turn.act, ServiceAct::Return { error: kept } if kept == error));
    }
    let mut s = listening();
    go(&mut s, ServiceEvent::Ended { error: None });
    assert_eq!(go(&mut s, ServiceEvent::Released).lines, vec!["lease released"]);
}

#[test]
fn a_yielded_lease_is_said_at_the_end_and_not_released() {
    let mut s = listening();
    go(&mut s, ServiceEvent::Ticked { secs: 30 });
    let turn = go(&mut s, ServiceEvent::Fetched { found: by("h2", 6), now: 1_000 });
    assert!(turn.lines.is_empty() && matches!(turn.act, ServiceAct::Stop));
    let turn = go(&mut s, ServiceEvent::Ended { error: None });
    assert_eq!(turn.lines, vec!["lease superseded by host h2 (seq 6) — yielding"]);
    assert!(matches!(turn.act, ServiceAct::Return { error: None }));
}
