use apiary::lease::{released_line, Beat, Claim, Lease, LeaseKeeper, Renewal};

fn keeper(heartbeat: u64, expiry: u64) -> LeaseKeeper {
    LeaseKeeper::new("h1".to_string(), heartbeat, expiry)
}

fn held() -> LeaseKeeper {
    let mut k = keeper(30, 90);
    k.claimed(&Claim::Held { seq: 5 }).unwrap();
    k
}

fn by(host: &str, seq: u64) -> Option<Lease> {
    Some(Lease { host: host.to_string(), seq })
}

#[test]
fn terms_have_a_floor() {
    let k = keeper(1, 1);
    assert_eq!((k.heartbeat_secs, k.expiry_secs), (10, 20));
    let k = keeper(60, 90);
    assert_eq!((k.heartbeat_secs, k.expiry_secs), (60, 120));
    let k = keeper(60, 600);
    assert_eq!((k.heartbeat_secs, k.expiry_secs), (60, 600));
}

#[test]
fn running_alone_is_said() {
    assert_eq!(
        keeper(10, 20).without_relays(0),
        Some("lease: no memory.log_relays declared — running WITHOUT cross-host coordination")
    );
    assert_eq!(keeper(10, 20).without_relays(1), None);
    assert_eq!(keeper(10, 20).beat(1_000), Beat::GoOn, "nothing to renew");
}

#[test]
fn a_claim_is_held_or_contested() {
    let mut k = keeper(30, 90);
    assert_eq!(k.claimed(&Claim::Held { seq: 5 }).unwrap(), "lease claimed (host h1, seq 5)");
    assert_eq!(k.seq, Some(5));
    let mut k = keeper(30, 90);
    let err = k
        .claimed(&Claim::Contested { lease: Lease { host: "h2".to_string(), seq: 7 } })
        .unwrap_err();
    assert_eq!(err, "lease held by host h2 (seq 7) — this agent appears to be running                      elsewhere; takeover is a human decision (Overview → Lease)");
    assert_eq!(k.seq, None);
}

#[test]
fn a_lease_is_renewed_on_the_beat() {
    let mut k = held();
    assert_eq!(k.beat(29), Beat::GoOn);
    assert_eq!(k.beat(30), Beat::Fetch);
    for found in [None, by("h1", 9), by("h2", 5)] {
        match k.fetched(&found, 1_000) {
            Renewal::Publish { seq, until } => assert_eq!((seq, until), (5, 1_090)),
            other => panic!("expected a renewal, got {other:?}"),
        }
    }
    assert_eq!(k.release(), Some(5));
}

#[test]
fn a_successor_is_yielded_to_and_never_released() {
    let mut k = held();
    match k.fetched(&by("h2", 6), 1_000) {
        Renewal::Yield { line } => {
            assert_eq!(line, "lease superseded by host h2 (seq 6) — yielding")
        }
        other => panic!("expected to yield, got {other:?}"),
    }
    assert!(k.yielded);
    assert_eq!(k.release(), None);
}

#[test]
fn a_release_says_how_it_went() {
    assert_eq!(released_line(&None), "lease released");
    assert_eq!(
        released_line(&Some("offline".to_string())),
        "lease release failed (offline) — expires naturally"
    );
}
