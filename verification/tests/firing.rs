use apiary::charter::{Delivery, Vault, Watch};
use apiary::firing::{
    allowance_note, hold, judge, look, not_started, prepare, record_run, refused_note, row,
    to_deliver, watch_run,
};
use apiary::record::Detail;
use apiary::run::{Lane, RunDone, RunResult};
use apiary::time::Moment;
use apiary::watches::{Step, VaultFile, WatchRecord, WatchesState};

const SECOND: i128 = 1_000_000_000;

fn now() -> Moment {
    Moment::new(1_755_000_000, 0).unwrap()
}

fn watch() -> Watch {
    Watch {
        name: "w".to_string(),
        on: "vault".to_string(),
        vault: Some("V".to_string()),
        match_path: Some("PROJECT".to_string()),
        task: " look ".to_string(),
        debounce: "10s".to_string(),
        debounce_secs: Some(10),
        max_per_day: 1,
        deliver: vec![],
        tokens_per_run: Some(500),
        enabled: true,
    }
}

fn vaults() -> Vec<Vault> {
    vec![
        Vault { name: "U".to_string(), path: "/u".to_string() },
        Vault { name: "V".to_string(), path: "/v".to_string() },
        Vault { name: "V".to_string(), path: "/v2".to_string() },
    ]
}

fn done(text: &str, acted: bool) -> RunResult {
    RunResult::Done(RunDone {
        text: text.to_string(),
        outcome: "completed".to_string(),
        model: "m".to_string(),
        slot: "brain".to_string(),
        log_event_id: "ev".to_string(),
        acted,
    })
}

#[test]
fn a_watch_looks_at_the_vault_it_names() {
    let mut state = WatchesState::default();
    let found = prepare(&watch(), &vaults(), &mut state).unwrap();
    assert_eq!(found.path, "/v");
    assert_eq!(found.place, 0);
    let mut elsewhere = watch();
    elsewhere.vault = Some("X".to_string());
    elsewhere.name = "x".to_string();
    assert!(prepare(&elsewhere, &vaults(), &mut state).is_none());
    assert_eq!(state.watches.len(), 2, "it has a record all the same");
    let mut off = watch();
    off.enabled = false;
    off.name = "off".to_string();
    assert!(prepare(&off, &vaults(), &mut state).is_none());
    assert_eq!(state.watches.len(), 2);
    let mut odd = watch();
    odd.on = "calendar".to_string();
    assert!(prepare(&odd, &vaults(), &mut state).is_none());
}

#[test]
fn a_gate_delays_a_fire_and_loses_nothing() {
    let w = watch();
    let mut rec = WatchRecord {
        seen_through: Some(now().plus(-3600 * SECOND)),
        ..WatchRecord::default()
    };
    let files = vec![
        VaultFile { path: "a/PROJECT.md".to_string(), modified: Some(now()) },
        VaultFile { path: "b.md".to_string(), modified: Some(now()) },
    ];
    assert_eq!(look(&w, &mut rec, &files, now()), Step::Wait);
    let t1 = now().plus(10 * SECOND);
    let paths = match look(&w, &mut rec, &files, t1) {
        Step::Fire { paths } => paths,
        other => panic!("expected a fire, got {other:?}"),
    };
    assert_eq!(paths, vec!["a/PROJECT.md".to_string()]);
    assert_eq!(rec.fires_today, 1);
    assert_eq!(hold(&mut rec, paths, "keystore locked", t1), "waiting: keystore locked");
    assert_eq!(rec.fires_today, 0);
    assert_eq!(look(&w, &mut rec, &files, t1.plus(9 * SECOND)), Step::Wait);
    assert_eq!(
        look(&w, &mut rec, &files, t1.plus(10 * SECOND)),
        Step::Fire { paths: vec!["a/PROJECT.md".to_string()] }
    );
    // What is new by then goes along, behind what was held.
    let t2 = t1.plus(10 * SECOND);
    hold(&mut rec, vec!["a/PROJECT.md".to_string()], "keystore locked", t2);
    let more = vec![VaultFile { path: "PROJECT.md".to_string(), modified: Some(t2) }];
    assert_eq!(
        look(&w, &mut rec, &more, t2.plus(10 * SECOND)),
        Step::Fire { paths: vec!["a/PROJECT.md".to_string(), "PROJECT.md".to_string()] }
    );
}

#[test]
fn a_watch_run_spends_the_proactive_lane_and_has_no_door() {
    let request = watch_run(&watch(), &vec!["a.md".to_string()]);
    assert!(request.task.starts_with("look\n\n--- OBSERVATION"));
    assert!(request.task.contains("in the V vault:\n- a.md"));
    assert_eq!(request.task_class.as_deref(), Some("watch"));
    assert_eq!(request.tokens_per_run, Some(500));
    assert_eq!(request.lane, Some(Lane::Proactive));
    assert!(request.door.is_none());
}

#[test]
fn a_quiet_run_is_logged_briefly() {
    let paths = vec!["a.md".to_string(), "b.md".to_string()];
    let fired = judge(&watch(), &paths, now(), &done("nothing to do", false), vec![]);
    assert!(fired.quiet);
    assert_eq!(fired.entry.action, "watch.quiet");
    assert_eq!(fired.entry.model.as_deref(), Some("m"));
    assert_eq!(fired.note, "observed 2 change(s) → completed");
    let names: Vec<&str> = fired.entry.detail.items.iter().map(|f| f.0.as_str()).collect();
    assert_eq!(names, vec!["watch", "fired_at", "changed_paths", "run_event"]);
    assert_eq!(
        fired.entry.detail.items[1].1,
        Detail::Text("2025-08-12T12:00:00+00:00".to_string())
    );
    assert_eq!(fired.entry.detail.items[2].1, Detail::Count(2));
}

#[test]
fn an_acting_run_is_logged_whole() {
    let paths = vec!["a.md".to_string()];
    let told = vec!["{\"ok\":true}".to_string()];
    let fired = judge(&watch(), &paths, now(), &done(" é ", true), told);
    assert!(!fired.quiet);
    assert_eq!(fired.entry.action, "watch.run");
    assert_eq!(fired.note, "acted on 1 change(s) → completed");
    assert_eq!(fired.entry.detail.items[2].1, Detail::Texts(paths));
    assert_eq!(fired.entry.detail.items[3].1, Detail::Text("ev".to_string()));
    assert_eq!(fired.entry.detail.items[4].1, Detail::Jsons(vec!["{\"ok\":true}".to_string()]));
    assert_eq!(fired.entry.detail.items[5].1, Detail::Count(2));
}

#[test]
fn a_failed_run_is_not_a_quiet_one() {
    let failed = RunResult::Failed { error: "no budget".to_string() };
    let fired = judge(&watch(), &vec![], now(), &failed, vec![]);
    assert!(!fired.quiet);
    assert_eq!(fired.outcome, "error: no budget");
    assert_eq!(fired.entry.detail.items[3].1, Detail::Null);
    assert_eq!(fired.entry.model, None);
    assert_eq!(not_started("keystore"), ("error: keystore".to_string(), false));
}

#[test]
fn a_watch_that_could_not_start_is_not_counted_as_quiet() {
    let mut rec = WatchRecord::default();
    let (outcome, quiet) = not_started("no key");
    record_run(&mut rec, outcome, quiet, now());
    assert_eq!((rec.quiet_runs, rec.acting_runs), (0, 1));
    assert_eq!(rec.last_outcome.as_deref(), Some("error: no key"));
}

#[test]
fn a_watch_says_nothing_unless_it_names_a_target() {
    let mut w = watch();
    assert_eq!(to_deliver(&w, &done(" hi ", true)), None);
    w.deliver.push(Delivery {
        telegram: Some("1".to_string()),
        buzz: None,
        nostr: None,
        companion: false,
        as_voice: false,
    });
    assert_eq!(to_deliver(&w, &done(" hi ", true)), Some("hi".to_string()));
    assert_eq!(to_deliver(&w, &done(" hi ", false)), None, "a quiet run delivers nothing");
    assert_eq!(to_deliver(&w, &done("  ", true)), None);
    assert_eq!(to_deliver(&w, &RunResult::Failed { error: "e".to_string() }), None);
}

#[test]
fn every_run_is_counted_as_quiet_or_acting() {
    let mut rec = WatchRecord::default();
    record_run(&mut rec, "completed".to_string(), true, now());
    record_run(&mut rec, "completed".to_string(), false, now().plus(SECOND));
    assert_eq!((rec.quiet_runs, rec.acting_runs), (1, 1));
    assert_eq!(rec.last_outcome.as_deref(), Some("completed"));
    assert_eq!(rec.seen_through, Some(now().plus(SECOND)), "its own output is absorbed");
}

#[test]
fn what_was_refused_is_noted() {
    assert_eq!(
        refused_note(2, 5),
        "2 change(s) seen after today's 5 run limit — not queued; raise max_per_day if this is routinely too low"
    );
}

#[test]
fn watches_without_an_allowance_say_why() {
    assert!(allowance_note(1, None).unwrap().starts_with("These watches cannot run"));
    assert!(allowance_note(1, Some(0)).is_some());
    assert!(allowance_note(0, None).is_none());
    assert!(allowance_note(1, Some(10)).is_none());
}

#[test]
fn the_cockpit_sees_each_watch_whole() {
    let mut state = WatchesState::default();
    let i = state.entry("w");
    state.watches[i].record.quiet_runs = 4;
    let fields = row(&watch(), &vaults(), &state, "npub1a", &vec!["npub1a/w".to_string()], &None).items;
    let names: Vec<&str> = fields.iter().map(|f| f.0.as_str()).collect();
    assert_eq!(
        names,
        vec![
            "name", "on", "vault", "vault_path", "match", "task", "debounce", "max_per_day",
            "enabled", "deliver", "running", "pending_since", "pending_paths", "fires_today",
            "last_fired", "last_outcome", "quiet_runs", "acting_runs", "note"
        ]
    );
    assert_eq!(fields[3].1, Detail::Text("/v".to_string()));
    assert_eq!(fields[10].1, Detail::Flag(true));
    assert_eq!(fields[16].1, Detail::Count(4));
    let blank = row(&watch(), &vec![], &WatchesState::default(), "npub1a", &vec![], &None).items;
    assert_eq!(blank[3].1, Detail::Null);
    assert_eq!(blank[16].1, Detail::Count(0));
}
