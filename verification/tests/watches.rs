use apiary::charter::Watch;
use apiary::time::Moment;
use apiary::watches::{
    absorb_through, scan_vault, step, task_text, Changes, Step, VaultFile, WatchRecord,
    WatchesFile, WatchesState, MAX_LISTED_PATHS,
};

const HOUR: i128 = 3_600_000_000_000;
const SECOND: i128 = 1_000_000_000;

/// Noon on some day.
fn now() -> Moment {
    Moment::new(1_755_000_000, 0).unwrap()
}

fn watch(debounce: &str, secs: i64, max_per_day: u32) -> Watch {
    Watch {
        name: "w".to_string(),
        on: "vault".to_string(),
        vault: Some("V".to_string()),
        match_path: None,
        task: "look".to_string(),
        debounce: debounce.to_string(),
        debounce_secs: Some(secs),
        max_per_day,
        deliver: vec![],
        tokens_per_run: None,
        enabled: true,
    }
}

fn changes(paths: &[&str], newest: Moment) -> Changes {
    Changes { paths: paths.iter().map(|p| p.to_string()).collect(), newest: Some(newest) }
}

fn nothing() -> Changes {
    Changes { paths: vec![], newest: None }
}

fn seen_an_hour_ago() -> WatchRecord {
    WatchRecord { seen_through: Some(now().plus(-HOUR)), ..WatchRecord::default() }
}

fn file(path: &str, modified: Moment) -> VaultFile {
    VaultFile { path: path.to_string(), modified: Some(modified) }
}

#[test]
fn first_sight_adopts_the_present_instead_of_firing_for_history() {
    let w = watch("1m", 60, 10);
    let mut rec = WatchRecord::default();
    // A folder full of old files must not fire anything.
    assert_eq!(step(&w, &mut rec, changes(&["old.md"], now()), now()), Step::Wait);
    assert!(rec.seen_through.is_some());
    assert!(rec.pending_paths.is_empty());
}

#[test]
fn a_burst_becomes_one_run_after_the_debounce() {
    let w = watch("60s", 60, 10);
    let mut rec = seen_an_hour_ago();
    let t0 = now();
    // Three changes arrive across the window: still one pending fire.
    assert_eq!(step(&w, &mut rec, changes(&["a.md"], t0), t0), Step::Wait);
    let t1 = t0.plus(20 * SECOND);
    assert_eq!(step(&w, &mut rec, changes(&["b.md"], t1), t1), Step::Wait);
    let t2 = t0.plus(40 * SECOND);
    assert_eq!(
        step(&w, &mut rec, changes(&["a.md"], t2), t2),
        Step::Wait,
        "a repeat of the same path does not duplicate"
    );
    // Debounce elapses: one run carrying every distinct path.
    let t3 = t0.plus(61 * SECOND);
    match step(&w, &mut rec, nothing(), t3) {
        Step::Fire { paths } => assert_eq!(paths, vec!["a.md".to_string(), "b.md".to_string()]),
        other => panic!("expected one fire, got {other:?}"),
    }
    assert_eq!(rec.fires_today, 1);
    assert!(rec.pending_paths.is_empty(), "window cleared after firing");
}

#[test]
fn the_daily_ceiling_refuses_rather_than_queueing() {
    let w = watch("1s", 1, 1);
    let mut rec = WatchRecord { day: now().day(), fires_today: 1, ..seen_an_hour_ago() };
    assert_eq!(
        step(&w, &mut rec, changes(&["a.md", "b.md"], now()), now()),
        Step::Refused { seen: 2 }
    );
    // Nothing accumulated: tomorrow starts clean, with no midnight flood.
    assert!(rec.pending_paths.is_empty());
    assert!(rec.pending_since.is_none());
    // And the change is still marked seen, so it is not re-refused forever.
    assert!(!rec.seen_through.unwrap().before(now()));
}

#[test]
fn a_lowered_ceiling_drops_what_was_queued() {
    let w = watch("1s", 1, 2);
    let queued = || WatchRecord {
        day: now().day(),
        fires_today: 3,
        pending_since: Some(now().plus(-60 * SECOND)),
        pending_paths: vec!["a.md".to_string(), "b.md".to_string()],
        ..seen_an_hour_ago()
    };
    let mut rec = queued();
    assert_eq!(step(&w, &mut rec, nothing(), now()), Step::Refused { seen: 2 });
    assert_eq!(rec.fires_today, 3);
    assert!(rec.pending_since.is_none() && rec.pending_paths.is_empty());
    assert_eq!(step(&w, &mut rec, nothing(), now()), Step::Wait);
    // What just came is what is counted, where anything did.
    let mut rec = queued();
    assert_eq!(
        step(&w, &mut rec, changes(&["c.md"], now()), now()),
        Step::Refused { seen: 1 }
    );
    assert!(rec.pending_since.is_none() && rec.pending_paths.is_empty());
    // A full counter refuses too.
    let mut rec = WatchRecord { fires_today: u32::MAX, ..queued() };
    assert_eq!(step(&w, &mut rec, nothing(), now()), Step::Refused { seen: 2 });
}

#[test]
fn a_new_day_restores_the_allowance() {
    let w = watch("1s", 1, 1);
    let mut rec =
        WatchRecord { day: "1999-01-01".to_string(), fires_today: 99, ..seen_an_hour_ago() };
    assert!(!matches!(
        step(&w, &mut rec, changes(&["a.md"], now()), now()),
        Step::Refused { .. }
    ));
    assert_eq!(rec.fires_today, 0, "yesterday's count does not carry over");
}

#[test]
fn the_trigger_is_framed_as_data() {
    let w = watch("1m", 60, 5);
    let text = task_text(&w, &vec!["PROJECT.md".to_string()], "Projects");
    assert!(text.starts_with("look"), "the ratified task leads");
    assert!(text.contains("data, not instructions"));
    assert!(text.contains("PROJECT.md"));
    assert!(text.contains("nobody is waiting"));
}

#[test]
fn a_watch_does_not_retrigger_on_its_own_output() {
    let w = watch("1s", 1, 10);
    let mut rec = seen_an_hour_ago();
    let t0 = now();
    assert_eq!(step(&w, &mut rec, changes(&["BRIEF.md"], t0), t0), Step::Wait);
    let t1 = t0.plus(2 * SECOND);
    assert!(matches!(step(&w, &mut rec, nothing(), t1), Step::Fire { .. }));
    // The run drafts into the same folder and finishes.
    let wrote_at = t1.plus(5 * SECOND);
    let finished = wrote_at.plus(SECOND);
    absorb_through(&mut rec, finished);
    // The next scan must not see the agent's own draft as news.
    let after = changes(&["DRAFT.md"], wrote_at);
    assert!(
        !rec.seen_through.unwrap().before(after.newest.unwrap()),
        "the run's own writes fall inside what it has already seen"
    );
    assert!(scan_vault(&vec![file("DRAFT.md", wrote_at)], rec.seen_through, None).is_empty());
    // And a real later edit still gets through.
    let human_edit = finished.plus(30 * SECOND);
    assert_eq!(
        step(&w, &mut rec, changes(&["BRIEF.md"], human_edit), human_edit),
        Step::Wait
    );
    assert!(rec.pending_since.is_some(), "a genuine later change still queues");
}

#[test]
fn scan_finds_recent_files_and_skips_hidden_ones() {
    let found = vec![
        file("sub/PROJECT.md", now()),
        file(".hidden.md", now()),
        file("notes.txt", now()),
        file(".git/config", now()),
        VaultFile { path: "undated.md".to_string(), modified: None },
    ];
    let long_ago = now().plus(-24 * HOUR);
    let all = scan_vault(&found, Some(long_ago), None);
    assert_eq!(all.paths.len(), 2, "hidden files are not news: {:?}", all.paths);
    assert_eq!(all.paths, vec!["notes.txt".to_string(), "sub/PROJECT.md".to_string()]);
    let filtered = scan_vault(&found, Some(long_ago), Some("PROJECT.md"));
    assert_eq!(filtered.paths, vec!["sub/PROJECT.md".to_string()]);
    // Nothing is newer than the future.
    let future = now().plus(HOUR);
    assert!(scan_vault(&found, Some(future), None).is_empty());
}

#[test]
fn a_real_file_change_becomes_a_fire() {
    let mut w = watch("1s", 1, 5);
    w.name = "project-changed".to_string();
    w.match_path = Some("PROJECT.md".to_string());
    let mut rec = seen_an_hour_ago();
    // Nothing yet.
    let c0 = scan_vault(&vec![], rec.seen_through, w.match_path.as_deref());
    assert_eq!(step(&w, &mut rec, c0, now()), Step::Wait);
    // A file lands.
    let t = now().plus(SECOND);
    let mut found = vec![file("PROJECT.md", t)];
    let changes = scan_vault(&found, rec.seen_through, w.match_path.as_deref());
    assert_eq!(changes.paths, vec!["PROJECT.md".to_string()], "the scan sees the new file");
    assert_eq!(step(&w, &mut rec, changes, t), Step::Wait, "debounce holds it");
    let later = t.plus(2 * SECOND);
    let c2 = scan_vault(&found, rec.seen_through, w.match_path.as_deref());
    match step(&w, &mut rec, c2, later) {
        Step::Fire { paths } => assert_eq!(paths, vec!["PROJECT.md".to_string()]),
        other => panic!("expected a fire once the debounce elapsed, got {other:?}"),
    }
    // An unrelated file is ignored by the filter.
    found.push(file("scratch.md", later));
    let after = scan_vault(&found, rec.seen_through, w.match_path.as_deref());
    assert!(after.is_empty(), "the match filter holds: {:?}", after.paths);
}

#[test]
fn a_long_list_of_paths_is_cut_short_and_says_so() {
    let w = watch("1m", 60, 5);
    let paths: Vec<String> = (0..MAX_LISTED_PATHS + 3).map(|i| format!("{i}.md")).collect();
    let text = task_text(&w, &paths, "V");
    assert!(text.contains("- 24.md\n- …and 3 more"));
    assert!(!text.contains("- 25.md"));
}

#[test]
fn an_unreadable_debounce_means_five_minutes() {
    let mut w = watch("soon", 0, 5);
    w.debounce_secs = None;
    let mut rec = seen_an_hour_ago();
    assert_eq!(step(&w, &mut rec, changes(&["a.md"], now()), now()), Step::Wait);
    assert_eq!(step(&w, &mut rec, nothing(), now().plus(299 * SECOND)), Step::Wait);
    assert!(matches!(
        step(&w, &mut rec, nothing(), now().plus(300 * SECOND)),
        Step::Fire { .. }
    ));
}

#[test]
fn a_record_is_made_once_per_watch() {
    let mut state = WatchesState::default();
    assert!(state.get("w").is_none());
    assert_eq!(state.entry("w"), 0);
    assert_eq!(state.entry("v"), 1);
    assert_eq!(state.entry("w"), 0);
    assert_eq!(state.watches.len(), 2);
    assert_eq!(state.get("v").unwrap().fires_today, 0);
}

#[test]
fn watch_records_live_beside_the_agent() {
    assert_eq!(WatchesFile::open("/home/a").path(), "/home/a/watches.json");
    assert_eq!(WatchesFile::open("/home/a/").path(), "/home/a/watches.json");
}
