use apiary::errands::{Errand, ErrandsState, State};
use apiary::pickup::{
    cancel, cancelled_speech, claim, conclude, delivered_note, delivery_to, expired_speech,
    failed_note, failed_speech, key_of, mark, next_run, note_key_of, pass_gate, row, settle, spoken,
    sweep, tick, totals, CancelBody, Ending, Gate,
};
use apiary::record::Detail;
use apiary::run::{Lane, RunDone, RunResult};
use apiary::time::Moment;

const MINUTE: i128 = 60_000_000_000;
const HOUR: i128 = 60 * MINUTE;

fn now() -> Moment {
    Moment::new(1_755_000_000, 0).unwrap()
}

fn errand(id: &str, state: State) -> Errand {
    Errand {
        id: id.to_string(),
        summary: "a draft".to_string(),
        task: "write it".to_string(),
        channel_kind: "buzz".to_string(),
        channel: "room".to_string(),
        requested_by: "Ryan".to_string(),
        reply_ref: Some("7".to_string()),
        state,
        filed_at: now(),
        start_after: None,
        expires_at: now().plus(90 * MINUTE),
        tokens: 30_000,
        question: None,
        answer: None,
        questions_asked: 0,
        outcome: None,
    }
}

fn holding(errands: Vec<Errand>) -> ErrandsState {
    ErrandsState { errands }
}

fn done(text: &str) -> RunResult {
    RunResult::Done(RunDone {
        text: text.to_string(),
        outcome: "completed".to_string(),
        model: "m".to_string(),
        slot: "brain".to_string(),
        log_event_id: "ev".to_string(),
        acted: false,
    })
}

#[test]
fn results_go_back_where_they_were_asked() {
    let mut e = errand("e1", State::Pending);
    let target = delivery_to(&e).unwrap();
    assert_eq!(target.buzz.as_deref(), Some("room"));
    assert!(target.telegram.is_none() && !target.companion && !target.as_voice);
    e.channel_kind = "telegram".to_string();
    assert_eq!(delivery_to(&e).unwrap().telegram.as_deref(), Some("room"));
    e.channel_kind = "slack".to_string();
    assert!(delivery_to(&e).is_none());
}

#[test]
fn a_sweep_gives_up_what_is_stale_and_keeps_the_rest() {
    let mut old = errand("old", State::Delivered);
    old.filed_at = now().plus(-30 * HOUR);
    let mut state = holding(vec![
        errand("p", State::Pending),
        old,
        errand("d", State::Delivered),
        errand("r", State::Running),
    ]);
    state.errands[0].start_after = Some(now().plus(10 * HOUR));
    let at = now().plus(2 * HOUR);
    let dropped = sweep(&mut state, at);
    assert_eq!(dropped.len(), 1);
    assert_eq!(dropped[0].id, "r");
    assert_eq!(dropped[0].state, State::Expired);
    assert_eq!(dropped[0].outcome.as_deref(), Some("not run in time"));
    let ids: Vec<&str> = state.errands.iter().map(|e| e.id.as_str()).collect();
    assert_eq!(ids, vec!["p", "d", "r"]);
    assert!(state.errands.iter().all(|e| !e.is_expired(at)));
}

#[test]
fn a_claimed_errand_whose_host_died_expires_honestly() {
    let mut state = holding(vec![errand("e1", State::Pending)]);
    claim(&mut state, "e1");
    assert_eq!(state.errands[0].state, State::Running);
    assert!(!state.errands[0].is_runnable(now()));
    assert_eq!(sweep(&mut state, now().plus(90 * MINUTE)).len(), 1);
}

#[test]
fn one_run_at_a_time_per_agent() {
    let state = holding(vec![errand("e1", State::Asked), errand("e2", State::Pending)]);
    assert_eq!(next_run(&state, "npub1a", &vec![], now()), Some(1));
    let busy = vec![key_of("npub1a", "e9")];
    assert_eq!(next_run(&state, "npub1a", &busy, now()), None);
    let other = vec![key_of("npub1ab", "e9")];
    assert_eq!(next_run(&state, "npub1a", &other, now()), Some(1));
}

#[test]
fn a_tick_sweeps_and_then_picks() {
    let mut state = holding(vec![errand("e1", State::Running), errand("e2", State::Pending)]);
    state.errands[1].start_after = Some(now().plus(HOUR));
    let t = tick(&mut state, "npub1a", &vec![], now().plus(2 * HOUR));
    assert_eq!(t.dropped.len(), 1);
    assert_eq!(t.next.unwrap().id, "e2");
}

#[test]
fn a_gate_waits_and_an_open_one_claims() {
    let mut state = holding(vec![errand("e1", State::Pending)]);
    let e = state.errands[0].clone();
    match pass_gate(&mut state, &e, &Some("locked".to_string()), "/d", &None) {
        Gate::Waiting { note } => assert_eq!(note, "waiting: locked"),
        other => panic!("expected to wait, got {other:?}"),
    }
    assert_eq!(state.errands[0].state, State::Pending);
    match pass_gate(&mut state, &e, &None, "/d", &Some("coder".to_string())) {
        Gate::Go { request } => {
            assert_eq!(request.task_class.as_deref(), Some("errand"));
            assert_eq!(request.tokens_per_run, Some(30_000));
            assert_eq!(request.lane, Some(Lane::Responsive));
            assert_eq!(request.harness.as_deref(), Some("coder"));
            let door = request.door.unwrap();
            assert_eq!(door.errand_id.as_deref(), Some("e1"));
            assert_eq!(door.reply_ref.as_deref(), Some("7"));
            assert_eq!(door.agent_dir, "/d");
        }
        other => panic!("expected to run, got {other:?}"),
    }
    assert_eq!(state.errands[0].state, State::Running);
}

#[test]
fn a_run_that_asked_is_parked_whatever_it_said() {
    let mut state = holding(vec![errand("e1", State::Asked)]);
    state.errands[0].question = Some("which?".to_string());
    match conclude(&state, "e1", &done("all done")) {
        Ending::Asked { speech, note, errand } => {
            assert_eq!(speech.text, "About a draft — which?");
            assert_eq!(speech.action, "errand.asked");
            assert_eq!(note, "asked a question · a draft");
            assert_eq!(errand.id, "e1");
        }
        other => panic!("expected a question, got {other:?}"),
    }
}

#[test]
fn a_run_that_said_something_is_delivered_within_bounds() {
    let state = holding(vec![errand("e1", State::Running)]);
    match conclude(&state, "e1", &done(&format!("  {}  ", "é".repeat(9000)))) {
        Ending::Delivered { speech, outcome } => {
            assert_eq!(speech.text.chars().count(), 8000);
            assert_eq!(speech.action, "errand.run");
            assert_eq!(outcome, "completed");
        }
        other => panic!("expected a delivery, got {other:?}"),
    }
}

#[test]
fn a_run_that_said_nothing_failed() {
    let state = holding(vec![]);
    for (result, why) in [
        (done(" \n"), "the run finished without producing anything"),
        (RunResult::Failed { error: "no budget".to_string() }, "no budget"),
    ] {
        match conclude(&state, "e1", &result) {
            Ending::Failed { reason } => assert_eq!(reason, why),
            other => panic!("expected a failure, got {other:?}"),
        }
    }
}

#[test]
fn every_ending_is_settled_out_loud() {
    let state = holding(vec![errand("e1", State::Running)]);
    let e = state.errands[0].clone();
    let at = now().plus(61_900_000_000);
    let s = settle(&e, conclude(&state, "e1", &done("here it is")), now(), at);
    assert_eq!(s.speech.as_ref().unwrap().text, "here it is");
    assert_eq!(s.mark, Some((State::Delivered, "completed".to_string())));
    assert_eq!(s.note, "delivered · a draft · 61s");
    let s = settle(&e, Ending::Failed { reason: "keystore".to_string() }, now(), at);
    assert_eq!(s.speech.as_ref().unwrap().action, "errand.failed");
    assert_eq!(s.mark, Some((State::Failed, "keystore".to_string())));
    assert_eq!(s.note, "failed · a draft · keystore");
    let parked = holding(vec![errand("e1", State::Asked)]);
    let s = settle(&e, conclude(&parked, "e1", &done("x")), now(), at);
    assert_eq!(s.mark, None);
    assert_eq!(s.speech.as_ref().unwrap().text, "About a draft — ");
}

#[test]
fn what_is_said_names_the_work() {
    let e = errand("e1", State::Pending);
    assert_eq!(
        expired_speech(&e).text,
        "I did not get to this in time and have dropped it: a draft. Ask me again if you still want it."
    );
    assert_eq!(
        failed_speech(&e, "no budget").text,
        "I could not finish this after all: a draft. What went wrong: no budget."
    );
    assert_eq!(failed_note(&e, "no budget"), "failed · a draft · no budget");
    assert_eq!(
        cancelled_speech(&e).text,
        "This has been called off and I will not be delivering it: a draft."
    );
    assert_eq!(
        delivered_note(&e, now(), now().plus(61_900_000_000)),
        "delivered · a draft · 61s"
    );
}

#[test]
fn a_delivery_is_logged_by_what_became_of_it() {
    let e = errand("e1", State::Pending);
    let said = expired_speech(&e);
    let ok = spoken(&e, &said, &Some("{\"id\": \"5\"}".to_string()));
    assert_eq!(ok.outcome, "delivered");
    assert_eq!(ok.detail.items[5].1, Detail::Json("{\"id\": \"5\"}".to_string()));
    assert_eq!(ok.detail.items[6].1, Detail::Count(said.text.len() as u64));
    let bad = spoken(&e, &said, &Some("{\"error\": null}".to_string()));
    assert_eq!(bad.outcome, "undelivered");
    let nowhere = spoken(&e, &said, &None);
    assert_eq!(nowhere.outcome, "undelivered");
    assert_eq!(
        nowhere.detail.items[5].1,
        Detail::Failure(
            "this host cannot deliver to buzz — the work has nowhere to land".to_string()
        )
    );
}

#[test]
fn response_chars_counts_bytes() {
    let e = errand("e1", State::Pending);
    let said = apiary::pickup::Speech { text: "é…".to_string(), action: "errand.run".to_string() };
    let entry = spoken(&e, &said, &None);
    assert_eq!(entry.detail.items[6].1, Detail::Count(5));
}

#[test]
fn marking_keeps_an_outcome_unless_there_is_a_new_one() {
    let mut state = holding(vec![errand("e1", State::Running)]);
    mark(&mut state, "e1", State::Delivered, Some("ok".to_string()));
    assert_eq!(state.errands[0].state, State::Delivered);
    assert_eq!(state.errands[0].outcome.as_deref(), Some("ok"));
    let mut noted = errand("e3", State::Running);
    noted.outcome = Some("halfway".to_string());
    state.errands.push(noted);
    mark(&mut state, "e3", State::Failed, None);
    assert_eq!(state.errands[1].state, State::Failed);
    assert_eq!(state.errands[1].outcome.as_deref(), Some("halfway"));
    mark(&mut state, "e2", State::Failed, Some("x".to_string()));
    assert_eq!(state.errands.len(), 2);
}

#[test]
fn work_called_off_during_its_run_stays_called_off() {
    let mut state = holding(vec![errand("e1", State::Running)]);
    let e = errand("e1", State::Running);
    cancel(&mut state, &CancelBody { id: "e1".to_string() }).unwrap();
    let ending = conclude(&state, "e1", &done("the finished draft"));
    assert!(matches!(&ending, Ending::Settled { errand } if errand.state == State::Cancelled));
    let s = settle(&e, ending, now(), now().plus(61_000_000_000));
    assert!(s.speech.is_none());
    assert_eq!(s.mark, None);
    assert_eq!(s.note, "already cancelled · a draft");
    mark(&mut state, "e1", State::Delivered, Some("ok".to_string()));
    claim(&mut state, "e1");
    assert_eq!(state.errands[0].state, State::Cancelled);
    assert_eq!(state.errands[0].outcome.as_deref(), Some("cancelled by the governor"));
}

#[test]
fn work_gone_stale_during_its_run_stays_dropped() {
    let mut state = holding(vec![errand("e1", State::Running)]);
    assert_eq!(sweep(&mut state, now().plus(91 * MINUTE)).len(), 1);
    let failed = RunResult::Failed { error: "no key".to_string() };
    assert!(matches!(conclude(&state, "e1", &failed), Ending::Settled { .. }));
}

#[test]
fn only_outstanding_work_can_be_called_off() {
    let mut state = holding(vec![errand("e1", State::Delivered), errand("e1", State::Asked)]);
    let body = CancelBody { id: "e1".to_string() };
    let off = cancel(&mut state, &body).unwrap();
    assert_eq!(off.state, State::Cancelled);
    assert_eq!(off.outcome.as_deref(), Some("cancelled by the governor"));
    assert_eq!(state.errands[0].state, State::Delivered);
    assert_eq!(state.errands[1].state, State::Cancelled);
    assert_eq!(cancel(&mut state, &body).unwrap_err(), "no outstanding work with that id");
}

#[test]
fn the_cockpit_sees_each_errand_whole() {
    let e = errand("e1", State::Asked);
    let busy = vec![key_of("npub1a", "e1")];
    let fields = row(&e, "npub1a", &busy, &Some("asked".to_string())).items;
    let names: Vec<&str> = fields.iter().map(|f| f.0.as_str()).collect();
    assert_eq!(
        names,
        vec![
            "id", "summary", "task", "state", "channel_kind", "channel", "requested_by", "filed_at",
            "start_after", "deadline", "question", "answer", "outcome", "running", "note"
        ]
    );
    assert_eq!(fields[3].1, Detail::Text("asked".to_string()));
    assert_eq!(fields[8].1, Detail::Null);
    assert_eq!(fields[9].1, Detail::Time(now().plus(90 * MINUTE)));
    assert_eq!(fields[13].1, Detail::Flag(true));
    assert_eq!(note_key_of("npub1a", "e1"), "npub1a:routine:e1");
    assert_eq!(totals(&holding(vec![e])), (1, 3));
}
