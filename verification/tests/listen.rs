use apiary::buzz::{
    BuzzAdapter, BuzzSession, Note, RecentEventIds, RelayFrame, KIND_STREAM_MESSAGE,
};
use apiary::listen::{
    fits_listening, redial, Dial, Heard, HistoryAct, HistoryEvent, ListenAct, ListenTurn, Listening,
    Next, Redial,
};
use nostr::prelude::{EventBuilder, FinalizeEvent, Keys, Kind};

const YOU: &str = "0202020202020202020202020202020202020202020202020202020202020202";
const SECOND: u128 = 1_000_000_000;

fn frame(text: &str) -> RelayFrame {
    RelayFrame::read(text).unwrap()
}

fn said(content: &str) -> RelayFrame {
    let event = EventBuilder::new(Kind::Custom(KIND_STREAM_MESSAGE), content)
        .finalize(&Keys::parse(YOU).unwrap())
        .unwrap()
        .as_json();
    frame(&format!("[\"EVENT\",\"apiary-listen-0\",{event}]"))
}

fn fresh() -> BuzzSession {
    BuzzSession::connect("wss://buzz".to_string(), "me".to_string())
}

fn listening() -> BuzzSession {
    BuzzSession { listening: true, ..fresh() }
}

fn go(s: &mut BuzzSession, at: &mut Listening, event: Heard) -> ListenTurn {
    assert!(fits_listening(*at, &event));
    let (after, turn) = s.on_listen(*at, "@Hal", event);
    *at = after;
    turn
}

fn is_tick(turn: &ListenTurn) -> bool {
    matches!(turn.act, ListenAct::Return { heard: Ok(None) })
}

fn note(id: &str, tags: &[&[&str]]) -> Note {
    Note {
        id: id.to_string(),
        pubkey: "k".to_string(),
        created_at: 9,
        tags: tags.iter().map(|t| t.iter().map(|s| s.to_string()).collect()).collect(),
        content: "hi".to_string(),
    }
}

#[test]
fn the_first_call_subscribes_before_it_reads() {
    let mut s = fresh();
    let (mut at, turn) = s.listen();
    assert!(matches!(turn.act, ListenAct::Subscribe));
    assert!(!fits_listening(at, &Heard::TimedOut));
    assert!(matches!(go(&mut s, &mut at, Heard::Done).act, ListenAct::Check));
    assert!(s.listening);
    let turn = go(&mut s, &mut at, Heard::Checked { stopping: false });
    assert!(matches!(turn.act, ListenAct::Read));
    let (_, turn) = s.listen();
    assert!(matches!(turn.act, ListenAct::Check), "the next call does not");
    let mut s = fresh();
    let (mut at, _) = s.listen();
    match go(&mut s, &mut at, Heard::Failed { error: "send: gone".to_string() }).act {
        ListenAct::Return { heard: Err(error) } => assert_eq!(error, "send: gone"),
        other => panic!("expected an error, got {other:?}"),
    }
    assert!(!s.listening);
}

#[test]
fn a_stop_leaves_what_was_held() {
    let mut s = listening();
    s.pending.push(said("hello @hal"));
    let (mut at, _) = s.listen();
    assert!(is_tick(&go(&mut s, &mut at, Heard::Checked { stopping: true })));
    assert_eq!(at, Listening::Over);
    assert_eq!(s.pending.len(), 1);
}

#[test]
fn what_was_held_is_taken_before_anything_is_read() {
    let mut s = listening();
    s.pending.push(said("hello @hal"));
    let (mut at, _) = s.listen();
    let turn = go(&mut s, &mut at, Heard::Checked { stopping: false });
    assert!(turn.traffic);
    assert_eq!(turn.lines.len(), 1);
    match turn.act {
        ListenAct::Return { heard: Ok(Some(note)) } => assert_eq!(note.content, "hello @hal"),
        other => panic!("expected a mention, got {other:?}"),
    }
    assert!(s.pending.is_empty());
}

#[test]
fn a_message_to_others_is_heard_and_passed_over() {
    let mut s = listening();
    let mut at = Listening::Reading;
    let turn = go(&mut s, &mut at, Heard::Frame { frame: said("hello all") });
    assert!(turn.lines[0].starts_with("heard ["));
    assert!(turn.traffic && matches!(turn.act, ListenAct::Check));
    assert_eq!(at, Listening::Checking);
}

#[test]
fn a_quiet_interval_pings_and_ticks() {
    let mut s = listening();
    let mut at = Listening::Reading;
    assert!(matches!(go(&mut s, &mut at, Heard::TimedOut).act, ListenAct::Ping));
    assert!(is_tick(&go(&mut s, &mut at, Heard::Pinged { silent_nanos: 900 * SECOND })));
    let mut at = Listening::Pinging;
    let turn = go(&mut s, &mut at, Heard::Pinged { silent_nanos: 900 * SECOND + 1 });
    assert_eq!(turn.lines, vec!["no relay traffic for 15m — resubscribing"]);
    assert!(matches!(turn.act, ListenAct::Subscribe));
    let turn = go(&mut s, &mut at, Heard::Done);
    assert!(is_tick(&turn) && turn.traffic);
    let mut at = Listening::Pinging;
    match go(&mut s, &mut at, Heard::Failed { error: "broken".to_string() }).act {
        ListenAct::Return { heard: Err(error) } => assert_eq!(error, "keepalive ping: broken"),
        other => panic!("expected an error, got {other:?}"),
    }
}

#[test]
fn a_challenge_and_a_dropped_subscription_lead_to_a_new_one() {
    let mut s = listening();
    let mut at = Listening::Reading;
    match go(&mut s, &mut at, Heard::Frame { frame: frame("[\"AUTH\",\"c\"]") }).act {
        ListenAct::Auth { challenge } => assert_eq!(challenge, "c"),
        other => panic!("expected a challenge, got {other:?}"),
    }
    assert!(matches!(go(&mut s, &mut at, Heard::Done).act, ListenAct::Subscribe));
    assert!(matches!(go(&mut s, &mut at, Heard::Done).act, ListenAct::Check));
    let mut at = Listening::Reading;
    let closed = frame("[\"CLOSED\",\"apiary-listen-0\",\"restricted\"]");
    let turn = go(&mut s, &mut at, Heard::Frame { frame: closed });
    assert_eq!(
        turn.lines,
        vec!["subscription closed by relay: apiary-listen-0 — restricted · resubscribing"]
    );
    assert!(matches!(turn.act, ListenAct::Subscribe));
    let turn = go(&mut s, &mut at, Heard::Done);
    assert!(turn.traffic && matches!(turn.act, ListenAct::Check));
}

#[test]
fn reading_back_ends_in_time() {
    let mut s = listening();
    let mut out = vec![];
    let mut next = |event| s.on_history(&mut out, event);
    assert!(matches!(next(HistoryEvent::Elapsed { nanos: 5 * SECOND }), HistoryAct::Read));
    assert!(matches!(next(HistoryEvent::Elapsed { nanos: 5 * SECOND + 1 }), HistoryAct::Close));
    assert!(matches!(next(HistoryEvent::TimedOut), HistoryAct::Close));
    let all = frame("[\"EOSE\",\"apiary-history\"]");
    assert!(matches!(next(HistoryEvent::Frame { frame: all }), HistoryAct::Close));
    let other = frame("[\"NOTICE\",\"hi\"]");
    assert!(matches!(next(HistoryEvent::Frame { frame: other }), HistoryAct::Check));
    match next(HistoryEvent::Failed { error: "read: gone".to_string() }) {
        HistoryAct::Fail { error } => assert_eq!(error, "read: gone"),
        other => panic!("expected a failure, got {other:?}"),
    }
    assert_eq!(s.pending.len(), 1, "what belongs to others is held");
}

#[test]
fn what_the_session_heard_is_handed_over_once() {
    let mut a = BuzzAdapter {
        relay: "wss://buzz".to_string(),
        trigger: "@Hal".to_string(),
        channels: vec![],
        recent: RecentEventIds::default(),
    };
    let heard = || Ok(Some(note("i", &[&["h", "c1"]])));
    assert!(matches!(a.on_heard(heard()), Next::Mention { mention } if mention.channel == "c1"));
    assert!(matches!(a.on_heard(heard()), Next::Listen));
    assert!(matches!(a.on_heard(Ok(Some(note("j", &[])))), Next::Tick { keep: true }));
    assert!(matches!(a.on_heard(Ok(None)), Next::Tick { keep: false }));
    assert!(matches!(a.on_heard(Err("read: gone".to_string())), Next::Redial));
    assert_eq!(a.recent.ids.len(), 2);
}

#[test]
fn a_lost_connection_is_dialled_again_and_never_an_error() {
    for waited in 0..5 {
        assert_eq!(redial(waited, Dial::Checked { stopping: false }), Redial::Wait);
        assert_eq!(redial(waited, Dial::Checked { stopping: true }), Redial::Tick);
    }
    assert_eq!(redial(5, Dial::Checked { stopping: false }), Redial::Connect);
    assert_eq!(redial(5, Dial::Connected), Redial::Tick);
    assert_eq!(redial(5, Dial::Refused), Redial::Tick);
}
