use apiary::buzz::{
    auth_frame, channel_ids, channel_of, channels, close_frame, fell_silent, genuine_note,
    oldest_first, publish_frame, read_channel, recent_messages, refresh_due, subscribe_channels,
    subscription_since, tag_value, AuthStep, AuthWait, BuzzAdapter, BuzzSession, Draft, Handed,
    ListenStep, Note, Past, PublishStep, RecentEventIds, RelayFrame, ReqStep, KIND_AUTH,
    KIND_GROUP_METADATA, KIND_JOIN_REQUEST, KIND_STREAM_MESSAGE, KIND_TYPING_INDICATOR,
    RECENT_EVENT_LIMIT,
};
use nostr::prelude::{EventBuilder, FinalizeEvent, Keys, Kind, Tag, Timestamp};

const ME: &str = "0101010101010101010101010101010101010101010101010101010101010101";
const YOU: &str = "0202020202020202020202020202020202020202020202020202020202020202";

fn keys(secret: &str) -> Keys {
    Keys::parse(secret).unwrap()
}

fn hex(secret: &str) -> String {
    keys(secret).public_key().to_hex()
}

/// A signed message, as JSON.
fn signed(secret: &str, content: &str, tags: &[(&str, &str)], at: u64) -> String {
    let mut builder = EventBuilder::new(Kind::Custom(KIND_STREAM_MESSAGE), content)
        .custom_created_at(Timestamp::from_secs(at));
    for (name, value) in tags {
        builder = builder.tag(Tag::custom(*name, vec![value.to_string()]));
    }
    builder.finalize(&keys(secret)).unwrap().as_json()
}

fn frame(text: &str) -> RelayFrame {
    RelayFrame::read(text).unwrap()
}

fn live(event: &str) -> RelayFrame {
    frame(&format!("[\"EVENT\",\"apiary-listen-0\",{event}]"))
}

fn session() -> BuzzSession {
    BuzzSession::connect("wss://buzz".to_string(), hex(ME))
}

fn adapter() -> BuzzAdapter {
    BuzzAdapter {
        relay: "wss://buzz".to_string(),
        trigger: "@Hal".to_string(),
        channels: vec!["c1".to_string()],
        recent: RecentEventIds::default(),
    }
}

fn tags_of(draft: &Draft) -> Vec<Vec<&str>> {
    draft.tags.iter().map(|t| t.iter().map(String::as_str).collect()).collect()
}

fn note(id: &str, tags: &[&[&str]]) -> Note {
    Note {
        id: id.to_string(),
        pubkey: "k".to_string(),
        created_at: 9,
        tags: tags.iter().map(|t| t.iter().map(|s| s.to_string()).collect()).collect(),
        content: "hi".to_string(),
    }
}

#[test]
fn subscriptions_overlap_listener_restarts() {
    assert_eq!(subscription_since(1_000), 880);
    assert_eq!(subscription_since(30), 0);
}

#[test]
fn recent_event_ids_survive_adapter_recreation() {
    let mut recent = RecentEventIds::default();
    recent.remember("event-a".to_string());
    recent.remember("event-a".to_string());
    recent.remember("event-b".to_string());

    let loaded = RecentEventIds::load(&recent.save());
    assert!(loaded.contains("event-a"));
    assert!(loaded.contains("event-b"));
    assert_eq!(loaded.ids.len(), 2);
}

#[test]
fn only_the_last_ids_are_remembered() {
    let mut recent = RecentEventIds::default();
    for i in 0..RECENT_EVENT_LIMIT + 5 {
        assert!(recent.remember(format!("e{i}")));
    }
    assert_eq!(recent.ids.len(), RECENT_EVENT_LIMIT);
    assert!(!recent.contains("e4"));
    assert!(recent.contains("e5"));
    let many: Vec<String> = (0..RECENT_EVENT_LIMIT + 2).map(|i| format!("e{i}")).collect();
    let loaded = RecentEventIds::load(&serde_json::to_vec(&many).unwrap());
    assert_eq!(loaded.ids.len(), RECENT_EVENT_LIMIT);
    assert_eq!(loaded.ids[0], "e2");
    assert_eq!(RecentEventIds::load(&b"{}".to_vec()).ids.len(), 0);
}

#[test]
fn a_frame_is_read_by_position() {
    let f = frame("[\"OK\",\"id\",true,\"fine\"]");
    assert_eq!(f.kind.as_deref(), Some("OK"));
    assert_eq!(f.subject.as_deref(), Some("id"));
    assert_eq!(f.flag, Some(true));
    assert_eq!(f.word, None);
    assert_eq!(f.body.as_deref(), Some("true"));
    assert_eq!(f.detail.as_deref(), Some("fine"));
    assert!(frame("{}").kind.is_none());
    assert!(RelayFrame::read("[").unwrap_err().starts_with("EOF while parsing a list"));
}

#[test]
fn only_a_genuine_event_counts() {
    let event = signed(YOU, "hello", &[("h", "c1")], 100);
    let read = genuine_note(&Some(event.clone())).unwrap();
    assert_eq!(read.pubkey, hex(YOU));
    assert_eq!(read.content, "hello");
    assert_eq!(read.created_at, 100);
    assert_eq!(read.tags, vec![vec!["h".to_string(), "c1".to_string()]]);
    assert_eq!(channel_of(&read).as_deref(), Some("c1"));
    assert!(genuine_note(&Some(event.replace("hello", "hullo"))).is_none());
    assert!(genuine_note(&Some("{}".to_string())).is_none());
    assert!(genuine_note(&None).is_none());
}

#[test]
fn a_tag_without_a_value_is_passed_over() {
    let n = note("i", &[&["h"], &["x", "y"], &["h", "c1", "more"], &["h", "c2"]]);
    assert_eq!(tag_value(&n.tags, "h").as_deref(), Some("c1"));
    assert_eq!(tag_value(&n.tags, "d"), None);
}

#[test]
fn a_challenge_is_answered_on_the_same_connection() {
    let mut s = session();
    let draft = s.auth_draft("xyz");
    assert_eq!(draft.kind, KIND_AUTH);
    assert_eq!(tags_of(&draft), vec![vec!["relay", "wss://buzz"], vec!["challenge", "xyz"]]);
    let mut wait = AuthWait { event_id: "a".to_string(), read: 0 };
    let held = live(&signed(YOU, "@hal", &[], 1));
    assert_eq!(s.on_auth_frame(&mut wait, held), AuthStep::Again);
    assert_eq!(s.pending.len(), 1, "a mention mid-auth is not lost");
    let other = frame("[\"OK\",\"b\",true,\"\"]");
    assert_eq!(s.on_auth_frame(&mut wait, other), AuthStep::Again);
    let yes = frame("[\"OK\",\"a\",true,\"\"]");
    assert_eq!(s.on_auth_frame(&mut wait, yes), AuthStep::Accepted);
    assert!(s.authed);
}

#[test]
fn a_refused_or_unanswered_challenge_fails() {
    let mut s = session();
    let mut wait = AuthWait { event_id: "a".to_string(), read: 0 };
    let no = frame("[\"OK\",\"a\",false,\"restricted\"]");
    assert_eq!(
        s.on_auth_frame(&mut wait, no),
        AuthStep::Failed { error: "auth rejected: restricted".to_string() }
    );
    let mut wait = AuthWait { event_id: "a".to_string(), read: 63 };
    let noise = frame("[\"NOTICE\",\"hi\"]");
    assert_eq!(
        s.on_auth_frame(&mut wait, noise),
        AuthStep::Failed { error: "no auth response".to_string() }
    );
    assert!(!s.authed);
}

#[test]
fn publishing_reads_the_relays_verdict() {
    let mut s = session();
    let wait = s.publish("a".to_string());
    let step = |s: &mut BuzzSession, text: &str| s.on_publish_frame(&wait, frame(text));
    assert_eq!(
        step(&mut s, "[\"OK\",\"a\",true,\"\"]"),
        PublishStep::Accepted { detail: "accepted".to_string() }
    );
    assert_eq!(
        step(&mut s, "[\"OK\",\"a\",false,\"duplicate: seen\"]"),
        PublishStep::Accepted { detail: "duplicate: seen".to_string() }
    );
    assert_eq!(
        step(&mut s, "[\"OK\",\"a\",false,\"auth-required: first\"]"),
        PublishStep::Again
    );
    assert_eq!(
        step(&mut s, "[\"OK\",\"a\",false,\"blocked\"]"),
        PublishStep::Failed { error: "rejected: blocked".to_string() }
    );
    assert_eq!(
        step(&mut s, "[\"AUTH\",\"xyz\"]"),
        PublishStep::Auth { challenge: "xyz".to_string() }
    );
    assert_eq!(
        step(&mut s, "[\"AUTH\"]"),
        PublishStep::Failed { error: "bad AUTH frame".to_string() }
    );
    assert_eq!(step(&mut s, "[\"OK\",\"b\",true,\"\"]"), PublishStep::Again);
    s.authed = true;
    assert_eq!(
        step(&mut s, "[\"OK\",\"a\",false,\"auth-required: first\"]"),
        PublishStep::Failed { error: "rejected: auth-required: first".to_string() }
    );
}

#[test]
fn publishing_is_retried_once_after_auth() {
    let s = session();
    let mut wait = s.publish("a".to_string());
    assert_eq!(wait.retry(), Ok(()));
    assert_eq!(wait.retry(), Err("publish failed after auth"));
}

#[test]
fn a_request_gathers_genuine_events_until_it_is_told_that_was_all() {
    let s = session();
    let mut wait = s.req();
    let event = signed(YOU, "hello", &[], 5);
    let good = format!("[\"EVENT\",\"apiary-buzz\",{event}]");
    let forged = good.replace("hello", "hullo");
    assert_eq!(s.on_req_frame(&mut wait, frame(&good)), ReqStep::Again);
    assert_eq!(s.on_req_frame(&mut wait, frame(&forged)), ReqStep::Again);
    assert_eq!(wait.out.len(), 1);
    assert_eq!(
        s.on_req_frame(&mut wait, frame("[\"CLOSED\",\"apiary-buzz\",\"auth-required\"]")),
        ReqStep::Again
    );
    assert_eq!(
        s.on_req_frame(&mut wait, frame("[\"CLOSED\",\"apiary-buzz\",\"no\"]")),
        ReqStep::Failed { error: "closed: no".to_string() }
    );
    assert_eq!(
        s.on_req_frame(&mut wait, frame("[\"AUTH\",\"c\"]")),
        ReqStep::Auth { challenge: "c".to_string() }
    );
    assert_eq!(
        s.on_req_frame(&mut wait, frame("[\"EOSE\",\"apiary-buzz\"]")),
        ReqStep::Done
    );
    assert_eq!(wait.retry(), Ok(()));
    assert_eq!(wait.out.len(), 0);
    assert_eq!(wait.retry(), Err("req failed"));
    let mut wait = s.req();
    wait.read = 499;
    assert_eq!(
        s.on_req_frame(&mut wait, frame("[\"NOTICE\",\"x\"]")),
        ReqStep::Failed { error: "req failed".to_string() }
    );
}

#[test]
fn a_channel_is_read_back_and_the_rest_is_held() {
    let mut s = session();
    let mut out: Vec<Past> = vec![];
    let event = signed(YOU, "hello", &[], 5);
    let past = format!("[\"EVENT\",\"apiary-history\",{event}]");
    assert!(!s.on_history_frame(&mut out, frame(&past)));
    assert!(!s.on_history_frame(&mut out, live(&event)));
    assert!(s.on_history_frame(&mut out, frame("[\"EOSE\",\"apiary-history\"]")));
    assert_eq!(out.len(), 1);
    assert_eq!(out[0].author, hex(YOU));
    assert_eq!(s.pending.len(), 1);
    assert!(s.take_pending().is_some());
    assert!(s.take_pending().is_none());
}

#[test]
fn history_is_oldest_first_and_stable() {
    let past = |text: &str, at: u64| Past { author: "k".to_string(), text: text.to_string(), at };
    let sorted = oldest_first(vec![past("a", 3), past("b", 1), past("c", 3), past("d", 2)]);
    let order: Vec<&str> = sorted.iter().map(|p| p.text.as_str()).collect();
    assert_eq!(order, vec!["b", "d", "a", "c"]);
}

#[test]
fn history_names_the_agent_and_shortens_the_others() {
    let s = session();
    let past = vec![
        Past { author: hex(ME), text: "on it".to_string(), at: 1 },
        Past { author: "0123456789ab".to_string(), text: "ok".to_string(), at: 2 },
    ];
    let said = s.recent_context(&past);
    assert_eq!(said[0].who, "you");
    assert_eq!(said[1].who, "01234567…");
    assert_eq!(said[1].what, "ok");
}

#[test]
fn a_mention_is_a_p_tag_or_the_trigger_in_any_case() {
    let s = session();
    let heard = |text: &str, tags: &[(&str, &str)], who: &str| {
        match s.next_mention("@Hal", live(&signed(who, text, tags, 7))) {
            ListenStep::Heard { mention, line } => (mention.is_some(), line),
            other => panic!("expected to hear, got {other:?}"),
        }
    };
    let me = hex(ME);
    assert!(heard("hey @HAL you there", &[], YOU).0);
    assert!(heard("hello", &[("p", &me)], YOU).0);
    assert!(!heard("hello", &[("e", &me)], YOU).0);
    assert!(!heard("hello", &[], YOU).0);
    assert!(!heard("I am @hal", &[("p", &me)], ME).0, "its own words mention nobody");
    let (_, line) = heard(&"x".repeat(70), &[], YOU);
    assert_eq!(line, format!("heard [{}…]: {}", &hex(YOU)[..8], "x".repeat(60)));
    let forged = signed(YOU, "@hal", &[], 7).replace("@hal", "@hal!");
    assert!(matches!(s.next_mention("@Hal", live(&forged)), ListenStep::Again));
    assert!(matches!(
        s.next_mention("", live(&signed(YOU, "@hal", &[], 7))),
        ListenStep::Heard { mention: None, .. }
    ));
}

#[test]
fn a_dropped_subscription_is_renewed() {
    let s = session();
    match s.next_mention("@hal", frame("[\"CLOSED\",\"apiary-listen-0\",\"bye\"]")) {
        ListenStep::Resubscribe { line } => {
            assert_eq!(line, "subscription closed by relay: apiary-listen-0 — bye · resubscribing")
        }
        other => panic!("expected to resubscribe, got {other:?}"),
    }
    match s.next_mention("@hal", frame("[\"AUTH\",\"c\"]")) {
        ListenStep::Auth { challenge } => assert_eq!(challenge, "c"),
        other => panic!("expected to authenticate, got {other:?}"),
    }
    assert!(matches!(
        s.next_mention("@hal", frame("[\"EOSE\",\"apiary-listen-0\"]")),
        ListenStep::Again
    ));
}

#[test]
fn one_subscription_per_channel() {
    let asks = subscribe_channels(&vec!["c1".to_string(), "c2".to_string()], 1_000);
    assert_eq!(asks.len(), 2);
    assert_eq!(asks[1].sub, "apiary-listen-1");
    assert_eq!(asks[1].channel.as_deref(), Some("c2"));
    assert_eq!(asks[1].since, Some(880));
    assert_eq!(channels().kind, KIND_GROUP_METADATA);
    assert_eq!(read_channel("c", 5).limit, Some(5));
    assert_eq!(recent_messages("c", 5).sub, "apiary-history");
}

#[test]
fn frames_to_the_relay_are_json_arrays() {
    let value = |text: String| -> serde_json::Value { serde_json::from_str(&text).unwrap() };
    let ask = value(subscribe_channels(&vec!["c\"1".to_string()], 1_000)[0].frame());
    assert_eq!(ask[0], "REQ");
    assert_eq!(ask[1], "apiary-listen-0");
    assert_eq!(ask[2]["kinds"][0], 9);
    assert_eq!(ask[2]["#h"][0], "c\"1");
    assert_eq!(ask[2]["since"], 880);
    assert!(ask[2].get("limit").is_none());
    let ask = value(channels().frame());
    assert_eq!(ask[2]["kinds"][0], 39000);
    assert_eq!(ask[2]["limit"], 100);
    assert!(ask[2].get("#h").is_none());
    let event = signed(ME, "hi", &[], 1);
    assert_eq!(value(auth_frame(&event))[0], "AUTH");
    assert_eq!(value(publish_frame(&event))[0], "EVENT");
    assert_eq!(value(publish_frame(&event))[1]["content"], "hi");
    assert_eq!(close_frame("apiary-history"), "[\"CLOSE\",\"apiary-history\"]");
}

#[test]
fn long_silence_is_not_trusted() {
    assert!(!fell_silent(900_000_000_000));
    assert!(fell_silent(900_000_000_001));
    assert!(!refresh_due(59_999_999_999));
    assert!(refresh_due(60_000_000_000));
}

#[test]
fn new_channels_are_taken_in() {
    let mut a = adapter();
    assert_eq!(a.refresh_channels(vec![]), None);
    assert_eq!(a.channels, vec!["c1"]);
    let line = a.refresh_channels(vec!["c2".to_string(), "c1".to_string()]).unwrap();
    assert_eq!(line, "buzz: 1 new channel(s) since connect — subscribing");
    assert_eq!(a.channels, vec!["c2", "c1"]);
    let metadata = vec![note("1", &[&["d", "c9"]]), note("2", &[]), note("3", &[&["d", "c8"]])];
    assert_eq!(channel_ids(&metadata), vec!["c9", "c8"]);
}

#[test]
fn an_event_is_handed_over_once() {
    let mut a = adapter();
    match a.hand_over(note("i", &[&["h", "c1"]])) {
        Handed::Over { mention } => {
            assert_eq!(mention.channel, "c1");
            assert_eq!(mention.reply_ref, "9");
            assert!(mention.attachments.is_empty());
        }
        other => panic!("expected a mention, got {other:?}"),
    }
    assert!(matches!(a.hand_over(note("i", &[&["h", "c1"]])), Handed::Replayed));
    assert!(matches!(a.hand_over(note("j", &[])), Handed::Malformed));
    assert!(matches!(a.hand_over(note("j", &[])), Handed::Replayed));
}

#[test]
fn a_reply_comes_after_what_it_answers_and_mentions_nobody() {
    let mut a = adapter();
    let mention = match a.hand_over(note("i", &[&["h", "c1"]])) {
        Handed::Over { mention } => mention,
        other => panic!("expected a mention, got {other:?}"),
    };
    let slow = a.reply(&session(), &mention, "hello", 4);
    assert_eq!(slow.created_at, Some(10));
    assert_eq!(slow.kind, KIND_STREAM_MESSAGE);
    assert_eq!(tags_of(&slow), vec![vec!["h", "c1"]]);
    assert_eq!(a.reply(&session(), &mention, "hello", 50).created_at, Some(50));
}

#[test]
fn a_post_names_its_channel_and_those_it_mentions() {
    let s = session();
    let who = vec!["nonsense".to_string(), hex(YOU)];
    let draft = s.post("c1", "hello", &who);
    assert_eq!(draft.content, "hello");
    assert_eq!(tags_of(&draft), vec![vec!["h", "c1"], vec!["p", hex(YOU).as_str()]]);
    assert_eq!(draft.created_at, None);
    assert_eq!(s.typing("c1").kind, KIND_TYPING_INDICATOR);
    assert_eq!(s.join_channel("c1").kind, KIND_JOIN_REQUEST);
    assert_eq!(tags_of(&s.join_channel("c1")), vec![vec!["h", "c1"]]);
}

#[test]
fn a_profile_holds_what_was_given() {
    let s = session();
    assert_eq!(s.set_profile("Hal", None, None).content, "{\"name\":\"Hal\"}");
    let whole = s.set_profile("Hal \"9\"", Some("an agent"), Some("https://p"));
    let value: serde_json::Value = serde_json::from_str(&whole.content).unwrap();
    assert_eq!(value["name"], "Hal \"9\"");
    assert_eq!(value["about"], "an agent");
    assert_eq!(value["picture"], "https://p");
    assert_eq!(whole.kind, 0);
}

#[test]
fn the_adapter_says_what_it_watches() {
    let a = adapter();
    assert_eq!(a.kind(), "buzz");
    assert_eq!(
        a.describe(),
        "buzz: watching 1 channels on wss://buzz (trigger \"@Hal\" or p-tag)"
    );
}
