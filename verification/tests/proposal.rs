use apiary::charter::{Charter, Routine};
use apiary::proposal::{
    amend, founding_path, meta_path, propose, proposed_path, proposed_reply,
    read_proposal, requested_reply, write_founding_request, write_proposal, FoundingRequest, ProposalError,
    ProposalMeta, ProposeAgent, ProposeAmendment, ProposeRoutine,
};
use apiary::time::Moment;
use serde_yaml::{Mapping, Value};

fn now() -> Moment {
    Moment::new(1_755_000_000, 0).unwrap()
}

fn charter(npub: &str, keys: &[&str]) -> Charter {
    Charter {
        npub: npub.to_string(),
        suspend_keys: keys.iter().map(|k| k.to_string()).collect(),
        routines: vec![],
    }
}

fn proposer() -> ProposeRoutine {
    ProposeRoutine { agent_dir: "/a".to_string() }
}

fn routine(args: &str) -> (Routine, ProposalMeta) {
    let draft = proposer().execute(args, now()).unwrap();
    (draft.routine, draft.meta)
}

fn request() -> FoundingRequest {
    FoundingRequest {
        name: "Docs gardener".to_string(),
        purpose: "keep the docs pruned".to_string(),
        role: "tends documentation".to_string(),
        principles: vec!["small commits".to_string()],
        boundaries: vec![],
        skills: vec!["markdown hygiene".to_string()],
        connectors: vec!["markdown-vault".to_string()],
        tokens_per_day: Some(50_000),
        reason: "the humans keep forgetting".to_string(),
        at: "2026-08-22T00:00:00Z".to_string(),
        by: "npub1example".to_string(),
    }
}

/// The request as it is written down.
fn written(r: &FoundingRequest) -> String {
    let text = |s: &str| Value::String(s.to_string());
    let mut map = Mapping::new();
    for (key, value) in [
        ("name", &r.name),
        ("purpose", &r.purpose),
        ("role", &r.role),
        ("reason", &r.reason),
        ("at", &r.at),
        ("by", &r.by),
    ] {
        map.insert(text(key), text(value));
    }
    for (key, list) in [
        ("principles", &r.principles),
        ("boundaries", &r.boundaries),
        ("skills", &r.skills),
        ("connectors", &r.connectors),
    ] {
        if !list.is_empty() {
            map.insert(text(key), Value::Sequence(list.iter().map(|s| text(s)).collect()));
        }
    }
    if let Some(tokens) = r.tokens_per_day {
        map.insert(text("tokens_per_day"), Value::Number(tokens.into()));
    }
    serde_yaml::to_string(&map).unwrap()
}

/// The request in what was written down.
fn read(yaml: &str) -> FoundingRequest {
    let value: Value = serde_yaml::from_str(yaml).unwrap();
    let text = |key: &str| value[key].as_str().unwrap().to_string();
    let list = |key: &str| match value[key].as_sequence() {
        Some(items) => items.iter().map(|item| item.as_str().unwrap().to_string()).collect(),
        None => vec![],
    };
    FoundingRequest {
        name: text("name"),
        purpose: text("purpose"),
        role: text("role"),
        principles: list("principles"),
        boundaries: list("boundaries"),
        skills: list("skills"),
        connectors: list("connectors"),
        tokens_per_day: value["tokens_per_day"].as_u64(),
        reason: text("reason"),
        at: text("at"),
        by: text("by"),
    }
}

#[test]
fn founding_request_round_trips_and_validates() {
    write_founding_request(&request()).unwrap();
    let back = read(&written(&request()));
    assert!(write_founding_request(&back).is_ok(), "what reads back is still complete");
    assert_eq!(back.principles, request().principles);
    assert_eq!(back.skills, request().skills);
    assert_eq!(back.connectors, request().connectors);
    assert_eq!((back.role, back.reason, back.by), (request().role, request().reason, request().by));
    assert_eq!(back.name, "Docs gardener");
    assert_eq!(back.tokens_per_day, Some(50_000));
    assert_eq!(back.boundaries, Vec::<String>::new());
    // Missing essentials are refused at write time.
    let mut invalid = request();
    invalid.reason = "  ".to_string();
    assert!(write_founding_request(&invalid).is_err());
}

#[test]
fn a_request_without_its_essentials_says_so() {
    for blank in 0..3 {
        let mut r = request();
        match blank {
            0 => r.name = String::new(),
            1 => r.purpose = "\n".to_string(),
            _ => r.reason = "\u{3000}".to_string(),
        }
        let err = write_founding_request(&r).unwrap_err();
        assert_eq!(err, ProposalError::Incomplete);
        assert_eq!(err.text(), "a founding request needs name, purpose, and reason");
    }
}

#[test]
fn a_proposal_cannot_change_who_the_agent_is_or_who_governs_it() {
    let current = charter("npub1a", &["k1", "k2"]);
    assert_eq!(write_proposal(&current, &charter("npub1a", &["k1", "k2"]), None), Ok(()));
    let err = write_proposal(&current, &charter("npub1b", &["k1", "k2"]), None).unwrap_err();
    assert_eq!(err, ProposalError::Identity);
    assert_eq!(err.text(), "a proposal cannot change the agent's identity");
    for keys in [vec!["k2", "k1"], vec!["k1"], vec!["k1", "k2", "k3"]] {
        let err = write_proposal(&current, &charter("npub1a", &keys), None).unwrap_err();
        assert_eq!(err, ProposalError::SuspendKeys);
        assert_eq!(err.text(), "a proposal cannot change who governs the agent (suspend_keys)");
    }
    let err = write_proposal(&current, &charter("npub1b", &[]), Some("bad yaml".to_string()))
        .unwrap_err();
    assert_eq!(err.text(), "bad yaml", "its own rules come first");
}

#[test]
fn a_routine_is_drafted_as_it_was_asked_for() {
    let (r, meta) = routine(
        "{\"name\": \" Morning brief! \", \"when\": \"0 8 * * 1-5\", \"tz\": \"America/Chicago\", \
         \"task\": \" say hello \", \"deliver_telegram\": \"77\", \"deliver_companion\": true, \
         \"as_voice\": true, \"tokens_per_run\": 900, \"reason\": \"asked\"}",
    );
    assert_eq!(r.name, "Morning-brief-");
    assert_eq!(r.when.as_deref(), Some("0 8 * * 1-5"));
    assert_eq!(r.tz.as_deref(), Some("America/Chicago"));
    assert_eq!(r.task, "say hello");
    assert_eq!((r.class.as_str(), r.catch_up.as_str(), r.enabled), ("routine", "one", true));
    assert_eq!(r.tokens_per_run, Some(900));
    assert_eq!(r.deliver.len(), 2);
    assert_eq!(r.deliver[0].telegram.as_deref(), Some("77"));
    assert!(r.deliver[0].as_voice && !r.deliver[0].companion);
    assert!(r.deliver[1].as_voice && r.deliver[1].companion);
    assert_eq!(meta.summary, "add routine 'Morning-brief-' (0 8 * * 1-5) — say hello");
    assert_eq!(meta.reason, "asked");
    assert_eq!(meta.at, "2025-08-12T12:00:00+00:00");
    assert_eq!(meta.kind, "routine");
}

#[test]
fn a_routine_says_when_it_would_run() {
    let long = "t".repeat(100);
    let args = format!("{{\"name\": \"n\", \"every\": \"2h\", \"task\": \"{long}\"}}");
    let (_, meta) = routine(&args);
    assert_eq!(meta.summary, format!("add routine 'n' (every 2h) — {}", "t".repeat(80)));
    assert_eq!(meta.reason, "proposed by the agent");
    let (r, meta) = routine("{\"name\": \"n\", \"at\": \"2026-01-01T08:00\", \"task\": \"t\"}");
    assert_eq!(meta.summary, "add routine 'n' (once at 2026-01-01T08:00) — t");
    assert!(r.deliver.is_empty());
    let (_, meta) = routine("{\"name\": \"n\", \"task\": \"t\"}");
    assert_eq!(meta.summary, "add routine 'n' () — t");
}

#[test]
fn a_routine_needs_a_name_and_a_task() {
    let err = proposer().execute("{\"task\": \"t\"}", now()).unwrap_err();
    assert_eq!(err, ProposalError::NameRequired);
    assert_eq!(err.text(), "name required");
    let err = proposer().execute("{\"name\": \"n\", \"task\": 5}", now()).unwrap_err();
    assert_eq!(err, ProposalError::TaskRequired);
    assert_eq!(err.text(), "task required");
}

#[test]
fn a_proposed_routine_replaces_its_namesakes_alone() {
    let named = |name: &str, task: &str| {
        routine(&format!("{{\"name\": \"{name}\", \"task\": \"{task}\"}}")).0
    };
    let mut routines = vec![named("a", "1"), named("b", "2"), named("a", "3"), named("c", "4")];
    amend(&mut routines, named("a", "5"));
    let left: Vec<(&str, &str)> =
        routines.iter().map(|r| (r.name.as_str(), r.task.as_str())).collect();
    assert_eq!(left, vec![("b", "2"), ("c", "4"), ("a", "5")]);
}

#[test]
fn proposing_a_routine_changes_the_routines_alone() {
    let before = || Charter {
        routines: vec![routine("{\"name\": \"a\", \"task\": \"1\"}").0],
        ..charter("npub1a", &["k1"])
    };
    let after = propose(before(), routine("{\"name\": \"b\", \"task\": \"2\"}").0);
    let names: Vec<&str> = after.routines.iter().map(|r| r.name.as_str()).collect();
    assert_eq!(names, vec!["a", "b"]);
    assert_eq!((after.npub.as_str(), &after.suspend_keys), ("npub1a", &vec!["k1".to_string()]));
    assert_eq!(write_proposal(&before(), &after, None), Ok(()));
}

#[test]
fn an_agent_is_requested_as_it_was_described() {
    let tool = ProposeAgent { agent_dir: "/a".to_string(), npub: "npub1me".to_string() };
    let r = tool
        .execute(
            "{\"name\": \" Docs gardener \", \"purpose\": \"prune\", \"reason\": \"weeds\", \
             \"skills\": [\" markdown \", 7, \"\", \"git\"], \"principles\": \"none\", \
             \"tokens_per_day\": 50000}",
            now(),
        )
        .unwrap();
    assert_eq!(r.name, "Docs gardener");
    assert_eq!(r.role, "");
    assert_eq!(r.skills, vec!["markdown", "git"]);
    assert!(r.principles.is_empty());
    assert_eq!(r.tokens_per_day, Some(50_000));
    assert_eq!(r.by, "npub1me");
    assert_eq!(r.at, "2025-08-12T12:00:00+00:00");
    assert!(write_founding_request(&r).is_ok());
    for (args, why) in [
        ("{}", "name required"),
        ("{\"name\": \"n\"}", "purpose required"),
        ("{\"name\": \"n\", \"purpose\": \"p\"}", "reason required"),
    ] {
        assert_eq!(tool.execute(args, now()).unwrap_err().text(), why);
    }
}

#[test]
fn an_amendment_is_carried_whole() {
    let tool = ProposeAmendment { agent_dir: "/a".to_string() };
    let a = tool.execute("{\"yaml\": \" x: 1\\n\", \"reason\": \" why \"}", now()).unwrap();
    assert_eq!(a.yaml, " x: 1\n");
    assert_eq!(a.meta.reason, " why ");
    assert_eq!(a.meta.summary, "manifest amendment (yaml)");
    assert_eq!(a.meta.kind, "yaml");
    let err = tool.execute("{\"reason\": \"r\"}", now()).unwrap_err();
    assert_eq!(err, ProposalError::YamlRequired);
    assert_eq!(err.text(), "yaml required");
}

#[test]
fn a_proposal_without_its_note_is_an_amendment() {
    let m = read_proposal(None);
    assert_eq!(
        (m.reason.as_str(), m.summary.as_str(), m.at.as_str(), m.kind.as_str()),
        ("", "amendment", "", "yaml")
    );
    let kept = ProposalMeta {
        reason: "r".to_string(),
        summary: "s".to_string(),
        at: "a".to_string(),
        kind: "routine".to_string(),
    };
    assert_eq!(read_proposal(Some(kept)).summary, "s");
}

#[test]
fn proposals_live_beside_the_manifest() {
    assert_eq!(proposed_path("/a"), "/a/manifest.proposed.yaml");
    assert_eq!(meta_path("/a"), "/a/proposal.json");
    assert_eq!(founding_path("/a"), "/a/founding.proposed.yaml");
}

#[test]
fn what_the_agent_is_told_says_nothing_happened() {
    assert_eq!(
        proposed_reply("add x"),
        "proposal written: add x. It is NOT active — your governor sees it in the cockpit and decides. Tell the human it is waiting for their ratification."
    );
    assert_eq!(
        requested_reply("Docs"),
        "founding request for 'Docs' written. Nothing was created — the governor sees it in the cockpit and decides. Tell the human it is waiting for their review."
    );
}

#[test]
fn the_tools_say_what_they_need() {
    let tools = [
        (proposer().def(), "propose_routine", vec!["name", "task", "reason"], 11),
        (
            ProposeAgent { agent_dir: String::new(), npub: String::new() }.def(),
            "propose_agent",
            vec!["name", "purpose", "reason"],
            9,
        ),
        (
            ProposeAmendment { agent_dir: String::new() }.def(),
            "propose_amendment",
            vec!["yaml", "reason"],
            2,
        ),
    ];
    for (def, name, required, count) in tools {
        assert_eq!(def.name, name);
        assert_eq!(def.params.len(), count);
        let needed: Vec<&str> = def.params.iter().filter(|p| p.required).map(|p| p.name).collect();
        assert_eq!(needed, required);
    }
}
