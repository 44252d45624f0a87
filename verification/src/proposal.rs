//! Agent-drafted amendments. An agent may PROPOSE a change to its own
//! constitution, but never enact one: the proposal lands beside the manifest,
//! the cockpit shows it as pending the governor's decision, and accepting it
//! is the ordinary amend-then-ratify path.
//!
//! Hard rule enforced here: a proposal cannot change identity or who governs
//! the agent. The rest is the governor's call.
use crate::charter::{Charter, Delivery, Routine};
use crate::json::{
    flag_under, item_views, json_flag, json_text, json_texts, json_uint, text_under, texts_under,
    uint_under,
};
use crate::paths::{join, joined};
use crate::record::{ParamModel, ToolDef, ToolParam};
use crate::text::{
    chars_of, first_chars, given, given_text, is_white, only_white_space_is_blank, opt_view, same,
    take_chars, trim, trimmed, trimming_twice, views,
};
use crate::time::{rfc3339, Moment, NANOS_PER_SEC};
use vstd::prelude::*;

verus! {

pub const PROPOSED_FILE: &'static str = "manifest.proposed.yaml";

pub const PROPOSAL_META: &'static str = "proposal.json";

/// What the governor is told of a pending proposal.
#[derive(Debug, PartialEq, Eq)]
pub struct ProposalMeta {
    pub reason: String,
    pub summary: String,
    pub at: String,
    /// `routine` or `yaml`.
    pub kind: String,
}

pub fn proposed_path(agent_dir: &str) -> (r: String)
    ensures
        r@ == joined(agent_dir@, PROPOSED_FILE@),
{
    join(agent_dir, PROPOSED_FILE)
}

/// Where what the governor is told is kept.
pub fn meta_path(agent_dir: &str) -> (r: String)
    ensures
        r@ == joined(agent_dir@, PROPOSAL_META@),
{
    join(agent_dir, PROPOSAL_META)
}

/// Why a proposal or a request was not written.
#[derive(Debug, PartialEq, Eq)]
pub enum ProposalError {
    NameRequired,
    TaskRequired,
    PurposeRequired,
    ReasonRequired,
    YamlRequired,
    /// The manifest's own rules, or its schedule's, were broken.
    Invalid { error: String },
    Identity,
    SuspendKeys,
    /// A founding request without its essentials.
    Incomplete,
}

/// What the proposer is told.
pub open spec fn error_text(e: ProposalError) -> Seq<char> {
    match e {
        ProposalError::NameRequired => "name required"@,
        ProposalError::TaskRequired => "task required"@,
        ProposalError::PurposeRequired => "purpose required"@,
        ProposalError::ReasonRequired => "reason required"@,
        ProposalError::YamlRequired => "yaml required"@,
        ProposalError::Invalid { error } => error@,
        ProposalError::Identity => "a proposal cannot change the agent's identity"@,
        ProposalError::SuspendKeys =>
            "a proposal cannot change who governs the agent (suspend_keys)"@,
        ProposalError::Incomplete => "a founding request needs name, purpose, and reason"@,
    }
}

impl ProposalError {
    /// What the proposer is told.
    pub fn text(&self) -> (r: String)
        ensures
            r@ == error_text(*self),
    {
        match self {
            ProposalError::NameRequired => "name required".to_owned(),
            ProposalError::TaskRequired => "task required".to_owned(),
            ProposalError::PurposeRequired => "purpose required".to_owned(),
            ProposalError::ReasonRequired => "reason required".to_owned(),
            ProposalError::YamlRequired => "yaml required".to_owned(),
            ProposalError::Invalid { error } => error.clone(),
            ProposalError::Identity => "a proposal cannot change the agent's identity".to_owned(),
            ProposalError::SuspendKeys =>
                "a proposal cannot change who governs the agent (suspend_keys)".to_owned(),
            ProposalError::Incomplete =>
                "a founding request needs name, purpose, and reason".to_owned(),
        }
    }
}

/// Whether a candidate may be written as a proposal, given what its own
/// validation found.
pub open spec fn admissible(
    current: Charter,
    candidate: Charter,
    broken: Option<String>,
    r: Result<(), ProposalError>,
) -> bool {
    if broken is Some {
        r == Err::<(), _>(ProposalError::Invalid { error: broken->0 })
    } else if candidate.npub@ != current.npub@ {
        r == Err::<(), _>(ProposalError::Identity)
    } else if views(candidate.suspend_keys@) != views(current.suspend_keys@) {
        r == Err::<(), _>(ProposalError::SuspendKeys)
    } else {
        r is Ok
    }
}

fn same_texts(a: &Vec<String>, b: &Vec<String>) -> (r: bool)
    ensures
        r == (views(a@) == views(b@)),
{
    if a.len() != b.len() {
        assert(views(a@).len() != views(b@).len());
        return false;
    }
    let mut i: usize = 0;
    while i < a.len()
        invariant
            i <= a@.len(),
            a@.len() == b@.len(),
            forall|j: int| 0 <= j < i ==> #[trigger] views(a@)[j] == views(b@)[j],
        decreases a@.len() - i,
    {
        if !same(a[i].as_str(), b[i].as_str()) {
            assert(views(a@)[i as int] != views(b@)[i as int]);
            return false;
        }
        assert(views(a@)[i as int] == views(b@)[i as int]);
        i += 1;
    }
    assert(views(a@) == views(b@));
    true
}

/// May this candidate be written as the pending proposal? `broken` is what
/// the manifest's own validation found wrong with it.
pub fn write_proposal(current: &Charter, candidate: &Charter, broken: Option<String>) -> (r: Result<
    (),
    ProposalError,
>)
    ensures
        admissible(*current, *candidate, broken, r),
{
    if let Some(error) = broken {
        return Err(ProposalError::Invalid { error });
    }
    if !same(candidate.npub.as_str(), current.npub.as_str()) {
        return Err(ProposalError::Identity);
    }
    if !same_texts(&candidate.suspend_keys, &current.suspend_keys) {
        return Err(ProposalError::SuspendKeys);
    }
    Ok(())
}

/// What the governor is told of a pending proposal: what was kept with it,
/// or, where that is gone or cannot be read, only that it is an amendment.
pub fn read_proposal(meta: Option<ProposalMeta>) -> (r: ProposalMeta)
    ensures
        meta matches Some(m) ==> r == m,
        meta is None ==> {
            &&& r.reason@.len() == 0
            &&& r.summary@ == "amendment"@
            &&& r.at@.len() == 0
            &&& r.kind@ == "yaml"@
        },
{
    match meta {
        Some(meta) => meta,
        None => ProposalMeta {
            reason: String::new(),
            summary: "amendment".to_owned(),
            at: String::new(),
            kind: "yaml".to_owned(),
        },
    }
}

/// The text of a moment, as proposals are dated.
pub open spec fn dated(now: int) -> Seq<char> {
    rfc3339(now / (NANOS_PER_SEC as int), now % (NANOS_PER_SEC as int))
}

// ------------------------------------------------------------- propose_routine

/// `propose_routine`: structured; the safe common case.
#[derive(Debug)]
pub struct ProposeRoutine {
    pub agent_dir: String,
}

/// What `propose_routine` was called with.
#[derive(Debug)]
pub struct RoutineArgs {
    pub name: Option<String>,
    pub when: Option<String>,
    pub every: Option<String>,
    pub at: Option<String>,
    pub tz: Option<String>,
    pub task: Option<String>,
    pub deliver_telegram: Option<String>,
    pub deliver_companion: Option<bool>,
    pub as_voice: Option<bool>,
    pub tokens_per_run: Option<u64>,
    pub reason: Option<String>,
}

/// These are the arguments in a call's JSON object.
pub open spec fn are_routine_args(json: Seq<char>, a: RoutineArgs) -> bool {
    &&& opt_view(a.name) == json_text(json, "name"@)
    &&& opt_view(a.when) == json_text(json, "when"@)
    &&& opt_view(a.every) == json_text(json, "every"@)
    &&& opt_view(a.at) == json_text(json, "at"@)
    &&& opt_view(a.tz) == json_text(json, "tz"@)
    &&& opt_view(a.task) == json_text(json, "task"@)
    &&& opt_view(a.deliver_telegram) == json_text(json, "deliver_telegram"@)
    &&& a.deliver_companion == json_flag(json, "deliver_companion"@)
    &&& a.as_voice == json_flag(json, "as_voice"@)
    &&& a.tokens_per_run == json_uint(json, "tokens_per_run"@)
    &&& opt_view(a.reason) == json_text(json, "reason"@)
}

impl RoutineArgs {
    /// The arguments in a call's JSON object.
    pub fn read(json: &str) -> (r: RoutineArgs)
        ensures
            are_routine_args(json@, r),
    {
        RoutineArgs {
            name: text_under(json, "name"),
            when: text_under(json, "when"),
            every: text_under(json, "every"),
            at: text_under(json, "at"),
            tz: text_under(json, "tz"),
            task: text_under(json, "task"),
            deliver_telegram: text_under(json, "deliver_telegram"),
            deliver_companion: flag_under(json, "deliver_companion"),
            as_voice: flag_under(json, "as_voice"),
            tokens_per_run: uint_under(json, "tokens_per_run"),
            reason: text_under(json, "reason"),
        }
    }
}

/// A character that may stand in a routine's name.
pub open spec fn plain(c: char) -> bool {
    ('a' <= c <= 'z') || ('A' <= c <= 'Z') || ('0' <= c <= '9') || c == '-' || c == '_'
}

/// A name with a dash for every character that may not stand in it.
pub open spec fn plain_name(s: Seq<char>) -> Seq<char> {
    s.map_values(
        |c: char|
            if plain(c) {
                c
            } else {
                '-'
            },
    )
}

fn make_plain(s: &str) -> (r: String)
    ensures
        r@ == plain_name(s@),
{
    let chars = chars_of(s);
    let mut out = String::new();
    let mut i: usize = 0;
    while i < chars.len()
        invariant
            i <= chars@.len(),
            chars@ == s@,
            out@ == plain_name(s@.take(i as int)),
        decreases chars@.len() - i,
    {
        let c = chars[i];
        if ('a' <= c && c <= 'z') || ('A' <= c && c <= 'Z') || ('0' <= c && c <= '9') || c == '-'
            || c == '_' {
            out.push(c);
        } else {
            out.push('-');
        }
        i += 1;
        assert(plain_name(s@.take(i as int)) == plain_name(s@.take(i - 1)).push(
            if plain(s@[i - 1]) {
                s@[i - 1]
            } else {
                '-'
            },
        ));
    }
    assert(s@.take(i as int) == s@);
    out
}

/// A flag that was given and is set.
pub open spec fn switched_on(flag: Option<bool>) -> bool {
    flag == Some(true)
}

fn is_on(flag: Option<bool>) -> (r: bool)
    ensures
        r == switched_on(flag),
{
    match flag {
        Some(b) => b,
        None => false,
    }
}

/// `targets` is where a proposed routine delivers: to a chat, to the
/// companion, to both in that order, or nowhere.
pub open spec fn are_targets(a: RoutineArgs, targets: Seq<Delivery>) -> bool {
    let chats: int = if given(opt_view(a.deliver_telegram)) is Some {
        1
    } else {
        0
    };
    let companions: int = if switched_on(a.deliver_companion) {
        1
    } else {
        0
    };
    &&& targets.len() == chats + companions
    &&& chats == 1 ==> {
        &&& opt_view(targets[0].telegram) == given(opt_view(a.deliver_telegram))
        &&& targets[0].buzz is None
        &&& targets[0].nostr is None
        &&& !targets[0].companion
        &&& targets[0].as_voice == switched_on(a.as_voice)
    }
    &&& companions == 1 ==> targets[chats] == Delivery {
        telegram: None,
        buzz: None,
        nostr: None,
        companion: true,
        as_voice: switched_on(a.as_voice),
    }
}

fn targets_of(args: &RoutineArgs) -> (r: Vec<Delivery>)
    ensures
        are_targets(*args, r@),
{
    let mut out: Vec<Delivery> = Vec::new();
    if let Some(chat) = given_text(&args.deliver_telegram) {
        out.push(
            Delivery {
                telegram: Some(chat),
                buzz: None,
                nostr: None,
                companion: false,
                as_voice: is_on(args.as_voice),
            },
        );
    }
    if is_on(args.deliver_companion) {
        out.push(
            Delivery {
                telegram: None,
                buzz: None,
                nostr: None,
                companion: true,
                as_voice: is_on(args.as_voice),
            },
        );
    }
    out
}

/// When a routine runs, for the governor to read.
pub open spec fn schedule_text(
    when: Option<Seq<char>>,
    every: Option<Seq<char>>,
    at: Option<Seq<char>>,
) -> Seq<char> {
    match (when, every, at) {
        (Some(w), _, _) => w,
        (None, Some(e), _) => "every "@ + e,
        (None, None, Some(a)) => "once at "@ + a,
        (None, None, None) => Seq::empty(),
    }
}

fn say_schedule(routine: &Routine) -> (r: String)
    ensures
        r@ == schedule_text(
            opt_view(routine.when),
            opt_view(routine.every),
            opt_view(routine.at),
        ),
{
    if let Some(w) = &routine.when {
        return w.clone();
    }
    if let Some(e) = &routine.every {
        let mut out = "every ".to_owned();
        out.append(e.as_str());
        return out;
    }
    if let Some(a) = &routine.at {
        let mut out = "once at ".to_owned();
        out.append(a.as_str());
        return out;
    }
    String::new()
}

/// What the governor is told of a proposed routine.
pub open spec fn routine_summary(r: Routine) -> Seq<char> {
    "add routine '"@ + r.name@ + "' ("@ + schedule_text(
        opt_view(r.when),
        opt_view(r.every),
        opt_view(r.at),
    ) + ") — "@ + first_chars(r.task@, 80)
}

/// A routine that was asked for, to be scheduled, validated and written.
#[derive(Debug)]
pub struct RoutineDraft {
    pub routine: Routine,
    pub meta: ProposalMeta,
}

/// `r` is the routine that these arguments ask for.
pub open spec fn is_routine(a: RoutineArgs, r: Routine) -> bool {
    &&& r.name@ == plain_name(given(opt_view(a.name))->0)
    &&& opt_view(r.when) == given(opt_view(a.when))
    &&& opt_view(r.every) == given(opt_view(a.every))
    &&& opt_view(r.at) == given(opt_view(a.at))
    &&& opt_view(r.tz) == given(opt_view(a.tz))
    &&& r.task@ == given(opt_view(a.task))->0
    &&& r.class@ == "routine"@
    &&& are_targets(a, r.deliver@)
    &&& r.tokens_per_run == a.tokens_per_run
    &&& r.catch_up@ == "one"@
    &&& r.enabled
}

/// What asking for a routine comes to.
pub open spec fn drafted(a: RoutineArgs, now: int, r: Result<RoutineDraft, ProposalError>) -> bool {
    if given(opt_view(a.name)) is None {
        r == Err::<RoutineDraft, _>(ProposalError::NameRequired)
    } else if given(opt_view(a.task)) is None {
        r == Err::<RoutineDraft, _>(ProposalError::TaskRequired)
    } else {
        &&& r matches Ok(draft)
        &&& is_routine(a, draft.routine)
        &&& draft.meta.reason@ == match given(opt_view(a.reason)) {
            Some(reason) => reason,
            None => "proposed by the agent"@,
        }
        &&& draft.meta.summary@ == routine_summary(draft.routine)
        &&& draft.meta.at@ == dated(now)
        &&& draft.meta.kind@ == "routine"@
    }
}

pub const ROUTINE_DESCRIPTION: &'static str = "Propose a new scheduled routine for yourself (a \
    standing instruction the host would run on a schedule). This does NOT create it — it lands as a \
    proposal your governor must accept and ratify. Use when a human asks for something recurring, \
    or when you see a genuinely useful recurring task; say in `reason` why. One proposal at a time.";

pub open spec fn param(
    name: Seq<char>,
    kind: Seq<char>,
    description: Seq<char>,
    required: bool,
) -> ParamModel {
    ParamModel { name, kind, description, required }
}

impl ProposeRoutine {
    pub fn def(&self) -> (r: ToolDef)
        ensures
            r.name@ == "propose_routine"@,
            r.description@ == ROUTINE_DESCRIPTION@,
            r.param_models() == seq![
                param("name"@, "string"@, "short kebab-case name"@, true),
                param("when"@, "string"@, "5-field cron (Sunday=0), e.g. '0 8 * * 1-5'"@, false),
                param("every"@, "string"@, "interval instead of cron: 15m, 2h, 1d"@, false),
                param("at"@, "string"@, "one-shot: YYYY-MM-DDTHH:MM (in tz)"@, false),
                param(
                    "tz"@,
                    "string"@,
                    "IANA zone, e.g. America/Chicago (required with when/at)"@,
                    false,
                ),
                param("task"@, "string"@, "the instruction to run each time"@, true),
                param(
                    "deliver_telegram"@,
                    "string"@,
                    "chat id to deliver the reply to (must be in your allowed_chats)"@,
                    false,
                ),
                param(
                    "deliver_companion"@,
                    "boolean"@,
                    "speak the reply through the human's companion app"@,
                    false,
                ),
                param("as_voice"@, "boolean"@, ""@, false),
                param("tokens_per_run"@, "integer"@, ""@, false),
                param(
                    "reason"@,
                    "string"@,
                    "why this routine is worth having — shown to the governor"@,
                    true,
                ),
            ],
    {
        ToolDef {
            name: "propose_routine".to_owned(),
            description: ROUTINE_DESCRIPTION.to_owned(),
            params: vec![
                ToolParam {
                    name: "name",
                    kind: "string",
                    description: "short kebab-case name",
                    required: true,
                },
                ToolParam {
                    name: "when",
                    kind: "string",
                    description: "5-field cron (Sunday=0), e.g. '0 8 * * 1-5'",
                    required: false,
                },
                ToolParam {
                    name: "every",
                    kind: "string",
                    description: "interval instead of cron: 15m, 2h, 1d",
                    required: false,
                },
                ToolParam {
                    name: "at",
                    kind: "string",
                    description: "one-shot: YYYY-MM-DDTHH:MM (in tz)",
                    required: false,
                },
                ToolParam {
                    name: "tz",
                    kind: "string",
                    description: "IANA zone, e.g. America/Chicago (required with when/at)",
                    required: false,
                },
                ToolParam {
                    name: "task",
                    kind: "string",
                    description: "the instruction to run each time",
                    required: true,
                },
                ToolParam {
                    name: "deliver_telegram",
                    kind: "string",
                    description: "chat id to deliver the reply to (must be in your allowed_chats)",
                    required: false,
                },
                ToolParam {
                    name: "deliver_companion",
                    kind: "boolean",
                    description: "speak the reply through the human's companion app",
                    required: false,
                },
                ToolParam { name: "as_voice", kind: "boolean", description: "", required: false },
                ToolParam {
                    name: "tokens_per_run",
                    kind: "integer",
                    description: "",
                    required: false,
                },
                ToolParam {
                    name: "reason",
                    kind: "string",
                    description: "why this routine is worth having — shown to the governor",
                    required: true,
                },
            ],
        }
    }

    /// The routine that a call's JSON asks for.
    pub fn execute(&self, args: &str, now: Moment) -> (r: Result<RoutineDraft, ProposalError>)
        ensures
            exists|a: RoutineArgs| #[trigger] are_routine_args(args@, a) && drafted(a, now@, r),
    {
        let args = RoutineArgs::read(args);
        self.draft(&args, now)
    }

    /// The routine that these arguments ask for.
    pub fn draft(&self, args: &RoutineArgs, now: Moment) -> (r: Result<RoutineDraft, ProposalError>)
        ensures
            drafted(*args, now@, r),
    {
        let name = match given_text(&args.name) {
            Some(name) => make_plain(name.as_str()),
            None => {
                return Err(ProposalError::NameRequired);
            },
        };
        let task = match given_text(&args.task) {
            Some(task) => task,
            None => {
                return Err(ProposalError::TaskRequired);
            },
        };
        let reason = match given_text(&args.reason) {
            Some(reason) => reason,
            None => "proposed by the agent".to_owned(),
        };
        let routine = Routine {
            name,
            when: given_text(&args.when),
            every: given_text(&args.every),
            at: given_text(&args.at),
            tz: given_text(&args.tz),
            task,
            class: "routine".to_owned(),
            deliver: targets_of(args),
            tokens_per_run: args.tokens_per_run,
            catch_up: "one".to_owned(),
            enabled: true,
        };
        let mut summary = "add routine '".to_owned();
        summary.append(routine.name.as_str());
        summary.append("' (");
        summary.append(say_schedule(&routine).as_str());
        summary.append(") — ");
        summary.append(take_chars(routine.task.as_str(), 80).as_str());
        let meta = ProposalMeta {
            reason,
            summary,
            at: now.to_rfc3339(),
            kind: "routine".to_owned(),
        };
        Ok(RoutineDraft { routine, meta })
    }
}

/// The routines without those of this name.
pub open spec fn others(routines: Seq<Routine>, name: Seq<char>) -> Seq<Routine> {
    routines.filter(|r: Routine| r.name@ != name)
}

/// Put a routine among those there are, in place of those of its name.
pub fn amend(routines: &mut Vec<Routine>, routine: Routine)
    ensures
        final(routines)@ == others(old(routines)@, routine.name@).push(routine),
{
    let ghost all = routines@;
    let ghost pred = |r: Routine| r.name@ != routine.name@;
    let mut i: usize = 0;
    let ghost mut seen: int = 0;
    assert(all.take(0).filter(pred) == Seq::<Routine>::empty());
    assert(all.skip(0) == all);
    while i < routines.len()
        invariant
            i <= routines@.len(),
            0 <= seen <= all.len(),
            pred == (|r: Routine| r.name@ != routine.name@),
            routines@.take(i as int) == all.take(seen).filter(pred),
            routines@.skip(i as int) == all.skip(seen),
        decreases routines@.len() - i,
    {
        let ghost before = routines@;
        assert(before.skip(i as int).len() == all.skip(seen).len());
        assert(before[i as int] == before.skip(i as int)[0]);
        assert(all[seen] == all.skip(seen)[0]);
        proof {
            assert(all.take(seen + 1).drop_last() == all.take(seen));
            assert(all.take(seen + 1).last() == all[seen]);
            reveal(Seq::filter);
        }
        if !same(routines[i].name.as_str(), routine.name.as_str()) {
            i += 1;
            assert(before.take(i as int) == before.take(i - 1).push(all[seen]));
            assert(before.skip(i as int) == before.skip(i - 1).drop_first());
        } else {
            let _ = routines.remove(i);
            assert(routines@.take(i as int) == before.take(i as int));
            assert(routines@.skip(i as int) == before.skip(i as int).drop_first());
        }
        assert(all.skip(seen + 1) == all.skip(seen).drop_first());
        proof {
            seen = seen + 1;
        }
    }
    assert(routines@.skip(i as int).len() == 0);
    assert(all.take(seen) == all);
    assert(routines@.take(i as int) == routines@);
    routines.push(routine);
}

/// The charter that proposing a routine asks for: the current one, with the
/// routine among its own.
pub fn propose(current: Charter, routine: Routine) -> (r: Charter)
    ensures
        r.npub == current.npub,
        r.suspend_keys == current.suspend_keys,
        r.routines@ == others(current.routines@, routine.name@).push(routine),
{
    let mut routines = current.routines;
    amend(&mut routines, routine);
    Charter { npub: current.npub, suspend_keys: current.suspend_keys, routines }
}

pub const NOT_ACTIVE: &'static str = ". It is NOT active — your governor sees it in the cockpit and \
    decides. Tell the human it is waiting for their ratification.";

/// What the agent is told once its routine was written as a proposal.
pub fn proposed_reply(summary: &str) -> (r: String)
    ensures
        r@ == "proposal written: "@ + summary@ + NOT_ACTIVE@,
{
    let mut out = "proposal written: ".to_owned();
    out.append(summary);
    out.append(NOT_ACTIVE);
    out
}

// ------------------------------------------------------------- founding requests

pub const FOUNDING_FILE: &'static str = "founding.proposed.yaml";

/// A request to found a NEW agent. The requesting agent describes the
/// colleague it thinks should exist; the governor approves or rejects.
/// Founding stays a human ceremony: this is only ever a request.
#[derive(Debug, PartialEq, Eq)]
pub struct FoundingRequest {
    pub name: String,
    pub purpose: String,
    pub role: String,
    pub principles: Vec<String>,
    pub boundaries: Vec<String>,
    /// Skill names or one-line descriptions the new agent would need.
    pub skills: Vec<String>,
    /// Capabilities it would need, by library name or kind: described, never
    /// granted here.
    pub connectors: Vec<String>,
    pub tokens_per_day: Option<u64>,
    /// Why this agent should exist, shown to the governor.
    pub reason: String,
    pub at: String,
    /// The requesting agent.
    pub by: String,
}

pub fn founding_path(agent_dir: &str) -> (r: String)
    ensures
        r@ == joined(agent_dir@, FOUNDING_FILE@),
{
    join(agent_dir, FOUNDING_FILE)
}

/// A request that says who, what for, and why.
pub open spec fn complete(request: FoundingRequest) -> bool {
    &&& trimmed(request.name@).len() > 0
    &&& trimmed(request.purpose@).len() > 0
    &&& trimmed(request.reason@).len() > 0
}

/// May this request be written? It needs its essentials.
pub fn write_founding_request(request: &FoundingRequest) -> (r: Result<(), ProposalError>)
    ensures
        r == if complete(*request) {
            Ok::<(), ProposalError>(())
        } else {
            Err::<(), ProposalError>(ProposalError::Incomplete)
        },
{
    if trim(request.name.as_str()).as_str().unicode_len() == 0 || trim(
        request.purpose.as_str(),
    ).as_str().unicode_len() == 0 || trim(request.reason.as_str()).as_str().unicode_len() == 0 {
        Err(ProposalError::Incomplete)
    } else {
        Ok(())
    }
}

/// `propose_agent`: request the founding of a new agent.
#[derive(Debug)]
pub struct ProposeAgent {
    pub agent_dir: String,
    pub npub: String,
}

/// What `propose_agent` was called with.
#[derive(Debug)]
pub struct AgentArgs {
    pub name: Option<String>,
    pub purpose: Option<String>,
    pub role: Option<String>,
    pub principles: Vec<String>,
    pub boundaries: Vec<String>,
    pub skills: Vec<String>,
    pub connectors: Vec<String>,
    pub tokens_per_day: Option<u64>,
    pub reason: Option<String>,
}

/// The texts that were really given, in order.
pub open spec fn given_items(items: Seq<Option<Seq<char>>>) -> Seq<Seq<char>>
    decreases items.len(),
{
    if items.len() == 0 {
        Seq::empty()
    } else {
        match given(items.last()) {
            Some(s) => given_items(items.drop_last()).push(s),
            None => given_items(items.drop_last()),
        }
    }
}

/// The texts that were really given in the array under `key`, if there is
/// one.
pub open spec fn given_list(json: Seq<char>, key: Seq<char>) -> Seq<Seq<char>> {
    match json_texts(json, key) {
        Some(items) => given_items(items),
        None => Seq::empty(),
    }
}

fn keep_given(items: &Vec<Option<String>>) -> (r: Vec<String>)
    ensures
        views(r@) == given_items(item_views(items@)),
{
    let ghost all = item_views(items@);
    let mut out: Vec<String> = Vec::new();
    let mut i: usize = 0;
    assert(views(out@) == given_items(all.take(0)));
    while i < items.len()
        invariant
            i <= items@.len(),
            all == item_views(items@),
            views(out@) == given_items(all.take(i as int)),
        decreases items@.len() - i,
    {
        assert(all.take(i + 1).drop_last() == all.take(i as int));
        assert(all.take(i + 1).last() == opt_view(items@[i as int]));
        if let Some(s) = given_text(&items[i]) {
            let ghost before = views(out@);
            out.push(s);
            assert(views(out@) == before.push(s@));
        }
        i += 1;
    }
    assert(all.take(i as int) == all);
    out
}

fn list_under(json: &str, key: &str) -> (r: Vec<String>)
    ensures
        views(r@) == given_list(json@, key@),
{
    match texts_under(json, key) {
        Some(items) => keep_given(&items),
        None => {
            let out: Vec<String> = Vec::new();
            assert(views(out@) == Seq::<Seq<char>>::empty());
            out
        },
    }
}

/// These are the arguments in a call's JSON object.
pub open spec fn are_agent_args(json: Seq<char>, a: AgentArgs) -> bool {
    &&& opt_view(a.name) == json_text(json, "name"@)
    &&& opt_view(a.purpose) == json_text(json, "purpose"@)
    &&& opt_view(a.role) == json_text(json, "role"@)
    &&& views(a.principles@) == given_list(json, "principles"@)
    &&& views(a.boundaries@) == given_list(json, "boundaries"@)
    &&& views(a.skills@) == given_list(json, "skills"@)
    &&& views(a.connectors@) == given_list(json, "connectors"@)
    &&& a.tokens_per_day == json_uint(json, "tokens_per_day"@)
    &&& opt_view(a.reason) == json_text(json, "reason"@)
}

impl AgentArgs {
    /// The arguments in a call's JSON object.
    pub fn read(json: &str) -> (r: AgentArgs)
        ensures
            are_agent_args(json@, r),
    {
        AgentArgs {
            name: text_under(json, "name"),
            purpose: text_under(json, "purpose"),
            role: text_under(json, "role"),
            principles: list_under(json, "principles"),
            boundaries: list_under(json, "boundaries"),
            skills: list_under(json, "skills"),
            connectors: list_under(json, "connectors"),
            tokens_per_day: uint_under(json, "tokens_per_day"),
            reason: text_under(json, "reason"),
        }
    }
}

/// What asking for an agent comes to: the first of its essentials that is
/// missing, or the request.
pub open spec fn requested(
    a: AgentArgs,
    npub: Seq<char>,
    now: int,
    r: Result<FoundingRequest, ProposalError>,
) -> bool {
    if given(opt_view(a.name)) is None {
        r == Err::<FoundingRequest, _>(ProposalError::NameRequired)
    } else if given(opt_view(a.purpose)) is None {
        r == Err::<FoundingRequest, _>(ProposalError::PurposeRequired)
    } else if given(opt_view(a.reason)) is None {
        r == Err::<FoundingRequest, _>(ProposalError::ReasonRequired)
    } else {
        &&& r matches Ok(request)
        &&& request.name@ == given(opt_view(a.name))->0
        &&& request.purpose@ == given(opt_view(a.purpose))->0
        &&& request.role@ == match given(opt_view(a.role)) {
            Some(role) => role,
            None => Seq::empty(),
        }
        &&& request.principles == a.principles
        &&& request.boundaries == a.boundaries
        &&& request.skills == a.skills
        &&& request.connectors == a.connectors
        &&& request.tokens_per_day == a.tokens_per_day
        &&& request.reason@ == given(opt_view(a.reason))->0
        &&& request.at@ == dated(now)
        &&& request.by@ == npub
    }
}

pub const AGENT_DESCRIPTION: &'static str = "Request that a NEW agent be founded for a purpose you \
    cannot or should not cover yourself. This does NOT create anything: it lands as a founding \
    request the governor approves or rejects in the cockpit — founding is always a human ceremony. \
    Describe the colleague: purpose, skillset, capabilities it would need, spend ceiling. Say in \
    `reason` why it should exist. After filing, tell the human in the channel where the need arose. \
    One request at a time; filing again replaces your pending one.";

impl ProposeAgent {
    pub fn def(&self) -> (r: ToolDef)
        ensures
            r.name@ == "propose_agent"@,
            r.description@ == AGENT_DESCRIPTION@,
            r.param_models() == seq![
                param("name"@, "string"@, "short working name, e.g. 'Docs gardener'"@, true),
                param("purpose"@, "string"@, "what it should reliably do"@, true),
                param("role"@, "string"@, "one-sentence constitution role sketch"@, false),
                param("principles"@, "array"@, ""@, false),
                param("boundaries"@, "array"@, ""@, false),
                param("skills"@, "array"@, "skills it would need, one line each"@, false),
                param(
                    "connectors"@,
                    "array"@,
                    "capabilities it would need (library names or kinds)"@,
                    false,
                ),
                param("tokens_per_day"@, "integer"@, "proposed daily spend ceiling"@, false),
                param(
                    "reason"@,
                    "string"@,
                    "why this agent should exist — shown to the governor"@,
                    true,
                ),
            ],
    {
        ToolDef {
            name: "propose_agent".to_owned(),
            description: AGENT_DESCRIPTION.to_owned(),
            params: vec![
                ToolParam {
                    name: "name",
                    kind: "string",
                    description: "short working name, e.g. 'Docs gardener'",
                    required: true,
                },
                ToolParam {
                    name: "purpose",
                    kind: "string",
                    description: "what it should reliably do",
                    required: true,
                },
                ToolParam {
                    name: "role",
                    kind: "string",
                    description: "one-sentence constitution role sketch",
                    required: false,
                },
                ToolParam { name: "principles", kind: "array", description: "", required: false },
                ToolParam { name: "boundaries", kind: "array", description: "", required: false },
                ToolParam {
                    name: "skills",
                    kind: "array",
                    description: "skills it would need, one line each",
                    required: false,
                },
                ToolParam {
                    name: "connectors",
                    kind: "array",
                    description: "capabilities it would need (library names or kinds)",
                    required: false,
                },
                ToolParam {
                    name: "tokens_per_day",
                    kind: "integer",
                    description: "proposed daily spend ceiling",
                    required: false,
                },
                ToolParam {
                    name: "reason",
                    kind: "string",
                    description: "why this agent should exist — shown to the governor",
                    required: true,
                },
            ],
        }
    }

    /// The request that a call's JSON asks for.
    pub fn execute(&self, args: &str, now: Moment) -> (r: Result<FoundingRequest, ProposalError>)
        ensures
            exists|a: AgentArgs|
                #[trigger] are_agent_args(args@, a) && requested(a, self.npub@, now@, r),
    {
        let args = AgentArgs::read(args);
        self.request(args, now)
    }

    /// The request that these arguments ask for.
    pub fn request(&self, args: AgentArgs, now: Moment) -> (r: Result<
        FoundingRequest,
        ProposalError,
    >)
        ensures
            requested(args, self.npub@, now@, r),
    {
        let name = match given_text(&args.name) {
            Some(name) => name,
            None => {
                return Err(ProposalError::NameRequired);
            },
        };
        let purpose = match given_text(&args.purpose) {
            Some(purpose) => purpose,
            None => {
                return Err(ProposalError::PurposeRequired);
            },
        };
        let reason = match given_text(&args.reason) {
            Some(reason) => reason,
            None => {
                return Err(ProposalError::ReasonRequired);
            },
        };
        let role = match given_text(&args.role) {
            Some(role) => role,
            None => String::new(),
        };
        Ok(
            FoundingRequest {
                name,
                purpose,
                role,
                principles: args.principles,
                boundaries: args.boundaries,
                skills: args.skills,
                connectors: args.connectors,
                tokens_per_day: args.tokens_per_day,
                reason,
                at: now.to_rfc3339(),
                by: self.npub.clone(),
            },
        )
    }
}

pub const NOTHING_CREATED: &'static str = "' written. Nothing was created — the governor sees it in \
    the cockpit and decides. Tell the human it is waiting for their review.";

/// What the agent is told once its request was written.
pub fn requested_reply(name: &str) -> (r: String)
    ensures
        r@ == "founding request for '"@ + name@ + NOTHING_CREATED@,
{
    let mut out = "founding request for '".to_owned();
    out.append(name);
    out.append(NOTHING_CREATED);
    out
}

// ------------------------------------------------------------- propose_amendment

/// `propose_amendment`: the whole manifest as YAML; advanced.
#[derive(Debug)]
pub struct ProposeAmendment {
    pub agent_dir: String,
}

/// An amendment that was asked for, to be read, validated and written.
#[derive(Debug)]
pub struct Amendment {
    pub yaml: String,
    pub meta: ProposalMeta,
}

/// What asking for an amendment comes to.
pub open spec fn amended(
    yaml: Option<Seq<char>>,
    reason: Option<Seq<char>>,
    now: int,
    r: Result<Amendment, ProposalError>,
) -> bool {
    match yaml {
        Some(y) => {
            &&& r matches Ok(a)
            &&& a.yaml@ == y
            &&& a.meta.reason@ == match reason {
                Some(s) => s,
                None => Seq::empty(),
            }
            &&& a.meta.summary@ == "manifest amendment (yaml)"@
            &&& a.meta.at@ == dated(now)
            &&& a.meta.kind@ == "yaml"@
        },
        None => r == Err::<Amendment, _>(ProposalError::YamlRequired),
    }
}

pub const AMENDMENT_DESCRIPTION: &'static str = "Propose an amendment to your own manifest \
    (constitution) as complete YAML. Never enacted by you: it lands as a proposal the governor \
    accepts and ratifies. Identity and suspend_keys cannot change. Prefer propose_routine for \
    schedules. Explain the change in `reason`.";

pub const AMENDMENT_REPLY: &'static str = "proposal written — waiting for the governor to accept \
    and ratify.";

impl ProposeAmendment {
    pub fn def(&self) -> (r: ToolDef)
        ensures
            r.name@ == "propose_amendment"@,
            r.description@ == AMENDMENT_DESCRIPTION@,
            r.param_models() == seq![
                param("yaml"@, "string"@, "the full proposed manifest YAML"@, true),
                param("reason"@, "string"@, ""@, true),
            ],
    {
        ToolDef {
            name: "propose_amendment".to_owned(),
            description: AMENDMENT_DESCRIPTION.to_owned(),
            params: vec![
                ToolParam {
                    name: "yaml",
                    kind: "string",
                    description: "the full proposed manifest YAML",
                    required: true,
                },
                ToolParam { name: "reason", kind: "string", description: "", required: true },
            ],
        }
    }

    /// The amendment that a call's JSON asks for.
    pub fn execute(&self, args: &str, now: Moment) -> (r: Result<Amendment, ProposalError>)
        ensures
            amended(json_text(args@, "yaml"@), json_text(args@, "reason"@), now@, r),
    {
        self.draft(text_under(args, "yaml"), text_under(args, "reason"), now)
    }

    /// The amendment with this text and this reason.
    pub fn draft(&self, yaml: Option<String>, reason: Option<String>, now: Moment) -> (r: Result<
        Amendment,
        ProposalError,
    >)
        ensures
            amended(opt_view(yaml), opt_view(reason), now@, r),
    {
        let yaml = match yaml {
            Some(yaml) => yaml,
            None => {
                return Err(ProposalError::YamlRequired);
            },
        };
        let reason = match reason {
            Some(reason) => reason,
            None => String::new(),
        };
        Ok(
            Amendment {
                yaml,
                meta: ProposalMeta {
                    reason,
                    summary: "manifest amendment (yaml)".to_owned(),
                    at: now.to_rfc3339(),
                    kind: "yaml".to_owned(),
                },
            },
        )
    }
}

// ------------------------------------------------------------- laws

/// No proposal changes who the agent is or who governs it, however it was
/// drafted: what would is not written.
pub proof fn a_proposal_keeps_identity_and_governors(
    current: Charter,
    candidate: Charter,
    broken: Option<String>,
    r: Result<(), ProposalError>,
)
    requires
        admissible(current, candidate, broken, r),
        r is Ok,
    ensures
        candidate.npub@ == current.npub@,
        views(candidate.suspend_keys@) == views(current.suspend_keys@),
        broken is None,
{
}

/// Proposing a routine is never refused for who the agent is or who governs
/// it: only the manifest's own rules can stand in its way.
pub proof fn a_proposed_routine_is_admissible(
    current: Charter,
    candidate: Charter,
    broken: Option<String>,
    r: Result<(), ProposalError>,
)
    requires
        candidate.npub == current.npub,
        candidate.suspend_keys == current.suspend_keys,
        admissible(current, candidate, broken, r),
    ensures
        r is Ok <==> broken is None,
{
}

/// A proposed routine touches no other routine: those of another name stay,
/// in order, and it is the only one of its name.
pub proof fn a_proposed_routine_touches_no_other(routines: Seq<Routine>, routine: Routine)
    ensures
        others(others(routines, routine.name@).push(routine), routine.name@) == others(
            routines,
            routine.name@,
        ),
        forall|i: int|
            #![trigger others(routines, routine.name@)[i]]
            0 <= i < others(routines, routine.name@).len() ==> others(
                routines,
                routine.name@,
            )[i].name@ != routine.name@,
{
    let pred = |r: Routine| r.name@ != routine.name@;
    let rest = others(routines, routine.name@);
    assert forall|i: int| 0 <= i < rest.len() implies #[trigger] rest[i].name@
        != routine.name@ by {
        routines.lemma_filter_pred(pred, i);
    }
    filtering_what_was_filtered(rest, routine.name@);
    reveal(Seq::filter);
    assert(rest.push(routine).drop_last() == rest);
}

proof fn filtering_what_was_filtered(routines: Seq<Routine>, name: Seq<char>)
    requires
        forall|i: int| 0 <= i < routines.len() ==> #[trigger] routines[i].name@ != name,
    ensures
        others(routines, name) == routines,
    decreases routines.len(),
{
    reveal(Seq::filter);
    if routines.len() > 0 {
        let rest = routines.drop_last();
        assert forall|i: int| 0 <= i < rest.len() implies #[trigger] rest[i].name@ != name by {
            assert(rest[i] == routines[i]);
        }
        filtering_what_was_filtered(rest, name);
        assert(routines.last() == routines[routines.len() - 1]);
        assert(rest.push(routines.last()) == routines);
    }
}

/// A proposed routine's name is as long as what was asked for, and holds
/// nothing but plain characters; a plain name is kept.
pub proof fn a_routine_name_is_plain(s: Seq<char>)
    ensures
        plain_name(s).len() == s.len(),
        forall|i: int| 0 <= i < s.len() ==> plain(#[trigger] plain_name(s)[i]),
        (forall|i: int| 0 <= i < s.len() ==> plain(#[trigger] s[i])) ==> plain_name(s) == s,
{
}

/// What `propose_agent` asks for is complete: a request it makes is never
/// refused for want of its essentials.
pub proof fn a_requested_agent_is_complete(
    a: AgentArgs,
    npub: Seq<char>,
    now: int,
    request: FoundingRequest,
)
    requires
        requested(a, npub, now, Ok(request)),
    ensures
        complete(request),
{
    trimming_twice(opt_view(a.name)->0);
    trimming_twice(opt_view(a.purpose)->0);
    trimming_twice(opt_view(a.reason)->0);
}

/// A proposal that keeps who the agent is and who governs it, and that the
/// manifest's rules admit, is admitted; one that does not is refused, for the
/// first of these that it breaks.
pub proof fn a_fair_proposal_is_admitted(
    current: Charter,
    candidate: Charter,
    broken: Option<String>,
    r: Result<(), ProposalError>,
)
    requires
        admissible(current, candidate, broken, r),
    ensures
        r is Ok <==> broken is None && candidate.npub@ == current.npub@ && views(
            candidate.suspend_keys@,
        ) == views(current.suspend_keys@),
        broken is None && candidate.npub@ != current.npub@ ==> r == Err::<(), _>(
            ProposalError::Identity,
        ),
        broken is None && candidate.npub@ == current.npub@ && views(candidate.suspend_keys@)
            != views(current.suspend_keys@) ==> r == Err::<(), _>(ProposalError::SuspendKeys),
{
}

/// A routine that is replaced goes and no other does: routines are judged one
/// by one, by their name alone, and keep their order.
pub proof fn routines_are_judged_one_by_one(
    a: Seq<Routine>,
    b: Seq<Routine>,
    r: Routine,
    name: Seq<char>,
)
    ensures
        others(a + b, name) == others(a, name) + others(b, name),
        others(seq![r], name) == (if r.name@ == name {
            Seq::empty()
        } else {
            seq![r]
        }),
    decreases b.len(),
{
    reveal(Seq::filter);
    assert(seq![r].drop_last() =~= Seq::<Routine>::empty());
    assert(others(Seq::<Routine>::empty(), name) =~= Seq::empty());
    assert(Seq::<Routine>::empty().push(r) =~= seq![r]);
    assert(seq![r].last() == r);
    if b.len() == 0 {
        assert(a + b =~= a);
        assert(others(a, name) + others(b, name) =~= others(a, name));
    } else {
        assert((a + b).drop_last() =~= a + b.drop_last());
        assert((a + b).last() == b.last());
        routines_are_judged_one_by_one(a, b.drop_last(), r, name);
        assert(others(a + b, name) =~= others(a, name) + others(b, name));
    }
}

/// Letters and digits of ASCII, the dash and the underscore stand in a
/// routine's name as they are; any other character becomes a dash.
pub proof fn a_routine_name_keeps_plain_characters(s: Seq<char>, c: char, i: int)
    requires
        0 <= i < s.len(),
        c == s[i],
    ensures
        (97 <= c as u32 <= 122) || (65 <= c as u32 <= 90) || (48 <= c as u32 <= 57) || c == '-' || c
            == '_' ==> plain_name(s)[i] == c,
        c as u32 > 122 || (90 < c as u32 && (c as u32) < 97 && c != '_') || (57 < c as u32 && (
        c as u32) < 65) || ((c as u32) < 48 && c != '-') ==> plain_name(s)[i] == '-',
{
}

/// A draft is made wherever a name and a task are given, and says what was
/// asked for: the task, the schedule and the time zone without the white space
/// around them, and the tokens as given. It comes switched on.
pub proof fn a_draft_says_what_was_asked_for(
    a: RoutineArgs,
    now: int,
    r: Result<RoutineDraft, ProposalError>,
)
    requires
        drafted(a, now, r),
    ensures
        r is Ok <==> a.name is Some && trimmed(a.name->0@).len() > 0 && a.task is Some && trimmed(
            a.task->0@,
        ).len() > 0,
        r is Err && a.name is Some && trimmed(a.name->0@).len() > 0 ==> r->Err_0
            == ProposalError::TaskRequired,
        r is Err && (a.name is None || trimmed(a.name->0@).len() == 0) ==> r->Err_0
            == ProposalError::NameRequired,
        r is Ok ==> {
            let routine = r->Ok_0.routine;
            &&& routine.name@ == plain_name(trimmed(a.name->0@))
            &&& routine.task@ == trimmed(a.task->0@)
            &&& routine.tokens_per_run == a.tokens_per_run
            &&& routine.enabled
            &&& routine.when is Some <==> a.when is Some && trimmed(a.when->0@).len() > 0
            &&& routine.when is Some ==> routine.when->0@ == trimmed(a.when->0@)
            &&& routine.every is Some <==> a.every is Some && trimmed(a.every->0@).len() > 0
            &&& routine.every is Some ==> routine.every->0@ == trimmed(a.every->0@)
            &&& routine.at is Some <==> a.at is Some && trimmed(a.at->0@).len() > 0
            &&& routine.at is Some ==> routine.at->0@ == trimmed(a.at->0@)
            &&& routine.tz is Some <==> a.tz is Some && trimmed(a.tz->0@).len() > 0
            &&& routine.tz is Some ==> routine.tz->0@ == trimmed(a.tz->0@)
        },
        r is Ok ==> (a.reason is Some && trimmed(a.reason->0@).len() > 0 ==> r->Ok_0.meta.reason@
            == trimmed(a.reason->0@)),
        r is Ok ==> (a.reason is None || trimmed(a.reason->0@).len() == 0 ==> r->Ok_0.meta.reason@
            == "proposed by the agent"@),
{
}

/// A routine goes to each place it was asked to go to and to no other: to the
/// chat that was given, and to the companion where that was switched on.
pub proof fn a_routine_goes_where_it_was_asked_to(a: RoutineArgs, targets: Seq<Delivery>)
    requires
        are_targets(a, targets),
    ensures
        ({
            let chat = a.deliver_telegram is Some && trimmed(a.deliver_telegram->0@).len() > 0;
            let companion = a.deliver_companion == Some(true);
            &&& chat && companion ==> targets.len() == 2 && targets[1].companion
            &&& chat && !companion ==> targets.len() == 1 && !targets[0].companion
            &&& !chat && companion ==> targets.len() == 1 && targets[0].companion
            &&& !chat && !companion ==> targets.len() == 0
            &&& chat ==> targets[0].telegram is Some && targets[0].telegram->0@ == trimmed(
                a.deliver_telegram->0@,
            )
            &&& forall|i: int|
                0 <= i < targets.len() ==> (#[trigger] targets[i]).as_voice == (a.as_voice == Some(
                    true,
                )) && targets[i].buzz is None && targets[i].nostr is None
        }),
{
}

/// A proposal's summary tells the schedule that counts: the one in words where
/// there is one, else the interval, else the one time.
pub proof fn the_schedule_that_counts_is_told(w: Seq<char>, e: Seq<char>, a: Seq<char>)
    ensures
        forall|x: Option<Seq<char>>, y: Option<Seq<char>>| #[trigger]
            schedule_text(Some(w), x, y) == w,
        forall|y: Option<Seq<char>>| #[trigger] schedule_text(None, Some(e), y) == "every "@ + e,
        schedule_text(None, None, Some(a)) == "once at "@ + a,
        schedule_text(None, None, None) == Seq::<char>::empty(),
{
}

/// Items are given one by one and keep their order; a blank one is passed
/// over, and any other stands without the white space around it.
pub proof fn items_are_given_one_by_one(
    a: Seq<Option<Seq<char>>>,
    b: Seq<Option<Seq<char>>>,
    item: Option<Seq<char>>,
)
    ensures
        given_items(a + b) == given_items(a) + given_items(b),
        item is Some && trimmed(item->0).len() > 0 ==> given_items(seq![item]) == seq![
            trimmed(item->0),
        ],
        item is None || trimmed(item->0).len() == 0 ==> given_items(seq![item]).len() == 0,
    decreases b.len(),
{
    assert(seq![item].drop_last() =~= Seq::<Option<Seq<char>>>::empty());
    assert(seq![item].last() == item);
    assert(given_items(Seq::<Option<Seq<char>>>::empty()) =~= Seq::empty());
    if item is Some && trimmed(item->0).len() > 0 {
        assert(given_items(seq![item]) =~= seq![trimmed(item->0)]);
    }
    if b.len() == 0 {
        assert(a + b =~= a);
        assert(given_items(a) + given_items(b) =~= given_items(a));
    } else {
        assert((a + b).drop_last() =~= a + b.drop_last());
        assert((a + b).last() == b.last());
        items_are_given_one_by_one(a, b.drop_last(), item);
        assert(given_items(a + b) =~= given_items(a) + given_items(b));
    }
}

/// A founding request is made wherever a name, a purpose and a reason are
/// given, is signed with who asks, and says what was asked for; else it is
/// refused for the first of them that is missing.
pub proof fn a_request_says_what_was_asked_for(
    a: AgentArgs,
    npub: Seq<char>,
    now: int,
    r: Result<FoundingRequest, ProposalError>,
)
    requires
        requested(a, npub, now, r),
    ensures
        ({
            let name = a.name is Some && trimmed(a.name->0@).len() > 0;
            let purpose = a.purpose is Some && trimmed(a.purpose->0@).len() > 0;
            let reason = a.reason is Some && trimmed(a.reason->0@).len() > 0;
            &&& r is Ok <==> name && purpose && reason
            &&& !name ==> r->Err_0 == ProposalError::NameRequired
            &&& name && !purpose ==> r->Err_0 == ProposalError::PurposeRequired
            &&& name && purpose && !reason ==> r->Err_0 == ProposalError::ReasonRequired
        }),
        r is Ok ==> {
            let request = r->Ok_0;
            &&& request.name@ == trimmed(a.name->0@)
            &&& request.purpose@ == trimmed(a.purpose->0@)
            &&& request.reason@ == trimmed(a.reason->0@)
            &&& request.by@ == npub
            &&& request.principles == a.principles && request.boundaries == a.boundaries
            &&& request.skills == a.skills && request.connectors == a.connectors
            &&& request.tokens_per_day == a.tokens_per_day
        },
{
}

/// A request is complete if and only if its name, its purpose and its reason
/// each say something.
pub proof fn what_makes_a_request_complete(request: FoundingRequest)
    ensures
        complete(request) <==> !(forall|i: int|
            0 <= i < request.name@.len() ==> is_white(#[trigger] request.name@[i])) && !(forall|
            i: int,
        |
            0 <= i < request.purpose@.len() ==> is_white(#[trigger] request.purpose@[i])) && !(
        forall|i: int| 0 <= i < request.reason@.len() ==> is_white(#[trigger] request.reason@[i])),
{
    only_white_space_is_blank(request.name@);
    only_white_space_is_blank(request.purpose@);
    only_white_space_is_blank(request.reason@);
}

/// An amendment is the manifest that was given, letter for letter.
pub proof fn an_amendment_is_what_was_given(
    yaml: Option<Seq<char>>,
    reason: Option<Seq<char>>,
    now: int,
    r: Result<Amendment, ProposalError>,
)
    requires
        amended(yaml, reason, now, r),
    ensures
        r is Ok <==> yaml is Some,
        r is Ok ==> r->Ok_0.yaml@ == yaml->0,
        r is Ok && reason is Some ==> r->Ok_0.meta.reason@ == reason->0,
        r is Ok && reason is None ==> r->Ok_0.meta.reason@.len() == 0,
        r is Err ==> r->Err_0 == ProposalError::YamlRequired,
{
}

/// A refusal says what is missing or what it would change, and passes on what
/// the manifest's rules say.
pub proof fn a_refused_proposal_says_why(error: String)
    ensures
        error_text(ProposalError::NameRequired) == "name required"@,
        error_text(ProposalError::TaskRequired) == "task required"@,
        error_text(ProposalError::PurposeRequired) == "purpose required"@,
        error_text(ProposalError::ReasonRequired) == "reason required"@,
        error_text(ProposalError::YamlRequired) == "yaml required"@,
        error_text((ProposalError::Invalid { error })) == error@,
        error_text(ProposalError::Identity) == "a proposal cannot change the agent's identity"@,
        error_text(ProposalError::SuspendKeys)
            == "a proposal cannot change who governs the agent (suspend_keys)"@,
        error_text(ProposalError::Incomplete)
            == "a founding request needs name, purpose, and reason"@,
{
}

/// A routine's summary names it, tells when it runs, and shows how its task
/// begins, up to 80 characters.
pub proof fn a_summary_tells_the_routine(r: Routine)
    requires
        r.when is Some,
    ensures
        r.task@.len() <= 80 ==> routine_summary(r) == "add routine '"@ + r.name@ + "' ("@
            + r.when->0@ + ") — "@ + r.task@,
        r.task@.len() > 80 ==> routine_summary(r) == "add routine '"@ + r.name@ + "' ("@
            + r.when->0@ + ") — "@ + r.task@.take(80),
{
}

/// A proposal is dated to the nanosecond, and tells what it is: a routine that
/// catches up on one missed run, or an amendment.
pub proof fn a_proposal_is_dated(
    a: RoutineArgs,
    now: int,
    r: Result<RoutineDraft, ProposalError>,
    yaml: Seq<char>,
    reason: Option<Seq<char>>,
    m: Result<Amendment, ProposalError>,
)
    requires
        drafted(a, now, r),
        amended(Some(yaml), reason, now, m),
    ensures
        r is Ok ==> r->Ok_0.meta.at@ == rfc3339(now / 1_000_000_000, now % 1_000_000_000),
        r is Ok ==> r->Ok_0.meta.kind@ == "routine"@ && r->Ok_0.routine.class@ == "routine"@
            && r->Ok_0.routine.catch_up@ == "one"@,
        r is Ok ==> r->Ok_0.meta.summary@ == routine_summary(r->Ok_0.routine),
        m is Ok && m->Ok_0.meta.at@ == rfc3339(now / 1_000_000_000, now % 1_000_000_000),
        m->Ok_0.meta.kind@ == "yaml"@ && m->Ok_0.meta.summary@ == "manifest amendment (yaml)"@,
{
}

/// A founding request is dated, and has the role that was given, or none.
pub proof fn a_request_is_dated_and_has_its_role(
    a: AgentArgs,
    npub: Seq<char>,
    now: int,
    request: FoundingRequest,
)
    requires
        requested(a, npub, now, Ok(request)),
    ensures
        request.at@ == rfc3339(now / 1_000_000_000, now % 1_000_000_000),
        a.role is Some && trimmed(a.role->0@).len() > 0 ==> request.role@ == trimmed(a.role->0@),
        a.role is None || trimmed(a.role->0@).len() == 0 ==> request.role@.len() == 0,
{
}

/// What a call asks for is read under its own names.
pub proof fn a_call_is_read_name_by_name(json: Seq<char>, r: RoutineArgs, a: AgentArgs)
    requires
        are_routine_args(json, r),
        are_agent_args(json, a),
    ensures
        opt_view(r.name) == json_text(json, "name"@),
        opt_view(r.task) == json_text(json, "task"@),
        opt_view(r.when) == json_text(json, "when"@),
        opt_view(r.every) == json_text(json, "every"@),
        opt_view(r.at) == json_text(json, "at"@),
        opt_view(r.tz) == json_text(json, "tz"@),
        opt_view(r.deliver_telegram) == json_text(json, "deliver_telegram"@),
        r.deliver_companion == json_flag(json, "deliver_companion"@),
        r.as_voice == json_flag(json, "as_voice"@),
        r.tokens_per_run == json_uint(json, "tokens_per_run"@),
        opt_view(r.reason) == json_text(json, "reason"@),
        opt_view(a.purpose) == json_text(json, "purpose"@),
        opt_view(a.role) == json_text(json, "role"@),
        a.tokens_per_day == json_uint(json, "tokens_per_day"@),
        json_texts(json, "principles"@) is Some ==> views(a.principles@) == given_items(
            json_texts(json, "principles"@)->0,
        ),
        json_texts(json, "boundaries"@) is Some ==> views(a.boundaries@) == given_items(
            json_texts(json, "boundaries"@)->0,
        ),
        json_texts(json, "skills"@) is Some ==> views(a.skills@) == given_items(
            json_texts(json, "skills"@)->0,
        ),
        json_texts(json, "connectors"@) is Some ==> views(a.connectors@) == given_items(
            json_texts(json, "connectors"@)->0,
        ),
        json_texts(json, "skills"@) is None ==> a.skills@.len() == 0,
{
    if json_texts(json, "skills"@) is None {
        assert(views(a.skills@).len() == a.skills@.len());
    }
}

} // verus!
