//! Errand pickup: the supervisor's promise-keeping side.
//!
//! `follow_up` files a request; this is the half that keeps it. On every
//! tick: run what is due, deliver it back where it was asked, and, the part
//! that matters most, say so out loud when it failed or went stale. Somebody
//! is waiting on every row.
//!
//! An errand run is an ordinary governed run. Two things are deliberately
//! different. It spends the RESPONSIVE lane, because a person asked for it;
//! and it carries `ask_requester` instead of `follow_up`, so an errand can
//! ask a question but can never file more work for itself.
use crate::charter::Delivery;
use crate::errands::{
    deadline_at, errand_task, expired, first_named, first_named_is_one, kept, on_file, owed,
    place_of, pruned, put_question, runnable, settled, state_name, task_text, tool_of, Door, Errand,
    ErrandsState, Parked, State, ToolError, KEPT_HOURS, MAX_PENDING,
};
use crate::json::{json_has, stands_under};
use crate::record::{text_or_null, time_or_null, Detail, DetailModel, EntryModel, Fields, LogEntry};
use crate::run::{Lane, RunRequest, RunResult};
use crate::text::{
    byte_len, bytes_in, copy_opt, first_chars, opt_view, same, signed_decimal, signed_decimal_of,
    starts_with, take_chars, trim, trimmed,
};
use crate::time::{on_calendar, opt_at, whole_secs, Moment, NANOS_PER_HOUR};
use vstd::prelude::*;

verus! {

/// The longest text an errand delivers, in characters.
pub const MAX_DELIVERED_CHARS: usize = 8000;

// ------------------------------------------------------------- where it goes

/// Where an errand's result goes: back where it was asked, never anywhere
/// else. `None` means this host cannot deliver to that platform, which is
/// worth saying rather than silently dropping the work.
pub fn delivery_to(errand: &Errand) -> (r: Option<Delivery>)
    ensures
        r == if errand.channel_kind@ == "buzz"@ {
            Some(
                Delivery {
                    telegram: None,
                    buzz: Some(errand.channel),
                    nostr: None,
                    companion: false,
                    as_voice: false,
                },
            )
        } else if errand.channel_kind@ == "telegram"@ {
            Some(
                Delivery {
                    telegram: Some(errand.channel),
                    buzz: None,
                    nostr: None,
                    companion: false,
                    as_voice: false,
                },
            )
        } else {
            None
        },
{
    let mut target = Delivery {
        telegram: None,
        buzz: None,
        nostr: None,
        companion: false,
        as_voice: false,
    };
    if same(errand.channel_kind.as_str(), "buzz") {
        target.buzz = Some(errand.channel.clone());
    } else if same(errand.channel_kind.as_str(), "telegram") {
        target.telegram = Some(errand.channel.clone());
    } else {
        return None;
    }
    Some(target)
}

// ------------------------------------------------------------- what is said

/// Something to say in the conversation an errand came from, and the action
/// under which the attempt is logged.
#[derive(Debug)]
pub struct Speech {
    pub text: String,
    pub action: String,
}

pub open spec fn expired_text(summary: Seq<char>) -> Seq<char> {
    "I did not get to this in time and have dropped it: "@ + summary
        + ". Ask me again if you still want it."@
}

/// Stale work is dropped, and SAID.
pub fn expired_speech(errand: &Errand) -> (r: Speech)
    ensures
        r.text@ == expired_text(errand.summary@),
        r.action@ == "errand.expired"@,
{
    let mut text = "I did not get to this in time and have dropped it: ".to_owned();
    text.append(errand.summary.as_str());
    text.append(". Ask me again if you still want it.");
    Speech { text, action: "errand.expired".to_owned() }
}

pub open spec fn cancelled_text(summary: Seq<char>) -> Seq<char> {
    "This has been called off and I will not be delivering it: "@ + summary + "."@
}

/// Cancelling silently would leave the person who asked waiting.
pub fn cancelled_speech(errand: &Errand) -> (r: Speech)
    ensures
        r.text@ == cancelled_text(errand.summary@),
        r.action@ == "errand.cancelled"@,
{
    let mut text = "This has been called off and I will not be delivering it: ".to_owned();
    text.append(errand.summary.as_str());
    text.append(".");
    Speech { text, action: "errand.cancelled".to_owned() }
}

pub open spec fn failed_text(summary: Seq<char>, reason: Seq<char>) -> Seq<char> {
    "I could not finish this after all: "@ + summary + ". What went wrong: "@ + reason + "."@
}

/// Failure, said out loud in the room where the promise was made.
pub fn failed_speech(errand: &Errand, reason: &str) -> (r: Speech)
    ensures
        r.text@ == failed_text(errand.summary@, reason@),
        r.action@ == "errand.failed"@,
{
    let mut text = "I could not finish this after all: ".to_owned();
    text.append(errand.summary.as_str());
    text.append(". What went wrong: ");
    text.append(reason);
    text.append(".");
    Speech { text, action: "errand.failed".to_owned() }
}

/// The note the cockpit shows for an errand that failed.
pub fn failed_note(errand: &Errand, reason: &str) -> (r: String)
    ensures
        r@ == "failed · "@ + errand.summary@ + " · "@ + reason@,
{
    let mut out = "failed · ".to_owned();
    out.append(errand.summary.as_str());
    out.append(" · ");
    out.append(reason);
    out
}

/// The note the cockpit shows for an errand that was delivered, with the
/// seconds it took.
pub fn delivered_note(errand: &Errand, started: Moment, now: Moment) -> (r: String)
    ensures
        r@ == "delivered · "@ + errand.summary@ + " · "@ + signed_decimal(
            whole_secs(now@ - started@),
        ) + "s"@,
{
    let mut out = "delivered · ".to_owned();
    out.append(errand.summary.as_str());
    out.append(" · ");
    out.append(signed_decimal_of(now.secs_since(started)).as_str());
    out.append("s");
    out
}

/// The note the cockpit shows while something holds a run back.
pub fn waiting_note(reason: &str) -> (r: String)
    ensures
        r@ == "waiting: "@ + reason@,
{
    let mut out = "waiting: ".to_owned();
    out.append(reason);
    out
}

/// What became of a delivery, as it is logged: the platform's reply where
/// the host can deliver there, else why it cannot.
pub open spec fn delivered_detail(errand: Errand, reply: Option<Seq<char>>) -> DetailModel {
    match reply {
        Some(json) => DetailModel::Json(json),
        None => DetailModel::Failure(
            "this host cannot deliver to "@ + errand.channel_kind@
                + " — the work has nowhere to land"@,
        ),
    }
}

/// The log entry of an attempt to say something.
pub open spec fn speech_model(
    errand: Errand,
    text: Seq<char>,
    action: Seq<char>,
    delivered: DetailModel,
    undelivered: bool,
) -> EntryModel {
    EntryModel {
        action,
        model: None,
        harness: Some("native"@),
        outcome: if undelivered {
            "undelivered"@
        } else {
            "delivered"@
        },
        detail: seq![
            ("errand"@, DetailModel::Text(errand.id@)),
            ("summary"@, DetailModel::Text(errand.summary@)),
            ("channel_kind"@, DetailModel::Text(errand.channel_kind@)),
            ("channel"@, DetailModel::Text(errand.channel@)),
            ("requested_by"@, DetailModel::Text(errand.requested_by@)),
            ("delivered"@, delivered),
            ("response_chars"@, DetailModel::Count(byte_len(text))),
        ],
    }
}

/// The log entry of an attempt to say something, given what became of the
/// delivery.
pub fn speech_entry(errand: &Errand, speech: &Speech, delivered: Detail, undelivered: bool) -> (r:
    LogEntry)
    ensures
        r@ == speech_model(*errand, speech.text@, speech.action@, delivered@, undelivered),
{
    let mut detail = Fields::new();
    detail.text("errand", errand.id.as_str());
    detail.text("summary", errand.summary.as_str());
    detail.text("channel_kind", errand.channel_kind.as_str());
    detail.text("channel", errand.channel.as_str());
    detail.text("requested_by", errand.requested_by.as_str());
    detail.put("delivered", delivered);
    detail.count("response_chars", bytes_in(speech.text.as_str()) as u64);
    let entry = LogEntry {
        action: speech.action.clone(),
        model: None,
        harness: Some("native".to_owned()),
        outcome: if undelivered {
            "undelivered".to_owned()
        } else {
            "delivered".to_owned()
        },
        detail,
    };
    assert(entry@.detail == speech_model(
        *errand,
        speech.text@,
        speech.action@,
        delivered@,
        undelivered,
    ).detail);
    entry
}

/// The log entry of an attempt to say something, given the JSON that the
/// platform replied with, if the host could deliver there at all. A delivery
/// failing is itself worth a log line: that is the case where a person is
/// left waiting and nobody knows.
pub fn spoken(errand: &Errand, speech: &Speech, reply: &Option<String>) -> (r: LogEntry)
    ensures
        r@ == speech_model(
            *errand,
            speech.text@,
            speech.action@,
            delivered_detail(*errand, opt_view(*reply)),
            match opt_view(*reply) {
                Some(json) => json_has(json, "error"@),
                None => true,
            },
        ),
{
    match reply {
        Some(json) => {
            let undelivered = stands_under(json.as_str(), "error");
            speech_entry(errand, speech, Detail::Json(json.clone()), undelivered)
        },
        None => {
            let mut why = "this host cannot deliver to ".to_owned();
            why.append(errand.channel_kind.as_str());
            why.append(" — the work has nowhere to land");
            speech_entry(errand, speech, Detail::Failure(why), true)
        },
    }
}

// ------------------------------------------------------------- one tick

pub const NOT_RUN_IN_TIME: &'static str = "not run in time";

/// `after` is `before`, given up at `now` where it has expired.
pub open spec fn swept_one(before: Errand, after: Errand, now: int) -> bool {
    if expired(before, now) {
        given_up(before, after)
    } else {
        after == before
    }
}

/// `after` is `before`, marked as expired.
pub open spec fn given_up(before: Errand, after: Errand) -> bool {
    &&& after.outcome is Some && after.outcome->0@ == NOT_RUN_IN_TIME@
    &&& after == Errand { state: State::Expired, outcome: after.outcome, ..before }
}

/// Filed less than a day before `now`.
pub open spec fn recent(e: Errand, now: int) -> bool {
    now - e.filed_at@ < KEPT_HOURS * NANOS_PER_HOUR
}

/// The errands that a sweep at `now` gives up.
pub open spec fn stale(errands: Seq<Errand>, now: int) -> Seq<Errand> {
    errands.filter(|e: Errand| expired(e, now))
}

/// The errands that are still on file after a sweep at `now`, as they were
/// before it: what is owed and not expired, and what is recent.
pub open spec fn surviving(errands: Seq<Errand>, now: int) -> Seq<Errand> {
    errands.filter(
        |e: Errand| (!settled(e.state) && !expired(e, now)) || recent(e, now),
    )
}

/// Two lists of errands related one by one, as a sweep relates them.
pub open spec fn all_swept(before: Seq<Errand>, after: Seq<Errand>, now: int) -> bool {
    &&& after.len() == before.len()
    &&& forall|i: int|
        #![trigger after[i]]
        #![trigger before[i]]
        0 <= i < before.len() ==> swept_one(before[i], after[i], now)
}

proof fn pruning_what_was_swept(before: Seq<Errand>, marked: Seq<Errand>, now: int)
    requires
        all_swept(before, marked, now),
    ensures
        all_swept(surviving(before, now), pruned(marked, now), now),
    decreases before.len(),
{
    reveal(Seq::filter);
    if before.len() > 0 {
        let b = before.drop_last();
        let m = marked.drop_last();
        assert(all_swept(b, m, now)) by {
            assert forall|i: int| 0 <= i < b.len() implies swept_one(b[i], m[i], now) by {
                assert(b[i] == before[i] && m[i] == marked[i]);
            }
        }
        pruning_what_was_swept(b, m, now);
        assert(swept_one(before.last(), marked.last(), now)) by {
            assert(before.last() == before[before.len() - 1]);
        }
        assert(kept(marked.last(), now) == ((!settled(before.last().state) && !expired(
            before.last(),
            now,
        )) || recent(before.last(), now)));
    }
}

/// Give up what has gone stale, and drop settled work that is a day old.
/// What was given up is returned: a person is still waiting on every one of
/// these, and each is to be told.
pub fn sweep(state: &mut ErrandsState, now: Moment) -> (r: Vec<Errand>)
    ensures
        all_swept(surviving(old(state).errands@, now@), final(state).errands@, now@),
        r@.len() == stale(old(state).errands@, now@).len(),
        forall|k: int|
            #![trigger r@[k]]
            0 <= k < r@.len() ==> given_up(stale(old(state).errands@, now@)[k], r@[k]),
{
    let mut dropped: Vec<Errand> = Vec::new();
    let ghost before = state.errands@;
    let ghost pred = |e: Errand| expired(e, now@);
    let mut i: usize = 0;
    assert(before.take(0).filter(pred) == Seq::<Errand>::empty());
    while i < state.errands.len()
        invariant
            i <= state.errands@.len(),
            state.errands@.len() == before.len(),
            pred == (|e: Errand| expired(e, now@)),
            forall|j: int|
                #![trigger state.errands@[j]]
                #![trigger before[j]]
                0 <= j < i ==> swept_one(before[j], state.errands@[j], now@),
            forall|j: int|
                #![trigger state.errands@[j]]
                #![trigger before[j]]
                i <= j < before.len() ==> state.errands@[j] == before[j],
            dropped@.len() == before.take(i as int).filter(pred).len(),
            forall|k: int|
                #![trigger dropped@[k]]
                0 <= k < dropped@.len() ==> given_up(
                    before.take(i as int).filter(pred)[k],
                    dropped@[k],
                ),
        decreases before.len() - i,
    {
        proof {
            reveal(Seq::filter);
            assert(before.take(i + 1).drop_last() == before.take(i as int));
            assert(before.take(i + 1).last() == before[i as int]);
        }
        assert(state.errands@[i as int] == before[i as int]);
        if state.errands[i].is_expired(now) {
            let given_up = Errand {
                state: State::Expired,
                outcome: Some(NOT_RUN_IN_TIME.to_owned()),
                ..state.errands[i].clone()
            };
            dropped.push(given_up.clone());
            state.errands.set(i, given_up);
        }
        i += 1;
    }
    assert(before.take(i as int) == before);
    proof {
        pruning_what_was_swept(before, state.errands@, now@);
    }
    state.prune(now);
    dropped
}

/// The key of a run in flight: the agent and the name of the work.
pub open spec fn run_key(npub: Seq<char>, name: Seq<char>) -> Seq<char> {
    npub + "/"@ + name
}

/// The key of a run in flight.
pub fn key_of(npub: &str, name: &str) -> (r: String)
    ensures
        r@ == run_key(npub@, name@),
{
    let mut out = npub.to_owned();
    out.append("/");
    out.append(name);
    out
}

/// Some run of this agent is in flight.
pub open spec fn agent_busy(npub: Seq<char>, busy: Seq<String>) -> bool {
    exists|i: int|
        #![trigger busy[i]]
        0 <= i < busy.len() && (npub + "/"@).is_prefix_of(busy[i]@)
}

/// The first errand that can run at `now` stands at `i`.
pub open spec fn first_runnable(errands: Seq<Errand>, now: int, i: int) -> bool {
    &&& 0 <= i < errands.len()
    &&& runnable(errands[i], now)
    &&& forall|j: int| #![trigger errands[j]] 0 <= j < i ==> !runnable(errands[j], now)
}

/// The errand to run next, if any. One at a time per agent: someone waiting
/// on two things would rather have the first than half of both. `busy` holds
/// the keys of the runs in flight.
pub fn next_run(state: &ErrandsState, npub: &str, busy: &Vec<String>, now: Moment) -> (r: Option<
    usize,
>)
    ensures
        r matches Some(i) ==> !agent_busy(npub@, busy@) && first_runnable(
            state.errands@,
            now@,
            i as int,
        ),
        r is None ==> agent_busy(npub@, busy@) || forall|j: int|
            #![trigger state.errands@[j]]
            0 <= j < state.errands@.len() ==> !runnable(state.errands@[j], now@),
{
    let prefix = key_of(npub, "");
    assert(prefix@ == npub@ + "/"@) by {
        reveal_strlit("");
    }
    let mut b: usize = 0;
    while b < busy.len()
        invariant
            b <= busy@.len(),
            prefix@ == npub@ + "/"@,
            forall|j: int|
                #![trigger busy@[j]]
                0 <= j < b ==> !(npub@ + "/"@).is_prefix_of(busy@[j]@),
        decreases busy@.len() - b,
    {
        if starts_with(busy[b].as_str(), prefix.as_str()) {
            assert((npub@ + "/"@).is_prefix_of(busy@[b as int]@));
            return None;
        }
        b += 1;
    }
    let mut i: usize = 0;
    while i < state.errands.len()
        invariant
            i <= state.errands@.len(),
            !agent_busy(npub@, busy@),
            forall|j: int|
                #![trigger state.errands@[j]]
                0 <= j < i ==> !runnable(state.errands@[j], now@),
        decreases state.errands@.len() - i,
    {
        if state.errands[i].is_runnable(now) {
            return Some(i);
        }
        i += 1;
    }
    None
}

/// An errand with this name is on file, and settled.
pub open spec fn settled_on_file(errands: Seq<Errand>, id: Seq<char>) -> bool {
    on_file(errands, id) && settled(errands[place_of(errands, id)].state)
}

/// The errands with the one of this name marked, unless it is settled: then
/// nothing more happens to it.
pub open spec fn marked(
    errands: Seq<Errand>,
    id: Seq<char>,
    to: State,
    outcome: Option<String>,
) -> Seq<Errand> {
    if on_file(errands, id) && !settled_on_file(errands, id) {
        let i = place_of(errands, id);
        let e = errands[i];
        errands.update(
            i,
            Errand {
                state: to,
                outcome: if outcome is Some {
                    outcome
                } else {
                    e.outcome
                },
                ..e
            },
        )
    } else {
        errands
    }
}

/// The errands with the one of this name claimed.
pub open spec fn claimed(errands: Seq<Errand>, id: Seq<char>) -> Seq<Errand> {
    marked(errands, id, State::Running, None)
}

/// Claim an errand before its run, so that a host that dies mid-errand
/// leaves a running row that expires honestly rather than one that reruns
/// forever.
pub fn claim(state: &mut ErrandsState, id: &str)
    ensures
        final(state).errands@ == claimed(old(state).errands@, id@),
{
    mark(state, id, State::Running, None);
}

/// Record a state, and an outcome where there is one. What is settled stays
/// as it is.
pub fn mark(state: &mut ErrandsState, id: &str, to: State, outcome: Option<String>)
    ensures
        final(state).errands@ == marked(old(state).errands@, id@, to, outcome),
{
    if let Some(i) = state.find(id) {
        if state.errands[i].state.is_settled() {
            return;
        }
        state.errands[i].state = to;
        if outcome.is_some() {
            state.errands[i].outcome = outcome;
        }
    }
}

/// What a tick comes to: whom to tell that their work was dropped, and what
/// to run next.
#[derive(Debug)]
pub struct Tick {
    pub dropped: Vec<Errand>,
    pub next: Option<Errand>,
}

/// One supervisor tick over an agent's errands.
pub fn tick(state: &mut ErrandsState, npub: &str, busy: &Vec<String>, now: Moment) -> (r: Tick)
    ensures
        all_swept(surviving(old(state).errands@, now@), final(state).errands@, now@),
        r.dropped@.len() == stale(old(state).errands@, now@).len(),
        forall|k: int|
            #![trigger r.dropped@[k]]
            0 <= k < r.dropped@.len() ==> given_up(
                stale(old(state).errands@, now@)[k],
                r.dropped@[k],
            ),
        r.next matches Some(e) ==> !agent_busy(npub@, busy@) && exists|i: int|
            #[trigger] first_runnable(final(state).errands@, now@, i) && e
                == final(state).errands@[i],
        r.next is None ==> agent_busy(npub@, busy@) || forall|j: int|
            #![trigger final(state).errands@[j]]
            0 <= j < final(state).errands@.len() ==> !runnable(final(state).errands@[j], now@),
{
    let dropped = sweep(state, now);
    let next = match next_run(state, npub, busy, now) {
        Some(i) => Some(state.errands[i].clone()),
        None => None,
    };
    Tick { dropped, next }
}

/// Whether an errand that is due runs now.
#[derive(Debug)]
pub enum Gate {
    Waiting { note: String },
    Go { request: RunRequest },
}

/// Let an errand through the gates. Where one holds, and says why, nothing
/// changes; else the errand is claimed and its run is asked for.
pub fn pass_gate(
    state: &mut ErrandsState,
    errand: &Errand,
    held: &Option<String>,
    agent_dir: &str,
    harness: &Option<String>,
) -> (r: Gate)
    ensures
        held matches Some(reason) ==> {
            &&& *final(state) == *old(state)
            &&& r matches Gate::Waiting { note }
            &&& note@ == "waiting: "@ + reason@
        },
        held is None ==> {
            &&& final(state).errands@ == claimed(old(state).errands@, errand.id@)
            &&& r matches Gate::Go { request }
            &&& is_errand_run(request, *errand, agent_dir@, *harness)
        },
{
    match held {
        Some(reason) => Gate::Waiting { note: waiting_note(reason.as_str()) },
        None => {
            claim(state, errand.id.as_str());
            Gate::Go { request: errand_run(errand, agent_dir, harness) }
        },
    }
}

// ------------------------------------------------------------- the run

/// `r` is the run that finishes this errand: the responsive lane, the
/// errand's own token ceiling, and a door that asks.
pub open spec fn is_errand_run(
    r: RunRequest,
    errand: Errand,
    agent_dir: Seq<char>,
    harness: Option<String>,
) -> bool {
    &&& r.task@ == errand_task(errand)
    &&& opt_view(r.task_class) == Some("errand"@)
    &&& r.tokens_per_run == Some(errand.tokens)
    &&& r.lane == Some(Lane::Responsive)
    &&& r.harness == harness
    &&& r.door is Some
    &&& r.door->0.agent_dir@ == agent_dir
    &&& r.door->0.channel_kind == errand.channel_kind
    &&& r.door->0.channel == errand.channel
    &&& r.door->0.requested_by == errand.requested_by
    &&& r.door->0.reply_ref == errand.reply_ref
    &&& r.door->0.errand_id == Some(errand.id)
}

/// The run that finishes an errand. Its door carries the asking tool.
pub fn errand_run(errand: &Errand, agent_dir: &str, harness: &Option<String>) -> (r: RunRequest)
    ensures
        is_errand_run(r, *errand, agent_dir@, *harness),
        tool_of(r.door->0) is Asks,
{
    RunRequest {
        task: task_text(errand),
        task_class: Some("errand".to_owned()),
        tokens_per_run: Some(errand.tokens),
        lane: Some(Lane::Responsive),
        harness: copy_opt(harness),
        door: Some(
            Door {
                agent_dir: agent_dir.to_owned(),
                channel_kind: errand.channel_kind.clone(),
                channel: errand.channel.clone(),
                requested_by: errand.requested_by.clone(),
                reply_ref: copy_opt(&errand.reply_ref),
                errand_id: Some(errand.id.clone()),
            },
        ),
    }
}

/// How an errand's run ended, for the person who asked.
#[derive(Debug)]
pub enum Ending {
    /// It parked itself on a question, which is posted; the errand is as the
    /// run left it.
    Asked { errand: Errand, speech: Speech, note: String },
    /// There is something to deliver.
    Delivered { speech: Speech, outcome: String },
    /// There is nothing to deliver, and this is said.
    Failed { reason: String },
    /// It was settled while the run was in flight, and that was said then:
    /// nothing more is. The errand is as it was settled.
    Settled { errand: Errand },
}

pub const NOTHING_PRODUCED: &'static str = "the run finished without producing anything";

pub open spec fn question_text(e: Errand) -> Seq<char> {
    "About "@ + e.summary@ + " — "@ + match e.question {
        Some(q) => q@,
        None => Seq::empty(),
    }
}

/// `r` is how the run of the errand `id` ended, where `errands` are those on
/// file after it.
pub open spec fn concluded(
    errands: Seq<Errand>,
    id: Seq<char>,
    result: RunResult,
    r: Ending,
) -> bool {
    if on_file(errands, id) && errands[place_of(errands, id)].state == State::Asked {
        let e = errands[place_of(errands, id)];
        &&& r matches Ending::Asked { errand, speech, note }
        &&& errand == e
        &&& speech.text@ == question_text(e)
        &&& speech.action@ == "errand.asked"@
        &&& note@ == "asked a question · "@ + e.summary@
    } else if settled_on_file(errands, id) {
        r == Ending::Settled { errand: errands[place_of(errands, id)] }
    } else {
        match result {
            RunResult::Done(done) => if trimmed(done.text@).len() > 0 {
                &&& r matches Ending::Delivered { speech, outcome }
                &&& speech.text@ == first_chars(trimmed(done.text@), MAX_DELIVERED_CHARS as int)
                &&& speech.action@ == "errand.run"@
                &&& outcome == done.outcome
            } else {
                r matches Ending::Failed { reason } && reason@ == NOTHING_PRODUCED@
            },
            RunResult::Failed { error } => r matches Ending::Failed { reason } && reason == error,
        }
    }
}

/// How an errand's run ended. The run may have parked itself by asking, or
/// the errand may have been called off or have gone stale meanwhile, so what
/// is on file after it decides first. A run that produced nothing is a
/// failure here, not a quiet success: this one was promised to somebody.
pub fn conclude(state: &ErrandsState, id: &str, result: &RunResult) -> (r: Ending)
    ensures
        concluded(state.errands@, id@, *result, r),
{
    if let Some(i) = state.find(id) {
        let current = &state.errands[i];
        assert(*current == state.errands@[place_of(state.errands@, id@)]);
        if current.state == State::Asked {
            let mut text = "About ".to_owned();
            text.append(current.summary.as_str());
            text.append(" — ");
            if let Some(q) = &current.question {
                text.append(q.as_str());
            }
            let mut note = "asked a question · ".to_owned();
            note.append(current.summary.as_str());
            let speech = Speech { text, action: "errand.asked".to_owned() };
            assert(speech.text@ == question_text(*current));
            return Ending::Asked { errand: current.clone(), speech, note };
        }
        if current.state.is_settled() {
            return Ending::Settled { errand: current.clone() };
        }
    }
    match result {
        RunResult::Done(done) => {
            let text = trim(done.text.as_str());
            if text.as_str().unicode_len() > 0 {
                let text = take_chars(text.as_str(), MAX_DELIVERED_CHARS);
                Ending::Delivered {
                    speech: Speech { text, action: "errand.run".to_owned() },
                    outcome: done.outcome.clone(),
                }
            } else {
                Ending::Failed { reason: NOTHING_PRODUCED.to_owned() }
            }
        },
        RunResult::Failed { error } => Ending::Failed { reason: error.clone() },
    }
}

/// What is left to do once an errand's run has ended: say this of that
/// errand, unless everything was said; mark it so, unless it is parked or
/// settled; and note this for the cockpit.
#[derive(Debug)]
pub struct Settlement {
    pub errand: Errand,
    pub speech: Option<Speech>,
    pub mark: Option<(State, String)>,
    pub note: String,
}

/// What each way a run can end leaves to do.
pub open spec fn settles(errand: Errand, ending: Ending, secs: int, r: Settlement) -> bool {
    match ending {
        Ending::Asked { errand: parked, speech, note } => {
            r == Settlement { errand: parked, speech: Some(speech), mark: None, note }
        },
        Ending::Delivered { speech, outcome } => {
            &&& r.errand == errand
            &&& r.speech == Some(speech)
            &&& r.mark == Some((State::Delivered, outcome))
            &&& r.note@ == "delivered · "@ + errand.summary@ + " · "@ + signed_decimal(secs) + "s"@
        },
        Ending::Failed { reason } => {
            &&& r.errand == errand
            &&& r.speech is Some
            &&& r.speech->0.text@ == failed_text(errand.summary@, reason@)
            &&& r.speech->0.action@ == "errand.failed"@
            &&& r.mark == Some((State::Failed, reason))
            &&& r.note@ == "failed · "@ + errand.summary@ + " · "@ + reason@
        },
        Ending::Settled { errand: done } => {
            &&& r.errand == done
            &&& r.speech is None
            &&& r.mark is None
            &&& r.note@ == "already "@ + state_name(done.state) + " · "@ + done.summary@
        },
    }
}

/// Settle an errand whose run has ended. Every way out either delivers
/// something or says why it could not, unless the errand was settled before,
/// and that was said.
pub fn settle(errand: &Errand, ending: Ending, started: Moment, now: Moment) -> (r: Settlement)
    ensures
        settles(*errand, ending, whole_secs(now@ - started@), r),
{
    match ending {
        Ending::Asked { errand, speech, note } => Settlement {
            errand,
            speech: Some(speech),
            mark: None,
            note,
        },
        Ending::Delivered { speech, outcome } => Settlement {
            errand: errand.clone(),
            speech: Some(speech),
            mark: Some((State::Delivered, outcome)),
            note: delivered_note(errand, started, now),
        },
        Ending::Failed { reason } => {
            let speech = failed_speech(errand, reason.as_str());
            let note = failed_note(errand, reason.as_str());
            Settlement {
                errand: errand.clone(),
                speech: Some(speech),
                mark: Some((State::Failed, reason)),
                note,
            }
        },
        Ending::Settled { errand } => {
            let mut note = "already ".to_owned();
            note.append(errand.state.name());
            note.append(" · ");
            note.append(errand.summary.as_str());
            Settlement { errand, speech: None, mark: None, note }
        },
    }
}

// ------------------------------------------------------------- the endpoints

/// Which errand to call off.
#[derive(Debug)]
pub struct CancelBody {
    pub id: String,
}

pub const NOT_OUTSTANDING: &'static str = "no outstanding work with that id";

pub const BY_THE_GOVERNOR: &'static str = "cancelled by the governor";

/// The errand at `i` is the first of that name that is still owed.
pub open spec fn first_owed(errands: Seq<Errand>, id: Seq<char>, i: int) -> bool {
    &&& 0 <= i < errands.len()
    &&& errands[i].id@ == id && !settled(errands[i].state)
    &&& forall|j: int|
        #![trigger errands[j]]
        0 <= j < i ==> errands[j].id@ != id || settled(errands[j].state)
}

/// Call off an errand that is still owed. The errand as it now stands is
/// returned: the person who asked for it is to be told.
pub fn cancel(state: &mut ErrandsState, body: &CancelBody) -> (r: Result<Errand, &'static str>)
    ensures
        r matches Ok(e) ==> exists|i: int|
            {
                &&& #[trigger] first_owed(old(state).errands@, body.id@, i)
                &&& e.outcome is Some && e.outcome->0@ == BY_THE_GOVERNOR@
                &&& e == Errand {
                    state: State::Cancelled,
                    outcome: e.outcome,
                    ..old(state).errands@[i]
                }
                &&& final(state).errands@ == old(state).errands@.update(i, e)
            },
        r matches Err(why) ==> why@ == NOT_OUTSTANDING@ && *final(state) == *old(state)
            && forall|j: int|
            #![trigger old(state).errands@[j]]
            0 <= j < old(state).errands@.len() ==> old(state).errands@[j].id@ != body.id@
                || settled(old(state).errands@[j].state),
{
    let mut i: usize = 0;
    while i < state.errands.len()
        invariant
            i <= state.errands@.len(),
            *state == *old(state),
            forall|j: int|
                #![trigger state.errands@[j]]
                0 <= j < i ==> state.errands@[j].id@ != body.id@ || settled(
                    state.errands@[j].state,
                ),
        decreases state.errands@.len() - i,
    {
        if same(state.errands[i].id.as_str(), body.id.as_str())
            && state.errands[i].state.is_outstanding() {
            assert(first_owed(state.errands@, body.id@, i as int));
            let off = Errand {
                state: State::Cancelled,
                outcome: Some(BY_THE_GOVERNOR.to_owned()),
                ..state.errands[i].clone()
            };
            state.errands.set(i, off.clone());
            return Ok(off);
        }
        i += 1;
    }
    Err(NOT_OUTSTANDING)
}

/// Where the cockpit's note on a piece of an agent's work is kept.
pub open spec fn note_key(npub: Seq<char>, name: Seq<char>) -> Seq<char> {
    npub + ":routine:"@ + name
}

/// Where the cockpit's note on a piece of an agent's work is kept.
pub fn note_key_of(npub: &str, name: &str) -> (r: String)
    ensures
        r@ == note_key(npub@, name@),
{
    let mut out = npub.to_owned();
    out.append(":routine:");
    out.append(name);
    out
}

/// `key` is among the runs in flight.
pub open spec fn in_flight(key: Seq<char>, busy: Seq<String>) -> bool {
    exists|i: int| #![trigger busy[i]] 0 <= i < busy.len() && busy[i]@ == key
}

/// Is `key` among the runs in flight?
pub fn is_in_flight(key: &str, busy: &Vec<String>) -> (r: bool)
    ensures
        r == in_flight(key@, busy@),
{
    let mut i: usize = 0;
    while i < busy.len()
        invariant
            i <= busy@.len(),
            forall|j: int| #![trigger busy@[j]] 0 <= j < i ==> busy@[j]@ != key@,
        decreases busy@.len() - i,
    {
        if same(busy[i].as_str(), key) {
            return true;
        }
        i += 1;
    }
    false
}

/// One errand as the cockpit shows it.
pub open spec fn errand_row(
    e: Errand,
    npub: Seq<char>,
    busy: Seq<String>,
    note: Option<Seq<char>>,
) -> Seq<(Seq<char>, DetailModel)> {
    seq![
        ("id"@, DetailModel::Text(e.id@)),
        ("summary"@, DetailModel::Text(e.summary@)),
        ("task"@, DetailModel::Text(e.task@)),
        ("state"@, DetailModel::Text(state_name(e.state))),
        ("channel_kind"@, DetailModel::Text(e.channel_kind@)),
        ("channel"@, DetailModel::Text(e.channel@)),
        ("requested_by"@, DetailModel::Text(e.requested_by@)),
        ("filed_at"@, DetailModel::Time(e.filed_at@)),
        ("start_after"@, time_or_null(opt_at(e.start_after))),
        ("deadline"@, DetailModel::Time(deadline_at(e))),
        ("question"@, text_or_null(opt_view(e.question))),
        ("answer"@, text_or_null(opt_view(e.answer))),
        ("outcome"@, text_or_null(opt_view(e.outcome))),
        ("running"@, DetailModel::Flag(in_flight(run_key(npub, e.id@), busy))),
        ("note"@, text_or_null(note)),
    ]
}

/// One errand as the cockpit shows it. `note` is what is kept under its note
/// key.
pub fn row(errand: &Errand, npub: &str, busy: &Vec<String>, note: &Option<String>) -> (r: Fields)
    requires
        on_calendar(deadline_at(*errand)),
    ensures
        r@ == errand_row(*errand, npub@, busy@, opt_view(*note)),
{
    let mut f = Fields::new();
    f.text("id", errand.id.as_str());
    f.text("summary", errand.summary.as_str());
    f.text("task", errand.task.as_str());
    f.text("state", errand.state.name());
    f.text("channel_kind", errand.channel_kind.as_str());
    f.text("channel", errand.channel.as_str());
    f.text("requested_by", errand.requested_by.as_str());
    f.put("filed_at", Detail::Time(errand.filed_at));
    f.opt_time("start_after", errand.start_after);
    f.put("deadline", Detail::Time(errand.deadline()));
    f.opt_text("question", &errand.question);
    f.opt_text("answer", &errand.answer);
    f.opt_text("outcome", &errand.outcome);
    f.flag("running", is_in_flight(key_of(npub, errand.id.as_str()).as_str(), busy));
    f.opt_text("note", note);
    assert(f@ == errand_row(*errand, npub@, busy@, opt_view(*note)));
    f
}

/// What stands beside the rows: how much is owed, and how much may be.
pub fn totals(state: &ErrandsState) -> (r: (usize, usize))
    ensures
        r.0 == owed(state.errands@).len(),
        r.1 == MAX_PENDING,
{
    let list = state.outstanding();
    assert(list@.len() == owed(state.errands@).len());
    (list.len(), MAX_PENDING)
}

// ------------------------------------------------------------- laws

/// Owed at `now`, and not yet expired.
pub open spec fn live(e: Errand, now: int) -> bool {
    !settled(e.state) && !expired(e, now)
}

/// After a sweep nothing on file is stale.
pub proof fn a_sweep_leaves_nothing_stale(before: Seq<Errand>, after: Seq<Errand>, now: int, i: int)
    requires
        all_swept(surviving(before, now), after, now),
        0 <= i < after.len(),
    ensures
        !expired(after[i], now),
{
    assert(swept_one(surviving(before, now)[i], after[i], now));
}

proof fn owed_after(before: Seq<Errand>, after: Seq<Errand>, now: int)
    requires
        all_swept(before, after, now),
    ensures
        owed(after) == before.filter(|e: Errand| live(e, now)),
    decreases before.len(),
{
    reveal(Seq::filter);
    if before.len() > 0 {
        let b = before.drop_last();
        let a = after.drop_last();
        assert(all_swept(b, a, now)) by {
            assert forall|i: int| 0 <= i < b.len() implies swept_one(b[i], a[i], now) by {
                assert(b[i] == before[i] && a[i] == after[i]);
            }
        }
        owed_after(b, a, now);
        assert(swept_one(before.last(), after.last(), now)) by {
            assert(before.last() == before[before.len() - 1]);
        }
    }
}

proof fn live_work_survives(errands: Seq<Errand>, now: int)
    ensures
        surviving(errands, now).filter(|e: Errand| live(e, now)) == errands.filter(
            |e: Errand| live(e, now),
        ),
    decreases errands.len(),
{
    reveal(Seq::filter);
    if errands.len() > 0 {
        live_work_survives(errands.drop_last(), now);
        let rest = surviving(errands.drop_last(), now);
        let e = errands.last();
        if live(e, now) || recent(e, now) {
            assert(surviving(errands, now) == rest.push(e));
            assert(rest.push(e).drop_last() == rest);
        }
    }
}

/// A sweep drops no promise that can still be kept: what is owed after it is
/// what was owed before it and has not expired, untouched and in order.
pub proof fn a_sweep_keeps_every_live_promise(before: Seq<Errand>, after: Seq<Errand>, now: int)
    requires
        all_swept(surviving(before, now), after, now),
    ensures
        owed(after) == before.filter(|e: Errand| live(e, now)),
{
    owed_after(surviving(before, now), after, now);
    live_work_survives(before, now);
}

/// While any run of an agent is in flight the agent is busy, so that nothing
/// of it is picked up: one at a time per agent.
pub proof fn one_at_a_time(npub: Seq<char>, name: Seq<char>, busy: Seq<String>)
    requires
        in_flight(run_key(npub, name), busy),
    ensures
        agent_busy(npub, busy),
{
    let i = choose|i: int|
        #![trigger busy[i]]
        0 <= i < busy.len() && busy[i]@ == run_key(npub, name);
    assert((npub + "/"@).is_prefix_of(busy[i]@)) by {
        assert(busy[i]@.subrange(0, (npub + "/"@).len() as int) == npub + "/"@);
    }
}

/// An errand that was claimed is not picked up again; if its host dies, it
/// expires at its deadline like any other.
pub proof fn a_claimed_errand_is_not_run_twice(e: Errand, now: int)
    ensures
        !runnable(Errand { state: State::Running, ..e }, now),
        now >= deadline_at(e) ==> expired(Errand { state: State::Running, ..e }, now),
{
}

/// Every way a run can end tells the person who asked something, and either
/// settles the errand or leaves it parked on a question, unless the errand
/// was settled while the run was in flight: there is no silent path out.
pub proof fn there_is_no_silent_way_out(
    errands: Seq<Errand>,
    errand: Errand,
    result: RunResult,
    ending: Ending,
    secs: int,
    r: Settlement,
)
    requires
        concluded(errands, errand.id@, result, ending),
        settles(errand, ending, secs, r),
        !settled_on_file(errands, errand.id@),
    ensures
        r.speech is Some,
        r.speech->0.text@.len() > 0,
        r.mark matches Some((state, _)) ==> settled(state),
        r.mark is None ==> r.errand.state == State::Asked,
{
    reveal_strlit("About ");
    reveal_strlit("I could not finish this after all: ");
}

/// What is settled stays settled: where an errand was called off, or went
/// stale, while its run was in flight, nothing is said at the end of the run,
/// nothing is to be marked, and no marking would change its row. Nor can the
/// run park it on a question any more.
pub proof fn settled_work_stays_as_it_is(
    errands: Seq<Errand>,
    errand: Errand,
    result: RunResult,
    ending: Ending,
    secs: int,
    r: Settlement,
    to: State,
    outcome: Option<String>,
    door: Door,
    question: Option<Seq<char>>,
    now: int,
    answer: Result<Parked, ToolError>,
    after: Seq<Errand>,
)
    requires
        settled_on_file(errands, errand.id@),
        concluded(errands, errand.id@, result, ending),
        settles(errand, ending, secs, r),
        door.errand_id is Some,
        door.errand_id->0@ == errand.id@,
        put_question(door, question, errands, now, answer, after),
    ensures
        r.speech is None,
        r.mark is None,
        r.errand == errands[place_of(errands, errand.id@)],
        marked(errands, errand.id@, to, outcome) == errands,
        answer is Err,
        after == errands,
{
}

/// A run counts as delivered only where it produced something, did not park
/// itself, and its errand was not settled meanwhile.
pub proof fn nothing_produced_is_a_failure(
    errands: Seq<Errand>,
    errand: Errand,
    result: RunResult,
    r: Ending,
)
    requires
        concluded(errands, errand.id@, result, r),
    ensures
        r is Delivered ==> result is Done && trimmed(result->Done_0.text@).len() > 0,
        r is Delivered ==> !settled_on_file(errands, errand.id@),
        result is Failed ==> !(r is Delivered),
{
}

/// A sweep before the deadline leaves work as it was: where no errand that is
/// waiting, running or parked has reached its deadline, nothing is given up,
/// and all of that work stands after the sweep as it stood before, in order.
pub proof fn a_sweep_before_the_deadline_changes_nothing(
    before: Seq<Errand>,
    after: Seq<Errand>,
    now: int,
)
    requires
        all_swept(surviving(before, now), after, now),
        forall|i: int|
            #![trigger before[i]]
            0 <= i < before.len() && (before[i].state == State::Pending || before[i].state
                == State::Running || before[i].state == State::Asked) ==> now < deadline_at(
                before[i],
            ),
    ensures
        stale(before, now).len() == 0,
        owed(after) == owed(before),
        after == surviving(before, now),
        after == pruned(before, now),
{
    nothing_stale_yet(before, now);
    a_sweep_keeps_every_live_promise(before, after, now);
    assert forall|i: int| 0 <= i < after.len() implies after[i] == surviving(before, now)[i] by {
        let pred = |e: Errand| (!settled(e.state) && !expired(e, now)) || recent(e, now);
        let e = surviving(before, now)[i];
        assert(swept_one(e, after[i], now));
        broadcast use Seq::lemma_filter_contains_rev;

        assert(before.filter(pred).contains(e));
        let k = choose|k: int| 0 <= k < before.len() && before[k] == e;
        assert(!expired(before[k], now));
    }
    assert(after =~= surviving(before, now));
}

proof fn nothing_stale_yet(errands: Seq<Errand>, now: int)
    requires
        forall|i: int|
            #![trigger errands[i]]
            0 <= i < errands.len() && (errands[i].state == State::Pending || errands[i].state
                == State::Running || errands[i].state == State::Asked) ==> now < deadline_at(
                errands[i],
            ),
    ensures
        stale(errands, now).len() == 0,
        errands.filter(|e: Errand| live(e, now)) == owed(errands),
        surviving(errands, now) == pruned(errands, now),
    decreases errands.len(),
{
    reveal(Seq::filter);
    if errands.len() > 0 {
        let rest = errands.drop_last();
        assert forall|i: int|
            #![trigger rest[i]]
            0 <= i < rest.len() && (rest[i].state == State::Pending || rest[i].state
                == State::Running || rest[i].state == State::Asked) implies now < deadline_at(
            rest[i],
        ) by {
            assert(rest[i] == errands[i]);
        }
        nothing_stale_yet(rest, now);
        assert(errands.last() == errands[errands.len() - 1]);
    }
}

/// One errand under a sweep: before its deadline it is as it was. Owed work
/// that has reached its deadline is marked expired, keeps everything it was
/// filed with, and says why it was dropped; settled work is not touched.
pub proof fn a_sweep_marks_what_is_past_its_deadline(before: Errand, after: Errand, now: int)
    requires
        swept_one(before, after, now),
    ensures
        now < deadline_at(before) ==> after == before,
        settled(before.state) ==> after == before,
        now >= deadline_at(before) && (before.state == State::Pending || before.state
            == State::Running || before.state == State::Asked) ==> {
            &&& after.state == State::Expired
            &&& after.outcome is Some
            &&& after.outcome->0@ == "not run in time"@
        },
        after.id == before.id && after.summary == before.summary && after.task == before.task,
        after.channel == before.channel && after.channel_kind == before.channel_kind,
        after.requested_by == before.requested_by && after.reply_ref == before.reply_ref,
        after.filed_at == before.filed_at && after.start_after == before.start_after
            && after.expires_at == before.expires_at,
        after.tokens == before.tokens && after.question == before.question && after.answer
            == before.answer && after.questions_asked == before.questions_asked,
{
}

/// A sweep looks at each errand for itself: of two lists together it gives up
/// what it gives up of each, and keeps what it keeps of each, in order.
pub proof fn a_sweep_judges_one_by_one(a: Seq<Errand>, b: Seq<Errand>, now: int)
    ensures
        stale(a + b, now) == stale(a, now) + stale(b, now),
        surviving(a + b, now) == surviving(a, now) + surviving(b, now),
    decreases b.len(),
{
    reveal(Seq::filter);
    if b.len() == 0 {
        assert(a + b =~= a);
        assert(stale(a, now) + stale(b, now) =~= stale(a, now));
        assert(surviving(a, now) + surviving(b, now) =~= surviving(a, now));
    } else {
        assert((a + b).drop_last() =~= a + b.drop_last());
        assert((a + b).last() == b.last());
        a_sweep_judges_one_by_one(a, b.drop_last(), now);
        assert(stale(a + b, now) =~= stale(a, now) + stale(b, now));
        assert(surviving(a + b, now) =~= surviving(a, now) + surviving(b, now));
    }
}

/// One errand on its own: it is given up if and only if it is owed and has
/// reached its deadline. It stays on file while it can still be kept, and for
/// a day after it was filed.
pub proof fn one_errand_under_a_sweep(e: Errand, now: int)
    ensures
        stale(seq![e], now) == (if (e.state == State::Pending || e.state == State::Running || e.state
            == State::Asked) && now >= deadline_at(e) {
            seq![e]
        } else {
            Seq::empty()
        }),
        surviving(seq![e], now) == (if (e.state == State::Pending || e.state == State::Running
            || e.state == State::Asked) && now < deadline_at(e) || now - e.filed_at@
            < 86_400_000_000_000 {
            seq![e]
        } else {
            Seq::empty()
        }),
{
    reveal(Seq::filter);
    assert(seq![e].drop_last() =~= Seq::<Errand>::empty());
    assert(stale(Seq::<Errand>::empty(), now) =~= Seq::empty());
    assert(surviving(Seq::<Errand>::empty(), now) =~= Seq::empty());
    assert(Seq::<Errand>::empty().push(e) =~= seq![e]);
}

/// An agent is busy if and only if some run in flight is one of its own: a run
/// whose key is the agent's name, a slash, and the name of some work.
pub proof fn an_agent_is_busy_with_its_own_runs(npub: Seq<char>, busy: Seq<String>)
    ensures
        agent_busy(npub, busy) <==> exists|i: int, name: Seq<char>|
            0 <= i < busy.len() && #[trigger] busy[i]@ == #[trigger] (npub + "/"@ + name),
{
    if agent_busy(npub, busy) {
        let i = choose|i: int|
            #![trigger busy[i]]
            0 <= i < busy.len() && (npub + "/"@).is_prefix_of(busy[i]@);
        let name = busy[i]@.skip((npub + "/"@).len() as int);
        assert(busy[i]@ =~= npub + "/"@ + name);
    }
    if exists|i: int, name: Seq<char>|
        0 <= i < busy.len() && #[trigger] busy[i]@ == #[trigger] (npub + "/"@ + name) {
        let (i, name) = choose|i: int, name: Seq<char>|
            0 <= i < busy.len() && #[trigger] busy[i]@ == #[trigger] (npub + "/"@ + name);
        assert(busy[i]@.subrange(0, (npub + "/"@).len() as int) =~= npub + "/"@);
        assert((npub + "/"@).is_prefix_of(busy[i]@));
    }
}

/// Marking reaches the first errand of that name, if it is still owed: its
/// state becomes the new one, its outcome the one given where one is given,
/// and everything else stays. No other errand changes.
pub proof fn marking_changes_one_state(
    errands: Seq<Errand>,
    id: Seq<char>,
    to: State,
    outcome: Option<String>,
    i: int,
)
    requires
        first_named(errands, id, i),
    ensures
        marked(errands, id, to, outcome).len() == errands.len(),
        forall|j: int|
            0 <= j < errands.len() && j != i ==> #[trigger] marked(errands, id, to, outcome)[j]
                == errands[j],
        settled(errands[i].state) ==> marked(errands, id, to, outcome)[i] == errands[i],
        !settled(errands[i].state) ==> {
            let after = marked(errands, id, to, outcome)[i];
            &&& after.state == to
            &&& outcome is Some ==> after.outcome == outcome
            &&& outcome is None ==> after.outcome == errands[i].outcome
            &&& after == (Errand { state: after.state, outcome: after.outcome, ..errands[i] })
        },
        !settled(errands[i].state) ==> claimed(errands, id)[i] == (Errand {
            state: State::Running,
            ..errands[i]
        }),
{
    first_named_is_one(errands, id, i);
}

/// A name that is not on file marks nothing.
pub proof fn marking_nothing_changes_nothing(
    errands: Seq<Errand>,
    id: Seq<char>,
    to: State,
    outcome: Option<String>,
)
    requires
        forall|j: int| #![trigger errands[j]] 0 <= j < errands.len() ==> errands[j].id@ != id,
    ensures
        marked(errands, id, to, outcome) == errands,
        claimed(errands, id) == errands,
{
    if on_file(errands, id) {
        let i = choose|i: int| #[trigger] first_named(errands, id, i);
        assert(errands[i].id@ != id);
    }
}

/// The run that finishes an errand spends the errand's own tokens on the lane
/// of work that a person asked for, and stands at the door the errand came in
/// by: its replies go where the work was asked for.
pub proof fn an_errand_runs_at_its_own_door(
    r: RunRequest,
    errand: Errand,
    agent_dir: Seq<char>,
    harness: Option<String>,
)
    requires
        is_errand_run(r, errand, agent_dir, harness),
    ensures
        r.tokens_per_run == Some(errand.tokens),
        r.lane == Some(Lane::Responsive),
        r.task_class is Some && r.task_class->0@ == "errand"@,
        r.harness == harness,
        r.door is Some,
        r.door->0.agent_dir@ == agent_dir,
        r.door->0.channel == errand.channel,
        r.door->0.channel_kind == errand.channel_kind,
        r.door->0.requested_by == errand.requested_by,
        r.door->0.reply_ref == errand.reply_ref,
        r.door->0.errand_id == Some(errand.id),
        tool_of(r.door->0) is Asks,
{
}

/// A run that produced text, of work that is neither parked nor settled, is
/// delivered: the person is told the text itself, without the white space
/// around it and up to 8000 characters, and the work is marked delivered.
pub proof fn what_was_produced_is_delivered(
    errands: Seq<Errand>,
    errand: Errand,
    result: RunResult,
    ending: Ending,
    secs: int,
    r: Settlement,
)
    requires
        concluded(errands, errand.id@, result, ending),
        settles(errand, ending, secs, r),
        result is Done,
        trimmed(result->Done_0.text@).len() > 0,
        forall|i: int|
            #![trigger errands[i]]
            0 <= i < errands.len() && errands[i].id@ == errand.id@ ==> errands[i].state
                == State::Running || errands[i].state == State::Pending,
    ensures
        r.errand == errand,
        r.speech is Some,
        trimmed(result->Done_0.text@).len() <= 8000 ==> r.speech->0.text@ == trimmed(
            result->Done_0.text@,
        ),
        trimmed(result->Done_0.text@).len() > 8000 ==> r.speech->0.text@ == trimmed(
            result->Done_0.text@,
        ).take(8000),
        r.speech->0.action@ == "errand.run"@,
        r.mark == Some((State::Delivered, result->Done_0.outcome)),
{
    if on_file(errands, errand.id@) {
        let i = choose|i: int| #[trigger] first_named(errands, errand.id@, i);
        first_named_is_one(errands, errand.id@, i);
        assert(errands[i].id@ == errand.id@);
    }
}

/// A run that failed, or produced nothing, of work that is neither parked nor
/// settled, is owned up to: the person is told which work it was and what
/// went wrong, and the work is marked failed for that reason.
pub proof fn a_failure_is_owned_up_to(
    errands: Seq<Errand>,
    errand: Errand,
    result: RunResult,
    ending: Ending,
    secs: int,
    r: Settlement,
)
    requires
        concluded(errands, errand.id@, result, ending),
        settles(errand, ending, secs, r),
        result is Done ==> trimmed(result->Done_0.text@).len() == 0,
        forall|i: int|
            #![trigger errands[i]]
            0 <= i < errands.len() && errands[i].id@ == errand.id@ ==> errands[i].state
                == State::Running || errands[i].state == State::Pending,
    ensures
        r.errand == errand,
        r.mark is Some && (r.mark->0).0 == State::Failed,
        result is Failed ==> (r.mark->0).1 == result->error,
        result is Done ==> (r.mark->0).1@ == "the run finished without producing anything"@,
        r.speech is Some,
        r.speech->0.action@ == "errand.failed"@,
        r.speech->0.text@ == "I could not finish this after all: "@ + errand.summary@
            + ". What went wrong: "@ + (r.mark->0).1@ + "."@,
{
    if on_file(errands, errand.id@) {
        let i = choose|i: int| #[trigger] first_named(errands, errand.id@, i);
        first_named_is_one(errands, errand.id@, i);
        assert(errands[i].id@ == errand.id@);
    }
}

/// Work that parked itself on a question has the question put to the person,
/// word for word and with the work it is about, and stays parked.
pub proof fn a_question_is_put_to_the_person(
    errands: Seq<Errand>,
    errand: Errand,
    result: RunResult,
    ending: Ending,
    secs: int,
    r: Settlement,
    i: int,
)
    requires
        concluded(errands, errand.id@, result, ending),
        settles(errand, ending, secs, r),
        first_named(errands, errand.id@, i),
        errands[i].state == State::Asked,
    ensures
        r.errand == errands[i],
        r.mark is None,
        r.speech is Some,
        errands[i].question is Some ==> r.speech->0.text@ == "About "@ + errands[i].summary@
            + " — "@ + errands[i].question->0@,
{
    first_named_is_one(errands, errand.id@, i);
}

/// What a person is told when their work is dropped or called off names the
/// work.
pub proof fn the_work_is_named(summary: Seq<char>)
    ensures
        expired_text(summary) == "I did not get to this in time and have dropped it: "@ + summary
            + ". Ask me again if you still want it."@,
        cancelled_text(summary)
            == "This has been called off and I will not be delivering it: "@ + summary + "."@,
{
}

/// The first errand that can run is the only such place, and no errand that
/// can run stands before it: work runs in the order it stands on file.
pub proof fn work_runs_in_order(errands: Seq<Errand>, now: int, i: int, j: int)
    requires
        first_runnable(errands, now, i),
        0 <= j < errands.len(),
        runnable(errands[j], now),
    ensures
        i <= j,
        errands[i].state == State::Pending,
        now < deadline_at(errands[i]),
{
}

/// What is logged of a speech is the errand it was about and how it went: its
/// name, its summary, where it went and to whom, and how long it was.
pub proof fn a_delivery_is_logged_as_it_went(
    e: Errand,
    text: Seq<char>,
    action: Seq<char>,
    delivered: DetailModel,
    undelivered: bool,
)
    ensures
        ({
            let entry = speech_model(e, text, action, delivered, undelivered);
            &&& entry.action == action
            &&& undelivered ==> entry.outcome == "undelivered"@
            &&& !undelivered ==> entry.outcome == "delivered"@
            &&& entry.detail.contains(("errand"@, DetailModel::Text(e.id@)))
            &&& entry.detail.contains(("summary"@, DetailModel::Text(e.summary@)))
            &&& entry.detail.contains(("channel_kind"@, DetailModel::Text(e.channel_kind@)))
            &&& entry.detail.contains(("channel"@, DetailModel::Text(e.channel@)))
            &&& entry.detail.contains(("requested_by"@, DetailModel::Text(e.requested_by@)))
            &&& entry.detail.contains(("delivered"@, delivered))
            &&& entry.detail.contains(("response_chars"@, DetailModel::Count(byte_len(text))))
        }),
{
    let d = speech_model(e, text, action, delivered, undelivered).detail;
    assert(d[0] == ("errand"@, DetailModel::Text(e.id@)));
    assert(d[1] == ("summary"@, DetailModel::Text(e.summary@)));
    assert(d[2] == ("channel_kind"@, DetailModel::Text(e.channel_kind@)));
    assert(d[3] == ("channel"@, DetailModel::Text(e.channel@)));
    assert(d[4] == ("requested_by"@, DetailModel::Text(e.requested_by@)));
    assert(d[5] == ("delivered"@, delivered));
    assert(d[6] == ("response_chars"@, DetailModel::Count(byte_len(text))));
}

/// What a platform answered is kept as it came; where this host cannot deliver
/// to a platform at all, that is a failure that names the platform.
pub proof fn a_platform_is_quoted_or_named(e: Errand, json: Seq<char>)
    ensures
        delivered_detail(e, Some(json)) == DetailModel::Json(json),
        delivered_detail(e, None) is Failure,
        exists|before: Seq<char>, after: Seq<char>| #[trigger]
            (before + e.channel_kind@ + after) == delivered_detail(e, None)->Failure_0,
{
    assert("this host cannot deliver to "@ + e.channel_kind@
        + " — the work has nowhere to land"@ == delivered_detail(e, None)->Failure_0);
}

/// One key for one piece of work: an agent's keys differ where the names do,
/// and each starts with the agent and a slash.
pub proof fn a_run_has_a_key_of_its_own(npub: Seq<char>, a: Seq<char>, b: Seq<char>)
    ensures
        (npub + "/"@).is_prefix_of(run_key(npub, a)),
        run_key(npub, a).skip((npub + "/"@).len() as int) == a,
        run_key(npub, a) == run_key(npub, b) ==> a == b,
        (npub + ":routine:"@).is_prefix_of(note_key(npub, a)),
        note_key(npub, a).skip((npub + ":routine:"@).len() as int) == a,
        note_key(npub, a) == note_key(npub, b) ==> a == b,
{
    let n = (npub + "/"@).len() as int;
    assert(run_key(npub, a).skip(n) =~= a);
    assert(run_key(npub, b).skip(n) =~= b);
    let k = (npub + ":routine:"@).len() as int;
    assert(note_key(npub, a).skip(k) =~= a);
    assert(note_key(npub, b).skip(k) =~= b);
}

/// What is called off is the first errand of that name that is still owed, be
/// it waiting, running or parked: none of that name that is owed stands before
/// it.
pub proof fn what_is_called_off_is_owed(errands: Seq<Errand>, id: Seq<char>, i: int, j: int)
    requires
        0 <= i < errands.len(),
        0 <= j < errands.len(),
        errands[j].id@ == id,
        errands[j].state == State::Pending || errands[j].state == State::Running || errands[j].state
            == State::Asked,
    ensures
        first_owed(errands, id, i) ==> i <= j && errands[i].id@ == id && !(errands[i].state
            == State::Delivered || errands[i].state == State::Failed || errands[i].state
            == State::Expired || errands[i].state == State::Cancelled),
        (forall|k: int|
            #![trigger errands[k]]
            0 <= k < j ==> errands[k].id@ != id) ==> first_owed(errands, id, j),
{
}

/// The notes of a finished run say which work it was, and for how long it ran
/// or why it failed.
pub proof fn a_note_says_which_work(errand: Errand, ending: Ending, secs: int, r: Settlement)
    requires
        settles(errand, ending, secs, r),
        ending is Delivered || ending is Failed,
    ensures
        ending is Delivered ==> r.note@ == "delivered · "@ + errand.summary@ + " · "@
            + signed_decimal(secs) + "s"@,
        ending is Failed ==> r.note@ == "failed · "@ + errand.summary@ + " · "@ + ending->reason@,
{
}

/// A row shows the errand as it is: its texts, where it stands, when it was
/// filed, may start and goes stale, and whether it is running just now.
pub proof fn a_row_shows_the_errand(
    e: Errand,
    npub: Seq<char>,
    busy: Seq<String>,
    note: Option<Seq<char>>,
)
    ensures
        ({
            let row = errand_row(e, npub, busy, note);
            &&& row[0] == ("id"@, DetailModel::Text(e.id@))
            &&& row[1] == ("summary"@, DetailModel::Text(e.summary@))
            &&& row[2] == ("task"@, DetailModel::Text(e.task@))
            &&& row[3] == ("state"@, DetailModel::Text(state_name(e.state)))
            &&& row[4] == ("channel_kind"@, DetailModel::Text(e.channel_kind@))
            &&& row[5] == ("channel"@, DetailModel::Text(e.channel@))
            &&& row[6] == ("requested_by"@, DetailModel::Text(e.requested_by@))
            &&& row[7] == ("filed_at"@, DetailModel::Time(e.filed_at@))
            &&& e.start_after is Some ==> row[8] == (
                "start_after"@,
                DetailModel::Time(e.start_after->0@),
            )
            &&& e.start_after is None ==> row[8] == ("start_after"@, DetailModel::Null)
            &&& e.start_after is None ==> row[9] == ("deadline"@, DetailModel::Time(e.expires_at@))
            &&& e.start_after is Some && e.start_after->0@ > e.filed_at@ && e.questions_asked == 0
                ==> row[9] == (
                "deadline"@,
                DetailModel::Time(e.start_after->0@ + (e.expires_at@ - e.filed_at@)),
            )
            &&& e.question is Some ==> row[10] == ("question"@, DetailModel::Text(e.question->0@))
            &&& e.answer is Some ==> row[11] == ("answer"@, DetailModel::Text(e.answer->0@))
            &&& e.outcome is Some ==> row[12] == ("outcome"@, DetailModel::Text(e.outcome->0@))
            &&& row[13] == ("running"@, DetailModel::Flag(in_flight(npub + "/"@ + e.id@, busy)))
            &&& note is Some ==> row[14] == ("note"@, DetailModel::Text(note->0))
        }),
{
}

/// The notes of a run that was parked or overtaken name the work: that it
/// asked, or how it was settled already.
pub proof fn a_note_says_what_happened_meanwhile(
    errands: Seq<Errand>,
    errand: Errand,
    result: RunResult,
    ending: Ending,
    secs: int,
    r: Settlement,
    i: int,
)
    requires
        concluded(errands, errand.id@, result, ending),
        settles(errand, ending, secs, r),
        first_named(errands, errand.id@, i),
    ensures
        errands[i].state == State::Asked ==> r.note@ == "asked a question · "@
            + errands[i].summary@ && r.speech->0.action@ == "errand.asked"@,
        errands[i].state == State::Cancelled ==> r.note@ == "already "@ + "cancelled"@ + " · "@
            + errands[i].summary@,
        errands[i].state == State::Expired ==> r.note@ == "already "@ + "expired"@ + " · "@
            + errands[i].summary@,
        errands[i].state == State::Delivered ==> r.note@ == "already "@ + "delivered"@ + " · "@
            + errands[i].summary@,
        errands[i].state == State::Failed ==> r.note@ == "already "@ + "failed"@ + " · "@
            + errands[i].summary@,
{
    first_named_is_one(errands, errand.id@, i);
}

} // verus!
