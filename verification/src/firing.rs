//! Watch firing: the supervisor's event side.
//!
//! On every tick, for each watch of an active agent: scan what it watches,
//! and when a debounced change is ready, fire an ordinary governed run. An
//! event-triggered run is not a privileged one. The difference is the
//! budget: this run draws on the proactive allowance, because nobody asked
//! for it.
//!
//! Silence is the expected outcome. A run that changed nothing is recorded as
//! `watch.quiet` and delivers nothing; the cockpit counts those so that an
//! agent doing nothing and an agent that is broken do not look alike.
use crate::charter::{copy_targets, Vault, Watch};
use crate::pickup::{in_flight, is_in_flight, key_of, run_key, waiting_note};
use crate::record::{text_or_null, time_or_null, Detail, DetailModel, EntryModel, Fields, LogEntry};
use crate::run::{Lane, RunRequest, RunResult};
use crate::text::{byte_len, bytes_in, decimal, decimal_of, opt_view, same, trim, trimmed, views};
use crate::time::{later, opt_at, rfc3339, whole_secs, Moment, NANOS_PER_SEC};
use crate::watches::{
    absorb_through, ceiling_kept, debounce_of, fresh, is_news, merged,
    merging_keeps_what_was_there, on_day, scan_vault, scanned, step, stepped, task_text, watch_task,
    Changes, RecordModel, Step, VaultFile, WatchRecord, WatchesState,
};
use vstd::prelude::*;

verus! {

// ------------------------------------------------------------- one tick

/// The first vault of this name stands at `i`.
pub open spec fn first_vault(vaults: Seq<Vault>, name: Seq<char>, i: int) -> bool {
    &&& 0 <= i < vaults.len()
    &&& vaults[i].name@ == name
    &&& forall|j: int| #![trigger vaults[j]] 0 <= j < i ==> vaults[j].name@ != name
}

/// `r` is the folder of the vault that this watch names, if it names one
/// that the agent was granted.
pub open spec fn is_vault_path(watch: Watch, vaults: Seq<Vault>, r: Option<String>) -> bool {
    match r {
        Some(path) => watch.vault is Some && exists|i: int|
            #[trigger] first_vault(vaults, watch.vault->0@, i) && vaults[i].path == path,
        None => watch.vault is Some ==> forall|j: int|
            #![trigger vaults[j]]
            0 <= j < vaults.len() ==> vaults[j].name@ != watch.vault->0@,
    }
}

/// The folder of the vault that a watch names.
pub fn vault_path(watch: &Watch, vaults: &Vec<Vault>) -> (r: Option<String>)
    ensures
        is_vault_path(*watch, vaults@, r),
{
    let name = match &watch.vault {
        Some(name) => name,
        None => {
            return None;
        },
    };
    let mut i: usize = 0;
    while i < vaults.len()
        invariant
            i <= vaults@.len(),
            watch.vault == Some(*name),
            forall|j: int| #![trigger vaults@[j]] 0 <= j < i ==> vaults@[j].name@ != name@,
        decreases vaults@.len() - i,
    {
        if same(vaults[i].name.as_str(), name.as_str()) {
            assert(first_vault(vaults@, watch.vault->0@, i as int));
            return Some(vaults[i].path.clone());
        }
        i += 1;
    }
    None
}

/// Where a watch looks, and the place of its record.
#[derive(Debug)]
pub struct Lookout {
    pub path: String,
    pub place: usize,
}

/// Prepare to look at what a watch watches. A watch that is switched off is
/// passed over; every other one has a record from here on, whether or not
/// there is anything to look at.
pub fn prepare(watch: &Watch, vaults: &Vec<Vault>, state: &mut WatchesState) -> (r: Option<Lookout>)
    requires
        old(state).wf(),
    ensures
        final(state).wf(),
        !watch.enabled ==> r is None && *final(state) == *old(state),
        watch.enabled ==> final(state).names().contains(watch.name@),
        old(state).names().contains(watch.name@) ==> *final(state) == *old(state),
        watch.enabled && !old(state).names().contains(watch.name@) ==> {
            &&& final(state).watches@.len() == old(state).watches@.len() + 1
            &&& final(state).watches@.drop_last() == old(state).watches@
            &&& final(state).watches@.last().name@ == watch.name@
            &&& final(state).watches@.last().record@ == fresh()
        },
        r is Some <==> watch.enabled && watch.on@ == "vault"@ && !is_vault_path(
            *watch,
            vaults@,
            None,
        ) && watch.vault is Some,
        r matches Some(look) ==> {
            &&& is_vault_path(*watch, vaults@, Some(look.path))
            &&& look.place < final(state).watches@.len()
            &&& final(state).names()[look.place as int] == watch.name@
        },
{
    if !watch.enabled {
        return None;
    }
    let place: usize = state.entry(watch.name.as_str());
    assert(state.names()[place as int] == watch.name@);
    assert(state.names().contains(watch.name@));
    if !same(watch.on.as_str(), "vault") {
        return None;
    }
    match vault_path(watch, vaults) {
        Some(path) => Some(Lookout { path, place }),
        None => None,
    }
}

/// Look at a watch: scan the files found in its folder, and decide. Changes
/// are recorded even while a gate will hold the fire, so that a locked
/// keystore loses nothing but the timing.
pub fn look(watch: &Watch, record: &mut WatchRecord, found: &Vec<VaultFile>, now: Moment) -> (r:
    Step)
    ensures
        exists|c: Changes|
            #[trigger] scanned(found@, old(record).seen_through, opt_view(watch.match_path), c)
                && (final(record)@, r@) == stepped(
                watch.max_per_day as int,
                debounce_of(*watch),
                old(record)@,
                views(c.paths@),
                opt_at(c.newest),
                now@,
            ),
{
    let filter: Option<&str> = match &watch.match_path {
        Some(s) => Some(s.as_str()),
        None => None,
    };
    let changes = scan_vault(found, record.seen_through, filter);
    assert(scanned(found@, record.seen_through, opt_view(watch.match_path), changes));
    step(watch, record, changes, now)
}

/// The note on changes that came after the day's last run.
pub fn refused_note(seen: usize, max_per_day: u32) -> (r: String)
    ensures
        r@ == decimal(seen as nat) + " change(s) seen after today's "@ + decimal(
            max_per_day as nat,
        ) + " run limit — not queued; raise max_per_day if this is routinely too low"@,
{
    let mut out = decimal_of(seen as u64);
    out.append(" change(s) seen after today's ");
    out.append(decimal_of(max_per_day as u64).as_str());
    out.append(" run limit — not queued; raise max_per_day if this is routinely too low");
    out
}

/// The record with a fire put back: its paths queued again, from now on, and
/// not counted.
pub open spec fn held_back(rec: RecordModel, paths: Seq<Seq<char>>, now: int) -> RecordModel {
    RecordModel {
        pending: Some(now),
        paths,
        fires: if rec.fires > 0 {
            rec.fires - 1
        } else {
            0
        },
        ..rec
    }
}

/// Hold a fire that a gate stopped: put it back, and note why. A gate is a
/// delay, not a loss.
pub fn hold(record: &mut WatchRecord, paths: Vec<String>, reason: &str, now: Moment) -> (r: String)
    ensures
        final(record)@ == held_back(old(record)@, views(paths@), now@),
        r@ == "waiting: "@ + reason@,
{
    record.pending_since = Some(now);
    record.pending_paths = paths;
    record.fires_today = record.fires_today.saturating_sub(1);
    waiting_note(reason)
}

// ------------------------------------------------------------- the run

/// The run a watch fires: the proactive lane, and no door, because no person
/// opened one.
pub fn watch_run(watch: &Watch, paths: &Vec<String>) -> (r: RunRequest)
    ensures
        r.task@ == watch_task(
            watch.task@,
            watch.name@,
            views(paths@),
            match watch.vault {
                Some(v) => v@,
                None => Seq::empty(),
            },
        ),
        opt_view(r.task_class) == Some("watch"@),
        r.tokens_per_run == watch.tokens_per_run,
        r.lane == Some(Lane::Proactive),
        r.harness is None,
        r.door is None,
{
    let vault = match &watch.vault {
        Some(v) => v.clone(),
        None => String::new(),
    };
    RunRequest {
        task: task_text(watch, paths, vault.as_str()),
        task_class: Some("watch".to_owned()),
        tokens_per_run: watch.tokens_per_run,
        lane: Some(Lane::Proactive),
        harness: None,
        door: None,
    }
}

/// What a run has to say: its text, where it ended well and said anything.
pub open spec fn said(result: RunResult) -> Seq<char> {
    match result {
        RunResult::Done(done) => trimmed(done.text@),
        RunResult::Failed { .. } => Seq::empty(),
    }
}

/// What is delivered to the watch's targets, if anything. Delivery is
/// opt-in: a watch says nothing unless its ratified config names a target.
/// And silence is the expected outcome: a quiet run delivers nothing, even
/// there.
pub fn to_deliver(watch: &Watch, result: &RunResult) -> (r: Option<String>)
    ensures
        r is Some <==> said(*result).len() > 0 && watch.deliver@.len() > 0 && !was_quiet(*result),
        r matches Some(text) ==> text@ == said(*result),
{
    match result {
        RunResult::Done(done) => {
            let text = trim(done.text.as_str());
            if text.as_str().unicode_len() > 0 && watch.deliver.len() > 0 && done.acted {
                Some(text)
            } else {
                None
            }
        },
        RunResult::Failed { .. } => None,
    }
}

/// What a fire left behind.
#[derive(Debug)]
pub struct Fired {
    pub entry: LogEntry,
    pub note: String,
    pub outcome: String,
    /// The run only looked at the world, as judged by the host, not by the
    /// model.
    pub quiet: bool,
}

/// A run was quiet: it ended well and did nothing but look.
pub open spec fn was_quiet(result: RunResult) -> bool {
    result is Done && !result->Done_0.acted
}

pub open spec fn outcome_of(result: RunResult) -> Seq<char> {
    match result {
        RunResult::Done(done) => done.outcome@,
        RunResult::Failed { error } => "error: "@ + error@,
    }
}

/// The log entry of a fire. A quiet run gets a compact body: it is worth
/// knowing that it happened and cost something, not worth storing what it
/// decided not to do.
pub open spec fn fired_entry(
    name: Seq<char>,
    paths: Seq<Seq<char>>,
    fired_at: int,
    result: RunResult,
    delivered: Seq<Seq<char>>,
) -> EntryModel {
    let at = rfc3339(fired_at / (NANOS_PER_SEC as int), fired_at % (NANOS_PER_SEC as int));
    let run_event = match result {
        RunResult::Done(done) => DetailModel::Text(done.log_event_id@),
        RunResult::Failed { .. } => DetailModel::Null,
    };
    EntryModel {
        action: if was_quiet(result) {
            "watch.quiet"@
        } else {
            "watch.run"@
        },
        model: match result {
            RunResult::Done(done) => Some(done.model@),
            RunResult::Failed { .. } => None,
        },
        harness: Some("native"@),
        outcome: outcome_of(result),
        detail: if was_quiet(result) {
            seq![
                ("watch"@, DetailModel::Text(name)),
                ("fired_at"@, DetailModel::Text(at)),
                ("changed_paths"@, DetailModel::Count(paths.len() as int)),
                ("run_event"@, run_event),
            ]
        } else {
            seq![
                ("watch"@, DetailModel::Text(name)),
                ("fired_at"@, DetailModel::Text(at)),
                ("changed"@, DetailModel::Texts(paths)),
                ("run_event"@, run_event),
                ("delivered"@, DetailModel::Jsons(delivered)),
                ("response_chars"@, DetailModel::Count(byte_len(said(result)))),
            ]
        },
    }
}

/// Judge a fire by how its run ended. `delivered` holds the JSON that each
/// target replied with, where anything was delivered.
pub fn judge(
    watch: &Watch,
    paths: &Vec<String>,
    fired_at: Moment,
    result: &RunResult,
    delivered: Vec<String>,
) -> (r: Fired)
    ensures
        r.entry@ == fired_entry(
            watch.name@,
            views(paths@),
            fired_at@,
            *result,
            views(delivered@),
        ),
        r.note@ == (if was_quiet(*result) {
            "observed"@
        } else {
            "acted on"@
        }) + " "@ + decimal(paths@.len()) + " change(s) → "@ + outcome_of(*result),
        r.outcome@ == outcome_of(*result),
        r.quiet == was_quiet(*result),
{
    let (outcome, text, run_event, model, quiet) = match result {
        RunResult::Done(done) => (
            done.outcome.clone(),
            trim(done.text.as_str()),
            Some(done.log_event_id.clone()),
            Some(done.model.clone()),
            !done.acted,
        ),
        RunResult::Failed { error } => {
            let mut outcome = "error: ".to_owned();
            outcome.append(error.as_str());
            (outcome, String::new(), None, None, false)
        },
    };
    let ghost told = views(delivered@);
    let mut detail = Fields::new();
    detail.text("watch", watch.name.as_str());
    detail.text("fired_at", fired_at.to_rfc3339().as_str());
    if quiet {
        detail.count("changed_paths", paths.len() as u64);
        detail.opt_text("run_event", &run_event);
    } else {
        detail.texts("changed", paths);
        detail.opt_text("run_event", &run_event);
        detail.put("delivered", Detail::Jsons(delivered));
        detail.count("response_chars", bytes_in(text.as_str()) as u64);
    }
    let ghost whole = fired_entry(watch.name@, views(paths@), fired_at@, *result, told);
    assert(detail@ == whole.detail);
    let mut note = if quiet {
        "observed".to_owned()
    } else {
        "acted on".to_owned()
    };
    note.append(" ");
    note.append(decimal_of(paths.len() as u64).as_str());
    note.append(" change(s) → ");
    note.append(outcome.as_str());
    let entry = LogEntry {
        action: if quiet {
            "watch.quiet".to_owned()
        } else {
            "watch.run".to_owned()
        },
        model,
        harness: Some("native".to_owned()),
        outcome: outcome.clone(),
        detail,
    };
    Fired { entry, note, outcome, quiet }
}

/// The outcome of a fire whose run could not even be started, and whether it
/// was quiet. It was not: an agent doing nothing and an agent that is broken
/// must not look alike.
pub fn not_started(error: &str) -> (r: (String, bool))
    ensures
        r.0@ == "error: "@ + error@,
        !r.1,
{
    let mut outcome = "error: ".to_owned();
    outcome.append(error);
    (outcome, false)
}

/// The record after a run: its outcome, its own output absorbed, and one
/// more run of its kind.
pub open spec fn ran(rec: RecordModel, outcome: Seq<char>, quiet: bool, at: int) -> RecordModel {
    RecordModel {
        last_outcome: Some(outcome),
        seen: Some(later(rec.seen, at)),
        quiet: if quiet {
            rec.quiet + 1
        } else {
            rec.quiet
        },
        acting: if quiet {
            rec.acting
        } else {
            rec.acting + 1
        },
        ..rec
    }
}

/// Record how a fire went. What the run itself wrote is absorbed: an agent
/// that drafts into the folder it watches must not hear its own echo.
pub fn record_run(record: &mut WatchRecord, outcome: String, quiet: bool, at: Moment)
    requires
        quiet ==> old(record)@.quiet < u64::MAX,
        !quiet ==> old(record)@.acting < u64::MAX,
    ensures
        final(record)@ == ran(old(record)@, outcome@, quiet, at@),
{
    record.last_outcome = Some(outcome);
    absorb_through(record, at);
    if quiet {
        record.quiet_runs += 1;
    } else {
        record.acting_runs += 1;
    }
}

// ------------------------------------------------------------- the endpoint

/// One watch as the cockpit shows it, with its live state.
pub open spec fn watch_row(
    watch: Watch,
    vault_path: Option<Seq<char>>,
    rec: RecordModel,
    npub: Seq<char>,
    busy: Seq<String>,
    note: Option<Seq<char>>,
) -> Seq<(Seq<char>, DetailModel)> {
    seq![
        ("name"@, DetailModel::Text(watch.name@)),
        ("on"@, DetailModel::Text(watch.on@)),
        ("vault"@, text_or_null(opt_view(watch.vault))),
        ("vault_path"@, text_or_null(vault_path)),
        ("match"@, text_or_null(opt_view(watch.match_path))),
        ("task"@, DetailModel::Text(watch.task@)),
        ("debounce"@, DetailModel::Text(watch.debounce@)),
        ("max_per_day"@, DetailModel::Count(watch.max_per_day as int)),
        ("enabled"@, DetailModel::Flag(watch.enabled)),
        ("deliver"@, DetailModel::Targets(watch.deliver@)),
        ("running"@, DetailModel::Flag(in_flight(run_key(npub, watch.name@), busy))),
        ("pending_since"@, time_or_null(rec.pending)),
        ("pending_paths"@, DetailModel::Texts(rec.paths)),
        ("fires_today"@, DetailModel::Count(rec.fires)),
        ("last_fired"@, time_or_null(rec.last_fired)),
        ("last_outcome"@, text_or_null(rec.last_outcome)),
        ("quiet_runs"@, DetailModel::Count(rec.quiet)),
        ("acting_runs"@, DetailModel::Count(rec.acting)),
        ("note"@, text_or_null(note)),
    ]
}

fn show(
    watch: &Watch,
    path: &Option<String>,
    rec: &WatchRecord,
    npub: &str,
    busy: &Vec<String>,
    note: &Option<String>,
) -> (r: Fields)
    ensures
        r@ == watch_row(*watch, opt_view(*path), rec@, npub@, busy@, opt_view(*note)),
{
    let mut f = Fields::new();
    f.text("name", watch.name.as_str());
    f.text("on", watch.on.as_str());
    f.opt_text("vault", &watch.vault);
    f.opt_text("vault_path", path);
    f.opt_text("match", &watch.match_path);
    f.text("task", watch.task.as_str());
    f.text("debounce", watch.debounce.as_str());
    f.count("max_per_day", watch.max_per_day as u64);
    f.flag("enabled", watch.enabled);
    f.put("deliver", Detail::Targets(copy_targets(&watch.deliver)));
    f.flag("running", is_in_flight(key_of(npub, watch.name.as_str()).as_str(), busy));
    f.opt_time("pending_since", rec.pending_since);
    f.texts("pending_paths", &rec.pending_paths);
    f.count("fires_today", rec.fires_today as u64);
    f.opt_time("last_fired", rec.last_fired);
    f.opt_text("last_outcome", &rec.last_outcome);
    f.count("quiet_runs", rec.quiet_runs);
    f.count("acting_runs", rec.acting_runs);
    f.opt_text("note", note);
    assert(f@ == watch_row(*watch, opt_view(*path), rec@, npub@, busy@, opt_view(*note)));
    f
}

/// `rec` is what is known of the watch `name`: its record, or a fresh one
/// where it has none.
pub open spec fn known(state: WatchesState, name: Seq<char>, rec: RecordModel) -> bool {
    if state.names().contains(name) {
        exists|i: int|
            0 <= i < state.watches@.len() && #[trigger] state.names()[i] == name
                && state.watches@[i].record@ == rec
    } else {
        rec == fresh()
    }
}

/// One watch as the cockpit shows it. `note` is what is kept under its note
/// key.
pub fn row(
    watch: &Watch,
    vaults: &Vec<Vault>,
    state: &WatchesState,
    npub: &str,
    busy: &Vec<String>,
    note: &Option<String>,
) -> (r: Fields)
    ensures
        exists|path: Option<String>, rec: RecordModel|
            #[trigger] is_vault_path(*watch, vaults@, path) && #[trigger] known(
                *state,
                watch.name@,
                rec,
            ) && r@ == watch_row(*watch, opt_view(path), rec, npub@, busy@, opt_view(*note)),
{
    let path = vault_path(watch, vaults);
    assert(is_vault_path(*watch, vaults@, path));
    match state.get(watch.name.as_str()) {
        Some(rec) => {
            assert(known(*state, watch.name@, rec@));
            show(watch, &path, rec, npub, busy, note)
        },
        None => {
            let rec = WatchRecord::default();
            assert(known(*state, watch.name@, rec@));
            show(watch, &path, &rec, npub, busy, note)
        },
    }
}

pub const NO_ALLOWANCE: &'static str = "These watches cannot run: this agent has no proactive \
    allowance. Set governance.budgets.proactive_tokens_per_day and ratify it.";

/// What the cockpit says where there are watches that no allowance lets run.
pub fn allowance_note(watches: usize, allowance: Option<u64>) -> (r: Option<&'static str>)
    ensures
        r is Some <==> watches > 0 && (allowance is None || allowance == Some(0u64)),
        r matches Some(s) ==> s@ == NO_ALLOWANCE@,
{
    let none = match allowance {
        Some(tokens) => tokens == 0,
        None => true,
    };
    if none && watches > 0 {
        Some(NO_ALLOWANCE)
    } else {
        None
    }
}

// ------------------------------------------------------------- laws

/// A gate is a delay, not a loss: a fire that was put back is not counted,
/// and, once it has waited out its debounce again, it fires, whatever day it
/// is by then and whatever else has changed: first with the same paths, in
/// order, then with those that are new.
pub proof fn a_gate_is_a_delay_not_a_loss(
    max_per_day: int,
    debounce: int,
    rec: RecordModel,
    paths: Seq<Seq<char>>,
    newest: Option<int>,
    now: int,
    more: Seq<Seq<char>>,
    newest_again: Option<int>,
    again: int,
)
    requires
        rec.fires >= 0,
        stepped(max_per_day, debounce, rec, paths, newest, now).1 is Fire,
        whole_secs(again - now) >= debounce,
    ensures
        ({
            let (fired, what) = stepped(max_per_day, debounce, rec, paths, newest, now);
            let held = held_back(fired, what->paths, now);
            let late = stepped(max_per_day, debounce, held, more, newest_again, again).1;
            &&& held.fires == on_day(rec, now).fires
            &&& ceiling_kept(held, max_per_day)
            &&& late is Fire
            &&& what->paths.is_prefix_of(late->paths)
            &&& late->paths == merged(what->paths, more)
            &&& more.len() == 0 ==> late == what
        }),
{
    let what = stepped(max_per_day, debounce, rec, paths, newest, now).1;
    merging_keeps_what_was_there(what->paths, more);
}

/// Holding a fire back keeps the ceiling, however often it happens.
pub proof fn holding_back_keeps_the_ceiling(
    rec: RecordModel,
    max_per_day: int,
    paths: Seq<Seq<char>>,
    now: int,
)
    requires
        ceiling_kept(rec, max_per_day),
    ensures
        ceiling_kept(held_back(rec, paths, now), max_per_day),
{
}

/// After a run everything up to its end counts as seen: no file modified by
/// then is news to the watch.
pub proof fn a_run_does_not_hear_its_echo(
    rec: RecordModel,
    outcome: Seq<char>,
    quiet: bool,
    at: int,
    file: VaultFile,
    since: Moment,
    filter: Option<Seq<char>>,
)
    requires
        ran(rec, outcome, quiet, at).seen == Some(since@),
        file.modified is Some,
        file.modified->0@ <= at,
    ensures
        !is_news(file, Some(since), filter),
{
}

/// Every run is counted once, as quiet or as acting; a run that failed is
/// not a quiet one.
pub proof fn every_run_is_counted_once(
    rec: RecordModel,
    outcome: Seq<char>,
    result: RunResult,
    at: int,
)
    ensures
        ran(rec, outcome, was_quiet(result), at).quiet + ran(
            rec,
            outcome,
            was_quiet(result),
            at,
        ).acting == rec.quiet + rec.acting + 1,
        result is Failed ==> !was_quiet(result),
{
}

/// A run that is held back is not lost and not counted: its paths are queued
/// again from now, and the day's count is what it was before it fired.
pub proof fn a_held_run_is_queued_again(rec: RecordModel, paths: Seq<Seq<char>>, now: int)
    ensures
        held_back(rec, paths, now).pending == Some(now),
        held_back(rec, paths, now).paths == paths,
        rec.fires > 0 ==> held_back(rec, paths, now).fires == rec.fires - 1,
        rec.fires <= 0 ==> held_back(rec, paths, now).fires == 0,
        held_back(rec, paths, now).seen == rec.seen,
        held_back(rec, paths, now).day == rec.day,
        held_back(rec, paths, now).quiet == rec.quiet,
        held_back(rec, paths, now).acting == rec.acting,
        held_back(rec, paths, now).last_outcome == rec.last_outcome,
        held_back(rec, paths, now).last_fired == rec.last_fired,
{
}

/// A finished run is counted as quiet or as acting, one more of exactly one of
/// the two; its outcome is kept, and everything up to its end counts as seen.
pub proof fn a_finished_run_is_written_down(
    rec: RecordModel,
    outcome: Seq<char>,
    quiet: bool,
    at: int,
)
    ensures
        ran(rec, outcome, quiet, at).last_outcome == Some(outcome),
        quiet ==> ran(rec, outcome, quiet, at).quiet == rec.quiet + 1 && ran(
            rec,
            outcome,
            quiet,
            at,
        ).acting == rec.acting,
        !quiet ==> ran(rec, outcome, quiet, at).acting == rec.acting + 1 && ran(
            rec,
            outcome,
            quiet,
            at,
        ).quiet == rec.quiet,
        ran(rec, outcome, quiet, at).seen is Some,
        rec.seen is Some && rec.seen->0 > at ==> ran(rec, outcome, quiet, at).seen == rec.seen,
        rec.seen is None || rec.seen->0 <= at ==> ran(rec, outcome, quiet, at).seen == Some(at),
        ran(rec, outcome, quiet, at).fires == rec.fires,
        ran(rec, outcome, quiet, at).pending == rec.pending,
        ran(rec, outcome, quiet, at).paths == rec.paths,
        ran(rec, outcome, quiet, at).day == rec.day,
        ran(rec, outcome, quiet, at).last_fired == rec.last_fired,
{
}

/// A run is quiet if and only if it came to its end and did nothing: a failed
/// run never counts as quiet, and the log says which of the two it was.
pub proof fn a_failure_is_not_quiet(
    name: Seq<char>,
    paths: Seq<Seq<char>>,
    fired_at: int,
    result: RunResult,
    delivered: Seq<Seq<char>>,
)
    ensures
        result is Failed ==> !was_quiet(result),
        result is Done ==> was_quiet(result) == !result->Done_0.acted,
        result is Failed ==> outcome_of(result) == "error: "@ + result->error@,
        result is Done ==> outcome_of(result) == result->Done_0.outcome@,
        result is Failed || result->Done_0.acted ==> {
            let entry = fired_entry(name, paths, fired_at, result, delivered);
            &&& entry.action == "watch.run"@
            &&& entry.detail.contains(("changed"@, DetailModel::Texts(paths)))
            &&& entry.detail.contains(("delivered"@, DetailModel::Jsons(delivered)))
        },
        result is Done && !result->Done_0.acted ==> {
            let entry = fired_entry(name, paths, fired_at, result, delivered);
            &&& entry.action == "watch.quiet"@
            &&& entry.detail.contains(("changed_paths"@, DetailModel::Count(paths.len() as int)))
        },
        fired_entry(name, paths, fired_at, result, delivered).detail[0] == (
            "watch"@,
            DetailModel::Text(name),
        ),
        fired_entry(name, paths, fired_at, result, delivered).outcome == outcome_of(result),
{
    let d = fired_entry(name, paths, fired_at, result, delivered).detail;
    if was_quiet(result) {
        assert(d[2] == ("changed_paths"@, DetailModel::Count(paths.len() as int)));
    } else {
        assert(d[2] == ("changed"@, DetailModel::Texts(paths)));
        assert(d[4] == ("delivered"@, DetailModel::Jsons(delivered)));
    }
}

/// A watch looks at the first vault of the name it gives; a watch that gives
/// none, or one that no vault has, has no path.
pub proof fn a_watch_has_the_vault_it_names(watch: Watch, vaults: Seq<Vault>, r: Option<String>, i: int)
    requires
        is_vault_path(watch, vaults, r),
    ensures
        watch.vault is None ==> r is None,
        watch.vault is Some && 0 <= i < vaults.len() && vaults[i].name@ == watch.vault->0@ ==> r
            is Some,
        watch.vault is Some && 0 <= i < vaults.len() && vaults[i].name@ == watch.vault->0@ && (
        forall|j: int| #![trigger vaults[j]] 0 <= j < i ==> vaults[j].name@ != watch.vault->0@)
            ==> r == Some(vaults[i].path),
{
}

/// A name without a record is as one never seen.
pub proof fn an_unknown_watch_is_fresh(state: WatchesState, name: Seq<char>, rec: RecordModel)
    requires
        known(state, name, rec),
        !state.names().contains(name),
    ensures
        rec.seen is None && rec.pending is None && rec.last_fired is None,
        rec.paths.len() == 0 && rec.fires == 0 && rec.quiet == 0 && rec.acting == 0,
{
}

/// What is logged of a run says when it fired, by which model it was made and
/// under which event, where it came to its end; a failed run has neither.
pub proof fn a_run_is_logged_with_its_event(
    name: Seq<char>,
    paths: Seq<Seq<char>>,
    fired_at: int,
    result: RunResult,
    delivered: Seq<Seq<char>>,
)
    ensures
        ({
            let entry = fired_entry(name, paths, fired_at, result, delivered);
            let at = rfc3339(fired_at / 1_000_000_000, fired_at % 1_000_000_000);
            &&& entry.detail[1] == ("fired_at"@, DetailModel::Text(at))
            &&& result is Done ==> entry.model == Some(result->Done_0.model@) && entry.detail[3] == (
                "run_event"@,
                DetailModel::Text(result->Done_0.log_event_id@),
            )
            &&& result is Failed ==> entry.model is None && entry.detail[3] == (
                "run_event"@,
                DetailModel::Null,
            )
            &&& result is Done && result->Done_0.acted ==> entry.detail[5] == (
                "response_chars"@,
                DetailModel::Count(byte_len(trimmed(result->Done_0.text@))),
            )
        }),
{
}

/// A row shows the watch as it is set up and as it went: what it is told to
/// do, how often it may run, what is pending, and what the last run came to.
pub proof fn a_row_shows_the_watch(
    watch: Watch,
    vault_path: Option<Seq<char>>,
    rec: RecordModel,
    npub: Seq<char>,
    busy: Seq<String>,
    note: Option<Seq<char>>,
)
    ensures
        ({
            let row = watch_row(watch, vault_path, rec, npub, busy, note);
            &&& row[0] == ("name"@, DetailModel::Text(watch.name@))
            &&& row[1] == ("on"@, DetailModel::Text(watch.on@))
            &&& watch.vault is Some ==> row[2] == ("vault"@, DetailModel::Text(watch.vault->0@))
            &&& vault_path is Some ==> row[3] == ("vault_path"@, DetailModel::Text(vault_path->0))
            &&& watch.match_path is Some ==> row[4] == (
                "match"@,
                DetailModel::Text(watch.match_path->0@),
            )
            &&& row[5] == ("task"@, DetailModel::Text(watch.task@))
            &&& row[6] == ("debounce"@, DetailModel::Text(watch.debounce@))
            &&& row[7] == ("max_per_day"@, DetailModel::Count(watch.max_per_day as int))
            &&& row[8] == ("enabled"@, DetailModel::Flag(watch.enabled))
            &&& row[9] == ("deliver"@, DetailModel::Targets(watch.deliver@))
            &&& row[10] == ("running"@, DetailModel::Flag(
                in_flight(npub + "/"@ + watch.name@, busy),
            ))
            &&& rec.pending is Some ==> row[11] == (
                "pending_since"@,
                DetailModel::Time(rec.pending->0),
            )
            &&& rec.pending is None ==> row[11] == ("pending_since"@, DetailModel::Null)
            &&& row[12] == ("pending_paths"@, DetailModel::Texts(rec.paths))
            &&& row[13] == ("fires_today"@, DetailModel::Count(rec.fires))
            &&& rec.last_fired is Some ==> row[14] == (
                "last_fired"@,
                DetailModel::Time(rec.last_fired->0),
            )
            &&& rec.last_outcome is Some ==> row[15] == (
                "last_outcome"@,
                DetailModel::Text(rec.last_outcome->0),
            )
            &&& row[16] == ("quiet_runs"@, DetailModel::Count(rec.quiet))
            &&& row[17] == ("acting_runs"@, DetailModel::Count(rec.acting))
            &&& note is Some ==> row[18] == ("note"@, DetailModel::Text(note->0))
        }),
{
}

} // verus!
