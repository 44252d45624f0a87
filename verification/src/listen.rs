//! Listening on a Buzz relay: what to do next, call by call.
//!
//! The host owns the socket and the clock. It does what each turn says, and
//! says what came of it; when to subscribe, to ping, to give the caller a
//! tick, and to connect again is decided here.
use crate::buzz::{
    closed_line, fell_silent, genuine, handed, heard_line, is_live, mentions, or_empty, read_back,
    remembered, says, tag_of, was_all, BuzzAdapter, BuzzSession, Handed, ListenStep, Note, Past,
    RelayFrame, RESUBSCRIBE_AFTER_SILENCE,
};
use crate::presence::Mention;
use crate::text::{decimal, decimal_of, opt_view, views};
use vstd::prelude::*;

verus! {

// ------------------------------------------------------------- the session

/// Where a call that listens is: what it is waiting to hear of.
#[derive(Debug, Clone, Copy, PartialEq, Eq, Structural)]
pub enum Listening {
    /// The channels are being subscribed to for the first time.
    Subscribing,
    /// About to see whether to stop.
    Checking,
    Reading,
    Pinging,
    Authenticating,
    /// Subscribing again, on a connection that has just authenticated.
    Resubscribing,
    /// Subscribing again, after the relay dropped a subscription.
    Renewing,
    /// Subscribing again, after a long silence.
    Reviving,
    Over,
}

/// What happened.
#[derive(Debug)]
pub enum Heard {
    /// What was to be done was done.
    Done,
    /// What was to be done failed.
    Failed { error: String },
    Checked { stopping: bool },
    Frame { frame: RelayFrame },
    /// Nothing came for a while.
    TimedOut,
    /// The ping was sent, so long after the last sign of life.
    Pinged { silent_nanos: u128 },
}

/// What the host is to do next.
#[derive(Debug)]
pub enum ListenAct {
    /// Subscribe to the channels.
    Subscribe,
    /// See whether to stop.
    Check,
    /// Read a frame, for as long as the keepalive allows.
    Read,
    Ping,
    Auth { challenge: String },
    /// An event that mentions the agent; nothing, for a tick or a stop; or
    /// why the connection is of no more use.
    Return { heard: Result<Option<Note>, String> },
}

/// What the host is to print, whether to count this as a sign of life, and
/// what to do.
#[derive(Debug)]
pub struct ListenTurn {
    pub lines: Vec<String>,
    pub traffic: bool,
    pub act: ListenAct,
}

/// Listening waits for this kind of event.
pub open spec fn listen_fits(at: Listening, event: Heard) -> bool {
    match at {
        Listening::Checking => event is Checked,
        Listening::Reading => event is Frame || event is TimedOut || event is Failed,
        Listening::Pinging => event is Pinged || event is Failed,
        Listening::Over => false,
        _ => event is Done || event is Failed,
    }
}

/// Nothing to print, no sign of life, this to do.
pub open spec fn plainly(t: ListenTurn, act: ListenAct) -> bool {
    t.lines@.len() == 0 && !t.traffic && t.act == act
}

/// Listening ends without a mention.
pub open spec fn ticks(t: ListenTurn) -> bool {
    t.act matches ListenAct::Return { heard: Ok(mention) } && mention is None
}

/// Listening ends in this error.
pub open spec fn fails(t: ListenTurn, error: Seq<char>) -> bool {
    &&& t.lines@.len() == 0
    &&& !t.traffic
    &&& t.act matches ListenAct::Return { heard: Err(e) }
    &&& e@ == error
}

/// The line for a relay that fell silent.
pub open spec fn silent_line() -> Seq<char> {
    "no relay traffic for "@ + decimal((RESUBSCRIBE_AFTER_SILENCE / 60) as nat)
        + "m — resubscribing"@
}

/// What a frame comes to while listening: every frame is a sign of life.
pub open spec fn took(
    me: Seq<char>,
    trigger: Seq<char>,
    f: RelayFrame,
    after: Listening,
    t: ListenTurn,
) -> bool {
    &&& t.traffic
    &&& if says(f.kind, "AUTH"@) {
        &&& t.lines@.len() == 0
        &&& t.act matches ListenAct::Auth { challenge }
        &&& challenge@ == or_empty(f.subject)
        &&& after == Listening::Authenticating
    } else if says(f.kind, "CLOSED"@) {
        &&& views(t.lines@) == seq![closed_line(f)]
        &&& t.act == ListenAct::Subscribe
        &&& after == Listening::Renewing
    } else if is_live(f) && genuine(opt_view(f.body)) is Some {
        let n = genuine(opt_view(f.body))->0;
        &&& views(t.lines@) == seq![heard_line(n)]
        &&& if mentions(n, me, trigger) {
            &&& t.act matches ListenAct::Return { heard: Ok(Some(note)) }
            &&& note@ == n
            &&& after == Listening::Over
        } else {
            t.act == ListenAct::Check && after == Listening::Checking
        }
    } else {
        t.lines@.len() == 0 && t.act == ListenAct::Check && after == Listening::Checking
    }
}

/// What a quiet interval comes to once the ping was sent: a tick, and before
/// it a new subscription where the relay was silent for too long.
pub open spec fn pinged(silent_nanos: u128, after: Listening, t: ListenTurn) -> bool {
    &&& !t.traffic
    &&& if silent_nanos > RESUBSCRIBE_AFTER_SILENCE * 1_000_000_000 {
        &&& views(t.lines@) == seq![silent_line()]
        &&& t.act == ListenAct::Subscribe
        &&& after == Listening::Reviving
    } else {
        t.lines@.len() == 0 && ticks(t) && after == Listening::Over
    }
}

/// What listening makes of an event: the session and the place before and
/// after it, and the turn.
pub open spec fn listened_on(
    s: BuzzSession,
    at: Listening,
    trigger: Seq<char>,
    event: Heard,
    now: BuzzSession,
    after: Listening,
    t: ListenTurn,
) -> bool {
    if event is Failed {
        &&& now == s
        &&& after == Listening::Over
        &&& fails(
            t,
            if at == Listening::Pinging {
                "keepalive ping: "@ + event->error@
            } else {
                event->error@
            },
        )
    } else {
        match at {
            Listening::Subscribing => {
                &&& now == BuzzSession { listening: true, ..s }
                &&& plainly(t, ListenAct::Check)
                &&& after == Listening::Checking
            },
            Listening::Checking => if event->stopping {
                now == s && t.lines@.len() == 0 && !t.traffic && ticks(t) && after
                    == Listening::Over
            } else if s.pending@.len() > 0 {
                &&& now == BuzzSession { pending: now.pending, ..s }
                &&& now.pending@ == s.pending@.drop_last()
                &&& took(s.me@, trigger, s.pending@.last(), after, t)
            } else {
                now == s && plainly(t, ListenAct::Read) && after == Listening::Reading
            },
            Listening::Reading => match event {
                Heard::Frame { frame } => now == s && took(s.me@, trigger, frame, after, t),
                _ => now == s && plainly(t, ListenAct::Ping) && after == Listening::Pinging,
            },
            Listening::Pinging => now == s && pinged(event->silent_nanos, after, t),
            Listening::Authenticating => {
                now == s && plainly(t, ListenAct::Subscribe) && after == Listening::Resubscribing
            },
            Listening::Resubscribing => {
                now == s && plainly(t, ListenAct::Check) && after == Listening::Checking
            },
            Listening::Renewing => {
                &&& now == s
                &&& t.lines@.len() == 0 && t.traffic && t.act == ListenAct::Check
                &&& after == Listening::Checking
            },
            Listening::Reviving => {
                &&& now == s
                &&& t.lines@.len() == 0 && t.traffic && ticks(t)
                &&& after == Listening::Over
            },
            Listening::Over => true,
        }
    }
}

fn quietly(act: ListenAct) -> (t: ListenTurn)
    ensures
        plainly(t, act),
{
    ListenTurn { lines: Vec::new(), traffic: false, act }
}

fn saying(line: String, traffic: bool, act: ListenAct) -> (t: ListenTurn)
    ensures
        views(t.lines@) == seq![line@],
        t.traffic == traffic,
        t.act == act,
{
    let mut lines: Vec<String> = Vec::new();
    lines.push(line);
    assert(views(lines@) == seq![line@]);
    ListenTurn { lines, traffic, act }
}

impl BuzzSession {
    /// Begin to listen. The channels are subscribed to first, where they are
    /// not yet.
    pub fn listen(&self) -> (r: (Listening, ListenTurn))
        ensures
            !self.listening ==> plainly(r.1, ListenAct::Subscribe) && r.0 == Listening::Subscribing,
            self.listening ==> plainly(r.1, ListenAct::Check) && r.0 == Listening::Checking,
    {
        if self.listening {
            (Listening::Checking, quietly(ListenAct::Check))
        } else {
            (Listening::Subscribing, quietly(ListenAct::Subscribe))
        }
    }

    fn take(&self, trigger: &str, frame: RelayFrame) -> (r: (Listening, ListenTurn))
        ensures
            took(self.me@, trigger@, frame, r.0, r.1),
    {
        assert("AUTH"@ != "EVENT"@ && "CLOSED"@ != "EVENT"@) by {
            reveal_strlit("AUTH");
            reveal_strlit("CLOSED");
            reveal_strlit("EVENT");
            assert("AUTH"@.len() != "EVENT"@.len());
            assert("CLOSED"@.len() != "EVENT"@.len());
        }
        match self.next_mention(trigger, frame) {
            ListenStep::Again => (
                Listening::Checking,
                ListenTurn { lines: Vec::new(), traffic: true, act: ListenAct::Check },
            ),
            ListenStep::Auth { challenge } => (
                Listening::Authenticating,
                ListenTurn { lines: Vec::new(), traffic: true, act: ListenAct::Auth { challenge } },
            ),
            ListenStep::Resubscribe { line } => (
                Listening::Renewing,
                saying(line, true, ListenAct::Subscribe),
            ),
            ListenStep::Heard { line, mention: Some(note) } => (
                Listening::Over,
                saying(line, true, ListenAct::Return { heard: Ok(Some(note)) }),
            ),
            ListenStep::Heard { line, mention: None } => (
                Listening::Checking,
                saying(line, true, ListenAct::Check),
            ),
        }
    }

    /// Take in what happened while listening, and say what to do next. What
    /// was held while another call was waiting is taken before anything is
    /// read.
    pub fn on_listen(&mut self, at: Listening, trigger: &str, event: Heard) -> (r: (
        Listening,
        ListenTurn,
    ))
        requires
            listen_fits(at, event),
        ensures
            listened_on(*old(self), at, trigger@, event, *final(self), r.0, r.1),
    {
        match (at, event) {
            (Listening::Pinging, Heard::Failed { error }) => {
                let mut why = "keepalive ping: ".to_owned();
                why.append(error.as_str());
                (Listening::Over, quietly(ListenAct::Return { heard: Err(why) }))
            },
            (_, Heard::Failed { error }) => (
                Listening::Over,
                quietly(ListenAct::Return { heard: Err(error) }),
            ),
            (Listening::Subscribing, _) => {
                self.listening = true;
                (Listening::Checking, quietly(ListenAct::Check))
            },
            (Listening::Checking, Heard::Checked { stopping }) => {
                if stopping {
                    return (Listening::Over, quietly(ListenAct::Return { heard: Ok(None) }));
                }
                if self.pending.len() > 0 {
                    if let Some(frame) = self.take_pending() {
                        return self.take(trigger, frame);
                    }
                }
                (Listening::Reading, quietly(ListenAct::Read))
            },
            (Listening::Reading, Heard::Frame { frame }) => self.take(trigger, frame),
            (Listening::Reading, _) => (Listening::Pinging, quietly(ListenAct::Ping)),
            (Listening::Pinging, Heard::Pinged { silent_nanos }) => {
                if fell_silent(silent_nanos) {
                    let mut line = "no relay traffic for ".to_owned();
                    line.append(decimal_of(RESUBSCRIBE_AFTER_SILENCE / 60).as_str());
                    line.append("m — resubscribing");
                    (Listening::Reviving, saying(line, false, ListenAct::Subscribe))
                } else {
                    (Listening::Over, quietly(ListenAct::Return { heard: Ok(None) }))
                }
            },
            (Listening::Authenticating, _) => (
                Listening::Resubscribing,
                quietly(ListenAct::Subscribe),
            ),
            (Listening::Renewing, _) => (
                Listening::Checking,
                ListenTurn { lines: Vec::new(), traffic: true, act: ListenAct::Check },
            ),
            (Listening::Reviving, _) => (
                Listening::Over,
                ListenTurn {
                    lines: Vec::new(),
                    traffic: true,
                    act: ListenAct::Return { heard: Ok(None) },
                },
            ),
            _ => (Listening::Checking, quietly(ListenAct::Check)),
        }
    }
}

/// Is this the kind of event that listening waits for here?
pub fn fits_listening(at: Listening, event: &Heard) -> (r: bool)
    ensures
        r == listen_fits(at, *event),
{
    match (at, event) {
        (Listening::Checking, Heard::Checked { .. }) => true,
        (Listening::Checking, _) => false,
        (Listening::Reading, Heard::Frame { .. }) => true,
        (Listening::Reading, Heard::TimedOut) => true,
        (Listening::Reading, Heard::Failed { .. }) => true,
        (Listening::Reading, _) => false,
        (Listening::Pinging, Heard::Pinged { .. }) => true,
        (Listening::Pinging, Heard::Failed { .. }) => true,
        (Listening::Pinging, _) => false,
        (Listening::Over, _) => false,
        (_, Heard::Done) => true,
        (_, Heard::Failed { .. }) => true,
        _ => false,
    }
}

// ------------------------------------------------------------- reading back

/// How long a channel may take to be read back, in seconds.
pub const MAX_HISTORY_SECS: u64 = 5;

/// What happened while a channel was read back.
#[derive(Debug)]
pub enum HistoryEvent {
    /// So long after reading began.
    Elapsed { nanos: u128 },
    Frame { frame: RelayFrame },
    /// Nothing came for a while.
    TimedOut,
    Failed { error: String },
}

/// What the host is to do next to read a channel back.
#[derive(Debug)]
pub enum HistoryAct {
    /// See how long reading has taken.
    Check,
    Read,
    /// That is all: close the subscription.
    Close,
    Fail { error: String },
}

/// When reading a channel back ends: once the relay says that was all, once
/// it has taken too long, or once the socket is quiet, which means that the
/// relay has nothing more to say. Any other failure is one.
pub open spec fn history_goes_on(event: HistoryEvent, r: HistoryAct) -> bool {
    match event {
        HistoryEvent::Elapsed { nanos } => if nanos > MAX_HISTORY_SECS * 1_000_000_000 {
            r is Close
        } else {
            r is Read
        },
        HistoryEvent::Frame { frame } => if was_all(frame) {
            r is Close
        } else {
            r is Check
        },
        HistoryEvent::TimedOut => r is Close,
        HistoryEvent::Failed { error } => r == HistoryAct::Fail { error },
    }
}

impl BuzzSession {
    /// Take in what happened while a channel was read back, and say what to
    /// do next.
    pub fn on_history(&mut self, out: &mut Vec<Past>, event: HistoryEvent) -> (r: HistoryAct)
        ensures
            history_goes_on(event, r),
            match event {
                HistoryEvent::Frame { frame } => read_back(
                    *old(self),
                    old(out)@,
                    frame,
                    *final(self),
                    final(out)@,
                ),
                _ => *final(self) == *old(self) && final(out)@ == old(out)@,
            },
    {
        match event {
            HistoryEvent::Elapsed { nanos } => if nanos > MAX_HISTORY_SECS as u128
                * 1_000_000_000 {
                HistoryAct::Close
            } else {
                HistoryAct::Read
            },
            HistoryEvent::Frame { frame } => if self.on_history_frame(out, frame) {
                HistoryAct::Close
            } else {
                HistoryAct::Check
            },
            HistoryEvent::TimedOut => HistoryAct::Close,
            HistoryEvent::Failed { error } => HistoryAct::Fail { error },
        }
    }
}

// ------------------------------------------------------------- the adapter

/// What an adapter does with what the session heard.
#[derive(Debug)]
pub enum Next {
    /// Listen on.
    Listen,
    /// Give the caller a tick; where an id was remembered, write the cursor
    /// first.
    Tick { keep: bool },
    /// Write the cursor, and hand this over.
    Mention { mention: Mention },
    /// The connection is lost: connect again.
    Redial,
}

/// What an adapter does with what the session heard, `ids` being those that
/// were handed over before.
pub open spec fn heard_next(
    ids: Seq<Seq<char>>,
    heard: Result<Option<Note>, String>,
    r: Next,
) -> bool {
    match heard {
        Ok(Some(note)) => match r {
            Next::Listen => handed(ids, note@, Handed::Replayed),
            Next::Tick { keep } => keep && handed(ids, note@, Handed::Malformed),
            Next::Mention { mention } => handed(ids, note@, Handed::Over { mention }),
            Next::Redial => false,
        },
        Ok(None) => r == Next::Tick { keep: false },
        Err(_) => r == Next::Redial,
    }
}

impl BuzzAdapter {
    /// Take in what the session heard.
    pub fn on_heard(&mut self, heard: Result<Option<Note>, String>) -> (r: Next)
        ensures
            heard_next(old(self).recent@, heard, r),
            *final(self) == (BuzzAdapter { recent: final(self).recent, ..*old(self) }),
            final(self).recent@ == match heard {
                Ok(Some(note)) => remembered(old(self).recent@, note.id@),
                _ => old(self).recent@,
            },
    {
        match heard {
            Ok(Some(note)) => match self.hand_over(note) {
                Handed::Replayed => Next::Listen,
                Handed::Malformed => Next::Tick { keep: true },
                Handed::Over { mention } => Next::Mention { mention },
            },
            Ok(None) => Next::Tick { keep: false },
            Err(_) => Next::Redial,
        }
    }
}

/// How many seconds to wait before connecting again.
pub const REDIAL_WAITS: u32 = 5;

/// What happened while connecting again.
#[derive(Debug, Clone, Copy, PartialEq, Eq, Structural)]
pub enum Dial {
    Checked { stopping: bool },
    Connected,
    Refused,
}

/// What the host is to do next to connect again.
#[derive(Debug, Clone, Copy, PartialEq, Eq, Structural)]
pub enum Redial {
    /// Wait a second.
    Wait,
    Connect,
    /// Give the caller a tick. A fresh connection subscribes on the next
    /// call; where there is none, the next call tries again.
    Tick,
}

/// What connecting again comes to, so many seconds having been waited: a stop
/// cuts the waiting short, and whatever connecting gives is a tick, never an
/// error.
pub open spec fn redialled(waited: int, event: Dial) -> Redial {
    match event {
        Dial::Checked { stopping } => if waited >= REDIAL_WAITS {
            Redial::Connect
        } else if stopping {
            Redial::Tick
        } else {
            Redial::Wait
        },
        _ => Redial::Tick,
    }
}

/// Connect again rather than give up: resilience is the platform's quirk.
pub fn redial(waited: u32, event: Dial) -> (r: Redial)
    ensures
        r == redialled(waited as int, event),
{
    match event {
        Dial::Checked { stopping } => if waited >= REDIAL_WAITS {
            Redial::Connect
        } else if stopping {
            Redial::Tick
        } else {
            Redial::Wait
        },
        _ => Redial::Tick,
    }
}

// ------------------------------------------------------------- laws

/// The channels are subscribed to, or about to be.
pub open spec fn subscribed(s: BuzzSession, at: Listening) -> bool {
    s.listening || at == Listening::Subscribing
}

/// Nothing is read before the channels were subscribed to: every call starts
/// out so, and each step keeps it so.
pub proof fn one_subscribes_before_reading(
    s: BuzzSession,
    at: Listening,
    trigger: Seq<char>,
    event: Heard,
    now: BuzzSession,
    after: Listening,
    t: ListenTurn,
)
    requires
        subscribed(s, at),
        listen_fits(at, event),
        listened_on(s, at, trigger, event, now, after, t),
    ensures
        !(event is Failed) ==> subscribed(now, after) && after != Listening::Subscribing,
        s.listening ==> now.listening,
        t.act is Read ==> now.listening,
{
}

/// A stop is heeded at once: nothing that was held is taken, and nothing is
/// read.
pub proof fn a_stop_ends_listening(
    s: BuzzSession,
    trigger: Seq<char>,
    now: BuzzSession,
    after: Listening,
    t: ListenTurn,
)
    requires
        listened_on(
            s,
            Listening::Checking,
            trigger,
            Heard::Checked { stopping: true },
            now,
            after,
            t,
        ),
    ensures
        ticks(t),
        now == s,
        after == Listening::Over,
{
}

/// A quiet interval is a tick: the socket is pinged, the channels are
/// subscribed to again exactly where the relay was silent for too long, and
/// the caller gets its tick either way.
pub proof fn a_quiet_interval_is_a_tick(
    s: BuzzSession,
    trigger: Seq<char>,
    s1: BuzzSession,
    at1: Listening,
    t1: ListenTurn,
    silent_nanos: u128,
    s2: BuzzSession,
    at2: Listening,
    t2: ListenTurn,
    s3: BuzzSession,
    at3: Listening,
    t3: ListenTurn,
)
    requires
        listened_on(s, Listening::Reading, trigger, Heard::TimedOut, s1, at1, t1),
        listened_on(s1, at1, trigger, Heard::Pinged { silent_nanos }, s2, at2, t2),
        at2 != Listening::Over ==> listened_on(s2, at2, trigger, Heard::Done, s3, at3, t3),
    ensures
        t1.act == ListenAct::Ping,
        t2.act == ListenAct::Subscribe <==> silent_nanos > RESUBSCRIBE_AFTER_SILENCE
            * 1_000_000_000,
        at2 == Listening::Over ==> ticks(t2),
        at2 != Listening::Over ==> ticks(t3) && t3.traffic && at3 == Listening::Over,
{
}

/// A subscription that the relay dropped is renewed, and listening goes on.
pub proof fn a_dropped_subscription_is_renewed(
    s: BuzzSession,
    trigger: Seq<char>,
    frame: RelayFrame,
    s1: BuzzSession,
    at1: Listening,
    t1: ListenTurn,
    s2: BuzzSession,
    at2: Listening,
    t2: ListenTurn,
)
    requires
        says(frame.kind, "CLOSED"@),
        listened_on(s, Listening::Reading, trigger, Heard::Frame { frame }, s1, at1, t1),
        listened_on(s1, at1, trigger, Heard::Done, s2, at2, t2),
    ensures
        t1.act == ListenAct::Subscribe,
        t2.act == ListenAct::Check,
        at2 == Listening::Checking,
{
    reveal_strlit("AUTH");
    reveal_strlit("CLOSED");
    assert("AUTH"@.len() != "CLOSED"@.len());
}

/// Connecting again comes to an end: no more than so many waits, one attempt,
/// and then a tick, whatever came of it.
pub proof fn redialling_ends(waited: int, stopping: bool)
    ensures
        redialled(waited, Dial::Checked { stopping }) == Redial::Wait ==> waited < REDIAL_WAITS,
        waited >= REDIAL_WAITS ==> redialled(waited, Dial::Checked { stopping })
            == Redial::Connect,
        redialled(waited, Dial::Connected) == Redial::Tick,
        redialled(waited, Dial::Refused) == Redial::Tick,
{
}

/// A genuine message that comes in while listening is heard: where it mentions
/// the agent it is returned as it came and listening ends, and where it does
/// not listening goes on.
pub proof fn a_mention_is_returned_as_it_came(
    s: BuzzSession,
    trigger: Seq<char>,
    frame: RelayFrame,
    now: BuzzSession,
    after: Listening,
    t: ListenTurn,
)
    requires
        listened_on(s, Listening::Reading, trigger, (Heard::Frame { frame }), now, after, t),
        frame.kind is Some,
        frame.kind->0@ == "EVENT"@,
        frame.subject is Some,
        "apiary-listen"@.is_prefix_of(frame.subject->0@),
        genuine(opt_view(frame.body)) is Some,
    ensures
        ({
            let n = genuine(opt_view(frame.body))->0;
            &&& mentions(n, s.me@, trigger) ==> {
                &&& t.act is Return
                &&& t.act->heard is Ok
                &&& t.act->heard->Ok_0 is Some
                &&& t.act->heard->Ok_0->0@ == n
                &&& after == Listening::Over
            }
            &&& !mentions(n, s.me@, trigger) ==> t.act is Check && after == Listening::Checking
            &&& t.traffic
        }),
        now == s,
{
    reveal_strlit("AUTH");
    reveal_strlit("CLOSED");
    reveal_strlit("EVENT");
    assert("EVENT"@.len() == 5 && "AUTH"@.len() == 4 && "CLOSED"@.len() == 6);
}

/// What was held while something else was waited for is taken before anything
/// is read, and one at a time.
pub proof fn what_was_held_is_taken_first(
    s: BuzzSession,
    trigger: Seq<char>,
    now: BuzzSession,
    after: Listening,
    t: ListenTurn,
)
    requires
        listened_on(
            s,
            Listening::Checking,
            trigger,
            (Heard::Checked { stopping: false }),
            now,
            after,
            t,
        ),
    ensures
        t.act is Read <==> s.pending@.len() == 0,
        s.pending@.len() > 0 ==> now.pending@ == s.pending@.drop_last(),
        s.pending@.len() == 0 ==> now == s,
{
}

/// A failure ends listening and is passed on, with what failed where that was
/// the ping.
pub proof fn a_failure_is_passed_on(
    s: BuzzSession,
    at: Listening,
    trigger: Seq<char>,
    error: String,
    now: BuzzSession,
    after: Listening,
    t: ListenTurn,
)
    requires
        listened_on(s, at, trigger, (Heard::Failed { error }), now, after, t),
    ensures
        now == s,
        after == Listening::Over,
        t.act is Return,
        t.act->heard is Err,
        at != Listening::Pinging ==> t.act->heard->Err_0@ == error@,
        at == Listening::Pinging ==> t.act->heard->Err_0@ == "keepalive ping: "@ + error@,
{
}

/// The relay counts as silent after a quarter of an hour and not before.
pub proof fn the_relay_is_given_time(silent_nanos: u128, after: Listening, t: ListenTurn)
    requires
        pinged(silent_nanos, after, t),
    ensures
        t.act is Subscribe <==> silent_nanos > 900_000_000_000,
        t.act is Return <==> silent_nanos <= 900_000_000_000,
        t.act is Return ==> after == Listening::Over,
{
}

/// Reading back ends when the relay has told all, when it falls silent, and
/// after five seconds; until then it goes on.
pub proof fn reading_back_ends(event: HistoryEvent, r: HistoryAct)
    requires
        history_goes_on(event, r),
    ensures
        event is TimedOut ==> r is Close,
        event is Elapsed ==> (r is Close <==> event->nanos > 5_000_000_000) && (r is Read
            <==> event->nanos <= 5_000_000_000),
        event is Frame ==> (r is Close <==> event->frame.kind is Some && event->frame.kind->0@
            == "EOSE"@ && event->frame.subject is Some && event->frame.subject->0@
            == "apiary-history"@),
        event is Frame && !(r is Close) ==> r is Check,
        event is Failed ==> r is Fail,
{
}

/// What was heard decides what comes next: a new mention is handed over, one
/// seen before is listened past, silence is a tick and an error a redial.
pub proof fn what_was_heard_decides(
    ids: Seq<Seq<char>>,
    heard: Result<Option<Note>, String>,
    r: Next,
)
    requires
        heard_next(ids, heard, r),
    ensures
        heard is Err <==> r is Redial,
        heard is Ok && heard->Ok_0 is None ==> r == (Next::Tick { keep: false }),
        heard is Ok && heard->Ok_0 is Some ==> {
            let n = heard->Ok_0->0@;
            &&& ids.contains(n.id) <==> r is Listen
            &&& r is Mention ==> r->mention.author@ == n.pubkey && r->mention.text@ == n.content
            &&& !ids.contains(n.id) && tag_of(n.tags, "h"@) is Some ==> r is Mention
        },
{
}

/// A stop is heeded while waiting to connect again; else the wait goes on
/// until its five rounds are over.
pub proof fn a_stop_ends_redialling(waited: int)
    ensures
        waited < 5 ==> redialled(waited, (Dial::Checked { stopping: true })) == Redial::Tick,
        waited < 5 ==> redialled(waited, (Dial::Checked { stopping: false })) == Redial::Wait,
        waited >= 5 ==> redialled(waited, (Dial::Checked { stopping: false })) == Redial::Connect,
{
}

/// A challenge is answered, and the channels are subscribed to again after it,
/// before anything else is looked at.
pub proof fn after_a_challenge_one_subscribes_again(
    s: BuzzSession,
    trigger: Seq<char>,
    frame: RelayFrame,
    s1: BuzzSession,
    at1: Listening,
    t1: ListenTurn,
    s2: BuzzSession,
    at2: Listening,
    t2: ListenTurn,
    s3: BuzzSession,
    at3: Listening,
    t3: ListenTurn,
)
    requires
        frame.kind is Some,
        frame.kind->0@ == "AUTH"@,
        frame.subject is Some,
        listened_on(s, Listening::Reading, trigger, (Heard::Frame { frame }), s1, at1, t1),
        listened_on(s1, at1, trigger, Heard::Done, s2, at2, t2),
        listened_on(s2, at2, trigger, Heard::Done, s3, at3, t3),
    ensures
        t1.act is Auth && t1.act->challenge@ == frame.subject->0@,
        t2.act is Subscribe,
        t3.act is Check,
        at3 == Listening::Checking,
        s3 == s,
{
}

/// An event that cannot be placed in a channel costs a tick and is not looked
/// at again.
pub proof fn an_event_without_a_channel_is_passed_over(
    ids: Seq<Seq<char>>,
    note: Note,
    r: Next,
)
    requires
        heard_next(ids, Ok(Some(note)), r),
        !ids.contains(note@.id),
        tag_of(note@.tags, "h"@) is None,
    ensures
        r == (Next::Tick { keep: true }),
{
}

} // verus!
