//! A mention service: one agent's presence in one channel, inside its lease.
//!
//! The lease is claimed before anything is connected, looked after on quiet
//! intervals, and released once listening has ended. The host does what each
//! turn says, and says what came of it.
use crate::lease::{
    claimed_line, contested_text, released_line, released_text, renewed, Beat, Claim, Lease,
    LeaseKeeper, Renewal, NO_RELAYS,
};
use crate::text::{decimal, views};
use vstd::prelude::*;

verus! {

/// Where a service is: what it is waiting to hear of.
#[derive(Debug)]
pub enum Serving {
    /// The lease is being claimed.
    Claiming,
    Connecting,
    /// Listening, with quiet intervals in between.
    Listening,
    /// Who holds the lease is being looked up.
    Fetching,
    /// The lease is being released; listening ended in this error, if in any.
    Releasing { error: Option<String> },
    Over,
}

/// What happened.
#[derive(Debug)]
pub enum ServiceEvent {
    Claimed { claim: Claim },
    ClaimFailed { error: String },
    Connected,
    ConnectFailed { error: String },
    /// A quiet interval, so many whole seconds after the lease was last
    /// looked after.
    Ticked { secs: u64 },
    /// Who holds the lease, at this second.
    Fetched { found: Option<Lease>, now: u64 },
    /// Listening ended, in this error, if in any.
    Ended { error: Option<String> },
    Released,
    ReleaseFailed { error: String },
}

/// What the host is to do next.
#[derive(Debug)]
pub enum ServiceAct {
    Claim { expiry_secs: u64 },
    Connect,
    /// Listen until something ends it.
    Listen,
    /// Go on listening.
    GoOn,
    /// See who holds the lease; the seconds count from here again.
    Fetch,
    /// Renew the lease, as well as may be, and go on listening.
    Publish { seq: u64, until: u64 },
    /// Stop listening.
    Stop,
    Release { seq: u64 },
    Return { error: Option<String> },
}

/// What the host is to print, and then do.
#[derive(Debug)]
pub struct ServiceTurn {
    pub lines: Vec<String>,
    pub act: ServiceAct,
}

/// One agent's presence in one channel.
#[derive(Debug)]
pub struct MentionService {
    pub keeper: LeaseKeeper,
    /// What is to be printed once listening has ended.
    pub held: Vec<String>,
    pub phase: Serving,
}

/// The service waits for this kind of event. A lease that is renewed must
/// have an end.
pub open spec fn service_fits(s: MentionService, event: ServiceEvent) -> bool {
    match s.phase {
        Serving::Claiming => event is Claimed || event is ClaimFailed,
        Serving::Connecting => event is Connected || event is ConnectFailed,
        Serving::Listening => event is Ticked || event is Ended,
        Serving::Fetching => event is Fetched && s.keeper.seq is Some && event->now
            + s.keeper.expiry_secs <= u64::MAX,
        Serving::Releasing { .. } => event is Released || event is ReleaseFailed,
        Serving::Over => false,
    }
}

/// The service is over, and this is why; nothing of its lease changes.
pub open spec fn is_over(
    s: MentionService,
    now: MentionService,
    t: ServiceTurn,
    error: Option<String>,
) -> bool {
    now == MentionService { phase: Serving::Over, ..s } && t.act == ServiceAct::Return { error }
}

/// What claiming the lease comes to: connecting, where it is held, and else
/// the end.
pub open spec fn after_claim(
    s: MentionService,
    event: ServiceEvent,
    now: MentionService,
    t: ServiceTurn,
) -> bool {
    match event {
        ServiceEvent::Claimed { claim: Claim::Held { seq } } => {
            &&& now == MentionService {
                keeper: LeaseKeeper { seq: Some(seq), ..s.keeper },
                phase: Serving::Connecting,
                ..s
            }
            &&& views(t.lines@) == seq![claimed_line(s.keeper.host@, seq)]
            &&& t.act == ServiceAct::Connect
        },
        ServiceEvent::Claimed { claim: Claim::Contested { lease } } => {
            &&& now == MentionService { phase: Serving::Over, ..s }
            &&& t.lines@.len() == 0
            &&& t.act matches ServiceAct::Return { error: Some(error) }
            &&& error@ == contested_text(lease)
        },
        ServiceEvent::ClaimFailed { error } => t.lines@.len() == 0 && is_over(
            s,
            now,
            t,
            Some(error),
        ),
        _ => false,
    }
}

/// What looking the lease up comes to: a renewal, or a stop where a successor
/// holds it. The line about that is printed once listening has ended.
pub open spec fn after_fetch(
    s: MentionService,
    found: Option<Lease>,
    at: u64,
    now: MentionService,
    t: ServiceTurn,
) -> bool {
    &&& t.lines@.len() == 0
    &&& now == MentionService {
        keeper: LeaseKeeper { yielded: now.keeper.yielded, ..s.keeper },
        held: now.held,
        phase: Serving::Listening,
    }
    &&& exists|r: Renewal|
        #[trigger] renewed(s.keeper, found, at as int, now.keeper.yielded, r) && match r {
            Renewal::Yield { line } => t.act == ServiceAct::Stop && views(now.held@) == views(
                s.held@,
            ).push(line@),
            Renewal::Publish { seq, until } => t.act == ServiceAct::Publish { seq, until }
                && now.held == s.held,
        }
}

/// The number that the lease is to be released under, if it is to be.
pub open spec fn to_release(k: LeaseKeeper) -> Option<u64> {
    if k.yielded {
        None
    } else {
        k.seq
    }
}

/// What the end of listening comes to: what was held is printed, and the
/// lease is released, unless there is none or it was yielded.
pub open spec fn after_listening(
    s: MentionService,
    error: Option<String>,
    now: MentionService,
    t: ServiceTurn,
) -> bool {
    &&& t.lines == s.held
    &&& now.held@.len() == 0
    &&& now.keeper == s.keeper
    &&& match to_release(s.keeper) {
        Some(seq) => t.act == ServiceAct::Release { seq } && now.phase == Serving::Releasing {
            error,
        },
        None => t.act == ServiceAct::Return { error } && now.phase == Serving::Over,
    }
}

/// What the service makes of an event: the service before and after it, and
/// the turn.
pub open spec fn served(
    s: MentionService,
    event: ServiceEvent,
    now: MentionService,
    t: ServiceTurn,
) -> bool {
    match s.phase {
        Serving::Claiming => after_claim(s, event, now, t),
        Serving::Connecting => match event {
            ServiceEvent::ConnectFailed { error } => t.lines@.len() == 0 && is_over(
                s,
                now,
                t,
                Some(error),
            ),
            _ => {
                &&& now == MentionService { phase: Serving::Listening, ..s }
                &&& t.lines@.len() == 0 && t.act == ServiceAct::Listen
            },
        },
        Serving::Listening => match event {
            ServiceEvent::Ended { error } => after_listening(s, error, now, t),
            _ => {
                let due = s.keeper.seq is Some && event->secs >= s.keeper.heartbeat_secs;
                &&& t.lines@.len() == 0
                &&& due ==> now == MentionService { phase: Serving::Fetching, ..s } && t.act
                    == ServiceAct::Fetch
                &&& !due ==> now == s && t.act == ServiceAct::GoOn
            },
        },
        Serving::Fetching => after_fetch(s, event->found, event->now, now, t),
        Serving::Releasing { error } => {
            &&& is_over(s, now, t, error)
            &&& views(t.lines@) == seq![
                released_text(
                    match event {
                        ServiceEvent::ReleaseFailed { error: why } => Some(why@),
                        _ => None,
                    },
                ),
            ]
        },
        Serving::Over => true,
    }
}

fn quietly(act: ServiceAct) -> (t: ServiceTurn)
    ensures
        t.lines@.len() == 0,
        t.act == act,
{
    ServiceTurn { lines: Vec::new(), act }
}

fn saying(line: String, act: ServiceAct) -> (t: ServiceTurn)
    ensures
        views(t.lines@) == seq![line@],
        t.act == act,
{
    let mut lines: Vec<String> = Vec::new();
    lines.push(line);
    assert(views(lines@) == seq![line@]);
    ServiceTurn { lines, act }
}

impl MentionService {
    /// Begin a service whose manifest names so many relays to coordinate on.
    /// Without any there is no lease, which is said.
    pub fn begin(keeper: LeaseKeeper, relays: usize) -> (r: (MentionService, ServiceTurn))
        ensures
            r.0.keeper == keeper,
            r.0.held@.len() == 0,
            relays == 0 ==> {
                &&& r.0.phase == Serving::Connecting
                &&& r.1.act == ServiceAct::Connect
                &&& views(r.1.lines@) == seq![NO_RELAYS@]
            },
            relays > 0 ==> {
                &&& r.0.phase == Serving::Claiming
                &&& r.1.act == (ServiceAct::Claim { expiry_secs: keeper.expiry_secs })
                &&& r.1.lines@.len() == 0
            },
    {
        let expiry_secs: u64 = keeper.expiry_secs;
        match keeper.without_relays(relays) {
            Some(line) => (
                MentionService { keeper, held: Vec::new(), phase: Serving::Connecting },
                saying(line.to_owned(), ServiceAct::Connect),
            ),
            None => (
                MentionService { keeper, held: Vec::new(), phase: Serving::Claiming },
                quietly(ServiceAct::Claim { expiry_secs }),
            ),
        }
    }

    /// Is this the kind of event that the service waits for?
    pub fn accepts(&self, event: &ServiceEvent) -> (r: bool)
        ensures
            r == service_fits(*self, *event),
    {
        match (&self.phase, event) {
            (Serving::Claiming, ServiceEvent::Claimed { .. }) => true,
            (Serving::Claiming, ServiceEvent::ClaimFailed { .. }) => true,
            (Serving::Connecting, ServiceEvent::Connected) => true,
            (Serving::Connecting, ServiceEvent::ConnectFailed { .. }) => true,
            (Serving::Listening, ServiceEvent::Ticked { .. }) => true,
            (Serving::Listening, ServiceEvent::Ended { .. }) => true,
            (Serving::Fetching, ServiceEvent::Fetched { now, .. }) => self.keeper.seq.is_some()
                && *now <= u64::MAX - self.keeper.expiry_secs,
            (Serving::Releasing { .. }, ServiceEvent::Released) => true,
            (Serving::Releasing { .. }, ServiceEvent::ReleaseFailed { .. }) => true,
            _ => false,
        }
    }

    /// Take in what happened, and say what to do next.
    pub fn step(&mut self, event: ServiceEvent) -> (t: ServiceTurn)
        requires
            service_fits(*old(self), event),
        ensures
            served(*old(self), event, *final(self), t),
    {
        let mut phase = Serving::Over;
        core::mem::swap(&mut phase, &mut self.phase);
        match (phase, event) {
            (Serving::Claiming, ServiceEvent::Claimed { claim }) => match self.keeper.claimed(
                &claim,
            ) {
                Ok(line) => {
                    self.phase = Serving::Connecting;
                    saying(line, ServiceAct::Connect)
                },
                Err(error) => quietly(ServiceAct::Return { error: Some(error) }),
            },
            (Serving::Claiming, ServiceEvent::ClaimFailed { error }) => quietly(
                ServiceAct::Return { error: Some(error) },
            ),
            (Serving::Connecting, ServiceEvent::ConnectFailed { error }) => quietly(
                ServiceAct::Return { error: Some(error) },
            ),
            (Serving::Connecting, _) => {
                self.phase = Serving::Listening;
                quietly(ServiceAct::Listen)
            },
            (Serving::Listening, ServiceEvent::Ended { error }) => {
                let mut lines: Vec<String> = Vec::new();
                core::mem::swap(&mut lines, &mut self.held);
                match self.keeper.release() {
                    Some(seq) => {
                        self.phase = Serving::Releasing { error };
                        ServiceTurn { lines, act: ServiceAct::Release { seq } }
                    },
                    None => ServiceTurn { lines, act: ServiceAct::Return { error } },
                }
            },
            (Serving::Listening, ServiceEvent::Ticked { secs }) => {
                if self.keeper.beat(secs) == Beat::Fetch {
                    self.phase = Serving::Fetching;
                    quietly(ServiceAct::Fetch)
                } else {
                    self.phase = Serving::Listening;
                    quietly(ServiceAct::GoOn)
                }
            },
            (Serving::Fetching, ServiceEvent::Fetched { found, now }) => {
                self.phase = Serving::Listening;
                let ghost k = self.keeper;
                let renewal = self.keeper.fetched(&found, now);
                assert(renewed(k, found, now as int, self.keeper.yielded, renewal));
                match renewal {
                    Renewal::Yield { line } => {
                        let ghost before = views(self.held@);
                        self.held.push(line);
                        assert(views(self.held@) == before.push(line@));
                        quietly(ServiceAct::Stop)
                    },
                    Renewal::Publish { seq, until } => quietly(ServiceAct::Publish { seq, until }),
                }
            },
            (Serving::Releasing { error }, event) => {
                let why = match event {
                    ServiceEvent::ReleaseFailed { error } => Some(error),
                    _ => None,
                };
                saying(released_line(&why), ServiceAct::Return { error })
            },
            _ => quietly(ServiceAct::Return { error: None }),
        }
    }
}

// ------------------------------------------------------------- laws

/// A contested claim ends the service before anything is connected: a service
/// connects only once its claim was held, where it claims at all.
pub proof fn a_contested_claim_connects_nothing(
    s: MentionService,
    event: ServiceEvent,
    now: MentionService,
    t: ServiceTurn,
)
    requires
        s.phase is Claiming,
        service_fits(s, event),
        served(s, event, now, t),
    ensures
        t.act is Connect <==> event is Claimed && event->claim is Held,
        !(t.act is Connect) ==> t.act is Return && t.act->error is Some && now.phase is Over,
        t.act is Connect ==> now.keeper.seq is Some,
{
}

/// However listening ended, its result is what the service returns; and on
/// the way the lease is released, in an error as well, unless there is none
/// or it was yielded.
pub proof fn the_release_follows_and_the_result_is_kept(
    s: MentionService,
    error: Option<String>,
    s1: MentionService,
    t1: ServiceTurn,
    event: ServiceEvent,
    s2: MentionService,
    t2: ServiceTurn,
)
    requires
        s.phase is Listening,
        served(s, (ServiceEvent::Ended { error }), s1, t1),
        !(s1.phase is Over) ==> service_fits(s1, event) && served(s1, event, s2, t2),
    ensures
        t1.lines == s.held,
        s.keeper.seq is Some && !s.keeper.yielded <==> t1.act is Release,
        t1.act is Release ==> t1.act->Release_seq == s.keeper.seq->0,
        t1.act is Release ==> t2.act == (ServiceAct::Return { error }) && s2.phase is Over,
        !(t1.act is Release) ==> t1.act == (ServiceAct::Return { error }) && s1.phase is Over,
{
}

/// A lease that was yielded stays yielded, so it is never released.
pub proof fn what_was_yielded_is_never_released(
    s: MentionService,
    event: ServiceEvent,
    now: MentionService,
    t: ServiceTurn,
)
    requires
        s.keeper.yielded,
        service_fits(s, event),
        served(s, event, now, t),
    ensures
        now.keeper.yielded,
        !(t.act is Release),
{
}

/// A heartbeat is due once as many seconds have passed as it is apart, where a
/// lease is kept at all; before that listening just goes on.
pub proof fn a_heartbeat_is_kept(
    s: MentionService,
    secs: u64,
    now: MentionService,
    t: ServiceTurn,
)
    requires
        s.phase is Listening,
        served(s, (ServiceEvent::Ticked { secs }), now, t),
    ensures
        s.keeper.seq is Some && secs >= s.keeper.heartbeat_secs <==> t.act is Fetch,
        !(t.act is Fetch) ==> t.act is GoOn && now == s,
        t.act is Fetch ==> now.phase is Fetching && now.keeper == s.keeper,
{
}

/// A heartbeat renews the lease for its whole length, unless another host
/// claimed it later: the service stops then, and has yielded.
pub proof fn a_heartbeat_renews_or_yields(
    s: MentionService,
    found: Option<Lease>,
    at: u64,
    now: MentionService,
    t: ServiceTurn,
)
    requires
        s.phase is Fetching,
        s.keeper.seq is Some,
        served(s, (ServiceEvent::Fetched { found, now: at }), now, t),
    ensures
        ({
            let taken = found is Some && found->0.host@ != s.keeper.host@ && found->0.seq
                > s.keeper.seq->0;
            &&& taken ==> t.act is Stop && now.keeper.yielded
            &&& !taken ==> {
                &&& t.act is Publish
                &&& t.act->Publish_seq == s.keeper.seq->0
                &&& t.act->until == at + s.keeper.expiry_secs
                &&& now.keeper.yielded == s.keeper.yielded
            }
        }),
        now.phase is Listening,
{
}

/// The claim that is held is the one that was granted.
pub proof fn the_claim_granted_is_the_one_held(
    s: MentionService,
    seq: u64,
    now: MentionService,
    t: ServiceTurn,
)
    requires
        s.phase is Claiming,
        served(s, (ServiceEvent::Claimed { claim: (Claim::Held { seq }) }), now, t),
    ensures
        now.keeper.seq == Some(seq),
        now.keeper.host == s.keeper.host,
        now.keeper.expiry_secs == s.keeper.expiry_secs,
        now.phase is Connecting,
        t.act is Connect,
{
}

/// A service that cannot connect ends with what went wrong; one that can goes
/// on to listen.
pub proof fn connecting_decides(
    s: MentionService,
    event: ServiceEvent,
    now: MentionService,
    t: ServiceTurn,
)
    requires
        s.phase is Connecting,
        service_fits(s, event),
        served(s, event, now, t),
    ensures
        event is Connected ==> t.act is Listen && now.phase is Listening,
        event is ConnectFailed ==> t.act is Return && t.act->error == Some(
            event->ConnectFailed_error,
        ) && now.phase is Over,
{
}

/// A service that yields keeps what it has to say until listening has ended:
/// one line more, behind those it kept already. A renewal says nothing.
pub proof fn what_is_yielded_is_said_at_the_end(
    s: MentionService,
    found: Option<Lease>,
    at: u64,
    now: MentionService,
    t: ServiceTurn,
)
    requires
        s.phase is Fetching,
        s.keeper.seq is Some,
        served(s, (ServiceEvent::Fetched { found, now: at }), now, t),
    ensures
        t.lines@.len() == 0,
        t.act is Publish ==> now.held == s.held,
        t.act is Stop ==> views(now.held@).drop_last() == views(s.held@) && views(now.held@).last()
            == "lease superseded by host "@ + found->0.host@ + " (seq "@ + decimal(
            found->0.seq as nat,
        ) + ") — yielding"@,
        now.keeper.seq == s.keeper.seq && now.keeper.host == s.keeper.host
            && now.keeper.heartbeat_secs == s.keeper.heartbeat_secs && now.keeper.expiry_secs
            == s.keeper.expiry_secs,
{
    if t.act is Stop {
        let line = views(now.held@).last();
        assert(views(now.held@) =~= views(s.held@).push(line));
        assert(views(s.held@).push(line).drop_last() =~= views(s.held@));
    }
}

} // verus!
