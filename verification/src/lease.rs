//! The lease around a standing presence: one host per agent.
//!
//! A host claims the lease, renews it on quiet intervals, yields it to a
//! successor, and releases it when it stops. Taking a lease over is a human
//! decision.
use crate::text::{decimal, decimal_of, opt_view, same};
use vstd::prelude::*;

verus! {

/// The shortest interval between renewals, in seconds.
pub const MIN_HEARTBEAT_SECS: u64 = 10;

/// The interval between renewals.
pub open spec fn heartbeat_of(secs: int) -> int {
    if secs < MIN_HEARTBEAT_SECS {
        MIN_HEARTBEAT_SECS as int
    } else {
        secs
    }
}

/// How long a lease lasts: long enough to miss a renewal.
pub open spec fn expiry_of(heartbeat: int, secs: int) -> int {
    if secs < heartbeat * 2 {
        heartbeat * 2
    } else {
        secs
    }
}

/// A lease as others see it.
#[derive(Debug, PartialEq, Eq)]
pub struct Lease {
    pub host: String,
    pub seq: u64,
}

/// What claiming a lease came to.
#[derive(Debug)]
pub enum Claim {
    Held { seq: u64 },
    Contested { lease: Lease },
}

/// What to do about the lease on a quiet interval.
#[derive(Debug, Clone, Copy, PartialEq, Eq, Structural)]
pub enum Beat {
    /// Nothing is due.
    GoOn,
    /// See who holds it.
    Fetch,
}

/// What to do once it is known who holds the lease.
#[derive(Debug)]
pub enum Renewal {
    /// A successor holds it: stop.
    Yield { line: String },
    /// Renew it until this second.
    Publish { seq: u64, until: u64 },
}

/// The lease of one agent on this host.
#[derive(Debug)]
pub struct LeaseKeeper {
    pub host: String,
    pub heartbeat_secs: u64,
    pub expiry_secs: u64,
    /// The number this host holds the lease under, if it coordinates at all.
    pub seq: Option<u64>,
    pub yielded: bool,
}

pub const NO_RELAYS: &'static str = "lease: no memory.log_relays declared — running WITHOUT \
    cross-host coordination";

impl LeaseKeeper {
    /// The lease of an agent that has not claimed one yet.
    pub fn new(host: String, heartbeat_secs: u64, expiry_secs: u64) -> (r: LeaseKeeper)
        requires
            heartbeat_secs <= u64::MAX / 2,
        ensures
            r.host == host,
            r.heartbeat_secs == heartbeat_of(heartbeat_secs as int),
            r.expiry_secs == expiry_of(heartbeat_of(heartbeat_secs as int), expiry_secs as int),
            r.seq is None,
            !r.yielded,
    {
        let heartbeat_secs: u64 = if heartbeat_secs < MIN_HEARTBEAT_SECS {
            MIN_HEARTBEAT_SECS
        } else {
            heartbeat_secs
        };
        let expiry_secs: u64 = if expiry_secs < heartbeat_secs * 2 {
            heartbeat_secs * 2
        } else {
            expiry_secs
        };
        LeaseKeeper { host, heartbeat_secs, expiry_secs, seq: None, yielded: false }
    }

    /// Without relays there is nobody to coordinate with, which is said; with
    /// relays the lease is to be claimed.
    pub fn without_relays(&self, relays: usize) -> (r: Option<&'static str>)
        ensures
            r is Some <==> relays == 0,
            r matches Some(line) ==> line@ == NO_RELAYS@,
    {
        if relays == 0 {
            Some(NO_RELAYS)
        } else {
            None
        }
    }

    /// Take in what claiming the lease came to: a line to print, or why this
    /// host must not run the agent.
    pub fn claimed(&mut self, claim: &Claim) -> (r: Result<String, String>)
        ensures
            match claim {
                Claim::Held { seq } => {
                    &&& *final(self) == (LeaseKeeper { seq: Some(*seq), ..*old(self) })
                    &&& r matches Ok(line)
                    &&& line@ == claimed_line(old(self).host@, *seq)
                },
                Claim::Contested { lease } => {
                    &&& *final(self) == *old(self)
                    &&& r matches Err(error)
                    &&& error@ == contested_text(*lease)
                },
            },
    {
        match claim {
            Claim::Held { seq } => {
                self.seq = Some(*seq);
                let mut line = "lease claimed (host ".to_owned();
                line.append(self.host.as_str());
                line.append(", seq ");
                line.append(decimal_of(*seq).as_str());
                line.append(")");
                Ok(line)
            },
            Claim::Contested { lease } => {
                let mut error = "lease held by host ".to_owned();
                error.append(lease.host.as_str());
                error.append(" (seq ");
                error.append(decimal_of(lease.seq).as_str());
                error.append(ELSEWHERE);
                Err(error)
            },
        }
    }

    /// A quiet interval, so many whole seconds after the last renewal.
    pub fn beat(&self, secs: u64) -> (r: Beat)
        ensures
            r == if self.seq is Some && secs >= self.heartbeat_secs {
                Beat::Fetch
            } else {
                Beat::GoOn
            },
    {
        if self.seq.is_none() || secs < self.heartbeat_secs {
            Beat::GoOn
        } else {
            Beat::Fetch
        }
    }

    /// Take in who holds the lease. Another host with a higher number has
    /// taken over, and this one yields; else the lease is renewed.
    pub fn fetched(&mut self, found: &Option<Lease>, now: u64) -> (r: Renewal)
        requires
            old(self).seq is Some,
            now + old(self).expiry_secs <= u64::MAX,
        ensures
            *final(self) == (LeaseKeeper { yielded: final(self).yielded, ..*old(self) }),
            renewed(*old(self), *found, now as int, final(self).yielded, r),
    {
        let seq: u64 = match self.seq {
            Some(seq) => seq,
            None => 0,
        };
        if let Some(lease) = found {
            if !same(lease.host.as_str(), self.host.as_str()) && lease.seq > seq {
                self.yielded = true;
                let mut line = "lease superseded by host ".to_owned();
                line.append(lease.host.as_str());
                line.append(" (seq ");
                line.append(decimal_of(lease.seq).as_str());
                line.append(") — yielding");
                return Renewal::Yield { line };
            }
        }
        Renewal::Publish { seq, until: now + self.expiry_secs }
    }

    /// The number to release the lease under when this host stops. A yield
    /// must NOT release: the successor's number rules.
    pub fn release(&self) -> (r: Option<u64>)
        ensures
            r == if self.yielded {
                None
            } else {
                self.seq
            },
    {
        if self.yielded {
            None
        } else {
            self.seq
        }
    }
}

pub const ELSEWHERE: &'static str = ") — this agent appears to be running                      \
    elsewhere; takeover is a human decision (Overview → Lease)";

/// The line for a lease that was claimed.
pub open spec fn claimed_line(host: Seq<char>, seq: u64) -> Seq<char> {
    "lease claimed (host "@ + host + ", seq "@ + decimal(seq as nat) + ")"@
}

/// Why a host must not run an agent whose lease another holds.
pub open spec fn contested_text(lease: Lease) -> Seq<char> {
    "lease held by host "@ + lease.host@ + " (seq "@ + decimal(lease.seq as nat) + ELSEWHERE@
}

/// The line for a lease that was released, or could not be.
pub open spec fn released_text(error: Option<Seq<char>>) -> Seq<char> {
    match error {
        Some(e) => "lease release failed ("@ + e + ") — expires naturally"@,
        None => "lease released"@,
    }
}

/// Another host has taken the lease over.
pub open spec fn superseded(k: LeaseKeeper, found: Option<Lease>) -> bool {
    k.seq is Some && found is Some && found->0.host@ != k.host@ && found->0.seq > k.seq->0
}

/// What knowing who holds the lease comes to.
pub open spec fn renewed(
    k: LeaseKeeper,
    found: Option<Lease>,
    now: int,
    yielded: bool,
    r: Renewal,
) -> bool {
    if superseded(k, found) {
        &&& yielded
        &&& r matches Renewal::Yield { line }
        &&& line@ == "lease superseded by host "@ + found->0.host@ + " (seq "@ + decimal(
            found->0.seq as nat,
        ) + ") — yielding"@
    } else {
        &&& yielded == k.yielded
        &&& r matches Renewal::Publish { seq, until }
        &&& seq == k.seq->0
        &&& until == now + k.expiry_secs
    }
}

/// The line for a lease that was released, or could not be.
pub fn released_line(error: &Option<String>) -> (r: String)
    ensures
        r@ == released_text(opt_view(*error)),
{
    match error {
        Some(e) => {
            let mut line = "lease release failed (".to_owned();
            line.append(e.as_str());
            line.append(") — expires naturally");
            line
        },
        None => "lease released".to_owned(),
    }
}

// ------------------------------------------------------------- laws

/// A lease outlives a missed renewal: it lasts at least two heartbeats, and a
/// heartbeat is never shorter than the least.
pub proof fn a_lease_outlives_a_missed_heartbeat(heartbeat_secs: int, expiry_secs: int)
    requires
        heartbeat_secs >= 0,
    ensures
        heartbeat_of(heartbeat_secs) >= MIN_HEARTBEAT_SECS,
        heartbeat_of(heartbeat_secs) >= heartbeat_secs,
        expiry_of(heartbeat_of(heartbeat_secs), expiry_secs) >= 2 * heartbeat_of(heartbeat_secs),
        expiry_of(heartbeat_of(heartbeat_secs), expiry_secs) >= expiry_secs,
{
}

/// A host yields only to another host that holds a higher number, and what it
/// has yielded it never releases.
pub proof fn a_yielded_lease_is_the_successors(
    k: LeaseKeeper,
    found: Option<Lease>,
    now: int,
    after: LeaseKeeper,
    r: Renewal,
    released: Option<u64>,
)
    requires
        !k.yielded,
        renewed(k, found, now, after.yielded, r),
        released == if after.yielded {
            None
        } else {
            after.seq
        },
    ensures
        r is Yield <==> superseded(k, found),
        r is Yield ==> found->0.host@ != k.host@ && found->0.seq > k.seq->0,
        r is Yield ==> released is None,
{
}

/// A heartbeat is as asked for, and never faster than every ten seconds; a
/// lease lasts as asked for, and never less than two heartbeats.
pub proof fn a_lease_is_as_asked_for(heartbeat: int, secs: int)
    ensures
        heartbeat >= 10 ==> heartbeat_of(heartbeat) == heartbeat,
        heartbeat < 10 ==> heartbeat_of(heartbeat) == 10,
        secs >= 2 * heartbeat ==> expiry_of(heartbeat, secs) == secs,
        secs < 2 * heartbeat ==> expiry_of(heartbeat, secs) == 2 * heartbeat,
{
}

/// A keeper yields to another host that claimed after it, and to no one else:
/// not to its own host, not to an older claim, and not where nothing is found.
pub proof fn a_keeper_yields_to_a_later_claim(k: LeaseKeeper, found: Option<Lease>)
    ensures
        found is None ==> !superseded(k, found),
        found is Some && found->0.host@ == k.host@ ==> !superseded(k, found),
        k.seq is Some && found is Some && found->0.seq <= k.seq->0 ==> !superseded(k, found),
        k.seq is Some && found is Some && found->0.host@ != k.host@ && found->0.seq > k.seq->0
            ==> superseded(k, found),
{
}

/// A renewal goes on with the same claim, until the whole length of the lease
/// from now; a keeper that yields publishes nothing.
pub proof fn a_renewal_lasts_a_whole_lease(
    k: LeaseKeeper,
    found: Option<Lease>,
    now: int,
    yielded: bool,
    r: Renewal,
)
    requires
        k.seq is Some,
        renewed(k, found, now, yielded, r),
    ensures
        found is None || found->0.host@ == k.host@ || found->0.seq <= k.seq->0 ==> {
            &&& r is Publish
            &&& r->seq == k.seq->0
            &&& r->until - now == k.expiry_secs
            &&& yielded == k.yielded
        },
        found is Some && found->0.host@ != k.host@ && found->0.seq > k.seq->0 ==> r is Yield
            && yielded,
{
}

/// Every line about a lease names the host it is about and the claim it was
/// made with; a release that failed says why.
pub proof fn a_line_names_host_and_claim(
    host: Seq<char>,
    seq: u64,
    lease: Lease,
    error: Seq<char>,
)
    ensures
        claimed_line(host, seq) == "lease claimed (host "@ + host + ", seq "@ + decimal(seq as nat)
            + ")"@,
        exists|after: Seq<char>| #[trigger]
            ("lease held by host "@ + lease.host@ + " (seq "@ + decimal(lease.seq as nat) + after)
                == contested_text(lease),
        released_text(None) == "lease released"@,
        released_text(Some(error)) == "lease release failed ("@ + error
            + ") — expires naturally"@,
{
    assert("lease held by host "@ + lease.host@ + " (seq "@ + decimal(lease.seq as nat)
        + ELSEWHERE@ == contested_text(lease));
}

/// A keeper that yields says to whom.
pub proof fn a_yielding_keeper_names_its_successor(
    k: LeaseKeeper,
    found: Option<Lease>,
    now: int,
    yielded: bool,
    r: Renewal,
)
    requires
        renewed(k, found, now, yielded, r),
        r is Yield,
    ensures
        found is Some,
        r->line@ == "lease superseded by host "@ + found->0.host@ + " (seq "@ + decimal(
            found->0.seq as nat,
        ) + ") — yielding"@,
{
}

} // verus!
