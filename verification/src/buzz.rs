//! A session with a Buzz relay.
//!
//! Buzz IS a nostr relay, so an agent authenticates with the same key that
//! signs its log: a challenge is answered with a signed event on the same
//! connection. Authentication is per connection, so this is a session, not
//! one-shot calls: the socket that authenticated is the socket that posts and
//! reads.
//!
//! The host owns the socket. What a frame from the relay means, while one
//! call or another is waiting for its answer, is decided here.
use crate::json::{
    error_in, flag_at, item_at, json_error, json_flag_at, json_item_at, json_list, json_object,
    json_quoted, json_text_at, list_text, object_text, pair_views, quoted, text_at,
};
use crate::presence::{Mention, Said};
use crate::text::{
    a_number_reads_back, contains, debug_text, decimal, decimal_of, first_chars, lists, occurs,
    opt_str, opt_view, parse_u64, parsed_u64, quote, same, starts_with, take_chars, to_lower,
    unicode_lower, views,
};
use std::collections::VecDeque;
use vstd::prelude::*;

verus! {

/// Buzz stream message kind (group chat).
pub const KIND_STREAM_MESSAGE: u16 = 9;

/// Buzz's "someone is composing" event. Clients expire it after a few
/// seconds, so it is a heartbeat rather than a state to set and clear.
pub const KIND_TYPING_INDICATOR: u16 = 20002;

/// Client authentication kind.
pub const KIND_AUTH: u16 = 22242;

/// Group/channel metadata kind (channel discovery).
pub const KIND_GROUP_METADATA: u16 = 39000;

/// Channel join request kind.
pub const KIND_JOIN_REQUEST: u16 = 9021;

/// A profile: replaceable, so publishing again updates it.
pub const KIND_PROFILE: u16 = 0;

// ------------------------------------------------------------- events

/// A nostr event, without its signature.
#[derive(Debug)]
pub struct Note {
    pub id: String,
    /// The author's public key, in hex.
    pub pubkey: String,
    /// Seconds since 1970.
    pub created_at: u64,
    pub tags: Vec<Vec<String>>,
    pub content: String,
}

/// A nostr event as values.
pub struct NoteModel {
    pub id: Seq<char>,
    pub pubkey: Seq<char>,
    pub created_at: u64,
    pub tags: Seq<Seq<Seq<char>>>,
    pub content: Seq<char>,
}

/// The views of a list of tags.
pub open spec fn tag_views(tags: Seq<Vec<String>>) -> Seq<Seq<Seq<char>>> {
    tags.map_values(|t: Vec<String>| views(t@))
}

impl View for Note {
    type V = NoteModel;

    open spec fn view(&self) -> NoteModel {
        NoteModel {
            id: self.id@,
            pubkey: self.pubkey@,
            created_at: self.created_at,
            tags: tag_views(self.tags@),
            content: self.content@,
        }
    }
}

/// The view of an optional event.
pub open spec fn opt_note(n: Option<Note>) -> Option<NoteModel> {
    match n {
        Some(n) => Some(n@),
        None => None,
    }
}

/// The event that a JSON text spells out, if it spells one out.
pub uninterp spec fn nostr_event(json: Seq<char>) -> Option<NoteModel>;

/// nostr's `Event::from_json`, and the event's fields: ids and keys in hex,
/// tags as lists of strings, the time in seconds.
#[verifier::external_body]
fn event_in(json: &str) -> (r: Option<Note>)
    ensures
        opt_note(r) == nostr_event(json@),
{
    let event = nostr::event::Event::from_json(json).ok()?;
    Some(Note {
        id: event.id.to_hex(),
        pubkey: event.pubkey.to_hex(),
        created_at: event.created_at.as_secs(),
        tags: event.tags.iter().map(|tag| tag.as_slice().to_vec()).collect(),
        content: event.content,
    })
}

/// The event that a JSON text spells out has the id and the signature that it
/// should.
pub uninterp spec fn nostr_verifies(json: Seq<char>) -> bool;

/// nostr's `Event::verify`, of the event that `Event::from_json` finds. A
/// text that is no event does not verify.
#[verifier::external_body]
fn verifies(json: &str) -> (r: bool)
    ensures
        r == nostr_verifies(json@),
{
    nostr::event::Event::from_json(json).is_ok_and(|event| event.verify().is_ok())
}

/// The event in a frame's body, if it is a genuine one.
pub open spec fn genuine(body: Option<Seq<char>>) -> Option<NoteModel> {
    match body {
        Some(json) if nostr_verifies(json) => nostr_event(json),
        _ => None,
    }
}

/// The event in a frame's body. What does not verify is not an event.
pub fn genuine_note(body: &Option<String>) -> (r: Option<Note>)
    ensures
        opt_note(r) == genuine(opt_view(*body)),
{
    match body {
        Some(json) => if verifies(json.as_str()) {
            event_in(json.as_str())
        } else {
            None
        },
        None => None,
    }
}

/// The value of the first tag of this name that has one.
pub open spec fn tag_of(tags: Seq<Seq<Seq<char>>>, name: Seq<char>) -> Option<Seq<char>>
    decreases tags.len(),
{
    if tags.len() == 0 {
        None
    } else if tags[0].len() >= 2 && tags[0][0] == name {
        Some(tags[0][1])
    } else {
        tag_of(tags.drop_first(), name)
    }
}

/// The value of the first tag of this name that has one.
pub fn tag_value(tags: &Vec<Vec<String>>, name: &str) -> (r: Option<String>)
    ensures
        opt_view(r) == tag_of(tag_views(tags@), name@),
{
    let ghost all = tag_views(tags@);
    let mut i: usize = 0;
    assert(all.skip(0) == all);
    while i < tags.len()
        invariant
            i <= tags@.len(),
            all == tag_views(tags@),
            tag_of(all, name@) == tag_of(all.skip(i as int), name@),
        decreases tags@.len() - i,
    {
        let tag = &tags[i];
        assert(all[i as int] == views(tag@));
        assert(all.skip(i as int)[0] == all[i as int]);
        assert(all.skip(i as int).drop_first() == all.skip(i + 1));
        if tag.len() >= 2 && same(tag[0].as_str(), name) {
            assert(all[i as int][1] == tag@[1]@);
            return Some(tag[1].clone());
        }
        i += 1;
    }
    None
}

/// A tag of this name has this value.
pub open spec fn tagged(tags: Seq<Seq<Seq<char>>>, name: Seq<char>, value: Seq<char>) -> bool {
    exists|i: int|
        #![trigger tags[i]]
        0 <= i < tags.len() && tags[i].len() >= 2 && tags[i][0] == name && tags[i][1] == value
}

fn is_tagged(tags: &Vec<Vec<String>>, name: &str, value: &str) -> (r: bool)
    ensures
        r == tagged(tag_views(tags@), name@, value@),
{
    let ghost all = tag_views(tags@);
    let mut i: usize = 0;
    while i < tags.len()
        invariant
            i <= tags@.len(),
            all == tag_views(tags@),
            forall|j: int|
                #![trigger all[j]]
                0 <= j < i ==> !(all[j].len() >= 2 && all[j][0] == name@ && all[j][1] == value@),
        decreases tags@.len() - i,
    {
        let tag = &tags[i];
        assert(all[i as int] == views(tag@));
        if tag.len() >= 2 && same(tag[0].as_str(), name) && same(tag[1].as_str(), value) {
            assert(all[i as int].len() >= 2 && all[i as int][0] == name@ && all[i as int][1]
                == value@);
            return true;
        }
        i += 1;
    }
    false
}

/// The channel a stream message was posted in (its h tag).
pub fn channel_of(event: &Note) -> (r: Option<String>)
    ensures
        opt_view(r) == tag_of(event@.tags, "h"@),
{
    tag_value(&event.tags, "h")
}

// ------------------------------------------------------------- drafts

/// An event to be signed. Where no time is given, the signer's is used.
#[derive(Debug)]
pub struct Draft {
    pub kind: u16,
    pub content: String,
    pub tags: Vec<Vec<String>>,
    pub created_at: Option<u64>,
}

fn tag(name: &str, value: &str) -> (r: Vec<String>)
    ensures
        views(r@) == seq![name@, value@],
{
    let mut out: Vec<String> = Vec::new();
    out.push(name.to_owned());
    out.push(value.to_owned());
    assert(views(out@) == seq![name@, value@]);
    out
}

/// A draft that says nothing but names a channel.
fn channel_draft(kind: u16, channel: &str) -> (r: Draft)
    ensures
        r.kind == kind,
        r.content@.len() == 0,
        tag_views(r.tags@) == seq![seq!["h"@, channel@]],
        r.created_at is None,
{
    let mut tags: Vec<Vec<String>> = Vec::new();
    tags.push(tag("h", channel));
    assert(tag_views(tags@) == seq![seq!["h"@, channel@]]);
    Draft { kind, content: String::new(), tags, created_at: None }
}

/// The public key that a text spells out, in hex, if it spells one out.
pub uninterp spec fn nostr_pubkey(text: Seq<char>) -> Option<Seq<char>>;

/// nostr's `PublicKey::parse` and `PublicKey::to_hex`.
#[verifier::external_body]
fn pubkey_in(text: &str) -> (r: Option<String>)
    ensures
        opt_view(r) == nostr_pubkey(text@),
{
    nostr::key::PublicKey::parse(text).ok().map(|key| key.to_hex())
}

/// The tags of those that are mentioned. What is no public key is left out.
pub open spec fn mention_tags(mentions: Seq<Seq<char>>) -> Seq<Seq<Seq<char>>>
    decreases mentions.len(),
{
    if mentions.len() == 0 {
        Seq::empty()
    } else {
        match nostr_pubkey(mentions.last()) {
            Some(hex) => mention_tags(mentions.drop_last()).push(seq!["p"@, hex]),
            None => mention_tags(mentions.drop_last()),
        }
    }
}

/// When a message is stamped: now, but never at or before the message that it
/// answers. Clients sort by this, so a reply stamped by a clock a few seconds
/// behind would render ABOVE the message it answers.
pub open spec fn stamp(now: u64, after: Option<u64>) -> Option<u64> {
    match after {
        Some(t) => Some(
            if now > t + 1 {
                now
            } else {
                (t + 1) as u64
            },
        ),
        None => None,
    }
}

// ------------------------------------------------------------- the session

/// A frame from the relay: a JSON array that starts with its kind.
#[derive(Debug)]
pub struct RelayFrame {
    pub kind: Option<String>,
    /// What it is about: a subscription, an event id, a challenge.
    pub subject: Option<String>,
    /// What follows the subject, where that is a boolean.
    pub flag: Option<bool>,
    /// What follows the subject, where that is a string.
    pub word: Option<String>,
    /// What follows the subject, as JSON.
    pub body: Option<String>,
    /// What comes last, where that is a string.
    pub detail: Option<String>,
}

/// `f` is the frame in this text.
pub open spec fn is_frame(text: Seq<char>, f: RelayFrame) -> bool {
    &&& opt_view(f.kind) == json_text_at(text, 0)
    &&& opt_view(f.subject) == json_text_at(text, 1)
    &&& f.flag == json_flag_at(text, 2)
    &&& opt_view(f.word) == json_text_at(text, 2)
    &&& opt_view(f.body) == json_item_at(text, 2)
    &&& opt_view(f.detail) == json_text_at(text, 3)
}

impl RelayFrame {
    /// The frame in a text from the relay. A text that is not JSON is an
    /// error, in words.
    pub fn read(text: &str) -> (r: Result<RelayFrame, String>)
        ensures
            match json_error(text@) {
                Some(e) => r matches Err(error) && error@ == e,
                None => r matches Ok(f) && is_frame(text@, f),
            },
    {
        if let Some(error) = error_in(text) {
            return Err(error);
        }
        Ok(
            RelayFrame {
                kind: text_at(text, 0),
                subject: text_at(text, 1),
                flag: flag_at(text, 2),
                word: text_at(text, 2),
                body: item_at(text, 2),
                detail: text_at(text, 3),
            },
        )
    }
}

/// The optional text is this one.
pub open spec fn says(o: Option<String>, s: Seq<char>) -> bool {
    o is Some && o->0@ == s
}

fn is_word(o: &Option<String>, s: &str) -> (r: bool)
    ensures
        r == says(*o, s@),
{
    match o {
        Some(t) => same(t.as_str(), s),
        None => false,
    }
}

/// The optional text, empty where there is none.
pub open spec fn or_empty(o: Option<String>) -> Seq<char> {
    match o {
        Some(s) => s@,
        None => Seq::empty(),
    }
}

fn text_or_empty(o: &Option<String>) -> (r: String)
    ensures
        r@ == or_empty(*o),
{
    match o {
        Some(s) => s.clone(),
        None => String::new(),
    }
}

/// The frame brings an event of the live subscription.
pub open spec fn is_live(f: RelayFrame) -> bool {
    says(f.kind, "EVENT"@) && f.subject is Some && "apiary-listen"@.is_prefix_of(f.subject->0@)
}

fn live(f: &RelayFrame) -> (r: bool)
    ensures
        r == is_live(*f),
{
    is_word(&f.kind, "EVENT") && match &f.subject {
        Some(sub) => starts_with(sub.as_str(), "apiary-listen"),
        None => false,
    }
}

/// The frame is of this kind, about this subject.
pub open spec fn is_about(f: RelayFrame, kind: Seq<char>, subject: Seq<char>) -> bool {
    says(f.kind, kind) && says(f.subject, subject)
}

fn about(f: &RelayFrame, kind: &str, subject: &str) -> (r: bool)
    ensures
        r == is_about(*f, kind@, subject@),
{
    is_word(&f.kind, kind) && is_word(&f.subject, subject)
}

/// What is known of a connection to the relay.
#[derive(Debug)]
pub struct BuzzSession {
    pub url: String,
    /// The agent's public key, in hex.
    pub me: String,
    pub authed: bool,
    /// Set once the live mention subscription is active.
    pub listening: bool,
    /// Live-subscription events that arrived while publishing or
    /// authenticating waited for its own reply, and whatever else arrived
    /// while a channel was read back, so that mentions received mid-reply are
    /// not lost. A request holds nothing back: what it does not ask for is
    /// passed over.
    pub pending: Vec<RelayFrame>,
}

impl BuzzSession {
    /// A connection that was just made.
    pub fn connect(url: String, me: String) -> (r: BuzzSession)
        ensures
            r.url == url,
            r.me == me,
            !r.authed,
            !r.listening,
            r.pending@.len() == 0,
    {
        BuzzSession { url, me, authed: false, listening: false, pending: Vec::new() }
    }

    /// The answer to a challenge: identity and relay auth are the same
    /// keypair, which is the whole point.
    pub fn auth_draft(&self, challenge: &str) -> (r: Draft)
        ensures
            r.kind == KIND_AUTH,
            r.content@.len() == 0,
            tag_views(r.tags@) == seq![seq!["relay"@, self.url@], seq!["challenge"@, challenge@]],
            r.created_at is None,
    {
        let mut tags: Vec<Vec<String>> = Vec::new();
        tags.push(tag("relay", self.url.as_str()));
        tags.push(tag("challenge", challenge));
        assert(tag_views(tags@) == seq![seq!["relay"@, self.url@], seq!["challenge"@, challenge@]]);
        Draft { kind: KIND_AUTH, content: String::new(), tags, created_at: None }
    }

    /// A typing indicator for a channel. Ephemeral and short-lived by design,
    /// so an agent that dies mid-run leaves no ghost typing behind.
    pub fn typing(&self, channel: &str) -> (r: Draft)
        ensures
            r.kind == KIND_TYPING_INDICATOR,
            r.content@.len() == 0,
            tag_views(r.tags@) == seq![seq!["h"@, channel@]],
            r.created_at is None,
    {
        channel_draft(KIND_TYPING_INDICATOR, channel)
    }

    /// A request to join a channel. Open channels admit immediately; private
    /// ones queue for an admin.
    pub fn join_channel(&self, channel: &str) -> (r: Draft)
        ensures
            r.kind == KIND_JOIN_REQUEST,
            r.content@.len() == 0,
            tag_views(r.tags@) == seq![seq!["h"@, channel@]],
            r.created_at is None,
    {
        channel_draft(KIND_JOIN_REQUEST, channel)
    }

    /// The agent's profile: how it appears to humans in every nostr client.
    pub fn set_profile(&self, name: &str, about: Option<&str>, picture: Option<&str>) -> (r: Draft)
        ensures
            r.kind == KIND_PROFILE,
            r.content@ == json_object(profile_fields(name@, opt_str(about), opt_str(picture))),
            r.tags@.len() == 0,
            r.created_at is None,
    {
        let mut fields: Vec<(String, String)> = Vec::new();
        fields.push(("name".to_owned(), quoted(name)));
        if let Some(about) = about {
            fields.push(("about".to_owned(), quoted(about)));
        }
        if let Some(picture) = picture {
            fields.push(("picture".to_owned(), quoted(picture)));
        }
        assert(pair_views(fields@) == profile_fields(name@, opt_str(about), opt_str(picture)));
        Draft {
            kind: KIND_PROFILE,
            content: object_text(&fields),
            tags: Vec::new(),
            created_at: None,
        }
    }

/// A stream message, with a causal floor: it is never stamped at or before
    /// `after`.
    pub fn post_after(
        &self,
        channel: &str,
        content: &str,
        mentions: &Vec<String>,
        after: Option<u64>,
        now: u64,
    ) -> (r: Draft)
        requires
            after is Some ==> after->0 < u64::MAX,
        ensures
            r.kind == KIND_STREAM_MESSAGE,
            r.content@ == content@,
            tag_views(r.tags@) == seq![seq!["h"@, channel@]] + mention_tags(views(mentions@)),
            r.created_at == stamp(now, after),
    {
        let mut tags: Vec<Vec<String>> = Vec::new();
        tags.push(tag("h", channel));
        let ghost all = views(mentions@);
        let ghost head = seq![seq!["h"@, channel@]];
        let mut i: usize = 0;
        assert(all.take(0) == Seq::<Seq<char>>::empty());
        assert(tag_views(tags@) == head + mention_tags(all.take(0)));
        while i < mentions.len()
            invariant
                i <= mentions@.len(),
                all == views(mentions@),
                tag_views(tags@) == head + mention_tags(all.take(i as int)),
            decreases mentions@.len() - i,
        {
            assert(all.take(i + 1).drop_last() == all.take(i as int));
            assert(all.take(i + 1).last() == mentions@[i as int]@);
            let ghost before = tag_views(tags@);
            if let Some(hex) = pubkey_in(mentions[i].as_str()) {
                tags.push(tag("p", hex.as_str()));
                assert(tag_views(tags@) == before.push(seq!["p"@, hex@]));
            }
            i += 1;
            assert(tag_views(tags@) == head + mention_tags(all.take(i as int)));
        }
        assert(all.take(i as int) == all);
        let created_at: Option<u64> = match after {
            Some(t) => if now > t + 1 {
                Some(now)
            } else {
                Some(t + 1)
            },
            None => None,
        };
        Draft { kind: KIND_STREAM_MESSAGE, content: content.to_owned(), tags, created_at }
    }

    /// A stream message.
    pub fn post(&self, channel: &str, content: &str, mentions: &Vec<String>) -> (r: Draft)
        ensures
            r.kind == KIND_STREAM_MESSAGE,
            r.content@ == content@,
            tag_views(r.tags@) == seq![seq!["h"@, channel@]] + mention_tags(views(mentions@)),
            r.created_at is None,
    {
        self.post_after(channel, content, mentions, None, 0)
    }
}

/// The fields of a profile.
pub open spec fn profile_fields(
    name: Seq<char>,
    about: Option<Seq<char>>,
    picture: Option<Seq<char>>,
) -> Seq<(Seq<char>, Seq<char>)> {
    let named = seq![("name"@, json_quoted(name))];
    let described = match about {
        Some(a) => named.push(("about"@, json_quoted(a))),
        None => named,
    };
    match picture {
        Some(p) => described.push(("picture"@, json_quoted(p))),
        None => described,
    }
}

// ------------------------------------------------------------- authenticating

/// How many frames to read for the answer to an authentication.
pub const MAX_AUTH_FRAMES: u32 = 64;

/// Waiting for the relay to answer an authentication.
#[derive(Debug)]
pub struct AuthWait {
    pub event_id: String,
    /// Frames read so far.
    pub read: u32,
}

#[derive(Debug, PartialEq, Eq)]
pub enum AuthStep {
    Again,
    Accepted,
    Failed { error: String },
}

/// Reading goes on, unless enough has been read.
pub open spec fn auth_goes_on(read: int, r: AuthStep) -> bool {
    if read < MAX_AUTH_FRAMES {
        r is Again
    } else {
        r matches AuthStep::Failed { error } && error@ == "no auth response"@
    }
}

/// What a frame means to an authentication: the session before and after it,
/// and what comes of it, `read` frames having been read with this one.
pub open spec fn auth_stepped(
    s: BuzzSession,
    id: Seq<char>,
    read: int,
    f: RelayFrame,
    after: BuzzSession,
    r: AuthStep,
) -> bool {
    if is_live(f) {
        &&& after == BuzzSession { pending: after.pending, ..s }
        &&& after.pending@ == s.pending@.push(f)
        &&& auth_goes_on(read, r)
    } else if is_about(f, "OK"@, id) {
        if f.flag == Some(true) {
            after == BuzzSession { authed: true, ..s } && r == AuthStep::Accepted
        } else {
            &&& after == s
            &&& r matches AuthStep::Failed { error }
            &&& error@ == "auth rejected: "@ + or_empty(f.detail)
        }
    } else {
        after == s && auth_goes_on(read, r)
    }
}

impl BuzzSession {
    /// Take in a frame while waiting for the answer to an authentication.
    pub fn on_auth_frame(&mut self, wait: &mut AuthWait, frame: RelayFrame) -> (r: AuthStep)
        requires
            old(wait).read < MAX_AUTH_FRAMES,
        ensures
            final(wait).read == old(wait).read + 1,
            final(wait).event_id == old(wait).event_id,
            auth_stepped(
                *old(self),
                old(wait).event_id@,
                old(wait).read + 1,
                frame,
                *final(self),
                r,
            ),
    {
        wait.read += 1;
        if live(&frame) {
            self.pending.push(frame);
        } else if about(&frame, "OK", wait.event_id.as_str()) {
            if let Some(true) = frame.flag {
                self.authed = true;
                return AuthStep::Accepted;
            }
            let mut error = "auth rejected: ".to_owned();
            error.append(text_or_empty(&frame.detail).as_str());
            return AuthStep::Failed { error };
        }
        if wait.read < MAX_AUTH_FRAMES {
            AuthStep::Again
        } else {
            AuthStep::Failed { error: "no auth response".to_owned() }
        }
    }
}

// ------------------------------------------------------------- publishing

/// How often an event is sent: once, and once more after authenticating.
pub const MAX_ATTEMPTS: u8 = 2;

/// Waiting for the relay to take an event.
#[derive(Debug)]
pub struct PublishWait {
    pub event_id: String,
    /// Attempts before this one.
    pub attempt: u8,
}

#[derive(Debug, PartialEq, Eq)]
pub enum PublishStep {
    Again,
    /// Authenticate, then try again.
    Auth { challenge: String },
    Accepted { detail: String },
    Failed { error: String },
}

/// What a frame means to an event that was sent.
pub open spec fn publish_stepped(
    s: BuzzSession,
    wait: PublishWait,
    f: RelayFrame,
    after: BuzzSession,
    r: PublishStep,
) -> bool {
    if is_live(f) {
        &&& after == BuzzSession { pending: after.pending, ..s }
        &&& after.pending@ == s.pending@.push(f)
        &&& r is Again
    } else {
        after == s && if says(f.kind, "AUTH"@) {
            match f.subject {
                Some(c) => r == PublishStep::Auth { challenge: c },
                None => r matches PublishStep::Failed { error } && error@ == "bad AUTH frame"@,
            }
        } else if is_about(f, "OK"@, wait.event_id@) {
            let detail = or_empty(f.detail);
            if f.flag == Some(true) || "duplicate"@.is_prefix_of(detail) {
                r matches PublishStep::Accepted { detail: d } && d@ == if detail.len() == 0 {
                    "accepted"@
                } else {
                    detail
                }
            } else if "auth-required"@.is_prefix_of(detail) && wait.attempt == 0 && !s.authed {
                r is Again
            } else {
                r matches PublishStep::Failed { error } && error@ == "rejected: "@ + detail
            }
        } else {
            r is Again
        }
    }
}

impl BuzzSession {
    /// Publish an event: wait for the relay to take it.
    pub fn publish(&self, event_id: String) -> (r: PublishWait)
        ensures
            r == (PublishWait { event_id, attempt: 0 }),
    {
        PublishWait { event_id, attempt: 0 }
    }

    /// Take in a frame while waiting for the relay to take an event. A
    /// challenge is to be answered, in either attempt, and ends the attempt:
    /// `PublishWait::retry` says whether there is another.
    pub fn on_publish_frame(&mut self, wait: &PublishWait, frame: RelayFrame) -> (r: PublishStep)
        ensures
            publish_stepped(*old(self), *wait, frame, *final(self), r),
    {
        if live(&frame) {
            self.pending.push(frame);
            return PublishStep::Again;
        }
        if is_word(&frame.kind, "AUTH") {
            return match frame.subject {
                Some(challenge) => PublishStep::Auth { challenge },
                None => PublishStep::Failed { error: "bad AUTH frame".to_owned() },
            };
        }
        if !about(&frame, "OK", wait.event_id.as_str()) {
            return PublishStep::Again;
        }
        let accepted = match frame.flag {
            Some(flag) => flag,
            None => false,
        };
        let detail = text_or_empty(&frame.detail);
        if accepted || starts_with(detail.as_str(), "duplicate") {
            if detail.as_str().unicode_len() == 0 {
                PublishStep::Accepted { detail: "accepted".to_owned() }
            } else {
                PublishStep::Accepted { detail }
            }
        } else if starts_with(detail.as_str(), "auth-required") && wait.attempt == 0
            && !self.authed {
            // The relay wants auth but has not challenged yet; its challenge
            // comes in a frame of its own.
            PublishStep::Again
        } else {
            let mut error = "rejected: ".to_owned();
            error.append(detail.as_str());
            PublishStep::Failed { error }
        }
    }
}

impl PublishWait {
    /// Once authenticated: try again, if there is an attempt left.
    pub fn retry(&mut self) -> (r: Result<(), &'static str>)
        requires
            old(self).attempt < MAX_ATTEMPTS,
        ensures
            *final(self) == (PublishWait { attempt: final(self).attempt, ..*old(self) }),
            final(self).attempt == old(self).attempt + 1,
            r is Ok <==> final(self).attempt < MAX_ATTEMPTS,
            r is Ok <==> old(self).attempt == 0,
            r matches Err(e) ==> e@ == "publish failed after auth"@,
    {
        self.attempt += 1;
        if self.attempt < MAX_ATTEMPTS {
            Ok(())
        } else {
            Err("publish failed after auth")
        }
    }
}

// ------------------------------------------------------------- asking

/// The subscription a request is made under.
pub const REQUEST_SUB: &'static str = "apiary-buzz";

/// How many frames to read for the answer to a request.
pub const MAX_REQUEST_FRAMES: u32 = 500;

/// Waiting for the relay to answer a request.
#[derive(Debug)]
pub struct ReqWait {
    /// Attempts before this one.
    pub attempt: u8,
    /// Frames read in this attempt.
    pub read: u32,
    /// The events that came so far, in this attempt.
    pub out: Vec<Note>,
}

#[derive(Debug, PartialEq, Eq)]
pub enum ReqStep {
    Again,
    /// Authenticate, then try again.
    Auth { challenge: String },
    Done,
    Failed { error: String },
}

/// The events so far, with this one where it is genuine.
pub open spec fn gathered(before: Seq<Note>, body: Option<Seq<char>>, after: Seq<Note>) -> bool {
    match genuine(body) {
        Some(n) => {
            &&& after.len() == before.len() + 1
            &&& after.drop_last() == before
            &&& after.last()@ == n
        },
        None => after == before,
    }
}

/// Reading goes on, unless enough has been read.
pub open spec fn req_goes_on(read: int, r: ReqStep) -> bool {
    if read < MAX_REQUEST_FRAMES {
        r is Again
    } else {
        r matches ReqStep::Failed { error } && error@ == "req failed"@
    }
}

/// What a frame means to a request: the events before and after it, and what
/// comes of it, `read` frames having been read with this one.
pub open spec fn req_stepped(
    authed: bool,
    read: int,
    before: Seq<Note>,
    f: RelayFrame,
    after: Seq<Note>,
    r: ReqStep,
) -> bool {
    if says(f.kind, "AUTH"@) {
        &&& after == before
        &&& r matches ReqStep::Auth { challenge }
        &&& challenge@ == or_empty(f.subject)
    } else if is_about(f, "CLOSED"@, REQUEST_SUB@) {
        &&& after == before
        &&& if "auth-required"@.is_prefix_of(or_empty(f.word)) && !authed {
            req_goes_on(read, r)
        } else {
            r matches ReqStep::Failed { error } && error@ == "closed: "@ + or_empty(f.word)
        }
    } else if is_about(f, "EVENT"@, REQUEST_SUB@) {
        gathered(before, opt_view(f.body), after) && req_goes_on(read, r)
    } else if is_about(f, "EOSE"@, REQUEST_SUB@) {
        after == before && r is Done
    } else {
        after == before && req_goes_on(read, r)
    }
}

impl BuzzSession {
    /// Ask for events: wait for them to come.
    pub fn req(&self) -> (r: ReqWait)
        ensures
            r.attempt == 0,
            r.read == 0,
            r.out@.len() == 0,
    {
        ReqWait { attempt: 0, read: 0, out: Vec::new() }
    }

    /// Take in a frame while waiting for the answer to a request. Frames of
    /// another subscription are passed over.
    pub fn on_req_frame(&self, wait: &mut ReqWait, frame: RelayFrame) -> (r: ReqStep)
        requires
            old(wait).read < MAX_REQUEST_FRAMES,
        ensures
            final(wait).attempt == old(wait).attempt,
            final(wait).read == old(wait).read + 1,
            req_stepped(
                self.authed,
                old(wait).read + 1,
                old(wait).out@,
                frame,
                final(wait).out@,
                r,
            ),
    {
        wait.read += 1;
        if is_word(&frame.kind, "AUTH") {
            return ReqStep::Auth { challenge: text_or_empty(&frame.subject) };
        }
        if about(&frame, "CLOSED", REQUEST_SUB) {
            let why = text_or_empty(&frame.word);
            if !starts_with(why.as_str(), "auth-required") || self.authed {
                let mut error = "closed: ".to_owned();
                error.append(why.as_str());
                return ReqStep::Failed { error };
            }
        } else if about(&frame, "EVENT", REQUEST_SUB) {
            if let Some(note) = genuine_note(&frame.body) {
                let ghost before = wait.out@;
                wait.out.push(note);
                assert(wait.out@.drop_last() == before);
            }
        } else if about(&frame, "EOSE", REQUEST_SUB) {
            return ReqStep::Done;
        }
        if wait.read < MAX_REQUEST_FRAMES {
            ReqStep::Again
        } else {
            ReqStep::Failed { error: "req failed".to_owned() }
        }
    }
}

impl ReqWait {
    /// Once authenticated: ask again from the start, if there is an attempt
    /// left.
    pub fn retry(&mut self) -> (r: Result<(), &'static str>)
        requires
            old(self).attempt < MAX_ATTEMPTS,
        ensures
            final(self).attempt == old(self).attempt + 1,
            final(self).read == 0,
            final(self).out@.len() == 0,
            r is Ok <==> final(self).attempt < MAX_ATTEMPTS,
            r is Ok <==> old(self).attempt == 0,
            r matches Err(e) ==> e@ == "req failed"@,
    {
        self.attempt += 1;
        self.read = 0;
        self.out = Vec::new();
        if self.attempt < MAX_ATTEMPTS {
            Ok(())
        } else {
            Err("req failed")
        }
    }
}

// ------------------------------------------------------------- reading back

/// The subscription a channel is read back under.
pub const HISTORY_SUB: &'static str = "apiary-history";

/// A message read back from a channel.
#[derive(Debug)]
pub struct Past {
    /// The author's public key, in hex.
    pub author: String,
    pub text: String,
    /// Seconds since 1970.
    pub at: u64,
}

/// The messages so far, with this event's where it is genuine.
pub open spec fn recalled(before: Seq<Past>, body: Option<Seq<char>>, after: Seq<Past>) -> bool {
    match genuine(body) {
        Some(n) => {
            &&& after.len() == before.len() + 1
            &&& after.drop_last() == before
            &&& after.last().author@ == n.pubkey
            &&& after.last().text@ == n.content
            &&& after.last().at == n.created_at
        },
        None => after == before,
    }
}

/// The relay says that a channel was read back to the end.
pub open spec fn was_all(f: RelayFrame) -> bool {
    is_about(f, "EOSE"@, HISTORY_SUB@)
}

/// What a frame comes to while a channel is read back: the session and the
/// messages before and after it.
pub open spec fn read_back(
    s: BuzzSession,
    before: Seq<Past>,
    f: RelayFrame,
    now: BuzzSession,
    after: Seq<Past>,
) -> bool {
    &&& now == BuzzSession { pending: now.pending, ..s }
    &&& if was_all(f) {
        now.pending@ == s.pending@ && after == before
    } else if is_about(f, "EVENT"@, HISTORY_SUB@) {
        now.pending@ == s.pending@ && recalled(before, opt_view(f.body), after)
    } else {
        now.pending@ == s.pending@.push(f) && after == before
    }
}

impl BuzzSession {
    /// Take in a frame while a channel is read back; true where that is all.
    /// Whatever belongs to another subscription is held for the mention loop
    /// rather than swallowed.
    pub fn on_history_frame(&mut self, out: &mut Vec<Past>, frame: RelayFrame) -> (done: bool)
        ensures
            done == was_all(frame),
            read_back(*old(self), old(out)@, frame, *final(self), final(out)@),
    {
        assert("EOSE"@ != "EVENT"@) by {
            reveal_strlit("EOSE");
            reveal_strlit("EVENT");
            assert("EOSE"@.len() != "EVENT"@.len());
        }
        if about(&frame, "EOSE", HISTORY_SUB) {
            return true;
        }
        if about(&frame, "EVENT", HISTORY_SUB) {
            if let Some(note) = genuine_note(&frame.body) {
                let ghost before = out@;
                out.push(
                    Past { author: note.pubkey, text: note.content, at: note.created_at },
                );
                assert(out@.drop_last() == before);
            }
        } else {
            self.pending.push(frame);
        }
        false
    }
}

/// In order of time.
pub open spec fn in_time(list: Seq<Past>) -> bool {
    forall|i: int, j: int|
        #![trigger list[i], list[j]]
        0 <= i <= j < list.len() ==> list[i].at <= list[j].at
}

/// The messages of one second, in order.
pub open spec fn of_second(list: Seq<Past>, at: u64) -> Seq<Past> {
    list.filter(|p: Past| p.at == at)
}

proof fn inserting_keeps_each_second(list: Seq<Past>, k: int, p: Past, at: u64)
    requires
        0 <= k <= list.len(),
        forall|j: int| #![trigger list[j]] k <= j < list.len() ==> list[j].at > p.at,
    ensures
        of_second(list.insert(k, p), at) == if p.at == at {
            of_second(list, at).push(p)
        } else {
            of_second(list, at)
        },
    decreases list.len() - k,
{
    reveal(Seq::filter);
    let pred = |q: Past| q.at == at;
    let all = list.insert(k, p);
    if k == list.len() {
        assert(all == list.push(p));
        assert(all.drop_last() == list);
    } else {
        let rest = list.drop_last();
        inserting_keeps_each_second(rest, k, p, at);
        assert(all.drop_last() == rest.insert(k, p));
        assert(all.last() == list.last());
        assert(list.last() == list[list.len() - 1]);
        if p.at == at {
            assert(!pred(list.last()));
        }
    }
}

/// Put messages in order of time, oldest first; those of one second stay in
/// the order they came in.
pub fn oldest_first(list: Vec<Past>) -> (r: Vec<Past>)
    ensures
        r@.len() == list@.len(),
        in_time(r@),
        forall|at: u64| #[trigger] of_second(r@, at) == of_second(list@, at),
{
    let ghost all = list@;
    let mut left = list;
    let mut out: Vec<Past> = Vec::new();
    let ghost mut taken: int = 0;
    assert(all.skip(0) == all);
    assert forall|at: u64| #[trigger] of_second(out@, at) == of_second(all.take(0), at) by {
        assert(all.take(0) == out@);
    }
    while left.len() > 0
        invariant
            0 <= taken <= all.len(),
            left@ == all.skip(taken),
            out@.len() == taken,
            in_time(out@),
            forall|at: u64| #[trigger] of_second(out@, at) == of_second(all.take(taken), at),
        decreases left@.len(),
    {
        let next = left.remove(0);
        let ghost before = out@;
        assert(next == all[taken]);
        let mut k: usize = out.len();
        while k > 0 && out[k - 1].at > next.at
            invariant
                k <= out@.len(),
                out@ == before,
                in_time(before),
                forall|j: int| #![trigger before[j]] k <= j < before.len() ==> before[j].at > next.at,
            decreases k,
        {
            k -= 1;
        }
        out.insert(k, next);
        proof {
            assert(out@ == before.insert(k as int, next));
            assert forall|at: u64| #[trigger] of_second(out@, at) == of_second(
                all.take(taken + 1),
                at,
            ) by {
                inserting_keeps_each_second(before, k as int, next, at);
                reveal(Seq::filter);
                assert(all.take(taken + 1).drop_last() == all.take(taken));
                assert(of_second(before, at) == of_second(all.take(taken), at));
            }
            assert forall|i: int, j: int| 0 <= i <= j < out@.len() implies out@[i].at
                <= out@[j].at by {
                let a = if i < k {
                    i
                } else {
                    i - 1
                };
                let b = if j < k {
                    j
                } else {
                    j - 1
                };
                if i == k && j > k {
                    assert(before[b].at > next.at);
                } else if j == k && i < k {
                    assert(before[k - 1].at <= next.at);
                    assert(before[i].at <= before[k - 1].at);
                } else if i != k && j != k {
                    assert(before[a].at <= before[b].at);
                }
            }
            assert(all.skip(taken + 1) == all.skip(taken).remove(0));
            taken = taken + 1;
        }
    }
    assert(all.take(taken) == all);
    out
}

/// Who a message read back is from, as a run is told: the agent itself, or
/// the start of a key.
pub open spec fn speaker(author: Seq<char>, me: Seq<char>) -> Seq<char> {
    if author == me {
        "you"@
    } else {
        first_chars(author, 8) + "…"@
    }
}

impl BuzzSession {
    /// Messages read back, as a run is told of them.
    pub fn recent_context(&self, past: &Vec<Past>) -> (r: Vec<Said>)
        ensures
            r@.len() == past@.len(),
            forall|i: int|
                #![trigger r@[i]]
                0 <= i < r@.len() ==> r@[i].who@ == speaker(past@[i].author@, self.me@)
                    && r@[i].what == past@[i].text,
    {
        let mut out: Vec<Said> = Vec::new();
        let mut i: usize = 0;
        while i < past.len()
            invariant
                i <= past@.len(),
                out@.len() == i,
                forall|j: int|
                    #![trigger out@[j]]
                    0 <= j < i ==> out@[j].who@ == speaker(past@[j].author@, self.me@)
                        && out@[j].what == past@[j].text,
            decreases past@.len() - i,
        {
            let p = &past[i];
            let who = if same(p.author.as_str(), self.me.as_str()) {
                "you".to_owned()
            } else {
                let mut who = take_chars(p.author.as_str(), 8);
                who.append("…");
                who
            };
            out.push(Said { who, what: p.text.clone() });
            i += 1;
        }
        out
    }
}

// ------------------------------------------------------------- listening

/// Re-read a short tail after a socket reconnect or a channel bounce. The
/// relay's `since` is inclusive, so the recent ids below suppress anything
/// that was already handed over.
pub const REPLAY_OVERLAP_SECS: u64 = 120;

/// How long a subscription may go completely silent before the listener stops
/// trusting it, in seconds.
pub const RESUBSCRIBE_AFTER_SILENCE: u64 = 900;

/// How often to look for channels created since the listener connected, in
/// seconds.
pub const CHANNEL_REFRESH: u64 = 60;

/// Since when a subscription listens.
pub fn subscription_since(now: u64) -> (r: u64)
    ensures
        r == if now >= REPLAY_OVERLAP_SECS {
            now - REPLAY_OVERLAP_SECS
        } else {
            0
        },
        r <= now <= r + 120,
        now >= 120 ==> r + 120 == now,
{
    now.saturating_sub(REPLAY_OVERLAP_SECS)
}

/// What to ask the relay for.
#[derive(Debug)]
pub struct Ask {
    /// The subscription's name.
    pub sub: String,
    pub kind: u16,
    pub channel: Option<String>,
    pub since: Option<u64>,
    pub limit: Option<usize>,
}

/// The fields of a filter.
pub open spec fn filter_fields(a: Ask) -> Seq<(Seq<char>, Seq<char>)> {
    let kinds = seq![("kinds"@, json_list(seq![decimal(a.kind as nat)]))];
    let there = match a.channel {
        Some(c) => kinds.push(("#h"@, json_list(seq![json_quoted(c@)]))),
        None => kinds,
    };
    let then_on = match a.since {
        Some(t) => there.push(("since"@, decimal(t as nat))),
        None => there,
    };
    match a.limit {
        Some(n) => then_on.push(("limit"@, decimal(n as nat))),
        None => then_on,
    }
}

fn one_item(item: String) -> (r: String)
    ensures
        r@ == json_list(seq![item@]),
{
    let mut items: Vec<String> = Vec::new();
    items.push(item);
    assert(views(items@) == seq![item@]);
    list_text(&items)
}

fn two_items(first: String, second: String) -> (r: String)
    ensures
        r@ == json_list(seq![first@, second@]),
{
    let mut items: Vec<String> = Vec::new();
    items.push(first);
    items.push(second);
    assert(views(items@) == seq![first@, second@]);
    list_text(&items)
}

impl Ask {
    /// The frame that asks the relay.
    pub fn frame(&self) -> (r: String)
        ensures
            r@ == json_list(
                seq![
                    json_quoted("REQ"@),
                    json_quoted(self.sub@),
                    json_object(filter_fields(*self)),
                ],
            ),
    {
        let mut filter: Vec<(String, String)> = Vec::new();
        filter.push(("kinds".to_owned(), one_item(decimal_of(self.kind as u64))));
        if let Some(channel) = &self.channel {
            filter.push(("#h".to_owned(), one_item(quoted(channel.as_str()))));
        }
        if let Some(since) = self.since {
            filter.push(("since".to_owned(), decimal_of(since)));
        }
        if let Some(limit) = self.limit {
            filter.push(("limit".to_owned(), decimal_of(limit as u64)));
        }
        assert(pair_views(filter@) == filter_fields(*self));
        let mut items: Vec<String> = Vec::new();
        items.push(quoted("REQ"));
        items.push(quoted(self.sub.as_str()));
        items.push(object_text(&filter));
        assert(views(items@) == seq![
            json_quoted("REQ"@),
            json_quoted(self.sub@),
            json_object(filter_fields(*self)),
        ]);
        list_text(&items)
    }
}

/// The frame that answers a challenge with a signed event, given as JSON.
pub fn auth_frame(event: &str) -> (r: String)
    ensures
        r@ == json_list(seq![json_quoted("AUTH"@), event@]),
{
    two_items(quoted("AUTH"), event.to_owned())
}

/// The frame that publishes a signed event, given as JSON.
pub fn publish_frame(event: &str) -> (r: String)
    ensures
        r@ == json_list(seq![json_quoted("EVENT"@), event@]),
{
    two_items(quoted("EVENT"), event.to_owned())
}

/// The frame that ends a subscription.
pub fn close_frame(sub: &str) -> (r: String)
    ensures
        r@ == json_list(seq![json_quoted("CLOSE"@), json_quoted(sub@)]),
{
    two_items(quoted("CLOSE"), quoted(sub))
}

/// One subscription per channel, under a name of its own, so that the relay's
/// gating applies channel by channel. The overlap closes the blind spot while
/// a listener is restarting.
pub fn subscribe_channels(channels: &Vec<String>, now: u64) -> (r: Vec<Ask>)
    ensures
        r@.len() == channels@.len(),
        forall|i: int|
            #![trigger r@[i]]
            0 <= i < r@.len() ==> {
                &&& r@[i].sub@ == "apiary-listen-"@ + decimal(i as nat)
                &&& r@[i].kind == KIND_STREAM_MESSAGE
                &&& r@[i].channel == Some(channels@[i])
                &&& r@[i].since == Some(
                    if now >= REPLAY_OVERLAP_SECS {
                        (now - REPLAY_OVERLAP_SECS) as u64
                    } else {
                        0
                    },
                )
                &&& r@[i].limit is None
            },
{
    let since: u64 = subscription_since(now);
    let mut out: Vec<Ask> = Vec::new();
    let mut i: usize = 0;
    while i < channels.len()
        invariant
            i <= channels@.len(),
            out@.len() == i,
            since == if now >= REPLAY_OVERLAP_SECS {
                now - REPLAY_OVERLAP_SECS
            } else {
                0
            },
            forall|j: int|
                #![trigger out@[j]]
                0 <= j < i ==> {
                    &&& out@[j].sub@ == "apiary-listen-"@ + decimal(j as nat)
                    &&& out@[j].kind == KIND_STREAM_MESSAGE
                    &&& out@[j].channel == Some(channels@[j])
                    &&& out@[j].since == Some(since)
                    &&& out@[j].limit is None
                },
        decreases channels@.len() - i,
    {
        let mut sub = "apiary-listen-".to_owned();
        sub.append(decimal_of(i as u64).as_str());
        out.push(
            Ask {
                sub,
                kind: KIND_STREAM_MESSAGE,
                channel: Some(channels[i].clone()),
                since: Some(since),
                limit: None,
            },
        );
        i += 1;
    }
    out
}

/// Read a channel's recent messages.
pub fn read_channel(channel: &str, limit: usize) -> (r: Ask)
    ensures
        r.sub@ == REQUEST_SUB@,
        r.kind == KIND_STREAM_MESSAGE,
        opt_view(r.channel) == Some(channel@),
        r.since is None,
        r.limit == Some(limit),
{
    Ask {
        sub: REQUEST_SUB.to_owned(),
        kind: KIND_STREAM_MESSAGE,
        channel: Some(channel.to_owned()),
        since: None,
        limit: Some(limit),
    }
}

/// Read back the last messages of a channel, on a short-lived subscription of
/// its own.
pub fn recent_messages(channel: &str, limit: usize) -> (r: Ask)
    ensures
        r.sub@ == HISTORY_SUB@,
        r.kind == KIND_STREAM_MESSAGE,
        opt_view(r.channel) == Some(channel@),
        r.since is None,
        r.limit == Some(limit),
{
    Ask {
        sub: HISTORY_SUB.to_owned(),
        kind: KIND_STREAM_MESSAGE,
        channel: Some(channel.to_owned()),
        since: None,
        limit: Some(limit),
    }
}

/// Discover the channels.
pub fn channels() -> (r: Ask)
    ensures
        r.sub@ == REQUEST_SUB@,
        r.kind == KIND_GROUP_METADATA,
        r.channel is None,
        r.since is None,
        r.limit == Some(100usize),
{
    Ask {
        sub: REQUEST_SUB.to_owned(),
        kind: KIND_GROUP_METADATA,
        channel: None,
        since: None,
        limit: Some(100),
    }
}

/// Has the relay been silent for too long? A subscription can lapse while the
/// socket stays open, and then nothing looks wrong.
pub fn fell_silent(nanos: u128) -> (r: bool)
    ensures
        r == (nanos > RESUBSCRIBE_AFTER_SILENCE * 1_000_000_000),
{
    nanos > RESUBSCRIBE_AFTER_SILENCE as u128 * 1_000_000_000
}

/// Is it time to look for new channels?
pub fn refresh_due(nanos: u128) -> (r: bool)
    ensures
        r == (nanos >= CHANNEL_REFRESH * 1_000_000_000),
{
    nanos >= CHANNEL_REFRESH as u128 * 1_000_000_000
}

/// An event mentions the agent: by its key in a p tag, or by the trigger in
/// the text, whatever its case. Its own events mention nobody.
pub open spec fn mentions(n: NoteModel, me: Seq<char>, trigger: Seq<char>) -> bool {
    &&& n.pubkey != me
    &&& tagged(n.tags, "p"@, me) || (trigger.len() > 0 && occurs(
        unicode_lower(n.content),
        unicode_lower(trigger),
    ))
}

/// The line for the host's own console when an event arrives.
pub open spec fn heard_line(n: NoteModel) -> Seq<char> {
    "heard ["@ + first_chars(n.pubkey, 8) + "…]: "@ + first_chars(n.content, 60)
}

pub open spec fn closed_line(f: RelayFrame) -> Seq<char> {
    "subscription closed by relay: "@ + match f.subject {
        Some(s) => s@,
        None => "?"@,
    } + " — "@ + or_empty(f.word) + " · resubscribing"@
}

/// What a frame means to a listener.
#[derive(Debug)]
pub enum ListenStep {
    Again,
    /// Authenticate, then subscribe again.
    Auth { challenge: String },
    /// The relay dropped the subscription: subscribe again.
    Resubscribe { line: String },
    /// An event was heard; it is handed over where it mentions the agent.
    Heard { line: String, mention: Option<Note> },
}

/// What a frame means to a listener.
pub open spec fn listened(f: RelayFrame, me: Seq<char>, trigger: Seq<char>, r: ListenStep) -> bool {
    if says(f.kind, "AUTH"@) {
        r matches ListenStep::Auth { challenge } && challenge@ == or_empty(f.subject)
    } else if says(f.kind, "CLOSED"@) {
        r matches ListenStep::Resubscribe { line } && line@ == closed_line(f)
    } else if is_live(f) {
        match genuine(opt_view(f.body)) {
            Some(n) => {
                &&& r matches ListenStep::Heard { line, mention }
                &&& line@ == heard_line(n)
                &&& opt_note(mention) == if mentions(n, me, trigger) {
                    Some(n)
                } else {
                    None
                }
            },
            None => r is Again,
        }
    } else {
        r is Again
    }
}

impl BuzzSession {
    /// The next frame that was held while another call was waiting, the last
    /// held first.
    pub fn take_pending(&mut self) -> (r: Option<RelayFrame>)
        ensures
            *final(self) == (BuzzSession { pending: final(self).pending, ..*old(self) }),
            r == if old(self).pending@.len() > 0 {
                Some(old(self).pending@.last())
            } else {
                None
            },
            final(self).pending@ == if old(self).pending@.len() > 0 {
                old(self).pending@.drop_last()
            } else {
                old(self).pending@
            },
    {
        self.pending.pop()
    }

    /// Take in a frame while listening for mentions.
    pub fn next_mention(&self, trigger: &str, frame: RelayFrame) -> (r: ListenStep)
        ensures
            listened(frame, self.me@, trigger@, r),
    {
        if is_word(&frame.kind, "AUTH") {
            return ListenStep::Auth { challenge: text_or_empty(&frame.subject) };
        }
        if is_word(&frame.kind, "CLOSED") {
            let mut line = "subscription closed by relay: ".to_owned();
            match &frame.subject {
                Some(sub) => line.append(sub.as_str()),
                None => line.append("?"),
            }
            line.append(" — ");
            line.append(text_or_empty(&frame.word).as_str());
            line.append(" · resubscribing");
            return ListenStep::Resubscribe { line };
        }
        if !live(&frame) {
            return ListenStep::Again;
        }
        let note = match genuine_note(&frame.body) {
            Some(note) => note,
            None => {
                return ListenStep::Again;
            },
        };
        let mut line = "heard [".to_owned();
        line.append(take_chars(note.pubkey.as_str(), 8).as_str());
        line.append("…]: ");
        line.append(take_chars(note.content.as_str(), 60).as_str());
        let mine = same(note.pubkey.as_str(), self.me.as_str());
        let mention = !mine && (is_tagged(&note.tags, "p", self.me.as_str()) || (
        trigger.unicode_len() > 0 && contains(
            to_lower(note.content.as_str()).as_str(),
            to_lower(trigger).as_str(),
        )));
        if mention {
            ListenStep::Heard { line, mention: Some(note) }
        } else {
            ListenStep::Heard { line, mention: None }
        }
    }
}

// ------------------------------------------------------------- what was handed over

/// How many event ids to remember.
pub const RECENT_EVENT_LIMIT: usize = 256;

/// The ids that were last handed over, oldest first. They are a disposable
/// local optimization, not governed agent state: losing them only means a
/// possible replay.
#[derive(Debug)]
pub struct RecentEventIds {
    pub ids: VecDeque<String>,
}

/// The list of texts that these bytes spell out in JSON, if they do.
pub uninterp spec fn json_ids(bytes: Seq<u8>) -> Option<Seq<Seq<char>>>;

/// The views of an optional list of texts.
pub open spec fn opt_views(o: Option<Vec<String>>) -> Option<Seq<Seq<char>>> {
    match o {
        Some(l) => Some(views(l@)),
        None => None,
    }
}

/// serde_json's `from_slice` into a list of strings.
#[verifier::external_body]
fn ids_in(bytes: &Vec<u8>) -> (r: Option<Vec<String>>)
    ensures
        opt_views(r) == json_ids(bytes@),
{
    serde_json::from_slice(bytes).ok()
}

/// serde_json's `to_vec` of a list of strings, which never fails for one:
/// `from_slice` gives the list back.
#[verifier::external_body]
fn ids_bytes(ids: &VecDeque<String>) -> (r: Vec<u8>)
    ensures
        json_ids(r@) == Some(views(ids@)),
{
    serde_json::to_vec(ids).unwrap()
}

/// The last of these, as many as are remembered.
pub open spec fn last_ids(ids: Seq<Seq<char>>) -> Seq<Seq<char>> {
    if ids.len() > RECENT_EVENT_LIMIT {
        ids.skip(ids.len() - RECENT_EVENT_LIMIT)
    } else {
        ids
    }
}

/// The ids after one more was handed over.
pub open spec fn remembered(ids: Seq<Seq<char>>, id: Seq<char>) -> Seq<Seq<char>> {
    if ids.contains(id) {
        ids
    } else {
        last_ids(ids.push(id))
    }
}

impl Default for RecentEventIds {
    fn default() -> (r: RecentEventIds)
        ensures
            r.ids@.len() == 0,
    {
        RecentEventIds { ids: VecDeque::new() }
    }
}

impl View for RecentEventIds {
    type V = Seq<Seq<char>>;

    open spec fn view(&self) -> Seq<Seq<char>> {
        views(self.ids@)
    }
}

impl RecentEventIds {
    /// The ids in a cursor file. What cannot be read is as good as empty.
    pub fn load(bytes: &Vec<u8>) -> (r: RecentEventIds)
        ensures
            r@ == match json_ids(bytes@) {
                Some(ids) => last_ids(ids),
                None => Seq::empty(),
            },
    {
        match ids_in(bytes) {
            Some(ids) => RecentEventIds::of(&ids),
            None => {
                let r = RecentEventIds::default();
                assert(r@ == Seq::<Seq<char>>::empty());
                r
            },
        }
    }

    /// The last of these ids.
    pub fn of(ids: &Vec<String>) -> (r: RecentEventIds)
        ensures
            r@ == last_ids(views(ids@)),
    {
        let from: usize = if ids.len() > RECENT_EVENT_LIMIT {
            ids.len() - RECENT_EVENT_LIMIT
        } else {
            0
        };
        let mut out: VecDeque<String> = VecDeque::new();
        let mut i: usize = from;
        assert(views(out@) == views(ids@).subrange(from as int, from as int));
        while i < ids.len()
            invariant
                from <= i <= ids@.len(),
                views(out@) == views(ids@).subrange(from as int, i as int),
            decreases ids@.len() - i,
        {
            let ghost before = views(out@);
            out.push_back(ids[i].clone());
            assert(views(out@) == before.push(ids@[i as int]@));
            i += 1;
            assert(views(ids@).subrange(from as int, i as int) == views(ids@).subrange(
                from as int,
                i - 1,
            ).push(ids@[i - 1]@));
        }
        assert(views(ids@).subrange(from as int, i as int) == last_ids(views(ids@)));
        RecentEventIds { ids: out }
    }

    pub fn contains(&self, id: &str) -> (r: bool)
        ensures
            r == self@.contains(id@),
    {
        let mut i: usize = 0;
        while i < self.ids.len()
            invariant
                i <= self.ids@.len(),
                forall|j: int| 0 <= j < i ==> #[trigger] self@[j] != id@,
            decreases self.ids@.len() - i,
        {
            if same(self.ids[i].as_str(), id) {
                assert(self@[i as int] == id@);
                return true;
            }
            i += 1;
        }
        false
    }

    /// Remember an id; true where that was news.
    pub fn remember(&mut self, id: String) -> (news: bool)
        ensures
            news == !old(self)@.contains(id@),
            final(self)@ == remembered(old(self)@, id@),
    {
        if self.contains(id.as_str()) {
            return false;
        }
        let ghost all = old(self)@.push(id@);
        self.ids.push_back(id);
        assert(self@ == all);
        assert(all.skip(0) == all);
        let ghost mut gone: int = 0;
        while self.ids.len() > RECENT_EVENT_LIMIT
            invariant
                0 <= gone <= all.len(),
                self@ == all.skip(gone),
                gone == 0 || all.len() - gone >= RECENT_EVENT_LIMIT,
            decreases self.ids@.len(),
        {
            let ghost before = self.ids@;
            let _ = self.ids.pop_front();
            assert(self.ids@ == before.subrange(1, before.len() as int));
            assert(self@ == views(before).skip(1));
            assert(all.skip(gone).skip(1) == all.skip(gone + 1));
            proof {
                gone = gone + 1;
            }
        }
        assert(self@ == last_ids(all));
        true
    }

    /// The ids for a cursor file.
    pub fn save(&self) -> (r: Vec<u8>)
        ensures
            json_ids(r@) == Some(self@),
    {
        ids_bytes(&self.ids)
    }
}

// ------------------------------------------------------------- the adapter

/// The channel ids in group metadata: the value of each one's d tag.
pub open spec fn ids_of(notes: Seq<Note>) -> Seq<Seq<char>>
    decreases notes.len(),
{
    if notes.len() == 0 {
        Seq::empty()
    } else {
        match tag_of(notes.last()@.tags, "d"@) {
            Some(id) => ids_of(notes.drop_last()).push(id),
            None => ids_of(notes.drop_last()),
        }
    }
}

/// The channel ids visible on a relay, from its group metadata.
pub fn channel_ids(metadata: &Vec<Note>) -> (r: Vec<String>)
    ensures
        views(r@) == ids_of(metadata@),
{
    let mut out: Vec<String> = Vec::new();
    let mut i: usize = 0;
    assert(views(out@) == ids_of(metadata@.take(0)));
    while i < metadata.len()
        invariant
            i <= metadata@.len(),
            views(out@) == ids_of(metadata@.take(i as int)),
        decreases metadata@.len() - i,
    {
        assert(metadata@.take(i + 1).drop_last() == metadata@.take(i as int));
        assert(metadata@.take(i + 1).last() == metadata@[i as int]);
        if let Some(id) = tag_value(&metadata[i].tags, "d") {
            let ghost before = views(out@);
            out.push(id);
            assert(views(out@) == before.push(id@));
        }
        i += 1;
    }
    assert(metadata@.take(i as int) == metadata@);
    out
}

/// Buzz as a channel: its channels, mention triggering, loop guards, and the
/// causal timestamp floor. The platform's quirks, and nothing else.
#[derive(Debug)]
pub struct BuzzAdapter {
    pub relay: String,
    pub trigger: String,
    pub channels: Vec<String>,
    pub recent: RecentEventIds,
}

/// What becomes of an event that mentions the agent.
#[derive(Debug)]
pub enum Handed {
    /// It was handed over before.
    Replayed,
    /// It names no channel.
    Malformed,
    Over { mention: Mention },
}

/// How many of these channels are not known yet.
pub open spec fn new_channels(known: Seq<Seq<char>>, current: Seq<Seq<char>>) -> int
    decreases current.len(),
{
    if current.len() == 0 {
        0
    } else {
        new_channels(known, current.drop_last()) + if known.contains(current.last()) {
            0int
        } else {
            1
        }
    }
}

/// What becomes of an event: handed over once, with its time as the reply's
/// reference, unless it names no channel.
pub open spec fn handed(before: Seq<Seq<char>>, n: NoteModel, r: Handed) -> bool {
    if before.contains(n.id) {
        r is Replayed
    } else {
        match tag_of(n.tags, "h"@) {
            Some(channel) => {
                &&& r matches Handed::Over { mention }
                &&& mention.channel@ == channel
                &&& mention.author@ == n.pubkey
                &&& mention.text@ == n.content
                &&& mention.reply_ref@ == decimal(n.created_at as nat)
                &&& mention.attachments@.len() == 0
            },
            None => r is Malformed,
        }
    }
}

impl BuzzAdapter {
    pub fn kind(&self) -> (r: &'static str)
        ensures
            r@ == "buzz"@,
    {
        "buzz"
    }

    pub fn describe(&self) -> (r: String)
        ensures
            r@ == "buzz: watching "@ + decimal(self.channels@.len()) + " channels on "@
                + self.relay@ + " (trigger "@ + debug_text(self.trigger@) + " or p-tag)"@,
    {
        let mut out = "buzz: watching ".to_owned();
        out.append(decimal_of(self.channels.len() as u64).as_str());
        out.append(" channels on ");
        out.append(self.relay.as_str());
        out.append(" (trigger ");
        out.append(quote(self.trigger.as_str()).as_str());
        out.append(" or p-tag)");
        out
    }

    /// Take in the channels there are now. Where some are new, they become
    /// the channels to subscribe to, and the line says how many are new.
    pub fn refresh_channels(&mut self, current: Vec<String>) -> (r: Option<String>)
        ensures
            ({
                let n = new_channels(views(old(self).channels@), views(current@));
                &&& n == 0 ==> r is None && *final(self) == *old(self)
                &&& n > 0 ==> *final(self) == (BuzzAdapter { channels: current, ..*old(self) })
                &&& n > 0 ==> r is Some && r->0@ == "buzz: "@ + decimal(n as nat)
                    + " new channel(s) since connect — subscribing"@
            }),
    {
        let ghost known = views(self.channels@);
        let ghost now = views(current@);
        let mut added: usize = 0;
        let mut i: usize = 0;
        while i < current.len()
            invariant
                i <= current@.len(),
                added <= i,
                known == views(self.channels@),
                now == views(current@),
                added == new_channels(known, now.take(i as int)),
            decreases current@.len() - i,
        {
            assert(now.take(i + 1).drop_last() == now.take(i as int));
            assert(now.take(i + 1).last() == current@[i as int]@);
            if !lists(&self.channels, current[i].as_str()) {
                added += 1;
            }
            i += 1;
        }
        assert(now.take(i as int) == now);
        if added == 0 {
            return None;
        }
        self.channels = current;
        let mut line = "buzz: ".to_owned();
        line.append(decimal_of(added as u64).as_str());
        line.append(" new channel(s) since connect — subscribing");
        Some(line)
    }

    /// Hand over an event that mentions the agent, once.
    pub fn hand_over(&mut self, event: Note) -> (r: Handed)
        ensures
            handed(old(self).recent@, event@, r),
            final(self).recent@ == remembered(old(self).recent@, event.id@),
            *final(self) == (BuzzAdapter { recent: final(self).recent, ..*old(self) }),
    {
        let channel = channel_of(&event);
        if !self.recent.remember(event.id) {
            return Handed::Replayed;
        }
        match channel {
            Some(channel) => Handed::Over {
                mention: Mention {
                    channel,
                    author: event.pubkey,
                    text: event.content,
                    reply_ref: decimal_of(event.created_at),
                    attachments: Vec::new(),
                },
            },
            None => Handed::Malformed,
        }
    }

    /// The reply to a mention. It mentions nobody by key, because that is a
    /// trigger, and two listening agents would answer each other forever; and
    /// it is stamped after the message that it answers.
    pub fn reply(&self, session: &BuzzSession, mention: &Mention, text: &str, now: u64) -> (r: Draft)
        requires
            parsed_u64(mention.reply_ref@) != Some(u64::MAX),
        ensures
            r.kind == KIND_STREAM_MESSAGE,
            r.content@ == text@,
            tag_views(r.tags@) == seq![seq!["h"@, mention.channel@]],
            r.created_at == stamp(now, parsed_u64(mention.reply_ref@)),
    {
        let after = parse_u64(mention.reply_ref.as_str());
        let nobody: Vec<String> = Vec::new();
        assert(views(nobody@) == Seq::<Seq<char>>::empty());
        let draft = session.post_after(mention.channel.as_str(), text, &nobody, after, now);
        assert(seq![seq!["h"@, mention.channel@]] + mention_tags(Seq::<Seq<char>>::empty())
            == seq![seq!["h"@, mention.channel@]]);
        draft
    }
}

// ------------------------------------------------------------- laws

/// No more ids are remembered than the limit, and none twice, however many
/// are handed over.
pub proof fn recent_ids_are_bounded(ids: Seq<Seq<char>>, id: Seq<char>)
    requires
        ids.len() <= RECENT_EVENT_LIMIT,
        ids.no_duplicates(),
    ensures
        remembered(ids, id).len() <= RECENT_EVENT_LIMIT,
        remembered(ids, id).no_duplicates(),
        remembered(ids, id).contains(id),
{
    let all = ids.push(id);
    if !ids.contains(id) {
        assert(all.no_duplicates());
        assert(last_ids(all).last() == id);
        assert(last_ids(all)[last_ids(all).len() - 1] == id);
    }
}

/// The ids survive a restart: what is saved loads as it was.
pub proof fn recent_ids_survive_a_restart(ids: Seq<Seq<char>>, bytes: Seq<u8>)
    requires
        ids.len() <= RECENT_EVENT_LIMIT,
        json_ids(bytes) == Some(ids),
    ensures
        (match json_ids(bytes) {
            Some(l) => last_ids(l),
            None => Seq::empty(),
        }) == ids,
{
}

/// The ids after several more events were handed over.
pub open spec fn remembered_all(ids: Seq<Seq<char>>, more: Seq<Seq<char>>) -> Seq<Seq<char>>
    decreases more.len(),
{
    if more.len() == 0 {
        ids
    } else {
        remembered(remembered_all(ids, more.drop_last()), more.last())
    }
}

/// The id stands at most `k` places before the end.
spec fn stands_near_the_end(ids: Seq<Seq<char>>, id: Seq<char>, k: int) -> bool {
    exists|i: int| #![trigger ids[i]] 0 <= i < ids.len() && ids[i] == id && i >= ids.len() - 1 - k
}

proof fn an_id_moves_forward_one_at_a_time(ids: Seq<Seq<char>>, id: Seq<char>, more: Seq<Seq<char>>)
    requires
        ids.len() <= RECENT_EVENT_LIMIT,
        stands_near_the_end(ids, id, 0),
        more.len() < RECENT_EVENT_LIMIT,
    ensures
        remembered_all(ids, more).len() <= RECENT_EVENT_LIMIT,
        stands_near_the_end(remembered_all(ids, more), id, more.len() as int),
    decreases more.len(),
{
    if more.len() > 0 {
        an_id_moves_forward_one_at_a_time(ids, id, more.drop_last());
        let now = remembered_all(ids, more.drop_last());
        let k = more.len() - 1;
        let i = choose|i: int|
            #![trigger now[i]]
            0 <= i < now.len() && now[i] == id && i >= now.len() - 1 - k;
        let all = now.push(more.last());
        assert(all[i] == id);
        if all.len() > RECENT_EVENT_LIMIT {
            assert(last_ids(all)[i - 1] == id);
        } else {
            assert(last_ids(all)[i] == id);
        }
    }
}

/// An event is handed over once: after it was, it counts as replayed, until
/// as many other events as are remembered were handed over too.
pub proof fn an_event_is_handed_over_once(
    before: Seq<Seq<char>>,
    n: NoteModel,
    first: Handed,
    more: Seq<Seq<char>>,
    again: Handed,
)
    requires
        before.len() <= RECENT_EVENT_LIMIT,
        handed(before, n, first),
        !(first is Replayed),
        more.len() < RECENT_EVENT_LIMIT,
        handed(remembered_all(remembered(before, n.id), more), n, again),
    ensures
        again is Replayed,
{
    let ids = remembered(before, n.id);
    assert(ids[ids.len() - 1] == n.id);
    an_id_moves_forward_one_at_a_time(ids, n.id, more);
}

/// A reply is always stamped after the message that it answers, whatever the
/// clock says.
pub proof fn a_reply_comes_after_its_mention(n: NoteModel, before: Seq<Seq<char>>, r: Handed, now: u64)
    requires
        handed(before, n, r),
        r is Over,
        n.created_at < u64::MAX,
    ensures
        stamp(now, parsed_u64(r->mention.reply_ref@)) is Some,
        stamp(now, parsed_u64(r->mention.reply_ref@))->0 > n.created_at,
        stamp(now, parsed_u64(r->mention.reply_ref@))->0 >= now,
{
    a_number_reads_back(n.created_at);
}

/// An agent never answers itself: its own events mention nobody, whatever
/// they say.
pub proof fn an_agent_never_answers_itself(
    f: RelayFrame,
    me: Seq<char>,
    trigger: Seq<char>,
    r: ListenStep,
)
    requires
        listened(f, me, trigger, r),
        r is Heard,
        r->mention is Some,
    ensures
        r->mention->0@.pubkey != me,
        genuine(opt_view(f.body)) == Some(r->mention->0@),
{
    reveal_strlit("AUTH");
    reveal_strlit("CLOSED");
}

/// What arrives for the live subscription while publishing or authenticating
/// waits for its own reply is held, in order, not lost.
pub proof fn nothing_heard_is_lost(
    s: BuzzSession,
    f: RelayFrame,
    id: Seq<char>,
    read: int,
    after: BuzzSession,
    auth: AuthStep,
    wait: PublishWait,
    later: BuzzSession,
    publish: PublishStep,
)
    requires
        is_live(f),
        auth_stepped(s, id, read, f, after, auth),
        publish_stepped(s, wait, f, later, publish),
    ensures
        after.pending@ == s.pending@.push(f),
        later.pending@ == s.pending@.push(f),
{
}

/// Waiting for an authentication comes to an end: once enough frames were
/// read, it has succeeded or failed.
pub proof fn authenticating_ends(
    s: BuzzSession,
    id: Seq<char>,
    f: RelayFrame,
    after: BuzzSession,
    r: AuthStep,
)
    requires
        auth_stepped(s, id, MAX_AUTH_FRAMES as int, f, after, r),
    ensures
        !(r is Again),
        after.authed && !s.authed ==> r is Accepted,
{
}

/// The value of a tag is that of the first tag of that name that has one, and
/// tags behind it do not matter: of two lists of tags together, the first
/// decides where it has the tag, else the second.
pub proof fn the_first_tag_decides(
    a: Seq<Seq<Seq<char>>>,
    b: Seq<Seq<Seq<char>>>,
    tag: Seq<Seq<char>>,
    name: Seq<char>,
)
    ensures
        tag_of(a + b, name) == (if tag_of(a, name) is Some {
            tag_of(a, name)
        } else {
            tag_of(b, name)
        }),
        tag_of(Seq::empty(), name) is None,
        tag_of(seq![tag], name) == (if tag.len() >= 2 && tag[0] == name {
            Some(tag[1])
        } else {
            None
        }),
    decreases a.len(),
{
    assert(seq![tag].drop_first() =~= Seq::<Seq<Seq<char>>>::empty());
    assert(tag_of(Seq::<Seq<Seq<char>>>::empty(), name) is None);
    assert(seq![tag][0] == tag);
    if a.len() == 0 {
        assert(a + b =~= b);
    } else {
        assert((a + b)[0] == a[0]);
        assert((a + b).drop_first() =~= a.drop_first() + b);
        the_first_tag_decides(a.drop_first(), b, tag, name);
    }
}

/// A list is tagged with a value if and only if some tag of it is: a tag of
/// that name whose first value is this one.
pub proof fn tagged_one_by_one(
    a: Seq<Seq<Seq<char>>>,
    b: Seq<Seq<Seq<char>>>,
    tag: Seq<Seq<char>>,
    name: Seq<char>,
    value: Seq<char>,
)
    ensures
        tagged(a + b, name, value) <==> tagged(a, name, value) || tagged(b, name, value),
        tagged(seq![tag], name, value) <==> tag.len() >= 2 && tag[0] == name && tag[1] == value,
        tag_of(a, name) == Some(value) ==> tagged(a, name, value),
    decreases a.len(),
{
    let ab = a + b;
    if tagged(ab, name, value) {
        let i = choose|i: int|
            #![trigger ab[i]]
            0 <= i < ab.len() && ab[i].len() >= 2 && ab[i][0] == name && ab[i][1] == value;
        if i < a.len() {
            assert(a[i] == ab[i]);
        } else {
            assert(b[i - a.len()] == ab[i]);
        }
    }
    if tagged(a, name, value) {
        let i = choose|i: int|
            #![trigger a[i]]
            0 <= i < a.len() && a[i].len() >= 2 && a[i][0] == name && a[i][1] == value;
        assert(ab[i] == a[i]);
    }
    if tagged(b, name, value) {
        let i = choose|i: int|
            #![trigger b[i]]
            0 <= i < b.len() && b[i].len() >= 2 && b[i][0] == name && b[i][1] == value;
        assert(ab[i + a.len()] == b[i]);
    }
    if tag.len() >= 2 && tag[0] == name && tag[1] == value {
        assert(seq![tag][0] == tag);
    }
    if tag_of(a, name) == Some(value) {
        if a[0].len() >= 2 && a[0][0] == name {
        } else {
            let rest = a.drop_first();
            tagged_one_by_one(rest, b, tag, name, value);
            let i = choose|i: int|
                #![trigger rest[i]]
                0 <= i < rest.len() && rest[i].len() >= 2 && rest[i][0] == name && rest[i][1]
                    == value;
            assert(a[i + 1] == rest[i]);
        }
    }
}

/// Everyone a message names is tagged, in order and each with their own key;
/// a name that is no key is passed over.
pub proof fn everyone_named_is_tagged(a: Seq<Seq<char>>, b: Seq<Seq<char>>, who: Seq<char>)
    ensures
        mention_tags(a + b) == mention_tags(a) + mention_tags(b),
        nostr_pubkey(who) is Some ==> mention_tags(seq![who]) == seq![
            seq!["p"@, nostr_pubkey(who)->0],
        ],
        nostr_pubkey(who) is None ==> mention_tags(seq![who]).len() == 0,
    decreases b.len(),
{
    assert(seq![who].drop_last() =~= Seq::<Seq<char>>::empty());
    assert(seq![who].last() == who);
    assert(mention_tags(Seq::<Seq<char>>::empty()) =~= Seq::empty());
    if nostr_pubkey(who) is Some {
        assert(mention_tags(seq![who]) =~= seq![seq!["p"@, nostr_pubkey(who)->0]]);
    }
    if b.len() == 0 {
        assert(a + b =~= a);
        assert(mention_tags(a) + mention_tags(b) =~= mention_tags(a));
    } else {
        assert((a + b).drop_last() =~= a + b.drop_last());
        assert((a + b).last() == b.last());
        everyone_named_is_tagged(a, b.drop_last(), who);
        assert(mention_tags(a + b) =~= mention_tags(a) + mention_tags(b));
    }
}

/// A message that is to stand after another is stamped later than it, and
/// never earlier than now; it is stamped no later than that takes.
pub proof fn a_stamp_is_later(now: u64, after: u64)
    requires
        after < u64::MAX,
    ensures
        stamp(now, Some(after)) is Some,
        stamp(now, Some(after))->0 > after,
        stamp(now, Some(after))->0 >= now,
        stamp(now, Some(after))->0 == now || stamp(now, Some(after))->0 == after + 1,
        stamp(now, None) is None,
{
}

/// A message is for an agent if it is someone else's and either tags the agent
/// or holds the agent's trigger somewhere, in whatever case.
pub proof fn what_a_mention_is(
    n: NoteModel,
    me: Seq<char>,
    trigger: Seq<char>,
    before: Seq<char>,
    after: Seq<char>,
    i: int,
)
    ensures
        n.pubkey == me ==> !mentions(n, me, trigger),
        n.pubkey != me && 0 <= i < n.tags.len() && n.tags[i] == seq!["p"@, me] ==> mentions(
            n,
            me,
            trigger,
        ),
        n.pubkey != me && trigger.len() > 0 && unicode_lower(n.content) == before + unicode_lower(
            trigger,
        ) + after ==> mentions(n, me, trigger),
        n.tags.len() == 0 && trigger.len() == 0 ==> !mentions(n, me, trigger),
        n.tags.len() == 0 && mentions(n, me, trigger) ==> exists|x: Seq<char>, y: Seq<char>|
            unicode_lower(n.content) == #[trigger] (x + unicode_lower(trigger) + y),
{
    if 0 <= i < n.tags.len() && n.tags[i] == seq!["p"@, me] {
        assert(tagged(n.tags, "p"@, me));
    }
    crate::text::holding_is_standing_inside(unicode_lower(n.content), unicode_lower(trigger));
}

/// A remembered event is one that was remembered before or the new one; the
/// newest is always among them, and what falls out is the oldest: what is
/// remembered is the end, at most 256 long, of all there was.
pub proof fn the_newest_are_remembered(ids: Seq<Seq<char>>, id: Seq<char>)
    ensures
        ids.contains(id) ==> remembered(ids, id) == ids,
        !ids.contains(id) && ids.len() < 256 ==> remembered(ids, id) == ids.push(id),
        !ids.contains(id) && ids.len() >= 256 ==> remembered(ids, id) == ids.skip(
            ids.len() - 255,
        ).push(id),
        remembered(ids, id).contains(id),
{
    if !ids.contains(id) {
        if ids.len() >= 256 {
            assert(remembered(ids, id) =~= ids.skip(ids.len() - 255).push(id));
        }
        assert(remembered(ids, id).last() == id);
        let k = remembered(ids, id).len() - 1;
        assert(remembered(ids, id)[k] == id);
    }
}

/// The end of a list is kept, up to 256 of it.
pub proof fn the_last_ids_are_an_end(ids: Seq<Seq<char>>)
    ensures
        ids.len() <= 256 ==> last_ids(ids) == ids,
        ids.len() > 256 ==> last_ids(ids).len() == 256 && ids == ids.take(ids.len() - 256)
            + last_ids(ids),
{
    if ids.len() > 256 {
        assert(ids =~= ids.take(ids.len() - 256) + last_ids(ids));
    }
}

/// Channels are named by their `d` tags, one by one and in order; an
/// announcement without one names none.
pub proof fn channels_are_named_one_by_one(a: Seq<Note>, b: Seq<Note>, n: Note)
    ensures
        ids_of(a + b) == ids_of(a) + ids_of(b),
        ids_of(seq![n]) == (if tag_of(n@.tags, "d"@) is Some {
            seq![tag_of(n@.tags, "d"@)->0]
        } else {
            Seq::empty()
        }),
    decreases b.len(),
{
    assert(seq![n].drop_last() =~= Seq::<Note>::empty());
    assert(seq![n].last() == n);
    assert(ids_of(Seq::<Note>::empty()) =~= Seq::empty());
    if tag_of(n@.tags, "d"@) is Some {
        assert(ids_of(seq![n]) =~= seq![tag_of(n@.tags, "d"@)->0]);
    }
    if b.len() == 0 {
        assert(a + b =~= a);
        assert(ids_of(a) + ids_of(b) =~= ids_of(a));
    } else {
        assert((a + b).drop_last() =~= a + b.drop_last());
        assert((a + b).last() == b.last());
        channels_are_named_one_by_one(a, b.drop_last(), n);
        assert(ids_of(a + b) =~= ids_of(a) + ids_of(b));
    }
}

/// New channels are counted one by one: those that were not known, and none
/// where all were.
pub proof fn new_channels_are_counted_one_by_one(
    known: Seq<Seq<char>>,
    a: Seq<Seq<char>>,
    b: Seq<Seq<char>>,
    c: Seq<char>,
)
    ensures
        new_channels(known, a + b) == new_channels(known, a) + new_channels(known, b),
        new_channels(known, seq![c]) == (if known.contains(c) {
            0int
        } else {
            1
        }),
        new_channels(known, b) >= 0,
        new_channels(known, b) == 0 <==> forall|i: int|
            0 <= i < b.len() ==> known.contains(#[trigger] b[i]),
    decreases b.len(),
{
    assert(seq![c].drop_last() =~= Seq::<Seq<char>>::empty());
    assert(seq![c].last() == c);
    assert(new_channels(known, Seq::<Seq<char>>::empty()) == 0);
    if b.len() == 0 {
        assert(a + b =~= a);
    } else {
        let rest = b.drop_last();
        assert((a + b).drop_last() =~= a + rest);
        assert((a + b).last() == b.last());
        new_channels_are_counted_one_by_one(known, a, rest, c);
        if new_channels(known, b) == 0 {
            assert forall|i: int| 0 <= i < b.len() implies known.contains(#[trigger] b[i]) by {
                if i < rest.len() {
                    assert(b[i] == rest[i]);
                }
            }
        }
        if forall|i: int| 0 <= i < b.len() ==> known.contains(#[trigger] b[i]) {
            assert forall|i: int| 0 <= i < rest.len() implies known.contains(#[trigger] rest[i]) by {
                assert(rest[i] == b[i]);
            }
            assert(known.contains(b[b.len() - 1]));
        }
    }
}

/// An event is handed over as it came: its channel is the one it was posted
/// in, its author and text are its own, and a reply refers to when it was
/// made. One seen before is not handed over again.
pub proof fn an_event_is_handed_over_as_it_came(
    before: Seq<Seq<char>>,
    n: NoteModel,
    r: Handed,
)
    requires
        handed(before, n, r),
    ensures
        before.contains(n.id) <==> r is Replayed,
        !before.contains(n.id) && tag_of(n.tags, "h"@) is Some ==> {
            &&& r is Over
            &&& r->mention.channel@ == tag_of(n.tags, "h"@)->0
            &&& r->mention.author@ == n.pubkey
            &&& r->mention.text@ == n.content
            &&& r->mention.reply_ref@ == decimal(n.created_at as nat)
        },
        !before.contains(n.id) && tag_of(n.tags, "h"@) is None ==> r is Malformed,
{
}

/// In the conversation read back, the agent's own messages are "you"; anyone
/// else is named by the first eight characters of their key.
pub proof fn a_speaker_is_told_apart(author: Seq<char>, me: Seq<char>)
    ensures
        author == me ==> speaker(author, me) == "you"@,
        author != me && author.len() > 8 ==> speaker(author, me) == author.take(8) + "…"@,
        author != me && author.len() <= 8 ==> speaker(author, me) == author + "…"@,
{
}

/// A filter asks for its kind always, and for the channel, the time and the
/// number each where they are given, in that order and under their own names.
pub proof fn a_filter_asks_for_what_is_given(a: Ask)
    ensures
        filter_fields(a)[0] == ("kinds"@, json_list(seq![decimal(a.kind as nat)])),
        filter_fields(a).len() == 1 + (if a.channel is Some {
            1int
        } else {
            0
        }) + (if a.since is Some {
            1int
        } else {
            0
        }) + (if a.limit is Some {
            1int
        } else {
            0
        }),
        a.channel is Some ==> filter_fields(a)[1] == ("#h"@, json_list(
            seq![json_quoted(a.channel->0@)],
        )),
        a.since is Some ==> filter_fields(a).contains(("since"@, decimal(a.since->0 as nat))),
        a.limit is Some ==> filter_fields(a).last() == ("limit"@, decimal(a.limit->0 as nat)),
{
    if a.since is Some {
        let i: int = if a.channel is Some {
            2
        } else {
            1
        };
        assert(filter_fields(a)[i] == ("since"@, decimal(a.since->0 as nat)));
    }
}

/// A profile says its name always, and what it is about and its picture each
/// where they are given.
pub proof fn a_profile_says_what_is_given(
    name: Seq<char>,
    about: Option<Seq<char>>,
    picture: Option<Seq<char>>,
)
    ensures
        profile_fields(name, None, None) == seq![("name"@, json_quoted(name))],
        about is Some ==> profile_fields(name, about, None) == seq![
            ("name"@, json_quoted(name)),
            ("about"@, json_quoted(about->0)),
        ],
        picture is Some ==> profile_fields(name, about, picture) == profile_fields(
            name,
            about,
            None,
        ).push(("picture"@, json_quoted(picture->0))),
{
    if about is Some {
        assert(profile_fields(name, about, None) =~= seq![
            ("name"@, json_quoted(name)),
            ("about"@, json_quoted(about->0)),
        ]);
    }
}

/// The answer to an authentication decides: a frame that says OK to it, and
/// yes, authenticates the session; one that says OK to it and anything else
/// fails it with the relay's reason. Any other frame leaves it open, while
/// fewer than 64 were read.
pub proof fn the_answer_to_an_authentication_decides(
    s: BuzzSession,
    id: Seq<char>,
    read: int,
    f: RelayFrame,
    after: BuzzSession,
    r: AuthStep,
)
    requires
        auth_stepped(s, id, read, f, after, r),
    ensures
        ({
            let answers = f.kind is Some && f.kind->0@ == "OK"@ && f.subject is Some
                && f.subject->0@ == id;
            &&& answers && f.flag == Some(true) ==> r is Accepted && after.authed && after.pending
                == s.pending
            &&& answers && f.flag != Some(true) ==> r is Failed && after == s
            &&& answers && f.flag != Some(true) && f.detail is Some ==> r->Failed_error@
                == "auth rejected: "@ + f.detail->0@
            &&& !answers ==> after.authed == s.authed
            &&& !answers && read < 64 ==> r is Again
            &&& !answers && read >= 64 ==> r is Failed
        }),
        after.url == s.url && after.me == s.me && after.listening == s.listening,
{
    reveal_strlit("OK");
    reveal_strlit("EVENT");
    assert("OK"@.len() == 2 && "EVENT"@.len() == 5);
}

/// The answer to an event decides: the relay took it where it says yes, or
/// that it had it already; it refused it where it says anything else, unless
/// that is a demand to authenticate that was not met yet. A challenge is to
/// be answered, and any other frame is passed over.
pub proof fn the_answer_to_an_event_decides(
    s: BuzzSession,
    wait: PublishWait,
    f: RelayFrame,
    after: BuzzSession,
    r: PublishStep,
)
    requires
        publish_stepped(s, wait, f, after, r),
    ensures
        ({
            let answers = f.kind is Some && f.kind->0@ == "OK"@ && f.subject is Some
                && f.subject->0@ == wait.event_id@;
            let challenges = f.kind is Some && f.kind->0@ == "AUTH"@;
            &&& answers && f.flag == Some(true) ==> r is Accepted
            &&& answers && f.detail is Some && "duplicate"@.is_prefix_of(f.detail->0@) ==> r
                is Accepted
            &&& answers && f.flag != Some(true) && f.detail is None ==> r is Failed
            &&& answers && f.flag != Some(true) && f.detail is Some && !"duplicate"@.is_prefix_of(
                f.detail->0@,
            ) && !"auth-required"@.is_prefix_of(f.detail->0@) ==> r is Failed
                && r->Failed_error@ == "rejected: "@ + f.detail->0@
            &&& answers && f.flag != Some(true) && f.detail is Some && !"duplicate"@.is_prefix_of(
                f.detail->0@,
            ) && (wait.attempt > 0 || s.authed) ==> r is Failed
            &&& r is Accepted ==> answers
            &&& challenges && f.subject is Some ==> r is Auth && r->challenge == f.subject->0
            &&& challenges && f.subject is None ==> r is Failed
            &&& !answers && !challenges ==> r is Again
        }),
        after.authed == s.authed && after.url == s.url && after.me == s.me && after.listening
            == s.listening,
        s.pending@.is_prefix_of(after.pending@),
{
    reveal_strlit("OK");
    reveal_strlit("AUTH");
    reveal_strlit("EVENT");
    reveal_strlit("auth-required");
    reveal_strlit("duplicate");
    assert("OK"@.len() == 2 && "AUTH"@.len() == 4 && "EVENT"@.len() == 5);
    let none = Seq::<char>::empty();
    assert(!"duplicate"@.is_prefix_of(none)) by {
        assert("duplicate"@.len() == 9);
    }
    assert(!"auth-required"@.is_prefix_of(none)) by {
        assert("auth-required"@.len() == 13);
    }
}

/// A request gathers every genuine event that answers it, in the order they
/// come and as they came, and nothing else; it is done when the relay says
/// so.
pub proof fn a_request_gathers_what_answers_it(
    authed: bool,
    read: int,
    before: Seq<Note>,
    f: RelayFrame,
    after: Seq<Note>,
    r: ReqStep,
)
    requires
        req_stepped(authed, read, before, f, after, r),
    ensures
        ({
            let ours = f.subject is Some && f.subject->0@ == "apiary-buzz"@;
            let event = f.kind is Some && f.kind->0@ == "EVENT"@ && ours && f.body is Some
                && nostr_verifies(f.body->0@) && nostr_event(f.body->0@) is Some;
            &&& event ==> {
                &&& after.len() == before.len() + 1
                &&& after.drop_last() == before
                &&& after.last()@ == nostr_event(f.body->0@)->0
            }
            &&& !event ==> after == before
            &&& r is Done <==> f.kind is Some && f.kind->0@ == "EOSE"@ && ours
            &&& event && read < 500 ==> r is Again
            &&& f.kind is Some && f.kind->0@ == "AUTH"@ ==> r is Auth
            &&& f.kind is Some && f.kind->0@ == "CLOSED"@ && ours && authed ==> r is Failed
        }),
{
    reveal_strlit("AUTH");
    reveal_strlit("CLOSED");
    reveal_strlit("EVENT");
    reveal_strlit("EOSE");
    assert("EVENT"@.len() == 5 && "AUTH"@.len() == 4 && "CLOSED"@.len() == 6 && "EOSE"@.len() == 4);
    assert("AUTH"@[0] == 'A' && "EOSE"@[0] == 'E');
}

/// Reading back takes every genuine message of the answer, with its author,
/// its text and its time; every frame of another subscription is held for
/// later, so nothing is lost.
pub proof fn reading_back_loses_nothing(
    s: BuzzSession,
    before: Seq<Past>,
    f: RelayFrame,
    now: BuzzSession,
    after: Seq<Past>,
)
    requires
        read_back(s, before, f, now, after),
    ensures
        ({
            let ours = f.subject is Some && f.subject->0@ == "apiary-history"@;
            let event = f.kind is Some && f.kind->0@ == "EVENT"@ && ours;
            let last = f.kind is Some && f.kind->0@ == "EOSE"@ && ours;
            let good = f.body is Some && nostr_verifies(f.body->0@) && nostr_event(f.body->0@)
                is Some;
            &&& event && good ==> {
                &&& after.len() == before.len() + 1
                &&& after.drop_last() == before
                &&& after.last().author@ == nostr_event(f.body->0@)->0.pubkey
                &&& after.last().text@ == nostr_event(f.body->0@)->0.content
                &&& after.last().at == nostr_event(f.body->0@)->0.created_at
            }
            &&& !(event && good) ==> after == before
            &&& event || last ==> now.pending@ == s.pending@
            &&& !event && !last ==> now.pending@ == s.pending@.push(f)
        }),
        now.authed == s.authed && now.listening == s.listening && now.me == s.me && now.url
            == s.url,
{
    reveal_strlit("EVENT");
    reveal_strlit("EOSE");
    assert("EVENT"@.len() == 5 && "EOSE"@.len() == 4);
}

/// A message counts as genuine if and only if its signature holds and it can
/// be read; then it is what was read.
pub proof fn only_signed_messages_are_genuine(json: Seq<char>)
    ensures
        !nostr_verifies(json) ==> genuine(Some(json)) is None,
        nostr_verifies(json) ==> genuine(Some(json)) == nostr_event(json),
        genuine(None) is None,
{
}

/// Put in order of time, messages of one second keep the order they had: each
/// second is looked at for itself.
pub proof fn seconds_are_told_apart(a: Seq<Past>, b: Seq<Past>, p: Past, at: u64)
    ensures
        of_second(a + b, at) == of_second(a, at) + of_second(b, at),
        of_second(seq![p], at) == (if p.at == at {
            seq![p]
        } else {
            Seq::empty()
        }),
    decreases b.len(),
{
    reveal(Seq::filter);
    assert(seq![p].drop_last() =~= Seq::<Past>::empty());
    assert(of_second(Seq::<Past>::empty(), at) =~= Seq::empty());
    assert(Seq::<Past>::empty().push(p) =~= seq![p]);
    assert(seq![p].last() == p);
    if b.len() == 0 {
        assert(a + b =~= a);
        assert(of_second(a, at) + of_second(b, at) =~= of_second(a, at));
    } else {
        assert((a + b).drop_last() =~= a + b.drop_last());
        assert((a + b).last() == b.last());
        seconds_are_told_apart(a, b.drop_last(), p, at);
        assert(of_second(a + b, at) =~= of_second(a, at) + of_second(b, at));
    }
}

/// A list in order of time stands oldest first: no message stands before an
/// older one, and a list without its last message, or with a newer one behind
/// it, is in order too.
pub proof fn oldest_stand_first(list: Seq<Past>, p: Past)
    ensures
        in_time(list) ==> forall|i: int, j: int|
            #![trigger list[i], list[j]]
            0 <= i < j < list.len() ==> list[i].at <= list[j].at,
        list.len() <= 1 ==> in_time(list),
        in_time(list) && (list.len() == 0 || list.last().at <= p.at) ==> in_time(list.push(p)),
        list.len() > 0 && list.last().at > p.at ==> !in_time(list.push(p)),
{
    let more = list.push(p);
    if list.len() > 0 && list.last().at > p.at {
        assert(more[list.len() - 1] == list.last() && more[list.len() as int] == p);
    }
    if in_time(list) && (list.len() == 0 || list.last().at <= p.at) {
        assert forall|i: int, j: int|
            #![trigger more[i], more[j]]
            0 <= i <= j < more.len() implies more[i].at <= more[j].at by {
            if j < list.len() {
                assert(list[i].at <= list[j].at);
            } else if i < list.len() {
                assert(list[i].at <= list[list.len() - 1].at);
            }
        }
    }
}

/// What is heard is told with who said it and how it begins: the first eight
/// characters of the key, and the first 60 of the text.
pub proof fn what_is_heard_is_told(n: NoteModel)
    requires
        n.pubkey.len() >= 8,
    ensures
        n.content.len() <= 60 ==> heard_line(n) == "heard ["@ + n.pubkey.take(8) + "…]: "@
            + n.content,
        n.content.len() > 60 ==> heard_line(n) == "heard ["@ + n.pubkey.take(8) + "…]: "@
            + n.content.take(60),
{
    assert(n.pubkey.take(n.pubkey.len() as int) =~= n.pubkey);
}

/// A frame is about something if and only if it is of that kind and names that
/// subject; it is live if it is an event of a listening subscription.
pub proof fn what_a_frame_is_about(f: RelayFrame, kind: Seq<char>, subject: Seq<char>, n: Seq<char>)
    ensures
        is_about(f, kind, subject) <==> f.kind is Some && f.kind->0@ == kind && f.subject is Some
            && f.subject->0@ == subject,
        f.kind is Some && f.kind->0@ == "EVENT"@ && f.subject is Some && f.subject->0@
            == "apiary-listen"@ + n ==> is_live(f),
        is_live(f) ==> f.kind is Some && f.kind->0@ == "EVENT"@ && f.subject is Some
            && exists|rest: Seq<char>| f.subject->0@ == #[trigger] ("apiary-listen"@ + rest),
{
    if f.subject is Some && f.subject->0@ == "apiary-listen"@ + n {
        assert(f.subject->0@.subrange(0, "apiary-listen"@.len() as int) =~= "apiary-listen"@);
    }
    if is_live(f) {
        let rest = f.subject->0@.skip("apiary-listen"@.len() as int);
        assert(f.subject->0@ =~= "apiary-listen"@ + rest);
    }
}

/// What a listening agent makes of a frame: a challenge is answered, a dropped
/// subscription renewed, and a genuine live message heard, as a mention if and
/// only if it is one.
pub proof fn what_is_made_of_a_frame(
    f: RelayFrame,
    me: Seq<char>,
    trigger: Seq<char>,
    r: ListenStep,
)
    requires
        listened(f, me, trigger, r),
        f.kind is Some,
    ensures
        f.kind->0@ == "AUTH"@ ==> r is Auth,
        f.kind->0@ == "AUTH"@ && f.subject is Some ==> r->challenge@ == f.subject->0@,
        f.kind->0@ == "CLOSED"@ ==> r is Resubscribe,
        f.kind->0@ == "EVENT"@ && is_live(f) && genuine(opt_view(f.body)) is Some ==> {
            let n = genuine(opt_view(f.body))->0;
            &&& r is Heard
            &&& r->mention is Some <==> mentions(n, me, trigger)
            &&& r->mention is Some ==> r->mention->0@ == n
        },
        f.kind->0@ != "AUTH"@ && f.kind->0@ != "CLOSED"@ && (!is_live(f) || genuine(
            opt_view(f.body),
        ) is None) ==> r is Again,
{
    reveal_strlit("AUTH");
    reveal_strlit("CLOSED");
    reveal_strlit("EVENT");
    assert("EVENT"@.len() == 5 && "AUTH"@.len() == 4 && "CLOSED"@.len() == 6);
}

/// A dropped subscription is told with its name and the relay's reason.
pub proof fn a_dropped_subscription_is_told(f: RelayFrame)
    requires
        f.subject is Some,
        f.word is Some,
    ensures
        closed_line(f) == "subscription closed by relay: "@ + f.subject->0@ + " — "@ + f.word->0@
            + " · resubscribing"@,
{
}

/// What the relay said of an event it took is passed on, and where it said
/// nothing the event counts as accepted. A demand to authenticate is waited
/// out in the first attempt of a session that is not authenticated.
pub proof fn what_the_relay_said_is_passed_on(
    s: BuzzSession,
    wait: PublishWait,
    f: RelayFrame,
    after: BuzzSession,
    r: PublishStep,
)
    requires
        publish_stepped(s, wait, f, after, r),
        f.kind is Some,
        f.kind->0@ == "OK"@,
        f.subject is Some,
        f.subject->0@ == wait.event_id@,
    ensures
        f.flag == Some(true) && f.detail is Some && f.detail->0@.len() > 0 ==> r is Accepted
            && r->detail@ == f.detail->0@,
        f.flag == Some(true) && (f.detail is None || f.detail->0@.len() == 0) ==> r is Accepted
            && r->detail@ == "accepted"@,
        f.flag != Some(true) && f.detail is Some && "auth-required"@.is_prefix_of(f.detail->0@)
            && wait.attempt == 0 && !s.authed ==> r is Again,
{
    reveal_strlit("OK");
    reveal_strlit("AUTH");
    reveal_strlit("EVENT");
    reveal_strlit("auth-required");
    reveal_strlit("duplicate");
    assert("OK"@.len() == 2 && "AUTH"@.len() == 4 && "EVENT"@.len() == 5);
    if f.detail is Some && "auth-required"@.is_prefix_of(f.detail->0@) {
        assert(f.detail->0@[0] == "auth-required"@[0]);
        if "duplicate"@.is_prefix_of(f.detail->0@) {
            assert(f.detail->0@[0] == "duplicate"@[0]);
        }
    }
}

/// A frame is read place by place: its kind first, then what it is about, then
/// the flag, the word or the body, and last the detail.
pub proof fn a_frame_is_read_place_by_place(text: Seq<char>, f: RelayFrame)
    requires
        is_frame(text, f),
    ensures
        f.kind is Some <==> json_text_at(text, 0) is Some,
        f.kind is Some ==> f.kind->0@ == json_text_at(text, 0)->0,
        f.subject is Some <==> json_text_at(text, 1) is Some,
        f.subject is Some ==> f.subject->0@ == json_text_at(text, 1)->0,
        f.flag == json_flag_at(text, 2),
        f.word is Some <==> json_text_at(text, 2) is Some,
        f.word is Some ==> f.word->0@ == json_text_at(text, 2)->0,
        f.body is Some <==> json_item_at(text, 2) is Some,
        f.body is Some ==> f.body->0@ == json_item_at(text, 2)->0,
        f.detail is Some <==> json_text_at(text, 3) is Some,
        f.detail is Some ==> f.detail->0@ == json_text_at(text, 3)->0,
{
}

/// The tags of an event are its tags, word for word and in order.
pub proof fn tags_are_kept_word_for_word(tags: Seq<Vec<String>>, i: int, j: int)
    requires
        0 <= i < tags.len(),
    ensures
        tag_views(tags).len() == tags.len(),
        tag_views(tags)[i].len() == tags[i]@.len(),
        0 <= j < tags[i]@.len() ==> tag_views(tags)[i][j] == tags[i]@[j]@,
{
}

} // verus!
