//! How the host daemon starts: who may drive it, where its state is, and
//! whether it can unlock its keystore unattended.
use crate::paths::{join, joined};
use crate::text::{copy_opt, opt_view, same};
use vstd::prelude::*;

verus! {

/// Who may drive the daemon.
#[derive(Debug, Clone, Copy, PartialEq, Eq, Structural)]
pub enum AuthMode {
    /// Every local process: for development on localhost.
    Open,
    /// Whoever signs their requests.
    Nip98,
}

pub const OPEN_WARNING: &'static str = "auth=open: every local process can drive this daemon; use \
    --auth nip98 beyond localhost dev";

/// The auth mode that a flag names. Fail closed: an unrecognized mode must
/// never silently mean open.
pub fn auth_mode(flag: &str) -> (r: Result<AuthMode, String>)
    ensures
        match r {
            Ok(AuthMode::Nip98) => flag@ == "nip98"@,
            Ok(AuthMode::Open) => flag@ == "open"@,
            Err(line) => flag@ != "nip98"@ && flag@ != "open"@ && line@ == "error: unknown --auth '"@
                + flag@ + "' (expected: open | nip98)"@,
        },
{
    if same(flag, "nip98") {
        Ok(AuthMode::Nip98)
    } else if same(flag, "open") {
        Ok(AuthMode::Open)
    } else {
        let mut line = "error: unknown --auth '".to_owned();
        line.append(flag);
        line.append("' (expected: open | nip98)");
        Err(line)
    }
}

/// The state directory, below the user's home or, where there is none, here.
pub fn default_home(home: &Option<String>) -> (r: String)
    ensures
        r@ == joined(
            match opt_view(*home) {
                Some(h) => h,
                None => "."@,
            },
            ".apiary"@,
        ),
{
    match home {
        Some(home) => join(home.as_str(), ".apiary"),
        None => join(".", ".apiary"),
    }
}

/// Headless unlock: the opt-in passphrase file behind the cockpit's "remember
/// on this host" checkbox. A host that must run agents through reboots and
/// deploys holds its own key, like an SSH host key.
pub fn headless_unlock_path(home: &str) -> (r: String)
    ensures
        r@ == joined(home@, "headless-unlock"@),
{
    join(home, "headless-unlock")
}

/// A text without the newlines it ends with.
pub open spec fn without_newlines(s: Seq<char>) -> Seq<char>
    decreases s.len(),
{
    if s.len() > 0 && s.last() == '\n' {
        without_newlines(s.drop_last())
    } else {
        s
    }
}

/// The passphrase in the file, if there is one: its text, without the
/// newlines at its end, unless nothing else is in it.
pub fn stored_passphrase(raw: &str) -> (r: Option<String>)
    ensures
        opt_view(r) == if without_newlines(raw@).len() > 0 {
            Some(without_newlines(raw@))
        } else {
            None
        },
{
    let mut n: usize = raw.unicode_len();
    assert(raw@.take(n as int) == raw@);
    while n > 0 && raw.get_char(n - 1) == '\n'
        invariant
            n <= raw@.len(),
            without_newlines(raw@) == without_newlines(raw@.take(n as int)),
        decreases n,
    {
        assert(raw@.take(n as int).drop_last() == raw@.take(n - 1));
        n -= 1;
    }
    assert(without_newlines(raw@) == raw@.take(n as int));
    if n == 0 {
        return None;
    }
    let pass = raw.substring_char(0, n).to_owned();
    assert(raw@.subrange(0, n as int) == raw@.take(n as int));
    Some(pass)
}

/// Whether a stored passphrase opens the workspace, and what is said of it.
#[derive(Debug)]
pub struct Unlock {
    pub passphrase: Option<String>,
    pub line: String,
}

/// Take in whether the stored passphrase opened the keystore. One that no
/// longer does leaves the workspace locked, and that is said.
pub fn unlock(path: &str, passphrase: String, refused: &Option<String>) -> (r: Unlock)
    ensures
        match opt_view(*refused) {
            None => {
                &&& r.passphrase == Some(passphrase)
                &&& r.line@ == "headless unlock: workspace unlocked from "@ + path@
            },
            Some(e) => {
                &&& r.passphrase is None
                &&& r.line@ == "headless unlock: "@ + path@ + " no longer opens the keystore ("@ + e
                    + STAYING_LOCKED@
            },
        },
{
    match refused {
        None => {
            let mut line = "headless unlock: workspace unlocked from ".to_owned();
            line.append(path);
            Unlock { passphrase: Some(passphrase), line }
        },
        Some(e) => {
            let mut line = "headless unlock: ".to_owned();
            line.append(path);
            line.append(" no longer opens the keystore (");
            line.append(e.as_str());
            line.append(STAYING_LOCKED);
            Unlock { passphrase: None, line }
        },
    }
}

pub const STAYING_LOCKED: &'static str = ") — staying locked; unlock in the cockpit and re-tick \
    \"remember on this host\"";

/// The passphrase to start with: the one that was named, else the stored one.
pub fn initial_passphrase(named: &Option<String>, stored: &Option<String>) -> (r: Option<String>)
    ensures
        r == if named is Some {
            *named
        } else {
            *stored
        },
{
    if named.is_some() {
        copy_opt(named)
    } else {
        copy_opt(stored)
    }
}

/// The origin that clients sign their requests against: the one that was
/// named, else the address that is bound.
pub fn origin_of(origin: &Option<String>, bind: &str) -> (r: String)
    ensures
        r@ == match opt_view(*origin) {
            Some(o) => o,
            None => "http://"@ + bind@,
        },
{
    match origin {
        Some(origin) => origin.clone(),
        None => {
            let mut out = "http://".to_owned();
            out.append(bind);
            out
        },
    }
}

/// Line breaks are taken off the end, all of them, and nothing else: what is
/// left does not end with one.
pub proof fn only_line_breaks_at_the_end_go(s: Seq<char>, breaks: Seq<char>)
    requires
        s.len() > 0 ==> s.last() != '\n',
        forall|i: int| 0 <= i < breaks.len() ==> #[trigger] breaks[i] == '\n',
    ensures
        without_newlines(s + breaks) == s,
    decreases breaks.len(),
{
    if breaks.len() > 0 {
        assert((s + breaks).last() == breaks.last());
        assert((s + breaks).drop_last() =~= s + breaks.drop_last());
        only_line_breaks_at_the_end_go(s, breaks.drop_last());
    } else {
        assert(s + breaks =~= s);
    }
}

} // verus!
