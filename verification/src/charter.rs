//! The parts of an agent's ratified manifest that the library decides by.
use crate::text::copy_opt;
use vstd::prelude::*;

verus! {

/// Where the text of a run goes. Each target is optional.
#[derive(Debug, PartialEq, Eq)]
pub struct Delivery {
    pub telegram: Option<String>,
    pub buzz: Option<String>,
    pub nostr: Option<String>,
    pub companion: bool,
    pub as_voice: bool,
}

impl Clone for Delivery {
    fn clone(&self) -> (r: Delivery)
        ensures
            r == *self,
    {
        Delivery {
            telegram: copy_opt(&self.telegram),
            buzz: copy_opt(&self.buzz),
            nostr: copy_opt(&self.nostr),
            companion: self.companion,
            as_voice: self.as_voice,
        }
    }
}

/// The same targets again.
pub fn copy_targets(list: &Vec<Delivery>) -> (r: Vec<Delivery>)
    ensures
        r@ == list@,
{
    let mut out: Vec<Delivery> = Vec::new();
    let mut i: usize = 0;
    while i < list.len()
        invariant
            i <= list@.len(),
            out@ == list@.take(i as int),
        decreases list@.len() - i,
    {
        out.push(list[i].clone());
        i += 1;
        assert(out@ == list@.take(i as int));
    }
    assert(list@.take(i as int) == list@);
    out
}

/// A folder the agent was granted.
#[derive(Debug)]
pub struct Vault {
    pub name: String,
    pub path: String,
}

/// A watch: a door the governor ratified in advance.
#[derive(Debug)]
pub struct Watch {
    pub name: String,
    /// What kind of source is watched; `vault` is the one there is.
    pub on: String,
    pub vault: Option<String>,
    pub match_path: Option<String>,
    pub task: String,
    /// The debounce as the manifest spells it.
    pub debounce: String,
    /// The debounce in seconds, where the spelling could be read.
    pub debounce_secs: Option<i64>,
    pub max_per_day: u32,
    pub deliver: Vec<Delivery>,
    pub tokens_per_run: Option<u64>,
    pub enabled: bool,
}

/// A standing instruction that the host runs on a schedule.
#[derive(Debug, PartialEq, Eq)]
pub struct Routine {
    pub name: String,
    /// A cron line.
    pub when: Option<String>,
    /// An interval instead.
    pub every: Option<String>,
    /// One moment instead.
    pub at: Option<String>,
    /// The time zone of `when` and `at`.
    pub tz: Option<String>,
    pub task: String,
    pub class: String,
    pub deliver: Vec<Delivery>,
    pub tokens_per_run: Option<u64>,
    pub catch_up: String,
    pub enabled: bool,
}

/// What a proposal may not change, and the routines that it may.
#[derive(Debug)]
pub struct Charter {
    pub npub: String,
    /// Who governs the agent.
    pub suspend_keys: Vec<String>,
    pub routines: Vec<Routine>,
}

} // verus!
