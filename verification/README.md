# apiary

The rules an agent host keeps, as a verified library: what an agent owes and
to whom, what it watches, how it answers when it is spoken to, and what it may
propose.

- `errands`: work that outlives a reply, and the two tools around it.
- `pickup`: keeping those promises, and saying so when one cannot be kept.
- `watches`, `firing`: acting because a folder changed, within a daily
  ceiling.
- `presence`: one governed loop from a mention to its reply, as a machine that
  takes events and names the next act.
- `buzz`: what a Buzz relay's frames mean to each call that waits for one.
- `listen`: when to subscribe, to ping, to tick and to connect again.
- `lease`: holding an agent's lease, and yielding it.
- `service`: one agent's presence inside its lease, from the claim to the
  release.
- `huddle`: audio frames, and when a turn has ended.
- `proposal`: amendments and new agents that an agent may ask for.
- `host`: what the daemon's command line settles.
- `text`, `time`, `json`, `record`, `charter`, `run`, `paths`: the values the
  others share.

Each public function states in its contract what it returns and changes, and
the end of a module holds the laws that relate its functions. What comes from
serde_json, nostr, chrono and base64 stands behind small trusted functions
whose doc comments say what is claimed of them.

`app/` is the daemon around the library: sockets, files, the clock, HTTP, and
an adapter onto the workspace's keystore, runner and control plane
(`app/workspace.rs`). The daemon itself supervises errands and watches and
answers for them. Its listeners are started, and its tools are bound, by the
workspace's own supervisor and runner; `app/presence.rs`, `app/buzz.rs`,
`app/tools.rs` and `app/huddle.rs` are what those are to call, and nothing in
the daemon's `main` reaches them.
