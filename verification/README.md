# kirby_node

The logic of a node that hosts sovereign agents, verified with Verus: what the node decides, and
what it may never do, stands in contracts next to the code.

- `treasury`, `keyed`: the agent's money. Debits, charges and credits happen once, and the books
  balance.
- `relay_lease`, `lease`, `relay_auth`: who may run an agent. Terms only move forward, and one node
  holds a term.
- `remote_holder`, `agent_cosign`, `frost`, `sessions`, `relay_frames`, `relay_routing`: signing with
  holders on other machines. A nonce signs once, and a spoofed reply is never accepted.
- `share_seal`, `share_ship`, `seed_keyring`: shares at rest, shares on the way, and the wallet that
  opens only under a lease.
- `spawn`, `run_agent`, `snapshot_run`, `boot`: an agent's birth, life, move and death.
- `sandbox`, `vz`, `elf`: guests, and the kernel images they boot.
- `config`, `nostr`, `signing`, `crypto`, `bytes`, `text`: labels, events, keys, and what the rest is
  written with.

`src/` holds the verified library. What it takes from other crates stands behind small functions in
`crypto`, `signing`, `frost` and `text` whose contracts are believed, each with a comment that says
what is claimed. `app/` does the input and output: relays, stores, files, processes and timers.
`tests/` runs the library with the real crates.
