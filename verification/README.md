# unit

A Forth machine that is also an agent on a mesh: it shares goals and words with its peers, runs
tasks in a sandbox, watches services, spawns children, and lets its own words evolve.

The library under `src/` is verified with Verus. It does no input or output of its own. A machine
runs until it needs its host; it then holds a `Request`, and goes on when it is handed a `Reply`.
The program under `app/` is such a host: it reads lines, sends and receives packets, and keeps
files.

| Module | What it is |
| --- | --- |
| `vm` | the machine: words, interpreter, compiler, sandbox, requests, work between lines |
| `goals`, `registry` | goals and tasks, how what peers know of them is merged, and what holds whatever is done to them |
| `mesh` | peers, gossip, votes on replication, consent, messages |
| `persist`, `codec`, `wire` | snapshots, the state that is sent to peers, numbers and texts in bytes |
| `spawn` | packages and children |
| `features` | fitness, watches and alerts, HTTP, hashes, the bridge to browsers |
| `cli`, `platform`, `browser`, `prelude`, `clock` | options, hosts, the words defined at the start, time |
| `text`, `num`, `order` | texts, division, search and sorting |

Every word has a specification over the mathematical form of the machine (`vm::state::VmV`), and
`vm::machine::stepped` and `resumed` say what a step and an answer do. Proof functions whose names
begin with `law_` state what holds of more than one of them: what a snapshot gives back, what one
node makes of what another sends, what becomes of bytes that are cut short, what no step can
change, and what a task in the sandbox cannot touch. They are collected in `vm::laws`,
`mesh::laws`, `mesh::arrivals`, `registry`, `features::monitor_laws` and `cut`, or stand beside
what they speak of.
