# Coven

The command line tool of Coven: a daemon that keeps the live sessions of harnesses, serves an
HTTP API on a local socket, delegates work to executors and shows what a Coven home holds.

- `src/` is the library: every rule of the tool, with its contract, proved by Verus. It does no
  I/O. What the system answers comes in as plain values, and what is to be done goes out as
  steps, actions or texts.
- `app/` is the program around the library: files, sockets, processes, locks and the store.
- `tests/` runs the library on concrete values.

The library in groups:

| Modules | What they hold |
| --- | --- |
| `text`, `paths`, `numbers`, `order`, `table`, `ids`, `fault`, `moment`, `digest`, `json` | texts, paths, numbers, orders, points in time and the values that outside crates compute |
| `lifecycle`, `supervision`, `serve`, `recovery_log`, `http`, `response`, `trust` | the daemon from its start to its end, and what it says on its sockets |
| `live`, `live_gate`, `live_events`, `launch`, `shutdown` | live sessions: launching, registering, input, kill, exit and shutdown |
| `familiars`, `memory`, `memory_content`, `research` | what a home holds |
| `delegation`, `integration`, `delegation_cleanup`, `delegation_executor`, `delegation_matrix`, `matrix_aggregate` | delegations and matrices of delegations |
| `executor_node`, `executor_job`, `executor_control`, `executor_autostart`, `autostart_task` | executors: the protocol, the jobs, who may run one, and its start at logon |

A public proof function states a law of the library: its doc comment says it in words, its
`ensures` in the terms of the contracts.
