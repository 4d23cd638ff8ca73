# ai_bridge

A constrained orchestration and safety pipeline for multi-branch execution:
a maestro sends execution plans over a Unix socket, a gatekeeper classifies
every command by its symbol tag and six risk criteria, delegable plans are
auto-approved after a waiting window while critical ones wait for the owner,
and two worker branches exchange bounded sub-chats.

The library under `src/` is written in Verus: each function carries a
`requires`/`ensures` contract over mathematical models (`Seq`, `Map`, `nat`),
and the properties that span several functions are stated and proved as
public `proof fn`s. Calls into other crates (regex, serde_json, shlex, hex,
getrandom, chrono, tokio) sit behind small trusted wrappers whose contracts
say what the library relies on.

## Layout

- `src/protocol.rs`: message schemas, the symbol table and its `[[AB:..]]`
  tags (a tagged command reads back as its symbol).
- `src/criteria.rs`, `src/policy.rs`, `src/pattern.rs`: the criteria engine
  and the delegable / non-delegable decision.
- `src/timers.rs`, `src/executor.rs`: the waiting window, and the executor
  allowlist that every command's program is checked against before it runs.
- `src/event_loop.rs`, `src/daemon.rs`, `src/approvals.rs`: the gatekeeper's
  task table, the daemon's step function and the owner's approvals.
- `src/subchat.rs`, `src/root_branch.rs`, `src/selfheal.rs`: branches,
  sub-chat limits, delivery at the root and recovery directives.
- `src/channels.rs`, `src/json.rs`: handshakes, peer identity checks, the
  parsing of message text and the payload rule that no identity field
  travels in a message, applied to every message the daemon reads.
- `src/hand_eye.rs`, `src/desktop_io.rs`: portal authorisation, readable
  file types, and chat-store confinement.
- `src/admin_config.rs`, `src/admin_rows.rs`, `src/admin_panel.rs`,
  `src/audit.rs`, `src/config_paths.rs`: the editable configuration, its
  validation (before every save) and security-lowering check, the admin
  panel's state and the append-only audit log, in which a confirmed
  security-lowering save is flagged.
- `src/dashboard.rs`, `src/safety_guard.rs`: role assignment (one maestro at
  most), manual plans and the safety lock.
- `app/`: the daemon binary: sockets, files, the desktop portal, child
  processes and serialisation, handing plain values to the library.
- `tests/`: behaviour tests of the library.
