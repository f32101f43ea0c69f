# Inventorix server

Inventorix tracks tile samples in the branches of a showroom network: the
inventory table with each tile's health, refill requests and their 48-hour
timers (request, approve, reject, fulfil, expire), a branch chat with
"given out" marks, the action history, Excel import and export, per-tile
analytics and account administration.

## Layout

- `src/` is the library, verified with Verus. Every decision a request or a
  background job makes is a function here with a contract: who may do what
  (roles and branch isolation), the refill workflow, what the inventory,
  history, chat and analytics pages show, what an import upserts and skips,
  what the exported sheet holds, and the settings. Laws that span several
  functions are public proof functions (`lemma_*`).
  - `auth/`: roles, authentication of a session's account, passwords (argon2).
  - `models/`: the stored records, tile health and the refill status workflow.
  - `routes/`: one module per page or action.
  - `ws/`: the branch-scoped connection registry for live updates.
  - `jobs/`: the refill timer rule and the daily schedule.
  - `text.rs`, `order.rs`, `datetime.rs`: text handling, stable sorting and
    the calendar formats, shared by the modules above.
- `tests/` runs the library on concrete values.
- `app/` is the server around the library: axum routes, sessions, SQLite
  queries, templates, WebSockets, files and the background loops. It asks the
  library for each decision and carries it out.

Calls into outside crates that the library makes (chrono, argon2, calamine,
rust_xlsxwriter, dashmap, tokio's channel) go through small trusted wrappers
whose contracts say what those crates do; each names the function it calls.
