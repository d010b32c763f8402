# bead-rs service core, verified

The decision-making core of the `bead` task-coordination service, written in
Verus: every function in `src/` carries a `requires`/`ensures` contract that
Verus proves, and the library's laws are proof functions checked with it.

## Layout

- `src/` — the verified library.
  - `text`, `digest`, `error`, `model`: strings, SHA-256 and hex, error
    kinds with their exit codes, issue statuses.
  - `issues`, `lifecycle`, `leases`, `resource_locks`, `scheduling`,
    `dryrun`, `manifest`, `query`, `external_refs`: the rules of issues,
    claims, fences, resource keys, claim ordering, previews, bulk manifests
    and the query language.
  - `doctor`, `doctor_checks`, `dependency_cycles`, `policy`, `rehearsal`,
    `migrate`, `reconcile`, `redaction`: diagnostics and their answers,
    cycle detection, policy linting, recovery rehearsal comparison,
    migration input reading, counts, output and records, checkpoint
    reconciliation and historical redaction.
  - `git`, `git_stage`, `git_commit`: what Git reports about the checkpoint
    and the staging and commit protocols, as state machines whose steps the
    caller performs.
- `tests/` — tests of the library on concrete values.
- `app/` — the service layer around the library: Git subprocesses, the
  SQLite store, JSON documents and files. It gathers what the library's
  functions need and acts on what they decide.

Calls into outside crates (SHA-256, date and time, JSON, random bytes) sit
behind small trusted functions whose contracts state what the crates
document; everything above them is proved.
