# pantheon_store

Authoritative control-plane state for Pantheon, as a verified library.

`src/` models the store's tables as plain rows in one `Store` value whose
schema constraints are the well-formedness predicate `Store::wf`. Every
operation is a function on that value with an exact contract: a decision
spec says which refusal, replay or admission a request meets, and the
admitted effect names every row that changes and every row that does not.
`src/laws.rs` states and proves the properties that span operations
(replay, fencing, idempotence, convergence, cancellation).

`app/` is the SQLite side: opening connections under the v1 policy (the
read-back is judged by `policy` in `src/`), running the migration set that
`migrations` in `src/` plans and checks, and rendering errors.

The `Store` value lives in memory: the operations are verified on it, but
nothing in this crate loads it from an existing database or writes it back.

`json` reads the payload references out of a stored changeset manifest; the
grammar it follows is stated as spec functions over the manifest's bytes.
