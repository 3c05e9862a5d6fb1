# agent_knowledge

The decisions of a file-based knowledge store, verified with Verus.

Clients hand in requests that create, update, move, archive or attach to Markdown documents. A
worker claims them in batches, applies each batch in a disposable Git worktree, builds the site from
it, commits it, advances the official branch, publishes a release and a search index, and ends the
requests in the queue. A journal makes every step resumable. Readers list, retrieve and search the
documents of exact official commits, and follow them through history. Official commits can be
replicated to a remote.

## Layout

- `src/` is the library. It never touches a file, a process or a clock: it takes what was observed
  and says what it means, or what has to be observed or done next.
  - `text`, `fields`, `path`, `clock`, `rfc3339`, `ids`: building blocks.
  - `document`, `markdown`, `index`, `apply`, `plan_laws`: the content layout, and what one request
    changes in it.
  - `git_text`, `git_output`, `git_error`, `changes`, `commit_message`, `journal`, `repository`,
    `opening`, `batch`, `batch_laws`, `batch_model`, `batch_recovery`, `finalize`: the transaction of a
    batch.
  - `store`, `read`, `bundle_laws`, `read_error`, `order`, `search_text`, `linear_search`,
    `history`: reading committed content.
  - `search_fields`, `search_index`, `search_error`, `index_store`, `index_store_laws`: derived
    search indexes.
  - `replication`: pushing to a remote, with backoff.
  - `config`, `topology`, `schedule`, `processor`, `publication_laws`, `startup`, `runtime`,
    `poll_laws`, `run_error`, `status`: the worker.
- `app/` reads and writes files, runs Git, builds search indexes and keeps threads and clocks for
  the library. What belongs to other components of an installation (the request queue, the site
  builder, the releases and the document schema) stands there as traits.
- `tests/` runs the library on values and on small models of its surroundings.

## What is trusted

Text decoding, letter case and character classes of the standard library, and the calls into `time`,
`ulid`, `sha2`, `unicode-normalization` and `tantivy`, are declared where they are made, each with
what is claimed of it.
