# qstream

The decision logic of QStream, a live-stream Q&A backend (sessions, questions, votes,
moderation, donations and live events), as a Verus-verified library, with the HTTP
server around it.

- `src/` — the verified library. Every public function states its result in its
  contract; the laws of the service (at most one item answered per session, votes keep
  the score equal to the sum of the stored votes, feeds hold every item and pin the item
  being answered, a donation sync never takes a donation twice, ...) are public proof
  functions.
  - `error` — refusals and their HTTP status.
  - `text` — trimming, line breaks, name and message normalisation.
  - `web` — return paths, public URLs, bearer tokens, forwarded addresses.
  - `tokens` — token hashing (SHA-256) and the UUID-based codes and tokens.
  - `oauth` — the Google and DonationAlerts authorization URLs.
  - `sql` — the SQL fragments for effective session state, feed tabs and status changes.
  - `moderation` — item statuses and the owner's moderation actions.
  - `votes` — vote checks and the effect of a vote on the score.
  - `feed` — ordering and combining the question and donation feeds.
  - `sessions` — session fields, donation routing, per-address event-stream limits.
  - `donations` — donation sync baselines, paging, token refresh, currencies.
  - `events` — live events and the per-session broadcast channels.
  - `config` — database URL, flags, SQLite busy retries.
  - `clock` — the current time.
- `tests/` — tests of the library on concrete values.
- `app/` — the axum server: routes, database access (sqlx), outbound HTTP (reqwest),
  serde forms of the library's types, and the currency conversions, which use floating
  point. It reads the database schema from `schema.sql` (and `schema_reset.sql` when
  `RESET_DB_ON_BOOT` is set), or from the files that `SCHEMA_SQL_PATH` and
  `SCHEMA_RESET_SQL_PATH` name.
