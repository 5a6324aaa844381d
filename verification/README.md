# lol_desktop_assistant

The backend of a desktop assistant for League of Legends: settings, an
activity log with local export and import, player notes, ranked champion
statistics, and read-only views of the local League Client (status, the
current summoner, recent matches, post-match analysis, the champion-select
roster) plus the auto-accept of ready checks.

The library in `src/` is verified with Verus. Functions that compute state
their result exactly; functions that call the store or the client state
which inputs they refuse before the call and what they give back for
every answer it could return. The laws that span functions (round trips of names, the order of
rankings and catalogs, what the roster caches keep, the bounds of the
auto-accept state machine, that lockfile credentials never print their
port or password) are proof functions beside them.

Decimal quantities (KDA ratios, averages, rates, scores) are held as whole
numbers of tenths.

`app/` is the unverified shell around it: a command-line program that opens
the SQLite store, talks to the local client over HTTPS, fetches published
ranked data, runs the league event service, and prints each command's
result as JSON.

Layout of `src/`:

- `domain`, `errors`, `commands`: the values, errors and command types.
- `validation`, `text`, `decimal`, `order`: input rules and the string,
  number and ordering helpers they rest on.
- `application`: settings, activity, export and import, notes, ranked
  statistics over the store.
- `reader`, `league_client`, `lockfile`, `matches`, `performance`:
  reading the local client and summarising what it returns.
- `postmatch`: team totals, performance scores and leaders of a completed
  match, and the notes attached to its players.
- `champ_select`, `roster_cache`, `client_cache`, `keyed_cache`,
  `league_events`, `automation`: the champion-select roster, its caches,
  the event service's decisions and the auto-accept state machine.
- `ranked`, `ranked_data`: the ranking order, the built-in sample and the
  checks on published data.
- `storage`: migrations and the mapping between rows and values.
