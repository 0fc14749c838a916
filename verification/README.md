# beetle_hunt

A bot for the beetle-hunt game of the Remilia social site, and a generator of
an HTML leaderboard of its players. The core is verified with Verus: every
function under `src/` carries a contract that Verus proves, and the
properties that span several calls (what syncing the friends database keeps,
when a poked user may be poked again, what a fresh session counts as gained)
are stated as proof functions named `law_*`.

## Layout

- `src/` — the verified library.
  - `models/` — the game's records (inventory, user, cooldowns), the friends
    database, leaderboard entries and profiles.
  - `bot/` — the bot's decisions: game timers and hunts, the background
    workers' schedule, feed analysis and poke targets, engagement outcomes,
    session cookies, menu answers.
  - `automation.rs` — what the browser-driven session decides from the page:
    claim timers, page kinds, buttons, which profiles to visit.
  - `reauth.rs` — the cookies and token kept when the session is renewed.
  - `leaderboard.rs`, `html_generator.rs` — batching and retrying the profile
    fetches, sorting, and the rendered page.
  - `text.rs`, `sorting.rs`, `utils.rs`, `clock.rs`, `json.rs` — text
    handling, a stable sort, formatting helpers, the clock, and reading JSON
    replies.
- `tests/` — tests run against the compiled library.
- `app/` — the program around the library: the menu, HTTP requests, the
  browser driver, files, and the serde forms of the library's types.

`chrono`, `rand`, `serde_json` and `str::to_lowercase` are reached from the
library through a few trusted wrappers in `clock.rs`, `utils.rs`, `json.rs`
and `automation.rs`, whose contracts state only what those functions
document, or name a result that depends on its arguments alone.
