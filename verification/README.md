# octos-one card pipeline

The logic behind the octos-one agent-OS client's generated cards, verified
with Verus: how an app agent's reply is read (fenced `runsplash` / `runhtml` /
`runplan` blocks), screened (the `net` API lint), held back while streaming,
composed (`Card{ use: … }` embeds with props, namespaced state and emitted
events), substituted with each card's own state, and rewritten for the
renderer (notify tagging, bare `View{`, full-bleed roots and images); how the
router's decision line is read and a nav trip is handed on; how a card's
`agent.notify` events change its state; how the open apps share one chat
surface (each app's conversation saved while it is in the background, the
agent's events routed to the app that owns the turn, cancels and repair
turns); when a streaming mermaid diagram is rendered; the record kept of a
saved card; which settings the embedded kernel's config file gets
(only absent ones are added; `json` models the JSON documents involved); and
the steps of the password-free sign-in against a solo server (`solo`).

Layout:

- `src/` — the verified library. `text` holds the string model every other
  module is specified over (`Seq<char>` views of `&str` / `String`).
- `tests/` — scenario tests of the library.
- `app/` — a command-line host: standard input/output, the card archive on
  disk, the kernel config file, the background fetch of live youtube ids,
  the solo sign-in requests, and the floating-point window chrome.
