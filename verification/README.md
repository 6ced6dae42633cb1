# notabot

A chat bot for streaming platforms: spam filters and moderation, custom
commands with cooldowns, loyalty points and achievements, giveaways, filter
import and export, analytics, and adaptive tuning of its own parameters.

- `src/` is the verified library. Each subsystem's state is described by
  mathematical views (`Seq`, `Map`, `Set` of plain values), and the public
  operations state in their contracts what they return and how they change
  that state; where the clock or chance decides, a contract states what
  holds for every reading or draw. Time, randomness, Unicode tables, regular
  expressions and decoders come from small trusted wrappers whose contracts
  name their results.
  - `adaptive/`: tunable parameters and their constraints, the safety rules
    and circuit breaker that guard changes, configuration changes, metric
    windows, strategy attribution and applying a round of suggested changes.
  - `bot/`: message types, advanced pattern matching and its default
    patterns, blacklist matching, moderation (with each user's recent
    messages and violations) and filter commands, enhanced moderation,
    points and achievements with their commands, giveaways, custom commands, analytics, connection pool
    settings, graceful shutdown, how the bot takes in a message, and the
    order in which the command handlers are offered it.
  - `text.rs`, `keyed.rs`, `clock.rs`: string helpers, vectors viewed as maps
    by key, and the wall clock.
- `app/` holds what is not verified: file formats and archives, the
  floating-point tuning heuristics and analytics scores, and the
  asynchronous message loop, which runs the command handlers in the
  library's order.
- `tests/` runs the library on concrete values.
