# umasim

State and rules of one training career, verified with Verus.

- `src/game/` — the career that every scenario shares: setting it up (`setup`), the rules of a
  turn (`rules`), events and their gains (`happening`), lines for a reader (`report`).
- `src/uma.rs`, `src/card.rs`, `src/event.rs`, `src/data.rs` — the trainee, the deck, the events
  and the tables that they come from.
- `src/counts.rs`, `src/chance.rs` — trigger counts on a `hashbrown` map, and draws with `rand`.
- `src/args.rs`, `src/session.rs` — the command line, taken apart with `lexopt`, and what the
  program does on each occasion.
- `src/laws.rs` — what holds across these rules.
- `app/` — the program itself: files, settings, output.

A career is checked for the races that the player has to choose in each stretch of turns. In
the ramen scenario `ramen_skip_free_race = true` in `game_config.toml` lets missing races pass;
it must stand before the first `[section]`. It is off by default. With it on, the player has to
see to it that there are enough fans.
