# codex_tui

An append-only terminal UI for a chat agent, with its logic verified by Verus.
History lines are printed once into the terminal's scrollback and never
redrawn; only a small bottom pane (approval prompt, composer box, status line)
is redrawn in place.

## Layout

- `src/text.rs` — characters, lines, decimals and `Debug` forms, with their
  specifications.
- `src/hybrid_sim.rs` — `Simulation`, a pure model of the terminal driven by
  `SimEvent`s, and its consistency report (`assert_invariants`).
- `src/sim_laws.rs` — proved properties of the model: the history is
  append-only, finals print exactly one line, approvals are answered first in,
  first out, token usage only shows in the bottom pane, wrapping loses no
  character, and every check of the report passes after any well-formed run.
- `src/hybrid_render.rs` — what the real terminal draws: styled message lines,
  the approval prompt, the composer box, the status line and where the pane
  sits on the screen.
- `src/hybrid_mode.rs` — `HybridState`: what each agent event prints and
  changes, what each key does, and what a submitted message sends.
- `src/mode_laws.rs` — proved properties of the UI decisions.
- `app/` — the terminal plumbing: raw mode, reading keys, printing, and the
  event loop that performs the library's decisions.
