# yaswitch

A Wayland-first theme manager: transactional applies with rollback, path sandboxing,
a reason-code contract for every error, a template engine with managed blocks,
compositor detection, theme cycling and wallpaper-derived palettes.

## Layout

- `src/` — the library, verified with Verus. Every public function carries a contract
  over mathematical models (`Seq<char>` for text, views of the library's types), and
  the properties that span several functions are stated as public proof functions
  (`law_*`): a rollback restores every file the transaction wrote, however its path is
  spelled, the first write of a file backs it up, reason-code labels are distinct, injecting the same
  managed block twice changes nothing, the order of a template context does not change
  the rendering, a plan holds a render and an apply action per selected target and then
  the reload, cycling visits every theme in order, reports list each reason code once
  and include every safe skip. The apply itself is a verified step function
  (`apply_step`) that the program drives; once its transaction is open, any failure
  before the commit rolls it back.
  - `engine/` — theme specs, planner, template engine, transactions and their rollback,
    path sandbox, reports, compositor detection, theme cycling, the decisions of an
    apply.
  - `adapters/` — the adapter contract and the application and compositor adapters.
  - `palette/`, `wallpaper/`, `ui/` — palette derivation, wallpaper checks, the text
    rendering of reports.
  - `text.rs` — the character-level operations the rest is written with.
- `app/` — the `yaswitch` command line: environment, file system, JSON and YAML. It
  gathers what the library needs, calls it, and carries out what it decided.
- `tests/` — tests of the library on concrete values.
