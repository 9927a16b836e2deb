# appcast

Cast a remote or local app's screen into a native window on this desktop:
`appcast run adb-scrcpy <serial> <package>`, `appcast run web-browser <url>`,
saved profiles, app listings, and transporter plugins loaded at runtime.

## Layout

- `src/` — the library, verified with Verus. Every public function states
  its result in `ensures` over the views of its arguments:
  - `config` — the CLI argument surface, the priority-stack merge into a
    `ResolvedConfig`, `list` slot resolution and `profile save`;
  - `render` — POSIX shell quoting and the snapshot command line;
  - `adb`, `browser`, `placeholders` — the backends' decisions: param
    defaults and validation, argument plans, version and reachability
    checks;
  - `registry` — the name → transporter map (later registrations win);
  - `suggest` — edit distance and the closest-name hint;
  - `plugins`, `sdk` — plugin file selection, the ABI handshake and the
    plugin authoring types;
  - `paths`, `listing`, `parse`, `error` — profile file names, listing
    renderers, `<W>x<H>` parsing and the error messages;
  - `strmap`, `text` — a sorted string map and verified string helpers.
- `app/` — the program around it: clap parsing, profile files (YAML),
  process spawning, plugin loading, logging.
- `tests/` — tests of the library.

Laws that span several functions stand in `src/` as public proof functions
named `law_*`.
