# murrelet

The discrete core of the murrelet livecode engine, verified with Verus.

`src/` holds the logic, each function with a `requires`/`ensures` contract
and the laws of the library as proof functions:

- `keys`, `midi`, `osc`: keyboard, MIDI and OSC input and the variables it
  exposes to expressions.
- `expr`: expressions, the identifiers they read, and evaluation contexts.
- `template`: `{}` format strings.
- `nested`, `overrides`: reading and editing config values by dotted path.
- `includes`: `[[name]]` template includes in config files.
- `schema`, `derive_rules`: config schemas and the rules the derive macros
  follow for each field.
- `cli`, `perform`, `timing`, `assets`, `cells`, `livecode`: command line
  settings, the performance loop's decisions, reload timing, asset files,
  unit cell lookup and small defaults.

`app/` holds what stays outside the verifier: file and device I/O, command
line parsing with clap, and floating point work. `tests/` exercises the
library on concrete values.
