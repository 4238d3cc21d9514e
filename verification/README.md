# nano_rust

Dataset resolution for CMS NanoAOD samples and the integer and text logic of
an H -> rho gamma scouting analysis, verified with Verus.

- `src/` is the verified library: dataset names, manifests and their
  validation, file locations, the fixture and `dasgoclient` resolvers (the
  command itself is run by the caller), generator-level genealogy and
  truth-chain search, the topology survey and its text report, pion pool and
  category decisions, and analysis counters. Public proof functions named
  `law_*` state the properties that hold across calls.
- `app/` holds what stays outside verification: file and process I/O,
  serde/TOML/YAML handling, and the floating-point kinematics.
- `tests/` exercises the library on concrete inputs.
