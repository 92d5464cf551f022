# opengamecore

A launcher for Windows games on macOS through Wine, built around a verified
core library.

- `src/` is the library, verified with Verus: the game library and its
  rules (unique slugs, import, recently played), configuration defaults,
  Wine installation discovery and resolution, launch environments, DXVK
  install and uninstall plans (with proofs that uninstalling restores what
  installing replaced), the compatibility database, bundles, Steam manifest
  parsing and store detection, paths, crash-safe file naming, and the
  decisions of the launcher window. Public proof functions in `laws.rs` and
  `install_laws.rs` state properties that span several functions.
- `app/` is the `ogc` command-line program: argument handling, the file
  system, processes and downloads. It hands the library what it read and
  carries out what the library decides; the TOML and JSON forms of the
  library's types live there.
- `tests/` runs the library on concrete values.
