# storify_profiles

Named storage profiles whose credentials are encrypted at rest, as a library
verified with Verus, and an application layer that reads and writes the store's
file.

- `src/` is the library: the forms of an encrypted field, key derivation, the
  profile store and its laws. `src/outside.rs` holds what is believed of other
  crates.
- `app/` touches the disk, the environment and the file's syntax (TOML).
- `tests/` runs the library with the real crates.
