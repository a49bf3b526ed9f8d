# saya

A thin wrapper around APT and yay that records which OS packages a user
wants installed (`present`) or kept uninstalled (`absent`) in
`~/.config/saya/packages.toml`, and brings a machine to that state.

The logic is a library verified with Verus; the program around it runs the
package managers, reads and writes files, and parses the command line.

- `src/` — the verified library
  - `manifest.rs`: the manifest model, package name rules, validation, the
    record/remove operations and their laws, the save decision
  - `backend.rs`: backend detection from `/etc/os-release`, the exact
    package manager command lines, reading their output
  - `commands/`: what each command decides — the apply plan, recording
    installed and uninstalled names, import, schema migration, status lines,
    self-update checks and the fallback to `sudo install`
  - `privilege.rs`: which user a command acts for, when to drop root
  - `shim.rs`, `capture.rs`: reading package manager command lines, shim
    health
  - `cli.rs`: the command line as plain data
  - `tempfile.rs`: the numbered names of temporary files and when to try
    the next one
  - `text.rs`: the string functions the rest is stated in (lines, trimming,
    words, splitting, decimal numbers, and std's `{:?}` quoting, which the
    error messages use)
- `app/` — the `saya` program: clap, serde/TOML, processes, libc
- `tests/` — tests of the library

Each error type has a `message` method whose text is stated in its
contract.
