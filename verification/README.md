# apios_core

The engine of an application cleaner for macOS, Linux and Windows: it finds
every file an application leaves behind, the files of applications that are
gone, development caches and plug-ins, drives package managers, and thins
universal (fat) Mach-O binaries. The library is written in Verus; each
function carries a contract that Verus proves.

## Layout

- `src/` — the verified library. It holds the rules and data of the cleaner
  (name normalisation, identifier derivation, matching rules, orphan
  detection, trash bookkeeping, XDG trash info files, `.desktop` parsing,
  package manager argument building and output parsing, fat binary tables,
  UTF-16 and registry value decoding). It performs no I/O: folder listings,
  file contents, command output, environment variables and clocks come in
  as plain values.
  - `text.rs`, `order.rs`, `paths.rs`, `bytes.rs`: strings as character
    sequences, ordering, path pieces.
  - `pattern.rs`, `unicode.rs`, `bundle.rs` (plists), `utf16.rs`: the calls
    into `regex`, `plist` and std that Verus takes on trust, each with its
    contract.
  - `platform.rs`, `macos.rs`, `linux.rs`, `windows.rs`: the folders and
    tables of each system.
  - `search.rs`, `matcher.rs`, `identifiers.rs`, `conditions.rs`,
    `orphan.rs`: which files belong to an application and which are orphans.
  - `trash.rs`, `xdg.rs`: what may be deleted and how trashed files are
    named and described.
  - `pkg.rs`, `homebrew.rs`, `winget.rs`, `apt.rs`, `commands.rs`: package
    managers.
  - `lipo.rs`: universal binaries.
  - `cli.rs`, `scan.rs`, `locations.rs`, `plugin.rs`, `dev_env.rs`,
    `desktop.rs`, `format.rs`, `model.rs`: the remaining rules.
- `tests/` — tests on concrete values.
- `app/` — the `apios` program: command line, file system walks, process
  launches, the trash, the Windows registry and Recycle Bin.
