# sparkdns

The core of SparkDns, a desktop tool that switches, tests and manages the
system DNS on Windows, macOS and Linux, written as a Verus library: every
function states what it returns in its contract and Verus proves it.

## Layout

- `src/` — the verified library.
  - `text.rs`: character-level text operations (trimming, splitting, lines,
    words, joining) specified as the standard library behaves.
  - `validation.rs`: the address, profile and host checks, and output
    sanitising.
  - `models.rs`, `errors.rs`: the data model and its defaults.
  - `config.rs`, `commands.rs`, `state.rs`: configuration migration and the
    changes the commands make to the configuration.
  - `platform.rs`: platform detection and capabilities.
  - `command_runner.rs`, `elevation.rs`: reading command runs and the
    outcome of the native elevation prompts.
  - `dns/`: the scripts and command lines that change DNS on each platform,
    the parsers of the adapter listings, shell quoting and traceroute output.
  - `diagnostics.rs`: leak verdict, ping and lookup commands and output,
    the DNSSEC probe.
  - `process_watcher.rs`: process listings and the auto-switch decisions.
  - `launch.rs`: the checks before launching an installer or opening a URL.
- `tests/` — tests of the library on concrete values.
- `app/` — the program around the library: running commands, files,
  JSON, timing and the command-line entry point.
