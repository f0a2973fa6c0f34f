# lilypalooza_plugins

Finds, validates and runs CLAP and VST3 plugins for the Lilypalooza audio host.

- `src/` is the library. Its functions are verified with Verus against the contracts that they
  state, except for the trusted ones named below. It touches no file, process, thread or plugin: where a decision depends on one, a small
  machine hands out requests and takes the answers back.
  - `scan/`: the background scanner, its cache, the validator's reports, and the host's end of a
    running scan.
  - `clap/` and `vst3/`: the adapters of the two formats.
  - `clap_scan/`: the scanner of a host that runs CLAP plugins only.
  - `validator.rs`: the command line of the validation helper.
  - `laws.rs`, and the `law_` functions elsewhere: what holds across functions.
- `app/` is the validation helper and the host's side: files, processes, threads, native calls,
  serialization and floating-point audio.
- `tests/` runs the library on concrete values.

The trusted functions call the standard library and `clap-sys`, and their contracts are believed
without proof. They stand in `channel.rs`, `paths.rs`, `text.rs` and `clap/descriptor.rs`, each with
what is claimed of it.
