# aether_gui

The verified core of a desktop front-end for the Aether
censorship-circumvention tunnel, written in Verus.

## Layout

- `src/` — the library. Every function is verified except two small
  wrappers around std whose contracts are trusted: `text::push_char`
  (`String::push`) and `tun::path_in` (`Path::join`); `Path` itself is
  declared as an opaque type.
  - `text.rs` — text as `Seq<char>`: trimming, splitting, numerals.
  - `addr.rs` — socket-address grammar, parser and canonical text.
  - `canonical.rs` — the canonical text of an address reads back as the
    same address; a normalized endpoint is stable.
  - `profile.rs` — connection profiles, their defaults, the core's
    command line, the Zero Trust credential handed over through the
    environment, and the credential-free copy that may be stored.
  - `routes.rs` — the `--routes` file behind "Direct Iranian sites". The
    built-in prefix lists `IR_V4` / `IR_V6` are placeholders (three IPv4
    prefixes, no IPv6); the full daily-aggregated lists are not part of
    this tree, and `routes_file_content` takes them as arguments.
  - `tun.rs` — VPN mode: forwarder target and configuration, helper-script
    arguments, PowerShell quoting, and the reading of what helpers and
    system tools report.
  - `vpn_flow.rs` — the order of the steps that bring the VPN layer up and
    down, as transitions from phase and answer to the next phase.
  - `autostart.rs` — reconciling the start-on-boot entry with the profile.
- `tests/` — tests of the library.
- `app/` — the Tauri application around it: file, process and store I/O,
  serde copies of the profile types, and the loops that carry out the
  library's VPN steps.
