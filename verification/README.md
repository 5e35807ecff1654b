# HydraDesk

HydraDesk sets up GNOME Remote Desktop on a Linux machine so that Windows'
`mstsc` connects to the physical desktop: a virtual 1080p display for headless
machines, reboot-persistent per-login scripts, GDM auto-login, a LAN-scoped and
rate-limited firewall rule, and diagnostics (`doctor`, `test`, `status`).

## Layout

- `src/` is the verified library. HydraDesk's decisions, down to the gates
  that stop `setup`, `uninstall`, `lock` and `unlock`, are functions with
  contracts proved by Verus (the random draws of a generated password come
  from `rand`; what they spell is proved):
  - `text`, `number`: character-sequence and integer parsing helpers, each
    against the behaviour of the `str`/`FromStr` function it stands for;
  - `detect`: what the system is (desktop, display server, session, monitor,
    `grdctl`, RDP state, port), written as decisions that ask for one command's
    answer at a time (`Next::Probe`) and then conclude (`Next::Done`);
  - `rdp`: the generated files (EDID, scripts, autostart entries, GDM config),
    shell quoting, the firewall rule, locking, and the checks of GNOME Remote
    Desktop;
  - `install`: the steps that install and apply the configuration;
  - `setup`: credentials, passwords, dependencies, repairs and removal;
  - `doctor`: the findings of `doctor`, `test` and `status`;
  - `history`: connection history from `ss` and the journal.
- `app/` is the command-line program: argument parsing, running processes,
  reading `/proc` and `/sys`, and carrying out the steps the library plans.
- `tests/` exercises the library on concrete inputs.
