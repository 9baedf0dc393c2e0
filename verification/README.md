# keylauncher

Bridges the Keychron Launcher web app (WebHID) to Keychron keyboards on Linux:
a udev rule gives a `keylauncher` group access to Keychron hidraw nodes, and
`enable`/`disable` flip the file mode of a keyboard's nodes so that a disabled
keyboard is unreachable by the browser, a choice that is re-applied on every
plug-in.

Layout:

- `src/` is the verified library:
  - `device.rs`: hidraw records, devices, device identity (`resolve_id`), the `list` line;
  - `grouping.rs`: grouping records into devices, looking devices up, and the grouping laws;
  - `scan.rs`: turning sysfs attribute contents into a record;
  - `state.rs`: the saved enable/disable choices and their laws;
  - `permission.rs`: the file modes that enable or revoke access, and their laws;
  - `setup.rs`: the udev rule and polkit policy texts;
  - `text.rs`: hexadecimal rendering and parsing, trimming of Unicode whitespace, the `set-state` word.
- `app/` is the command-line program around it: argument parsing, sysfs and
  file I/O, JSON, `pkexec`, and the setup commands.
- `tests/` runs the library on concrete values.
