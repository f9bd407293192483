# airpods_bridge

Streams the battery levels and noise-control mode of AirPods as JSON, and
switches the noise-control mode on request. Linux, BlueZ 5.

The decisions of the bridge live in a library verified with Verus (`src/`):

- `protocol` — the Apple Accessory Protocol frames, `build_anc_payload`, and
  `parse_data`, whose contract is the exact effect of a received chunk on the
  state (`parse_effect`), with laws on what parsing keeps.
- `state` — the state (`AirPodsState`, `BatteryInfo`) and its transitions:
  connection, session, heartbeat, which JSON is new.
- `control` — what a `cycle` command on the control socket sends.
- `device` — discovery decisions: the device with the given address, or else
  a paired device whose alias names AirPods; when to read the alias again;
  which model a `modalias` names.
- `sysfs` — the contents of the status files.
- `text` — byte search, `trim_line` (Unicode white space, as `str::trim`),
  and the one `str` call that the library trusts (`to_lowercase`).

`app/` is the program around it: D-Bus (zbus), the L2CAP socket (libc,
tokio), the Unix control socket, JSON (serde), the files, the command line.
