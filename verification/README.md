# mpris_hyprland_host

Native-messaging host that publishes each browser frame's media session as an
MPRIS player on the session D-Bus, and relays MPRIS method calls back to the
page.

- `src/` — the verified library: the native-messaging frame codec
  (`messaging`), the wire types (`protocol`), the per-frame player state and
  its update rules (`state`), the values behind the MPRIS player and root
  interfaces (`mpris_player`, `mpris_root`), browser detection and naming
  (`browser`), message routing, bus names and signal selection (`dispatch`),
  and character-level helpers (`text`). Times, volume and rate are held as
  whole millionths (microseconds, millionths of full volume / normal speed).
- `app/` — the program: stdio and D-Bus I/O (tokio, zbus), JSON (serde), and
  the conversion between the JSON's floating-point seconds and the library's
  millionths.
- `tests/` — tests of the library on concrete values.
