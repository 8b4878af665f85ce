# synalux_relay

The decision logic of a print relay that takes print jobs from a hosted
point-of-sale queue and forwards them to printers on the local network,
verified with Verus.

- `src/` — the verified library: which hosts and ports may be reached
  (`printer`), how jobs are picked, routed, decoded and reported (`job`),
  how configuration is obtained (`config`), the relay's status and polling
  decisions (`relay`), HTTP status rendering (`http_status`) and the string
  helpers they share (`text`).
- `app/` — the desktop shell: file, keychain and network I/O, the polling
  loop and the tray application, calling the library for every decision.
- `tests/` — tests of the library on concrete values.
