# ping_pong_latency

A desktop tracker of ping latency to IP addresses and host names.

- `src/` is the verified core (Verus): validation of targets, intervals and
  labels (`target`), reading `ping` output (`ping_output`, with the Unicode
  digit class in `unicode` and whitespace, trimming and lower-casing in
  `text`), the tracked `Host` (`models`) and the rules of the history store
  (`history`: summary windows, retention, schema version).
- `app/` is the Tauri application around it: commands, the SQLite store,
  the `ping` process and the once-a-second scheduler.
- `tests/` exercises the library, including a comparison of the latency
  reader with the `regex` crate.
