# slider_io

The device-selection and Brokenithm parts of slidershim's `slider_io`, as a
Verus library with proved contracts.

- `src/device/config.rs`: the settings object's members as plain values
  (`ConfigValue`, `ConfigField`), device selection (`DeviceMode::from_serde_value`),
  the Brokenithm ground share and port rules, and their laws.
- `src/device/brokenithm.rs`: the websocket message format
  (`parse_brokenithm_message`), the per-connection session rules
  (`start_session`, `handle_socket_event`, `end_session`), the lights frame,
  the HTTP routes of the controller page (`handle_request`, `serve_file`),
  `BrokenithmJob`, and their laws.
- `app/`: the hyper/tokio-tungstenite server that performs the I/O these
  functions decide on, the shared state behind its locks, and the conversion
  of a `serde_json::Value` into a `ConfigValue`. The page files are read at
  run time from a `brokenithm-www` directory.
