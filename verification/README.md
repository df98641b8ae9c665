# denon_avr_remote

Control of Denon/Marantz AV receivers (validated on the AVR-X3800H) over their
Telnet-style AVR protocol and their AppCommand HTTP interface, with its
protocol logic formally verified.

- `src/` is the verified library: command encoding and response parsing
  (`protocol/`), the X3800H core profile (`protocol/avr/x3800h.rs`,
  `core_profile.rs`), HTTP framing of AppCommand exchanges
  (`app_command_http.rs`), SSDP discovery parsing (`discovery.rs`), the
  configuration formats (`config.rs`, `repository.rs`), and the decisions of
  the sessions, controller and desktop front end (`session.rs`,
  `controller.rs`, `desktop.rs`). `xml.rs` holds the trusted calls into
  `quick_xml`.
- `tests/` exercises the library on concrete values.
- `app/` is the command-line program: argument handling, sockets, files,
  and the loops that perform what the library's step functions decide
  (`session_driver.rs`, `status_query.rs`).
