# daktronics_allsport_5000 gateway library

A scoreboard gateway: it reads a Daktronics All Sport 5000 controller over a serial
line, keeps the latest snapshot of the game, and serves a small web interface (a public
dashboard, a public JSON status document, and password-protected admin pages).

- `src/` is the verified library: the configuration and its defaults, the sports,
  request parsing and routing, the HTTP responses, the public id of the status document,
  the flattening of snapshots and the decisions of the polling loop.
- `app/` is the program around it: file and network I/O, the async runtime, the serial
  port, and the JSON forms of the configuration and of the sport state. It reads the
  controller through the project's `sports` and `rtd_state` modules, whose sources are not
  part of this tree.
- `tests/` exercises the library on concrete values.
