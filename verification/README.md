# deskovery

Software of a small wheeled robot, its WiFi link and its web server, with the
robot's decisions verified in Verus.

- `src/` — the verified library
  - `text`: byte-string search, decimal digits and a bounded write buffer
  - `wifi`: the robot's AT-command dialogue with its ESP8266 module, as a device
    that decides and a port owner that performs the I/O
  - `simple_wifi`: the same for a host that reaches the module over a serial adapter
  - `data`: the records that robot and server exchange, and the C image of the
    proximity sensors' state
  - `robot`: motor powers, the dashboard layout and the telemetry queue
  - `field`: the server's controller state, telemetry history and field map
- `tests/` — tests of the library
- `app/` — the programs around it: the firmware loop and its C bindings, the
  odometry (floating point), the serial host, and the web server
