# robot_comm

The communication between an FRC driver station and a roboRIO, written in
Verus: the packets both sides exchange over UDP, the console messages and the
records of the TCP link, the buffers they are read from and written to, and the
decisions a roboRIO makes when a packet comes in, how a robot is named and
its connection looked up, how gamepad events become joystick state, and the
geometry of drawn borders.

- `src/` is the verified library. Every packet format is stated as a spec
  function over bytes (`rtd_wire`, `dtr_core_wire`, `message_wire`,
  `joystick_wire`, ...) and every reader as a spec function from bytes to a
  value or an error; the executable code is proved against both. Proof
  functions named `law_*` state what holds across functions, such as a packet
  read back after it was written.
- `app/` is the program around it: sockets, threads, the system clock, mDNS
  discovery and the terminal output.
- `tests/` runs the library on concrete packets.

Outside crates: `chrono` checks dates, `chrono-tz` knows the time zone names,
and `mdns-sd` finds a roboRIO on the network (from `app/`).
