# ak_motor

Control of AK-series motor drivers, in two parts.

`src/` is a Verus library: Verus proves its functions against their contracts. Taken on trust are
only the contracts of four wrappers around outside functions: `String::from_utf8_lossy` in
`protocol`, and `StandardId::new`, `ExtendedId::new` and `CanFrame::new` of `socketcan` in
`can_worker`.

- `crc`, `framing`, `bytes`, `text`: checksums, frames, big-endian integers, log texts
- `single`: single-precision numbers by their bit patterns
- `protocol`: the servo-mode serial protocol
- `servo_can`: the servo-mode CAN protocol
- `mit_protocol`: the MIT-mode CAN protocol
- `serial_worker`, `can_worker`: the decisions of the threads that own the port and the sockets
- `link`, `app`: the state of the connections and of the whole application

The public proof functions named `lemma_*` state what holds of several functions together: that a
frame's payload comes back out of the parser, that the parser resynchronises and does not depend on
how the stream is cut, that a reported disconnection prevails, and so on.

`app/` is the program around the library: the window, the threads, the port and socket I/O, and the
floating-point conversions between physical values and wire units.

Values travel through the library as integers in wire units, in commands and in replies, with
`*_SCALE` constants that say how many wire units make one physical unit; the user's inputs and the limits of the motor models are
held by their bit patterns.

The crate is for Linux: `socketcan`, which both the library and the program use, builds nowhere
else. What a worker answers on a platform without SocketCAN is `CanWorker::no_socketcan`.
