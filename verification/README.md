# Submarine

Submarine abstracts over the hardware that is attached to a Raspberry Pi. Sensors, buttons, relays
and PWM generators are mapped into a 16-bit address space of virtual devices, each of which has an
alias of its own. Virtual devices report events when something changes, and outputs are set over
HTTP.

## Layout

- `src/` is the verified library. It holds all decisions: how registers and pulses are decoded, when
  an event is due, how ports are mapped to addresses, what is sent to a board next. Whatever needs
  hardware or a clock is a state machine there: it says which transaction comes next, and takes the
  reply.
  - `device_core`, `buttons`, `value`: the values of ports, and the events that report them.
  - `universe`, `mapping`, `device`, `factory`, `config`: the address space and how it is set up.
  - `http`, `tcp`, `event`: requests of clients, and the events that are passed on to them.
  - `poll`, `i2c`, `i2c_mock`, `bits`, `text`, `failure`: what several devices share.
  - all others: one module per kind of hardware.
- `app/` is the program around it: files, threads, buses, pins, metrics and the HTTP server.
- `tests/` runs the library on concrete values.

Properties that span several functions are public proof functions whose names start with `law_`.

Measured quantities are kept as integers, in the unit in which the hardware delivers them. They
become floating point numbers at the edge only, in `app/`.
