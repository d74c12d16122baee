# motorbridge

Host-side protocol logic for CAN-attached motor drivers, verified with Verus.

- `src/` — the verified library:
  - `frame`, `error`, `text`: the CAN frame and its view, the error type,
    string helpers (trim, ASCII case, decimal rendering).
  - `mcu_serial`, `slcan`: byte codecs of the UART-to-CAN bridge and of
    slcan adapters (encode, resynchronizing parse, link-status routing).
  - `bus`: transport names and the choice of driver for a channel name.
  - `cyberbeast`, `hightorque`, `robstride`: vendor wire formats — CAN ids,
    payload packing, reply routing, feedback decoding, register tables.
  - `abi`, `gateway`, `scan`, `cli`: rules of the C interface, the WebSocket
    gateway and the command line (vendor/transport compatibility, bus
    binding, operation names, candidate ids, value parsing).
- `tests/`: tests of the library.
- `app/`: the runtime around it — serial ports, the motor drivers with
  their float units, and a displayable error.

Physical quantities are carried as raw integers (or IEEE-754 bits) in the
library; the scaling to radians, rad/s and N·m happens in `app/`.
