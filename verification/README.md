# opendut_edgar

Restbus simulation of CAN clusters, verified with Verus, together with a setup plugin and the
deployment of test runs.

A restbus simulation replays the cyclic frames of a CAN cluster on a SocketCAN interface. There are
two engines:

- `simulation` assembles a frame from all of its PDUs and sends it as a classic CAN or a CAN FD
  frame, for the first time one period after its offset.
- `restbus_simulation` builds a classic frame from the first I-PDU and sends it at its offset.

## Layout

- `src/` is the library, verified but for what is taken on trust (below).
  - `cluster`: the part of a cluster description that the engines look at.
  - `assembly`: frames out of PDUs. `can_frame`, `raw_can_frame`, `wire`: frames as bytes.
  - `socket`, `sender`: which system call comes next, and when a frame is sent.
  - `timing`, `cast`, `text`, `error`: lengths of time, narrowing, numbers as text, errors.
  - `custom_setup_plugin`, `viper_run`: the plugin and the deployment of runs.
- `app/` makes the system calls and runs the tasks.
- `tests/` runs the library.

How the initial bytes of a PDU are packed from its signals is the caller's: the engines take a
function for it. A number of seconds is held as the bits of a double, and a function of the caller
turns it into a length of time.

## What is taken on trust

- `u32::to_ne_bytes` gives the bytes of its argument in one of the two byte orders.
- `std::io::Error` is carried through unread.
