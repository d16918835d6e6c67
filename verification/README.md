# openshell_relay

The relay that tunnels host clients into a sandbox, and the part of the gateway
that composes its compute drivers.

- `src/` is the library, verified with Verus. Its functions do no I/O. The two
  relays are state machines: they are told what happened and answer with what to
  do next.
  - `relay`, `relay_laws`: the relay whose sandbox connects back over a WebSocket,
    and what holds of every run of it.
  - `control_relay`, `control_laws`: the relay whose sandbox leg runs over the
    control channel, and what holds of every run of it.
  - `control`, `json`: the requests and responses of the control channel.
  - `octets`, `text`, `encoding`: byte strings, texts, base64 and random bytes.
  - `registry`, `drivers`, `driver_config`: the compute drivers of a gateway and
    what the gateway settles in their configurations.
  - `launch_scripts`: what the scripts that launch OpenClaw in a sandbox must hold.
- `app/` is the I/O around the library: listeners, WebSockets, the control channel,
  the environment.
- `tests/` runs the library.

What is believed without proof stands in `encoding` (the crates `base64` and
`rand`) and at two places in `text` (`String::push`, `char::is_whitespace`).
