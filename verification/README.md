# daly_bms

Verified decision rules, protocol helpers and bounded in-memory stores of a
home energy-storage installation: a BMS supervision server, an energy
manager driving the water heater, the grid relay and the air conditioners,
and two MQTT bridges (Toshiba air conditioners as Matter thermostats, and
Remootio gate controllers).

Every function of `src/` carries a `requires`/`ensures` contract proved by
Verus; the public proof functions state the laws that hold across calls
(for instance that a frame built with a session key decrypts back to its
plaintext, that an alert rule only fires after its minimum duration and
only notifies outside its cooldown, or that a bounded history keeps the
order of its entries).

## Layout

- `src/text.rs` — character-level parsing and formatting (integers in any
  radix, `trim`, `lines`, `split_whitespace`, substring search and
  replacement), each with its specification.
- `src/bms/` — the supervision server: panel catalogue, HTTP query
  parameters, Prometheus text samples, alert rule state machine, RS485
  health counters, rate limiting of stored series, freshness of sources.
- `src/energy/` — the energy manager: configuration defaults, Venus OS
  topic names and routing, `/proc` readers, and one module per automation
  under `logic/`.
- `src/matter/` — Toshiba state to Matter Thermostat attributes and back.
- `src/remootio/` — the encrypted WebSocket protocol of the Remootio
  devices, the session state machine and the MQTT side of the bridge.
- `tests/` — tests of the library, run against the compiled crate.
- `app/` — configuration files and JSON payloads read with serde, and the
  few computations made in floating point.
