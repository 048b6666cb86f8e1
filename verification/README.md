# rudydae

Operator-console daemon for an upper-body humanoid driven by RobStride
actuators on CAN. The crate is split in two:

- `src/` — the library, verified with Verus: the inventory model and its
  validation, the per-motor boot-time gate state machine, the control lock,
  the admission gates of every mutating REST endpoint, the boot
  orchestrator's and auto-recovery's decisions, the jog dead-man watchdog,
  commissioning / offset-restore decisions, log filtering and log-store
  query construction, WebTransport subscription filtering and framing,
  CAN frame classification and the pending-reply table, configuration
  defaults and path normalisation.
- `app/` — the daemon around it: configuration and inventory files, the
  axum REST server, the SQLite log store, the WebTransport listener, the
  mock telemetry source, and the floating-point work on measured angles
  (band checks, recovery targets), which stays outside the verified code.

Measured and configured angles travel through the library as `F32Bits`,
the IEEE-754 encoding of the value: the library carries and compares
them, the daemon does the arithmetic.

`tests/` exercises the library's public API.
