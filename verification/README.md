# coxswain

The verified core of a small-vessel autopilot: what it decides is proved, what
it computes in floating point is done around it.

- `src/contract` - the types everything shares: bounded lists, time,
  configuration, measurements, setpoints.
- `src/scalar.rs`, `src/narrow.rs` - IEEE-754 values as bit patterns with an
  exact integer meaning, so that every comparison and clamp is proved.
- `src/crsf` - the RC link: CRC, frame parser, stream reader.
- `src/cyphal` - Cyphal/CAN identifiers and single-frame transfers.
- `src/drivers` - actuator backends (`$CXOUT` lines, Cyphal commands), power
  reports, the RC adapter, GNSS sentence gating.
- `src/estimator` - which measurements reach the filter, when it starts, how
  healthy it is.
- `src/allocation` - effector table checks and saturation redistribution.
- `src/guidance` - waypoint sequencing, station-keeping zones, saturation.
- `app` - the host: filter and model arithmetic, gains and laws, the weighted
  solve, unit conversion, serialization.

The core never does floating-point arithmetic. Where it needs a number that
only arithmetic gives (a distance, a determinant, a solved output), the host
hands it in, and the contracts hold for every value it may hand in.
