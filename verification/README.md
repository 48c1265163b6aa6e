# cs2_radar

Host-side logic of a game-state radar stack, verified with Verus.

- `src/` is the verified library: the record ring shared between the
  memory-reader kernel module and its client (both sides, with the law that a
  record published into a ring the consumer has caught up with is read back
  as written), the device's ABI, byte-pattern
  scanning, the schema-driven offset discovery, the player and snapshot
  readers, snapshot classification, and the decisions of the radar, the
  trigger service and the mouse relay.
- `app/` is the program around it: the launcher, the device's ioctls and ring
  mapping, the web server, the trigger socket, the input devices, and the
  floating-point geometry (view matrix, projections, head check).
- `tests/` holds the tests.

Values the game holds as `f32` cross the library as their bits; the library
never computes with floating point.
