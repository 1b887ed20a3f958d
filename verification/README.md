# olivaw_hub

The telemetry hub for Olivaw vehicles: it ingests what each car publishes over MQTT
(status, telemetry, lidar scans), runs live SLAM per car, renders occupancy maps, and serves
an HTTP + WebSocket API to the dashboard. Sessions can be recorded and replayed.

- `src/` is the verified library (Verus): command encoding, the session record format,
  map images (row order, PNG, PGM), the per-car table and its event handling, the SLAM
  worker's pacing, the ingest and WebSocket loop decisions, clocks and configuration defaults.
- `app/` is the program around it: argument parsing, MQTT, HTTP, threads, files, and the
  floating-point parts (simulator physics, log-odds to gray, polar to Cartesian).
- `tests/` exercises the library on concrete values.
