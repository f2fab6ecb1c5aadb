# ac_daemon

The decisions of an acoustic-measurement daemon, verified with Verus: which requests are
accepted and which are refused, what a measurement plays and for how long, what goes into
every reply and frame, and what is stored.

- `src/` is the verified library. A command is a function from the request and the state it
  depends on to a plan or a refusal; a measurement is a small state machine that says what to
  do next and builds the frame for what came back. Levels, frequencies and times are doubles
  held as bit patterns (`double`), requests and replies are `json::Json`.
- `app/` runs the plans: threads, the audio engine, files, the multimeter, and the arithmetic
  on floating-point samples. What it needs from the host (analysis, stored calibrations, audio
  backends) it takes through the `Services` trait.
- `tests/` runs the library on concrete values.

| modules | what they decide |
| --- | --- |
| `text`, `double`, `json`, `echo`, `wire`, `message`, `base64`, `clock` | text, numbers, requests, messages |
| `config`, `setup`, `ports`, `busy`, `launch`, `admin` | configuration, ports, what may start |
| `gate`, `checks`, `session` | the session check before an emission and its records |
| `emission`, `plot`, `point`, `report` | generators, sweeps, plots and their reports |
| `calibrate`, `calibration`, `mic_curve`, `mic`, `tau` | calibration and latency |
| `monitor`, `channel`, `capture`, `frames`, `mode`, `settings`, `reconnect`, `ring` | the live display |
| `snapshot`, `spool` | snapshots of a running session |
| `selftest`, `verdicts`, `worker` | hardware and device tests |
