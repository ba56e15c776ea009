# sysmon

A distributed system and network monitor. Agents run on the monitored
machines, collect CPU, RAM, disk, network and ping readings, and report them
to a central server over TCP; the server keeps a bounded history per agent,
raises alerts, and shows everything on a dashboard, from which an agent can be
told to stop.

Messages travel as JSON bodies in length-prefixed frames (four big-endian
length bytes, then the body).

## Layout

- `src/` — the verified library (Verus):
  - `model` — metric kinds, alert levels and thresholds, metrics, the bounded
    `History`;
  - `alert` — the alerts raised from one report;
  - `protocol` — messages, framing, and how an agent reads the server's
    replies;
  - `storage` — the server's store of agents, histories and stop requests;
  - `session` — what the server does with each message of a connection;
  - `agent` — the agent's aggregated readings and its decision after a report;
  - `collector` — what is computed from raw system readings;
  - `config`, `logger`, `dashboard`, `text`, `error`.
- `app/` — the programs around it: reading the machine (sysinfo), sockets and
  the async runtime (tokio), JSON (serde), files, threads and the dashboard
  (eframe/egui). Run `sysmon agent` on each machine and `sysmon server` on the
  central one.
- `tests/` — tests of the library on concrete values.

CPU usage is held in percent times 2^32 (exact for every `f32` reading of
at least 2^-9 %), disk figures in bytes and network rates in bits per
second. Thresholds are decided on hundredths of a percent rounded down from
the exact share, and alert texts round the exact share once to one decimal.
