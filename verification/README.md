# aa-proxy-obd

A daemon that polls an electric vehicle over an OBD adapter and publishes its
telemetry to a local HTTP API.

The library under `src/` holds every decision, with contracts that Verus
proves: how ELM327 replies become bytes and bytes become metrics, which command
comes next in an exchange, how a connection is made, when to poll, publish, wait
and give up, and what a circuit breaker lets through. It performs no input or
output. Each exchange is a state machine: it names an action, and is handed what
came of it, and when. Only the circuit breakers read the clock themselves.

The program under `app/` carries the actions out: Bluetooth, serial and HTTP
input and output, waiting, configuration files, logging and the command line.

| Path | Holds |
| --- | --- |
| `src/adapter/` | replies, fields, exchanges, polls and connections |
| `src/output/` | payloads, circuit breakers and publishing |
| `src/scheduler.rs` | the polling loop |
| `src/config.rs`, `src/profile.rs` | configuration and vehicle profiles |
| `src/logging.rs` | levels and log lines |
| `src/cli/` | the `pair` command |
| `src/text.rs`, `src/numbers.rs`, `src/metrics.rs` | text, numbers and values |

A metric is carried as an integer with its scale, or as the bit pattern of a
single-precision number; the program does the floating-point arithmetic when it
writes a payload.
