# oculus

A monitoring service: network probes (TCP, ICMP ping, HTTP) on schedules,
their results stored in SQLite, and a small web API over the stored metrics
and events.

The library under `src/` is written in Verus and verified. It holds the
logic of the service:

- `config`: configuration structures, duration parsing, `${VAR}` expansion
  and validation (unique collector names, IP and URL checks, schedules);
- `collector`: probe configurations, schedules, the rules that decide whether
  an HTTP response is a success, what each probe outcome records, and the
  events of the collector registry;
- `storage`: metric and event records, series identifiers, the writer's
  batching policy, query planning, statistics aggregation and the plan that
  synchronises stored collectors with the configuration file;
- `server`: the API's query parameters and the queries they stand for;
- `ipaddr`, `text`, `tags`, `time`, `clock`: IP address recognition, string
  helpers, ordered tag maps, time spans and access to the clock.

Calls into outside crates (`cron`, `humantime`, `url`, `serde_json`,
`serde_json_path`, `xxhash-rust`, `chrono`) stand behind small trusted
wrappers whose contracts are documented next to them.

`app/` is the program around the library: command-line handling, reading
files and the environment, the SQLite database (`sqlx`), the network probes
(`tokio`, `surge-ping`, `reqwest`), the job scheduler
(`tokio-cron-scheduler`) and the web server (`axum`). Metric values carry a
floating-point latency, so their type lives there too.

`tests/` exercises the library from outside.
