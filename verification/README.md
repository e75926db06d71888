# discord-relay

A bridge that streams Discord gateway events to a downstream webhook. For every
configured bot it keeps one gateway connection alive (heartbeats, resume, reconnect
with backoff) and posts the payload of each event to the super-webhook edge of the
bot's Spectrum project.

The rules of the relay are a library, written in Rust and verified with Verus. The
program around it does the input and output.

## Layout

| Path                    | What it holds                                                      |
| ----------------------- | ------------------------------------------------------------------ |
| `src/discord/wss.rs`    | The gateway: frames, heartbeats, sessions, when to reconnect.      |
| `src/discord/trace.rs`  | What holds of a connection from its greeting to its end.           |
| `src/dispatch.rs`       | Routing of events to ordered delivery lanes.                       |
| `src/lane.rs`           | One delivery lane, on a bounded channel.                           |
| `src/webhook.rs`        | Requests to the downstream, their replies, and retries.            |
| `src/spectrum.rs`       | Lookup of a project's slug.                                        |
| `src/supervisor.rs`     | Which bots run, what a reload changes, how a bot is brought up.    |
| `src/backoff.rs`        | Waits that grow with every failure.                                |
| `src/metrics.rs`        | What is counted and measured.                                      |
| `src/logging.rs`        | How the process logs.                                              |
| `src/model.rs`          | The configuration.                                                 |
| `src/text.rs`           | Trimming, numbers, comparison, snippets.                           |
| `src/json.rs`, `src/http.rs`, `src/hashing.rs`, `src/delay.rs` | What is relied on of other crates and of `std`. |
| `app/`                  | The program: environment, sockets, clock, signals, tasks.          |
| `tests/`                | Tests of the library.                                              |

## What is relied on without proof

Items marked `external_body` or `assume_specification` state what a function of another
crate or of `std` does. Each has a comment that names the function and says what is
claimed of it. Functions without a body name what such a function returns where that is
too long to be written out.

## Configuration

The program reads `config.json` from the working directory:

```json
{
  "bots": [
    {
      "webhookSecret": "userDefinedSecret",
      "projectId": "projectId",
      "projectSecret": "projSecret",
      "botToken": "discordbottoken"
    }
  ]
}
```

`SIGHUP` reloads it: new projects are started, removed ones stopped, those with other
credentials restarted, and the rest left alone. `SIGTERM` and `SIGINT` stop all bots.

| Variable                 | Default                         | Purpose                                              |
| ------------------------ | ------------------------------- | ---------------------------------------------------- |
| `SPECTRUM_CLOUD_URL`     | `https://spectrum.photon.codes` | Base URL of the Spectrum control plane.              |
| `SPECTRUM_SUPER_WEBHOOK` | `spctrm.dev`                    | Base domain of the super-webhook edge.               |
| `RUST_LOG`               | `info`                          | Log filter.                                          |
| `LOG_FORMAT`             | human-readable                  | `json` for one JSON object per line.                 |
| `FORWARD_SHARDS`         | `8`                             | Delivery lanes per bot, at least one.                |
| `FORWARD_BUFFER`         | `256`                           | Buffered events per lane, at least one.              |
| `METRICS_ADDR`           | unset                           | Where to serve Prometheus metrics.                   |
