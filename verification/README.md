# polku_gateway

A programmatic protocol hub: services send events to it, and it transforms, filters and
fans them out to destinations.

- `src/` is the library. It decides what becomes of every message: message envelope,
  middleware, ring buffer, routing, the answers of the gateway service, what emitters send
  and how their results are judged. Its functions carry contracts that Verus proves.
- `tests/` runs the library on concrete values.
- `app/` is the program: sockets, clocks, threads and the clients of other systems. It asks
  the library what to do.

## Pipeline

Messages enter through inputs and ingestors, pass through the middleware chain into the
buffer, and leave through outputs and emitters.

| Module | What it states |
|--------|----------------|
| `ring`, `buffer` | first in, first out; the oldest items make room; every item is accounted for |
| `message`, `proto` | messages and events stand for each other without loss |
| `middleware` | the way of a message through a chain of stages, and the state in which it leaves each of them |
| `middleware::aggregator` | batches, and the message that stands for one |
| `middleware::throttle` | token buckets that never grant more than their rate; eviction of the least recently used |
| `middleware::sampler` | a generator that never stops, and the messages it lets pass |
| `middleware::router`, `validator`, `enricher` | the first rule that matches; verdicts and tags; merged metadata |
| `registry`, `output`, `hub` | every output receives exactly what is meant for it |
| `server` | the answer to every request |
| `emit` | what is sent to destinations, and what their answers mean |
| `ingest` | what becomes of the events of a cluster |
| `config`, `deploy`, `metrics` | settings, Kubernetes resources, metric definitions |

## What is trusted

Calls into `bytes`, `serde_json`, `base64`, `ulid`, `chrono` and the standard library stand
behind small declarations whose doc comments say what is believed of them. They are in
`payload`, `json`, `stamp`, `text` and `render`.
