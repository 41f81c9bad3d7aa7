# pantheon

Building blocks for realtime and actor-style services, verified with Verus.

- `src/` is the verified library:
  - `cask`: fixed-capacity buffers of plain elements and a pool that lends them out;
  - `store`: a shared store of named, tagged metrics;
  - `rt_metrics`, `rt_store`, `rt_snapshot`: allocation-free metrics for a realtime loop,
    handed to a monitoring thread through a triple buffer;
  - `glados`, `task_builder`: the task supervisor's decisions and the typed task builder;
  - `hermes`: the publish/subscribe broker's decisions;
  - `janus`: a pipeline of byte-processing stages run in order over one buffer;
  - `oculus`, `logging`: the events of the live log dashboard, its handshake, and the log
    options and filters;
  - `quill`, `recur`, `spells`, `tracy`: terminal styling, the event loop registry, the
    Ctrl-C policy and the Tracy launch policy.
- `app/` is the runtime around it: tokio loops, channels, threads, TCP, processes, the
  tracing subscriber, and whatever needs floating point.
- `tests/` exercises the library on concrete values.
