# measured

A metrics library: counters and gauges keyed by label groups that are encoded to
integers one-to-one, collected into the Prometheus text format or framed as Prometheus
protobuf messages. The library is verified with Verus.

Metrics are updated through `&mut` access (`inc(&mut self)`, `get_metric(&mut self, ..)`)
rather than through atomics and locks: the library states what each update does to the
metric vec, and sharing a vec between threads is left to its owner.

Layout:

- `src/label`: label names, values, label sets (fixed enums, `indexmap` sets, `lasso`
  interners), label groups and their composition, with the one-to-one encoding laws.
- `src/metric`: metric names, counters, gauges, the counting side of histograms
  (cumulative buckets), metric vecs (dense and sparse storage), and the `Encoding`/`MetricGroup` traits whose contracts describe what is written as a
  sequence of encoding events.
- `src/text.rs`: the text encoder; its output is proved to be the rendering of the
  events it received, with label values escaped.
- `src/proto.rs`, `src/proto/encoding`: varints, field keys, length-delimited fields, and
  the framing of `MetricFamily` messages.
- `src/registry.rs`, `src/runtime.rs`, `src/process.rs`: collecting registered metrics,
  tokio runtime metrics, and process metrics from the proc file system.
- `app/`: floating point metrics (float gauges, histogram thresholds and the float side
  of observations), protobuf sample values, and writing encoded output to an `io::Write`.
