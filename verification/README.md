# boom

The decisions of an astronomical alert broker, as a verified library: which alerts and
cutouts an API query may read, how catalog rows are matched to objects, how galaxies round a
transient are ranked as its host, how light curves are prepared and split at their peak, which
alerts are shared on which topic, and how models and GPUs are handed out.

- `src/` is the library. Every function states what it returns in its contract.
- `tests/` runs the library on concrete values.
- `app/` is the program round it: the HTTP server, the database, Kafka, the command line and
  the floating-point arithmetic.

Numbers are held by their bit patterns (`binary::Double`, `binary::Single`). Comparisons are
verified on the patterns; sums, products and angles are computed by the caller and handed in.
