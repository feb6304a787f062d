# omp-core (verified)

Backend logic of an open.mp / SA-MP launcher, proved with Verus.

* `src/` — the verified library: masterlist normalisation (`servers`),
  query-reply assembly (`query`, `rules`), launch planning (`launcher`),
  the injector's command-line handling, wide strings and injection order
  (`injector`), the JSON answers of the C boundary (`response`), and decimal
  text (`decimal`, `text`).
* `app/` — the I/O around it: HTTP (reqwest), UDP queries (samp_query),
  process spawning, the C ABI, serde copies of the library types, and the
  Windows injector (windows-sys).
* `tests/` — tests of the library on concrete values.
