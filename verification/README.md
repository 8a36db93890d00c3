# ci_tools

Helpers for a project's CI, with the logic proved in Verus.

- `src/` — the verified library:
  - `benchmark`: reads the text report of a wrk run, line by line, into a
    `BenchmarkData` record;
  - `latency`: picks the latency column with the smallest reading;
  - `float_order`: the order of `f64` values, computed on their bit patterns;
  - `pr_title`: checks pull-request titles against the `type(scope): subject`
    convention;
  - `labels`: chooses the label of a pull request from an ordered rule list;
  - `pattern`: regular expressions, compiled and searched by the `regex` crate;
  - `text`: decimal parsing, substring search and the `k` suffix of rates.
- `app/` — the command-line program: file and console I/O, JSON output,
  the GitHub client, and the `f64` arithmetic.
- `tests/` — tests of the library.
