# bench_diff

Latency comparison of two closures `f1` and `f2`: they are executed in duos `f1, f2, f2, f1`
after a warm-up, their latencies are captured in pairs, and statistics are computed from the
paired observations and from one latency histogram per function.

Layout:

- `src/` — the verified library (Verus). The state of a comparison (`diff_state`), its latencies
  and units (`latency`), the histograms seen through `hdrhistogram` (`histogram`), the Wilcoxon
  rank-sum and Mann-Whitney statistics computed exactly from the histograms (`wilcoxon`), the
  bookkeeping of the test benchmarks (`bench_support`, `claim`, `fn_spec`, `stats_types`) and the
  nesting of pair-keyed maps (`nested_btree_map`).
- `tests/` — tests of the library on concrete values.
- `app/` — what runs around the library: the statistics in floating point (t-tests, confidence
  intervals, p-values), the synthetic work that hashes with `sha2` and its calibration, the
  printing of status, and the test-benchmark driver.
