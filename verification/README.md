# arkhe

Safety-manifold checks over system states, confusion-matrix bookkeeping for
claim-classification benchmarks, and hop-by-hop neighbourhoods in a
hypergraph, with their contracts proved by Verus.

- `src/` is the verified library: `symmetry` (states, invariants, manifold
  membership and transition judgements), `invariants` (the built-in
  invariants), `hypergraph` and `qpl` (neighbours and breadth-first hop
  layers), `bench` (counting classified samples), and the small data modules
  around them.
- `app/` holds what works on floating-point numbers (margins, spectral gap,
  activations, focal weights, benchmark metrics, value aggregation), reads the
  clock, prints reports, and gives the data types their serde forms.
