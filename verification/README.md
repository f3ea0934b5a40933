# reflux

Building blocks for data pipelines whose stages talk over crossbeam channels:
extractor, loader, broadcast, router, messenger, funnel, accumulator,
transformer and filter.

- `src/` is the library, with its proofs. Each stage's decisions — what a
  turn of its worker loop does with what it received — are functions and small
  state machines with contracts; the laws that hold across calls (round-robin
  fairness of the router, nothing lost or reordered by the accumulator, what a
  filter lets through, how a transformer's run ends) are proof functions.
- `app/` holds the stages themselves: the worker threads, their timing, the
  stop and pause signals and the locks around shared state, all of which drive
  the library's decisions.
- `tests/` runs the stages' turns and the library's laws on concrete values.
