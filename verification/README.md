# qtom_core

The verified core of the Q-TOM task loom, written in Verus.

- `src/` — the library, every function verified: the append-only loom event
  log and its replay validation (`loom`, `replay`), the task, plan, artifact
  and memory model (`loom_model`), topology governance (`topology`), the
  offline mock agents and runtime (`loom_mock`, `loom_runtime`), the Mermaid
  replay projections (`loom_projection`), the CUDA backend surface and buffer
  planning and kernel arguments (`cuda`), routing errors and backend parity
  failures (`types`, `backend`), batch shape checks and the split of a batch
  among workers (`batch`), the integer core of a task's route request
  (`loom_route`), the golden fixture text format (`golden`, with its round
  trip in `golden_laws`), project settings (`config`) and the benchmark
  command line (`bench_mode`). Public proof functions named `law_*` state the
  properties that hold across calls.
- `tests/` — tests against the compiled library.
- `app/` — the benchmark program and what the library cannot hold: the
  `f32` routers, fixtures, parity comparisons and gradient spaces, the
  `f32` side of golden fixture files, JSON Lines storage, and reading the
  environment and dotenv file.
