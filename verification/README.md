# rivet planning core, verified

The logical planning and compilation core of an image data pipeline,
written in Verus: every function in `src/` carries a contract that Verus
proves.

- `plan` — the logical IR: a DAG of nodes with one root, validation,
  depth-first order, reachability, use redirection, pruning and `explain`.
- `properties` — value properties and their inference over a plan.
- `optimizer` — passes, fusion rules, the registry and the optimizer loop.
- `placement` — kernel capabilities, compatibility filtering, the integer
  parts of placement cost and the per-node selection step over integer
  cost keys.
- `vision` — image operations, the pipeline builder and its lowering to and
  restoration from a logical plan, the sample/batch stage split, compiled
  kernels with their random stream keys, the vision passes, the per-node
  physical lowering decision, and ordered delivery of batches prepared by
  workers.

`app/` holds what stays outside verification: constructors that take
floating-point parameters, the floating-point placement cost model, the
plugin that appends the placement pass to the library's vision passes, and
the entry point that optimizes, places, lowers and compiles a pipeline for
a sink.
