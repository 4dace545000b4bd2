# channelled_callbacks

Pipelines of callback stages. A stage (`CallFinish`) takes values one at a
time and, when finished, gives back a result, most often `Timings`: the CPU
time spent in named parts of the pipeline, in nanoseconds.

- `src/` is verified with Verus: the stages that only compute
  (`CallbackMerge`, `CallAll`, `ReplaceNoneWithTimings`), `Timings` and
  `MergeTimings`, and the decisions of the threaded stages (which channel is
  read next and when the worker finishes, which stage waits for the worker's
  result, what a join gives back).
- A stage may keep a model of what it does (`CallFinish::obeys_stage_spec`):
  the values it has received, whether it may be called, and what finishing
  it may give back. The library's own stages keep it, so their contracts say
  where each value goes and what each `finish` passes on; stages written in
  plain Rust keep the default, and the model says nothing of them.
- `app/` holds the threads and channels themselves (`Callback`,
  `CallbackSync`, `ReverseCallback`) and the error and timings types with
  `Display`, timings there in seconds.
