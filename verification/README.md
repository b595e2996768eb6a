# grace

The core of a small async runtime, written in Verus and verified.

`src/` holds the verified library:

- `bits`: the search for a run of free blocks in a slot's 64-bit map.
- `arena`: the slot states of the arena; where a value goes, and how its
  blocks come back.
- `ring`: the bounded first-in first-out task ring, with its reserve,
  write, publish, claim, read and release steps.
- `task`: a task's scheduling state and reference count.
- `oneshot`: the one-shot channel that carries a task's result.
- `worker`: which idle worker to rouse, how threads spin before parking,
  and how many workers a runtime starts.
- `config`: the builder and the runtime plan.
- `global`: the state shared by all threads of a runtime.

`app/` starts the threads, owns the arena's memory, polls the futures and
parks threads, asking the library for each decision.
