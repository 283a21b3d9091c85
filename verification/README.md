# vole-field

Durable reuse of generative state, with its logic verified by Verus.

A small ConvLSTM watches a scene and earns a recurrent state. The state is written as a
record, survives the process that earned it, and is restored by fresh processes that
generate related futures from it without replaying the history. The demonstration runs
159 child processes over three recovery paths (replay, raw file, EntropyFS blob), compares
their outputs byte for byte, counts the model work and says what reuse saved.

## Layout

- `src/` is the library. Everything in it is verified.
  - `scene`, `rollout`: control words, schedules, requests, scene identities, rollouts.
  - `model`: architecture, declared work, parameters and checkpoints, the recurrent state
    and its exact bytes, the recurrent step and the emission.
  - `state`: the 176-byte record header, hashes, the compatibility predicate, blob
    identifiers.
  - `experiment`: the arguments, the decisions and the reports of the child processes,
    frame files, the montage, medians and timing tables.
  - `demo`: the plan of a run, what each finished process adds to the evidence, the
    correctness conditions, the summary table.
  - `train`: windows, batches, the training loops over tensors of any kind, the account
    of a run, checkpoint files.
  - `cli`, `text`, `bytes`: the command line, and texts and bytes.
- `app/` is the program around it: files, processes, the store, JSON, the optimiser, and
  arithmetic on real numbers.
  The checkpoint that the program falls back on is a constant of `app/files.rs`. The trained
  file is not part of this tree, so the constant is empty: without a checkpoint on disk,
  loading fails.
- `tests/` runs the library with the real crates linked.

## Real numbers

The library holds `binary32` and `binary64` numbers as bit patterns. It moves, compares,
hashes and orders them exactly. The arithmetic of the model is candle's; its operations
are known as relations between what goes in and what may come out, since rounding is the
machine's own. Motion, drawing, sums of times and number formatting are handed in as
functions.

## What is proved

Every public function states what it returns. The laws (`law_*`) relate them. Among them:
a decoded record is the one that was encoded and tampering is caught; a restored future is
the replayed future, frame for frame, wherever the arithmetic repeats itself; a refused
request answers like one that was offered nothing; the plan of a run leads to everything
that its evidence is made of; restoring avoids exactly the context's work; a record of another scene is refused by name; a written
checkpoint reloads; performance never decides whether a run passes.
