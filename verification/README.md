# sz_combined_consumer

Feeds records to a pool of engine workers, from a file of newline-delimited JSON or from an
SQS queue, and settles each of them once.

- From a file, every rejected line is appended as it was read to a side file, and a watermark
  tells how many lines an interrupted load may skip.
- From SQS, a message is deleted only once its record was added or it was sent to the
  dead-letter queue. The one exception is a run that was allowed to do without a dead-letter
  queue: there, rejected messages are deleted and lost. Everything else is left for SQS to
  deliver again. A visibility heartbeat keeps long-running records hidden; an extension that
  SQS does not grant is asked for again at the next heartbeat.

`src/` holds the decisions, verified with Verus. The loops (`reader`, `poll_loop`, `main_loop`)
are state machines: each is told what happened, updates the books, and says what to do next.
What holds beyond a single function is stated by the public proof functions named `law_...`.
Those in `loader`, `reader` and `side_file` speak of a whole file load, those in `run` of a whole
run of the two SQS loops, however their steps interleave.

`app/` carries the decisions out with threads, files, signals and the SQS client, and decides
itself only when to wait for what. The engine and the program's settings come in through
`app/host.rs`.

Not proved but taken from outside: what `std::str::from_utf8` is documented to do
(`src/text.rs`), and that the members `serde_json` finds in a text depend on the text alone
(`src/redrive.rs`).
