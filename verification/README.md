# hascan

The explorer indexer of the Hacash fullnode, as a Verus-verified library.

`src/` holds the indexer's logic with its contracts and proofs:

- `setting`, `codec`: the settings snapshot and its binary format (encode,
  decode, the round trip and the refusal of trailing bytes).
- `active`: chain activity sections of 2000 blocks, newest first, at most 25.
- `ranking`: the three balance rankings, highest first, at most 200 entries.
- `transfer`, `index`: what a chain action records, and the rows it writes.
- `scan`, `scaner`, `config`: block continuity, per-block counters, catch-up
  batches and the indexer state.
- `database`, `query`: the SQLite schema, checkpoint and snapshot rows, the
  startup reconciliation, and the explorer's page queries.
- `server`, `text`: paging, filters, SQL text, the route table and the
  answers read from the snapshot.

`app/` is the program around it: configuration, files, threads, the
fullnode's scanner and HTTP interfaces, JSON answers and the float fields.
