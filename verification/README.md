# organic_chess

An evolutionary chess trainer: a pool of neural-network players, each described
by a genome of bytes, plays games, is rated, and the best players breed the
next generation by point mutation.

- `src/` is the verified library (Verus): piece values and board material
  (`game`), bit-field extraction, the genome format and its mutation and
  storage (`player::brain`), the network input and move selection
  (`player::agent`), pool breeding and exact game scores (`training`).
- `app/` is the command-line program: the floating-point forward pass,
  ratings, threads and file access.
- `tests/` exercises the library with the chess engine and random generator linked.
