# shogitest

A runner for shogi engine tournaments and engine tests (game pairs,
pentanomial statistics, a sequential probability ratio test), whose decision
logic is written and proved in Verus.

## Layout

- `src/` — the verified library.
  - `text.rs`: integer and float-literal grammars, splitting and trimming.
  - `shogi.rs`: colours, USI moves (reading and writing them), game outcomes,
    and the game as the runner follows it.
  - `tc.rs`: time controls, engine clocks and the clock arguments of `go`.
  - `engine.rs`: reading engine output (`info`, `bestmove`, the `usi`
    handshake) and cutting the read buffer into lines.
  - `cli.rs`, `args.rs`: the command line, engine options, CPU lists.
  - `runner.rs`: adjudication and the commands of the ponder protocol.
  - `match_flow.rs`: one match as a state machine: what to send to the
    engines next and what each answer does to the game.
  - `tournament/`: the round-robin schedule and the tallies of results.
  - `pgn.rs`: the text of each game in the record file.
  - `book.rs`: the positions of an opening book file, in order or shuffled.
- `app/` — the program around it: engine processes, threads, printing and
  the floating-point statistics.
- `tests/` — tests of the library.
