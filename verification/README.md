# xdown

The decisions of a downloader that shares one file among several connections, verified with
Verus, and the program around them.

- `src/ranges.rs`: how a file is cut into one byte range per connection.
- `src/board.rs`, `src/table.rs`: where each connection is and where it stops; which one is
  slowest, how its range is split, and how the board is saved and taken up again.
- `src/process.rs`: one connection, step by step.
- `src/complete.rs`: when the connections together have stored the whole file, and what keeps
  them from it.
- `src/task.rs`, `src/single.rs`: one download, from the first reply of the server on.
- `src/config.rs`, `src/client.rs`, `src/headers.rs`: the options, the header that follows from
  them, and how the HTTP client is set up.
- `src/codec.rs`, `src/names.rs`, `src/text.rs`, `src/number.rs`: text, names and numbers.
- `app/`: the command line, the network, files and signals.

`app/` needs the crates `rquest` and `rquest-util` beside those in `Cargo.toml`.
