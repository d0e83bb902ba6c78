# v5_core

A library for talking to VEX V5 robot brains, verified with Verus, and the `robot`
command-line tool built on it.

## Layout

- `src/` — the verified library.
  - `bytes`, `text`, `buffer`: little-endian numbers, decimal text, reading answers.
  - `checksum`: CRC-16/XMODEM of frames and the CRC-32 of uploads.
  - `connection`: request frames, response checks, negative acknowledgements, the
    response header search; `serial`, `bluetooth` and `daemon` hold the decisions of
    each kind of connection.
  - `brain`, `packet`: the brain's commands, as functions and as values.
  - `serial`: the direct serial protocol of the first V5 tools.
  - `upload`, `package`: chunking a transfer, the files of a program slot, its
    configuration, package names, compression and the compression cache.
  - `terminal`: routing the user program's COBS frames.
  - `plugin`: the command plugins and the competition commands.
- `tests/` — tests of the library.
- `app/` — the `robot` tool: argument parsing, serial, Bluetooth and TCP plumbing, files.
