# sentinel_agent

The SentinelRS edge agent: it collects system and plugin metrics, numbers
them into batches, keeps them in an append-only write-ahead log and sends
them, signed, to the server, retrying until the server answers.

- `src/` is the library, verified with Verus: the log's record format and
  bookkeeping (recovery, acknowledgement, compaction), batch numbering, retry
  and send decisions, recovery of the agent's state, configuration rules,
  metric naming, plugin discovery and host-call bookkeeping, the command
  line, and the key stores. Calls into `crc32fast`, `hmac`/`sha2`,
  `base64`, `flate2`, `aes-gcm` and `rand` sit behind small trusted wrappers
  whose contracts are documented where they are declared.
- `app/` is the program around it: files, directories, the clock, the
  network (`reqwest`, `axum`), the machine's figures (`sysinfo`), WASM
  execution (`wasmtime`) and the tokio tasks that tie them together.
- `tests/` exercises the library from outside.
