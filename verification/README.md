# envcounter

Named counters and UUID pools served by a small daemon (`envcounterd`) over a
Unix socket, with a command-line client (`envcounter`).

- `src/` is the verified library: the pools (`pool`), the request and
  response types (`protocol`), the set of named pools (`state`), the request
  handler with its specification (`server`), the client's command-to-request
  mapping (`cli`), the table printout of listings (`table`) and the laws that
  tie several requests together (`laws`).
- `app/` is the program around it: socket I/O with tokio, JSON with serde,
  the state file on disk, and clap's command line. Run under the name
  `envcounterd` it is the daemon; otherwise it is the client.
