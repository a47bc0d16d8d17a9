# himalaya-tui

A terminal email client's decisions, verified with Verus.

- `src/` is the library: every function in it carries a contract that
  Verus proves. It holds the configuration layout and lookups, the
  reading of `server` fields, startup planning, signatures, themes,
  listing order and paging, JMAP mailbox resolution and authorization
  values, and the wizard's rules (input shapes, account names, secrets,
  discovered services).
- `app/` is the program around it: command-line parsing, the TOML
  files, prompts and the terminal library's types. It hands the library
  plain values and takes plain values back.
- `tests/` runs the library on concrete values.

The outside crates the library calls (`url`, `base64`, `mail-parser`,
`chrono`, and `io-imap`'s string types) and the few std
functions it relies on without a vstd specification sit behind small
trusted wrappers whose doc comments say what is assumed of them.
