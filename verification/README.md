# agent-mail

Local, asynchronous mail between coding-agent sessions. Each recipient has a Maildir
inbox under one mail root (`/tmp/agent-mail` unless `AGENT_MAIL_ROOT` says otherwise);
`send`, `scan`, `addr`, `read`, `discard`, `receipt` and `prime` work on those inboxes
with ordinary files only.

## Layout

- `src/` is the library, written in Verus. It decides everything the commands do, from
  plain values: which mailbox a recipient resolves to, what a message looks like, which
  messages are unread and in what order, what a receipt reports, and which files move
  where. Its contracts state those results exactly, and `src/laws.rs` proves the
  properties that hold across commands (a sent message is unread and listed, reading marks
  it read, `--peek` changes nothing, discarding keeps the read state inside `.Trash`, every
  header that `send` writes is read back as written).
- `app/` is the command-line program around it: argument parsing, the environment, the
  optional `agent-id` identity tool, directory listings, writing and moving files, and
  JSON output.
- `tests/` runs the library on concrete mail roots held in memory.
