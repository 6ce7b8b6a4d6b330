use vstd::prelude::*;

use crate::cli::PrimeArgs;
use crate::error::MailError;
use crate::report::{Outcome, Report};

verus! {

/// The agent-facing workflow manual (its prelude; the command reference that follows it
/// is generated from the command-line definitions).
pub const MANUAL: &'static str = r#"# AgentMail workflow

Use AgentMail to communicate with another local coding-agent session. It is asynchronous: send a complete request or result, then continue with work that does not depend on the reply.

## When to send mail

- Send a bounded request, handoff, decision, blocker, or result to a specific agent.
- Include enough context for the recipient to act without reading your conversation.
- Keep durable state in the repository, an issue, or a commit. AgentMail is not a durable record.
- Do not send secrets. Mail is local plain text without authentication or encryption.

## Find a recipient

Recipients can be session IDs, canonical agent names, or agent slugs.

If you need to understand Agent ID or discover other agents, run:

```bash
agent-id prime
```

## Send

Use a specific subject and an actionable body. Always prefer `--json` in agent workflows so parallel sends remain self-describing:

```bash
agent-mail send --to RECIPIENT \
  --subject "Inspect parser boundary" \
  --body "Find the failing input, identify the owning function, and send the evidence." \
  --json
```

For longer bodies, use a file or stdin; keep `--json`:

```bash
agent-mail send --to RECIPIENT --subject "Handoff" --body-file findings.txt --json
printf '%s\n' "The fix is ready for review." | agent-mail send --to RECIPIENT --json
```

`send` prints a bare message ID by default for human compatibility. With `--json`, it prints a stable receipt containing `id`, `recipient`, `sender`, `subject`, `timestamp`, `mailbox`, and `state`. The recipient is the resolved Agent ID slug when available, or the standalone recipient identifier when Agent ID is unavailable. Save the message ID when you need to reply in-thread or confirm the message state.

The OMP extension supplies your current session identity through `AGENT_MAIL_ID`. Normally omit `--from`; use it only to override the sender explicitly.

## Read and reply

An inbox notification includes the message ID. You can also list unread headers without changing their state:

```bash
agent-mail scan --to RECIPIENT --json
agent-mail scan --all --json
```

To see which inbox a recipient resolves to, without creating it:

```bash
agent-mail addr RECIPIENT --json
```

Read a message by ID:

```bash
agent-mail read MSGID
```

Reading marks unread mail as read. Use `--peek` only when the message must remain unread.

When replying, send to the `Reply-To` header when present; otherwise send to `From`. Preserve the original message ID:

```bash
agent-mail send --to SENDER \
  --in-reply-to MSGID \
  --subject "re: Inspect parser boundary" \
  --body "The failing case is empty input; parse_header owns the check."
```

## Confirm or discard

Check a sent message without sending a bare acknowledgement:

```bash
agent-mail receipt MSGID --json
```

Receipts report `unread`, `read`, or `discarded`. An unknown ID means agent-mail cannot find the message; it may never have been delivered or may have been removed.

Soft-delete a message only when retaining it in the active inbox is not useful:

```bash
agent-mail discard MSGID
```

## Boundaries

AgentMail works only between sessions sharing the same machine, filesystem, and mail root. The default root is temporary and may be cleared on reboot. Put lasting conclusions in the shared work product before relying on a message handoff.

## Exact command syntax

Use command help for flags and accepted values:

```bash
agent-mail <command> --help
```
"#;

/// What `prime` returns: the manual, with or without the command reference.
pub open spec fn prime_post(args: PrimeArgs, res: Result<Outcome, MailError>) -> bool {
    res matches Ok(out) && out.effects@.len() == 0 && out.report == (Report::Manual {
        prelude: args.prelude,
    }) && !out.json
}

/// Asks for the workflow manual.
pub fn execute(args: &PrimeArgs) -> (res: Result<Outcome, MailError>)
    ensures
        prime_post(*args, res),
{
    Ok(Outcome { report: Report::Manual { prelude: args.prelude }, effects: Vec::new(), json: false })
}

} // verus!
