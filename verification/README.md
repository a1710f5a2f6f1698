# composer_control

A control plane for a text composer. A helper process inserts text into the draft of a
conversation, follows what becomes of that text, and may correct it once the message was handed
over. The library decides; the host that embeds it owns the screen, the socket, the clock and the
server.

What the library promises is stated in the contracts of its functions and proved by Verus:

- a message is handed over at most once, and only if its draft is exactly the draft that was seen;
- text is only inserted into the draft that was captured;
- what became of a message that may have been handed over is never guessed;
- a correction that is asked for again is retried under the same identity, with the same text;
- a rollback changes nothing outside its thread.

## Layout

- `src/text.rs`, `src/ids.rs`, `src/digest.rs`, `src/ledger.rs`, `src/fence.rs`: UTF-8 texts,
  identifiers, digests, keyed tables, and the fences that guard submits.
- `src/diff.rs`, `src/hunks.rs`, `src/correction.rs`, `src/rebase.rs`: differences between texts,
  the wording of a correction, and how leased ranges follow an edited draft.
- `src/wire.rs`, `src/receipt.rs`, `src/lease.rs`, `src/submission.rs`, `src/target.rs`: what is
  said over the wire, what is held of a text, and what is asked of a composer.
- `src/control.rs`, `src/commands.rs`, `src/events.rs`, `src/settle.rs`, `src/lifecycle.rs`,
  `src/direct_send.rs`, `src/requests.rs`: the control plane and its steps.
- `src/turn.rs`, `src/pending.rs`, `src/widget.rs`, `src/routing.rs`, `src/dispatch.rs`,
  `src/interactive.rs`, `src/enqueue.rs`, `src/replay.rs`: user turns, submissions in flight, and
  the routing of threads.
- `src/laws.rs`, `src/send_laws.rs`, `src/trace_laws.rs`: what holds across operations, and over
  any sequence of them.
- `app/`: the socket, the wire format, deadlines and calls to a server, in ordinary Rust.
