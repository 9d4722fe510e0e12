# chrysanthemum

Moderation filters for chat messages and reactions, written in Verus.

- `src/pattern.rs` — compiled regular expressions (`regex`) and confusable
  skeletons (`unicode-security`), reached only through small trusted
  functions whose results are named by uninterpreted specification functions.
- `src/text.rs` — decimal formatting and string joining for verdict messages.
- `src/model.rs`, `src/config.rs` — what the filters read of messages and
  reactions, and the filter configuration.
- `src/filter.rs` — allow/deny lists and channel/role scoping.
- `src/globals.rs` — the built-in patterns (zalgo, invites, links, spoilers,
  emoji, custom emoji, mentions).
- `src/message.rs`, `src/reaction.rs` — message and reaction rules; each rule's
  verdict is a specification function and the code is proved to compute it.
- `src/spam.rs` — per-user spam limits over a sliding window.
- `src/laws.rs` — properties of the filters as a whole, proved.
- `app/` — conversion from gateway types, the shared pattern cell and the
  asynchronous spam-history bookkeeping.
