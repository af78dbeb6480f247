# aws_mls

Parts of Messaging Layer Security, written and proved in Verus:

- `src/group/proposal_filter/` applies the proposals of a commit. Proposals that are not
  valid make the commit fail or are dropped, as a strategy decides. Whatever has to be
  asked of others (identity providers, validators, the ratchet tree) is asked step by
  step: each step says what to ask, and `resume` takes the answer. `outcome.rs` says what
  a commit leads to for every way in which its questions may be answered; the steps are
  proved to lead there, and `asked.rs` says what is asked next. The files whose names end
  in `laws` state what holds of every commit.
- `src/group/message_signature.rs` writes and reads what authenticates a message, and says
  what of a message is signed. Byte vectors go through the `tls_codec` crate, in `src/tls.rs`.
- `src/identity/basic.rs` is an identity provider for basic credentials.
- `src/bench_utils/` puts groups together to measure with.

`tests/` runs the library on concrete values. `app/` drives it asynchronously, and holds
what needs readers, writers or generated keys.
