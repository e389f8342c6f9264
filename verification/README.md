# multisig_plain

A plain multi owner wallet whose behaviour is stated and proved with Verus.

- `src/wallet.rs`: the wallet and its messages.
- `src/message.rs`: messages as values, and the one entry point that refuses what may not be sent.
- `src/model.rs`: the state of a wallet and what each message does to it.
- `src/preservation.rs`: every message keeps the invariant of the wallet.
- `src/laws.rs`: what holds across messages.
- `src/stash.rs`: a store with stable ids.
- `src/types.rs`, `src/env.rs`: accounts, transactions, calls, events and the message context.
- `app/`: the wallet as a contract on a chain.
